//! Base64 payloads of the label-reading endpoints: decoding with the standard
//! alphabet (through the `base64` crate) and the messages of its failures.

use vstd::prelude::*;
use crate::text::{decimal, append_decimal};

verus! {

/// Why a base64 payload could not be decoded.
#[derive(Debug, Clone, Copy, PartialEq, Eq, Structural)]
pub enum Base64Failure {
    /// A byte outside the alphabet, at the given offset.
    InvalidByte { offset: usize, byte: u8 },
    /// The input length leaves a 6-bit remainder.
    InvalidLength,
    /// The last symbol carries bits that would be discarded.
    InvalidLastSymbol { offset: usize, byte: u8 },
    /// Padding absent, misplaced or non-canonical.
    InvalidPadding,
}

/// What standard-alphabet, padded base64 decoding of `input` yields.
pub uninterp spec fn base64_standard_decode(input: Seq<u8>) -> Result<Seq<u8>, Base64Failure>;

/// `base64::engine::general_purpose::STANDARD.decode`: the decoded bytes, or
/// the kind of failure with its position; both are exactly what the crate's
/// decoder yields for this input.
#[verifier::external_body]
fn standard_decode(input: &[u8]) -> (r: Result<Vec<u8>, Base64Failure>)
    ensures
        match r {
            Ok(v) => base64_standard_decode(input@) == Ok::<Seq<u8>, Base64Failure>(v@),
            Err(f) => base64_standard_decode(input@) == Err::<Seq<u8>, Base64Failure>(f),
        },
{
    match base64::Engine::decode(&base64::engine::general_purpose::STANDARD, input) {
        Ok(v) => Ok(v),
        Err(base64::DecodeError::InvalidByte(offset, byte)) => Err(Base64Failure::InvalidByte { offset, byte }),
        Err(base64::DecodeError::InvalidLength) => Err(Base64Failure::InvalidLength),
        Err(base64::DecodeError::InvalidLastSymbol(offset, byte)) => Err(Base64Failure::InvalidLastSymbol { offset, byte }),
        Err(base64::DecodeError::InvalidPadding) => Err(Base64Failure::InvalidPadding),
    }
}

/// The message of a decoding failure, as the decoder reports it.
pub open spec fn failure_text(f: Base64Failure) -> Seq<char> {
    match f {
        Base64Failure::InvalidByte { offset, byte } =>
            "Invalid byte "@ + decimal(byte as nat) + ", offset "@ + decimal(offset as nat) + "."@,
        Base64Failure::InvalidLength => "Encoded text cannot have a 6-bit remainder."@,
        Base64Failure::InvalidLastSymbol { offset, byte } =>
            "Invalid last symbol "@ + decimal(byte as nat) + ", offset "@ + decimal(offset as nat) + "."@,
        Base64Failure::InvalidPadding => "Invalid padding"@,
    }
}

impl Base64Failure {
    pub fn message(&self) -> (s: String)
        ensures
            s@ == failure_text(*self),
    {
        match *self {
            Base64Failure::InvalidByte { offset, byte } => {
                let mut s = String::from_str("Invalid byte ");
                append_decimal(&mut s, byte as usize);
                s.append(", offset ");
                append_decimal(&mut s, offset);
                s.append(".");
                s
            },
            Base64Failure::InvalidLength => String::from_str("Encoded text cannot have a 6-bit remainder."),
            Base64Failure::InvalidLastSymbol { offset, byte } => {
                let mut s = String::from_str("Invalid last symbol ");
                append_decimal(&mut s, byte as usize);
                s.append(", offset ");
                append_decimal(&mut s, offset);
                s.append(".");
                s
            },
            Base64Failure::InvalidPadding => String::from_str("Invalid padding"),
        }
    }
}

/// The outcome of an image upload once decoded: the number of image bytes
/// received, or the decoder's message.
pub fn upload_outcome(decoded: Result<Vec<u8>, Base64Failure>) -> (r: Result<usize, String>)
    ensures
        match decoded {
            Ok(v) => r == Ok::<usize, String>(v@.len() as usize),
            Err(f) => r matches Err(m) && m@ == failure_text(f),
        },
{
    match decoded {
        Ok(v) => Ok(v.len()),
        Err(f) => Err(f.message()),
    }
}

/// Decodes an uploaded base64 image.
pub fn decode_image(image: &str) -> (r: Result<Vec<u8>, Base64Failure>)
    ensures
        match r {
            Ok(v) => base64_standard_decode(vstd::utf8::encode_utf8(image@)) == Ok::<Seq<u8>, Base64Failure>(v@),
            Err(f) => base64_standard_decode(vstd::utf8::encode_utf8(image@)) == Err::<Seq<u8>, Base64Failure>(f),
        },
{
    standard_decode(image.as_bytes())
}

/// Receives an uploaded base64 image: how many bytes it decodes to, or why it
/// could not be decoded.
pub fn receive_image(image: &str) -> (r: Result<usize, String>)
    ensures
        match base64_standard_decode(vstd::utf8::encode_utf8(image@)) {
            Ok(v) => r == Ok::<usize, String>(v.len() as usize),
            Err(f) => r matches Err(m) && m@ == failure_text(f),
        },
{
    upload_outcome(decode_image(image))
}

} // verus!
