//! The filter server's HTTP framing: how a request line is routed, how the
//! declared body length is read from the headers, and how a JSON reply is framed.

use vstd::prelude::*;
use crate::text::{
    contains_text, starts_with_text, text_contains, text_starts_with, decimal, append_decimal,
    trim, trimmed, parse_usize, parse_decimal_usize, decimal_reads_back, all_digits,
    is_ascii_digit, is_white_space, trim_start, trim_end,
};

verus! {

/// The endpoint a request is dispatched to.
#[derive(Debug, Clone, Copy, PartialEq, Eq, Structural)]
pub enum Route {
    /// A CORS preflight (`OPTIONS`).
    Preflight,
    /// The full constitutional check (POST to the full-check path).
    GateFull,
    /// `GET /health`.
    Health,
    /// The legacy thermodynamic check (POST).
    Gate,
    /// `POST /ocr/scale`.
    OcrScale,
    /// `POST /ocr/tape`.
    OcrTape,
    /// `POST /ocr/date`.
    OcrDate,
    /// `POST /ocr/temp`.
    OcrTemp,
    /// `POST /ocr/mix`.
    OcrMix,
    /// `POST /ocr/bag`.
    OcrBag,
    /// Anything else.
    NotFound,
}

/// The route of a request line: the method is read from the line's start and
/// the endpoint from the paths the line mentions, the full check taking
/// precedence over the legacy one.
pub open spec fn route_of(line: Seq<char>) -> Route {
    let is_get = starts_with_text(line, "GET"@);
    let is_post = starts_with_text(line, "POST"@);
    let is_options = starts_with_text(line, "OPTIONS"@);
    let gate_full = contains_text(line, "/gate/full"@);
    if is_options {
        Route::Preflight
    } else if is_post && gate_full {
        Route::GateFull
    } else if is_get && contains_text(line, "/health"@) {
        Route::Health
    } else if is_post && !gate_full && contains_text(line, "/gate"@) {
        Route::Gate
    } else if is_post && contains_text(line, "/ocr/scale"@) {
        Route::OcrScale
    } else if is_post && contains_text(line, "/ocr/tape"@) {
        Route::OcrTape
    } else if is_post && contains_text(line, "/ocr/date"@) {
        Route::OcrDate
    } else if is_post && contains_text(line, "/ocr/temp"@) {
        Route::OcrTemp
    } else if is_post && contains_text(line, "/ocr/mix"@) {
        Route::OcrMix
    } else if is_post && contains_text(line, "/ocr/bag"@) {
        Route::OcrBag
    } else {
        Route::NotFound
    }
}

/// Routes a request line.
pub fn classify_request(line: &str) -> (r: Route)
    ensures
        r == route_of(line@),
{
    let is_get = text_starts_with(line, "GET");
    let is_post = text_starts_with(line, "POST");
    let is_options = text_starts_with(line, "OPTIONS");
    let gate_full = text_contains(line, "/gate/full");
    if is_options {
        Route::Preflight
    } else if is_post && gate_full {
        Route::GateFull
    } else if is_get && text_contains(line, "/health") {
        Route::Health
    } else if is_post && !gate_full && text_contains(line, "/gate") {
        Route::Gate
    } else if is_post && text_contains(line, "/ocr/scale") {
        Route::OcrScale
    } else if is_post && text_contains(line, "/ocr/tape") {
        Route::OcrTape
    } else if is_post && text_contains(line, "/ocr/date") {
        Route::OcrDate
    } else if is_post && text_contains(line, "/ocr/temp") {
        Route::OcrTemp
    } else if is_post && text_contains(line, "/ocr/mix") {
        Route::OcrMix
    } else if is_post && text_contains(line, "/ocr/bag") {
        Route::OcrBag
    } else {
        Route::NotFound
    }
}

/// Whether the body of a request is read: for `POST` and `OPTIONS` requests
/// that declare a non-empty body.
pub open spec fn body_expected(line: Seq<char>, content_length: nat) -> bool {
    (starts_with_text(line, "POST"@) || starts_with_text(line, "OPTIONS"@)) && content_length > 0
}

pub fn reads_body(line: &str, content_length: usize) -> (b: bool)
    ensures
        b == body_expected(line@, content_length as nat),
{
    (text_starts_with(line, "POST") || text_starts_with(line, "OPTIONS")) && content_length > 0
}

/// ASCII lower-casing of one character (other characters are kept).
pub open spec fn ascii_lower(c: char) -> char {
    if 'A' <= c && c <= 'Z' { ((c as u32) + 32) as char } else { c }
}

/// The header line names the body length: its first 15 characters read
/// "content-length:" with ASCII letters compared without regard to case.
pub open spec fn is_length_header(line: Seq<char>) -> bool {
    line.len() >= 15 && forall|i: int| 0 <= i < 15 ==> ascii_lower(#[trigger] line[i]) == "content-length:"@[i]
}

/// The text between the first ':' of a header line and the next ':' (or the end).
pub open spec fn header_field(line: Seq<char>) -> Seq<char> {
    field_after_colon(line.subrange(15, line.len() as int))
}

/// The part of `s` before its first ':'.
pub open spec fn field_after_colon(s: Seq<char>) -> Seq<char>
    decreases s.len(),
{
    if s.len() == 0 {
        s
    } else if s[0] == ':' {
        Seq::empty()
    } else {
        seq![s[0]] + field_after_colon(s.drop_first())
    }
}

/// The body length a header declares: `None` when the line is another
/// header, the parsed value otherwise, and 0 when that value does not parse.
pub open spec fn declared_length(line: Seq<char>) -> Option<usize> {
    if !is_length_header(line) {
        None
    } else {
        match parse_usize(trim(header_field(line))) {
            Some(n) => Some(n),
            None => Some(0usize),
        }
    }
}

proof fn lemma_field(s: Seq<char>, k: int)
    requires
        0 <= k <= s.len(),
        forall|i: int| 0 <= i < k ==> s[i] != ':',
        k == s.len() || s[k] == ':',
    ensures
        field_after_colon(s) == s.subrange(0, k),
    decreases k,
{
    if k > 0 {
        lemma_field(s.drop_first(), k - 1);
        assert(seq![s[0]] + s.drop_first().subrange(0, k - 1) =~= s.subrange(0, k));
    } else {
        assert(s.subrange(0, 0) =~= Seq::<char>::empty());
    }
}

/// Reads the body length a header line declares.
pub fn content_length_header(line: &str) -> (r: Option<usize>)
    ensures
        r == declared_length(line@),
{
    let n = line.unicode_len();
    if n < 15 {
        return None;
    }
    let key = "content-length:";
    proof {
        reveal_strlit("content-length:");
    }
    let mut i: usize = 0;
    while i < 15
        invariant
            n == line@.len(),
            n >= 15,
            key@ == "content-length:"@,
            key@.len() == 15,
            i <= 15,
            forall|k: int| 0 <= k < i ==> ascii_lower(#[trigger] line@[k]) == key@[k],
        decreases 15 - i,
    {
        let c = line.get_char(i);
        let k = key.get_char(i);
        let same = if 'A' <= c && c <= 'Z' { (c as u32) + 32 == (k as u32) } else { c == k };
        if !same {
            return None;
        }
        i = i + 1;
    }
    let rest = line.substring_char(15, n);
    let m = rest.unicode_len();
    let mut k: usize = 0;
    while k < m && rest.get_char(k) != ':'
        invariant
            m == rest@.len(),
            k <= m,
            forall|t: int| 0 <= t < k ==> rest@[t] != ':',
        decreases m - k,
    {
        k = k + 1;
    }
    proof {
        lemma_field(rest@, k as int);
    }
    let field = rest.substring_char(0, k);
    match parse_decimal_usize(trimmed(field)) {
        Some(v) => Some(v),
        None => Some(0),
    }
}

/// The body length declared by a request's headers: the value of the last
/// length header, or 0 when there is none.
pub open spec fn body_length(headers: Seq<String>) -> usize
    decreases headers.len(),
{
    if headers.len() == 0 {
        0
    } else {
        match declared_length(headers.last()@) {
            Some(n) => n,
            None => body_length(headers.drop_last()),
        }
    }
}

pub fn declared_body_length(headers: &Vec<String>) -> (n: usize)
    ensures
        n == body_length(headers@),
{
    let mut n: usize = 0;
    let mut i: usize = 0;
    proof {
        assert(headers@.subrange(0, 0) =~= Seq::<String>::empty());
    }
    while i < headers.len()
        invariant
            i <= headers@.len(),
            n == body_length(headers@.subrange(0, i as int)),
        decreases headers@.len() - i,
    {
        proof {
            assert(headers@.subrange(0, i + 1).drop_last() =~= headers@.subrange(0, i as int));
        }
        match content_length_header(headers[i].as_str()) {
            Some(v) => { n = v; },
            None => {},
        }
        i = i + 1;
    }
    proof {
        assert(headers@.subrange(0, i as int) =~= headers@);
    }
    n
}

/// The reply to a CORS preflight.
pub open spec fn preflight_text() -> Seq<char> {
    "HTTP/1.1 204 No Content\r\nAccess-Control-Allow-Origin: *\r\nAccess-Control-Allow-Methods: POST, GET, OPTIONS\r\nAccess-Control-Allow-Headers: Content-Type\r\nConnection: close\r\n\r\n"@
}

pub fn preflight_response() -> (s: &'static str)
    ensures
        s@ == preflight_text(),
{
    "HTTP/1.1 204 No Content\r\nAccess-Control-Allow-Origin: *\r\nAccess-Control-Allow-Methods: POST, GET, OPTIONS\r\nAccess-Control-Allow-Headers: Content-Type\r\nConnection: close\r\n\r\n"
}

/// A JSON reply with the given status line and body; the declared length is
/// the body's length in UTF-8 bytes.
pub open spec fn response_text(status: Seq<char>, body: Seq<char>) -> Seq<char> {
    "HTTP/1.1 "@ + status
        + "\r\nContent-Type: application/json\r\nAccess-Control-Allow-Origin: *\r\nAccess-Control-Allow-Methods: POST, GET, OPTIONS\r\nAccess-Control-Allow-Headers: Content-Type\r\nContent-Length: "@
        + decimal(vstd::utf8::encode_utf8(body).len()) + "\r\nConnection: close\r\n\r\n"@ + body
}

pub fn http_response(status: &str, body: &str) -> (s: String)
    requires
        vstd::utf8::encode_utf8(body@).len() <= usize::MAX,
    ensures
        s@ == response_text(status@, body@),
{
    let mut s = String::from_str("HTTP/1.1 ");
    s.append(status);
    s.append(
        "\r\nContent-Type: application/json\r\nAccess-Control-Allow-Origin: *\r\nAccess-Control-Allow-Methods: POST, GET, OPTIONS\r\nAccess-Control-Allow-Headers: Content-Type\r\nContent-Length: ",
    );
    append_decimal(&mut s, body.len());
    s.append("\r\nConnection: close\r\n\r\n");
    s.append(body);
    s
}

/// The reply of the health endpoint.
pub open spec fn health_text() -> Seq<char> {
    "{\"status\":\"ok\",\"version\":\"1.1\",\"engine\":\"UMST Gate+OCR\"}"@
}

pub fn health_body() -> (s: String)
    ensures
        s@ == health_text(),
{
    String::from_str("{\"status\":\"ok\",\"version\":\"1.1\",\"engine\":\"UMST Gate+OCR\"}")
}

/// The reply body for an unknown endpoint.
pub open spec fn not_found_text() -> Seq<char> {
    "{\"error\":\"not found\"}"@
}

pub fn not_found_body() -> (s: String)
    ensures
        s@ == not_found_text(),
{
    String::from_str("{\"error\":\"not found\"}")
}

/// The length header a framed reply carries for a body of `n` bytes.
pub open spec fn length_header_line(n: nat) -> Seq<char> {
    "Content-Length: "@ + decimal(n)
}

/// The part of a framed reply before its length header.
pub open spec fn response_head(status: Seq<char>) -> Seq<char> {
    "HTTP/1.1 "@ + status
        + "\r\nContent-Type: application/json\r\nAccess-Control-Allow-Origin: *\r\nAccess-Control-Allow-Methods: POST, GET, OPTIONS\r\nAccess-Control-Allow-Headers: Content-Type\r\n"@
}

/// Every reply the server frames carries, on a line of its own, a length
/// header that the server's own header reader reads back as the body's length
/// in UTF-8 bytes.
pub proof fn framed_length_reads_back(status: Seq<char>, body: Seq<char>)
    requires
        vstd::utf8::encode_utf8(body).len() <= usize::MAX,
    ensures
        response_text(status, body) == response_head(status)
            + length_header_line(vstd::utf8::encode_utf8(body).len())
            + "\r\nConnection: close\r\n\r\n"@ + body,
        declared_length(length_header_line(vstd::utf8::encode_utf8(body).len()))
            == Some(vstd::utf8::encode_utf8(body).len() as usize),
{
    let n = vstd::utf8::encode_utf8(body).len();
    reveal_strlit("\r\nContent-Type: application/json\r\nAccess-Control-Allow-Origin: *\r\nAccess-Control-Allow-Methods: POST, GET, OPTIONS\r\nAccess-Control-Allow-Headers: Content-Type\r\nContent-Length: ");
    reveal_strlit("\r\nContent-Type: application/json\r\nAccess-Control-Allow-Origin: *\r\nAccess-Control-Allow-Methods: POST, GET, OPTIONS\r\nAccess-Control-Allow-Headers: Content-Type\r\n");
    reveal_strlit("Content-Length: ");
    assert(response_text(status, body) =~= response_head(status) + length_header_line(n)
        + "\r\nConnection: close\r\n\r\n"@ + body);
    length_header_reads_back(n);
}

proof fn length_header_reads_back(n: nat)
    requires
        n <= usize::MAX,
    ensures
        declared_length(length_header_line(n)) == Some(n as usize),
{
    reveal_strlit("Content-Length: ");
    reveal_strlit("content-length:");
    let d = decimal(n);
    let line = length_header_line(n);
    decimal_reads_back(n);
    assert(line.len() == 16 + d.len());
    assert forall|i: int| 0 <= i < 15 implies ascii_lower(#[trigger] line[i]) == "content-length:"@[i] by {
        assert(line[i] == "Content-Length: "@[i]);
        if i == 0 { assert('C' as u32 + 32 == 'c' as u32); }
        if i == 8 { assert('L' as u32 + 32 == 'l' as u32); }
    }
    assert(is_length_header(line));
    let rest = line.subrange(15, line.len() as int);
    assert(rest =~= seq![' '] + d);
    assert forall|i: int| 0 <= i < rest.len() implies rest[i] != ':' by {
        if i > 0 {
            assert(rest[i] == d[i - 1]);
            assert(is_ascii_digit(d[i - 1]));
        }
    }
    lemma_field(rest, rest.len() as int);
    assert(rest.subrange(0, rest.len() as int) =~= rest);
    assert(header_field(line) == rest);
    assert(is_white_space(rest[0]));
    assert(rest.drop_first() =~= d);
    assert(is_ascii_digit(d[0]));
    assert(!is_white_space(d[0]));
    assert(trim_start(d) == d);
    assert(trim_start(rest) == d);
    assert(is_ascii_digit(d.last()));
    assert(!is_white_space(d[d.len() - 1]));
    assert(trim_end(d) == d);
    assert(trim(rest) == d);
    assert(d[0] != '+');
    assert(parse_usize(d) == Some(n as usize));
}

} // verus!
