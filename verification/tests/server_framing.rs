use umst_core::encoding::{decode_image, receive_image, upload_outcome, Base64Failure};
use umst_core::http::{
    classify_request, content_length_header, declared_body_length, health_body, http_response,
    not_found_body, preflight_response, reads_body, Route,
};

#[test]
fn routing() {
    assert_eq!(classify_request("POST /gate/full HTTP/1.1"), Route::GateFull);
    assert_eq!(classify_request("POST /gate HTTP/1.1"), Route::Gate);
    assert_eq!(classify_request("GET /health HTTP/1.1"), Route::Health);
    assert_eq!(classify_request("POST /health HTTP/1.1"), Route::NotFound);
    assert_eq!(classify_request("GET /gate HTTP/1.1"), Route::NotFound);
    assert_eq!(classify_request("OPTIONS /gate HTTP/1.1"), Route::Preflight);
    assert_eq!(classify_request("POST /ocr/scale HTTP/1.1"), Route::OcrScale);
    assert_eq!(classify_request("POST /ocr/tape HTTP/1.1"), Route::OcrTape);
    assert_eq!(classify_request("POST /ocr/date HTTP/1.1"), Route::OcrDate);
    assert_eq!(classify_request("POST /ocr/temp HTTP/1.1"), Route::OcrTemp);
    assert_eq!(classify_request("POST /ocr/mix HTTP/1.1"), Route::OcrMix);
    assert_eq!(classify_request("POST /ocr/bag HTTP/1.1"), Route::OcrBag);
    assert_eq!(classify_request(""), Route::NotFound);
    // the legacy gate matches any path mentioning "/gate" that is not the full gate
    assert_eq!(classify_request("POST /ocr/scale?from=/gate HTTP/1.1"), Route::Gate);
}

#[test]
fn body_reading() {
    assert!(reads_body("POST /gate HTTP/1.1", 10));
    assert!(reads_body("OPTIONS / HTTP/1.1", 1));
    assert!(!reads_body("POST /gate HTTP/1.1", 0));
    assert!(!reads_body("GET /health HTTP/1.1", 10));
}

#[test]
fn content_length_headers() {
    assert_eq!(content_length_header("Content-Length: 42"), Some(42));
    assert_eq!(content_length_header("content-length:7"), Some(7));
    assert_eq!(content_length_header("CONTENT-LENGTH:   +19  "), Some(19));
    assert_eq!(content_length_header("Content-Length: abc"), Some(0));
    assert_eq!(content_length_header("Content-Length: 12:34"), Some(12));
    assert_eq!(content_length_header("Content-Length: 99999999999999999999999"), Some(0));
    assert_eq!(content_length_header("Content-Type: application/json"), None);
    assert_eq!(content_length_header("Content-Length"), None);
    let headers = vec![
        "POST /gate HTTP/1.1".to_string(),
        "Content-Length: 5".to_string(),
        "Host: x".to_string(),
        "content-length: 9".to_string(),
    ];
    assert_eq!(declared_body_length(&headers), 9);
    assert_eq!(declared_body_length(&vec!["GET / HTTP/1.1".to_string()]), 0);
}

#[test]
fn response_framing() {
    let r = http_response("200 OK", "{\"a\":\"é\"}");
    assert_eq!(
        r,
        "HTTP/1.1 200 OK\r\nContent-Type: application/json\r\nAccess-Control-Allow-Origin: *\r\nAccess-Control-Allow-Methods: POST, GET, OPTIONS\r\nAccess-Control-Allow-Headers: Content-Type\r\nContent-Length: 10\r\nConnection: close\r\n\r\n{\"a\":\"é\"}"
    );
    assert!(preflight_response().starts_with("HTTP/1.1 204 No Content\r\n"));
    assert!(preflight_response().ends_with("Connection: close\r\n\r\n"));
    assert_eq!(health_body(), r#"{"status":"ok","version":"1.1","engine":"UMST Gate+OCR"}"#);
    assert_eq!(not_found_body(), r#"{"error":"not found"}"#);
}

#[test]
fn base64_uploads() {
    assert_eq!(decode_image("aGVsbG8="), Ok(b"hello".to_vec()));
    assert_eq!(receive_image("aGVsbG8="), Ok(5));
    assert_eq!(receive_image(""), Ok(0));
    assert_eq!(receive_image("aGVsbG8"), Err("Invalid padding".to_string()));
    assert_eq!(receive_image("aGV*bG8="), Err("Invalid byte 42, offset 3.".to_string()));
    assert_eq!(receive_image("a"), Err("Encoded text cannot have a 6-bit remainder.".to_string()));
    assert_eq!(
        upload_outcome(Err(Base64Failure::InvalidLastSymbol { offset: 7, byte: 66 })),
        Err("Invalid last symbol 66, offset 7.".to_string())
    );
    assert_eq!(upload_outcome(Ok(vec![1, 2, 3])), Ok(3));
    assert_eq!(receive_image("aGVsbG9="), Err("Invalid last symbol 57, offset 6.".to_string()));
}

#[test]
fn framed_length_reads_back_as_body_length() {
    for body in ["", "{}", "{\"value\":2.48,\"unit\":\"°C\"}", &"x".repeat(12345)] {
        let framed = http_response("200 OK", body);
        let line = framed
            .split("\r\n")
            .find(|l| l.starts_with("Content-Length:"))
            .unwrap();
        assert_eq!(content_length_header(line), Some(body.len()));
    }
}
