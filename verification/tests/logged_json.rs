use rmlx_server::header::header_text;
use rmlx_server::logged_json::{body_snippet, is_json_content_type, SNIPPET_LIMIT};

#[test]
fn snippet_truncates_to_limit() {
    // Body larger than SNIPPET_LIMIT.
    let big: Vec<u8> = b"x".repeat(SNIPPET_LIMIT + 100);
    let snippet = body_snippet(&big);
    assert_eq!(snippet.len(), SNIPPET_LIMIT);
}

#[test]
fn snippet_handles_short_body() {
    let small = b"hello";
    let snippet = body_snippet(small);
    assert_eq!(snippet, "hello");
}

#[test]
fn snippet_handles_non_utf8_bytes() {
    // Lossy UTF-8 conversion must not panic on arbitrary bytes.
    let bad: Vec<u8> = vec![0xFF, 0xFE, 0x00, 0x01];
    let snippet = body_snippet(&bad);
    // Just verify it didn't panic and produced something non-empty.
    assert!(!snippet.is_empty());
    assert_eq!(snippet, "\u{fffd}\u{fffd}\u{0}\u{1}");
}

#[test]
fn is_json_content_type_accepts_application_json() {
    assert!(is_json_content_type(Some(b"application/json")));
}

#[test]
fn is_json_content_type_accepts_with_params() {
    assert!(is_json_content_type(Some(
        b"application/json; charset=utf-8"
    )));
}

#[test]
fn is_json_content_type_accepts_plus_json() {
    assert!(is_json_content_type(Some(b"application/cloudevents+json")));
}

#[test]
fn is_json_content_type_rejects_text_json() {
    assert!(!is_json_content_type(Some(b"text/json")));
}

#[test]
fn is_json_content_type_rejects_absent() {
    assert!(!is_json_content_type(None));
}

#[test]
fn is_json_content_type_rejects_what_is_no_text() {
    assert!(!is_json_content_type(Some(b"application/json\xff")));
    assert!(!is_json_content_type(Some(b"application/xml")));
    assert!(!is_json_content_type(Some(b"")));
    assert!(is_json_content_type(Some(b"  application/json  ;a=b")));
}

#[test]
fn header_text_takes_visible_ascii() {
    assert_eq!(header_text(b"a b\tc"), Some("a b\tc".to_owned()));
    assert_eq!(header_text(b"a\nb"), None);
    assert_eq!(header_text(b"\x7f"), None);
    assert_eq!(header_text(b""), Some(String::new()));
}
