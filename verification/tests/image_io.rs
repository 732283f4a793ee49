use rmlx_server::image_io::{
    base64_decode, base64_encode, check_content_length, detect_kind, load_image, ImageStep,
    HTTP_MAX_BYTES,
};

// Minimal 1×1 transparent PNG, for inline tests.
const TINY_PNG_B64: &str =
    "iVBORw0KGgoAAAANSUhEUgAAAAEAAAABCAYAAAAfFcSJAAAADUlEQVR42mNkYPhfDwAChwGA60e6kgAAAABJRU5ErkJggg==";

fn tiny_png_bytes() -> Vec<u8> {
    base64_decode(TINY_PNG_B64).unwrap()
}

fn decoded(source: &str) -> Result<Vec<u8>, String> {
    match load_image(source, false) {
        ImageStep::Decoded(r) => r,
        other => panic!("expected an inline source, got {other:?}"),
    }
}

#[test]
fn data_uri_png() {
    let uri = format!("data:image/png;base64,{TINY_PNG_B64}");
    let bytes = decoded(&uri).unwrap();
    assert_eq!(bytes, tiny_png_bytes());
    assert_eq!(&bytes[..8], b"\x89PNG\r\n\x1a\n");
}

#[test]
fn data_uri_no_comma_rejected() {
    assert!(decoded("data:image/png;base64").is_err());
}

#[test]
fn data_uri_non_base64_rejected() {
    assert!(decoded("data:image/png,hello").is_err());
}

#[test]
fn raw_base64_roundtrip() {
    // "foo" → "Zm9v"
    let bytes = decoded("Zm9v").unwrap();
    assert_eq!(bytes, b"foo");
}

#[test]
fn raw_base64_whitespace_tolerated() {
    // spaces / newlines inside base64 are stripped
    let bytes = decoded("Zm 9v\n").unwrap();
    assert_eq!(bytes, b"foo");
}

#[test]
fn file_path_missing_returns_err() {
    // A path is never taken for base64, whether or not the file exists.
    match load_image("/no/such/file.png", false) {
        ImageStep::ReadFile(p) => assert_eq!(p, "/no/such/file.png"),
        other => panic!("expected a file, got {other:?}"),
    }
}

#[test]
fn url_oversize_content_length_rejected() {
    let fake_cl = format!("{}", HTTP_MAX_BYTES + 1);
    let msg = check_content_length(Some(fake_cl.as_bytes())).unwrap_err();
    assert!(
        msg.contains("too large"),
        "error should mention 'too large': {msg}"
    );
    assert_eq!(
        msg,
        "image response too large: Content-Length 52428801 > 52428800 bytes"
    );
    assert!(check_content_length(Some(b"52428800")).is_ok());
    assert!(check_content_length(Some(b"many")).is_ok());
    assert!(check_content_length(None).is_ok());
}

#[test]
fn sources_are_told_apart() {
    assert_eq!(detect_kind(" https://a/b.png", false), "url");
    assert_eq!(detect_kind("http://a/b.png", false), "url");
    assert_eq!(detect_kind("data:image/png;base64,AA", false), "data_uri");
    assert_eq!(detect_kind("./a.png", false), "file");
    assert_eq!(detect_kind("a.png", true), "file");
    assert_eq!(detect_kind("Zm9v", false), "base64");
}

#[test]
fn steps_name_what_to_read() {
    assert!(matches!(load_image("http://a", false), ImageStep::Fetch(u) if u == "http://a"));
    match load_image(" ~/pics/a.png ", false) {
        ImageStep::ReadHomeFile { relative, literal } => {
            assert_eq!(relative, "pics/a.png");
            assert_eq!(literal, "~/pics/a.png");
        }
        other => panic!("expected a home file, got {other:?}"),
    }
    assert!(matches!(load_image("pic.png", true), ImageStep::ReadFile(p) if p == "pic.png"));
}

#[test]
fn rejections_say_why() {
    assert_eq!(
        decoded("data:image/png;base64").unwrap_err(),
        "malformed data URI (no comma)"
    );
    assert_eq!(
        decoded("data:image/png,hello").unwrap_err(),
        "only base64 data URIs are supported"
    );
    assert_eq!(
        decoded("data:;base64,a*").unwrap_err(),
        "data URI base64 decode: invalid base64 char '*'"
    );
    assert_eq!(
        decoded("!").unwrap_err(),
        "base64 decode: invalid base64 char '!' (not a data URI or readable path)"
    );
    assert_eq!(base64_decode("").unwrap_err(), "empty base64 payload");
    assert_eq!(base64_decode("====").unwrap_err(), "empty base64 payload");
    assert_eq!(base64_decode("A").unwrap_err(), "empty base64 payload");
    assert_eq!(
        base64_decode("é").unwrap_err(),
        "invalid base64 char 'Ã'"
    );
    assert_eq!(
        base64_decode("'").unwrap_err(),
        "invalid base64 char '\\''"
    );
}

#[test]
fn base64_round_trip() {
    let data: Vec<u8> = (0..=255).collect();
    for n in 1..data.len() {
        let text = base64_encode(&data[..n]);
        assert_eq!(text.len(), n.div_ceil(3) * 4);
        assert_eq!(base64_decode(&text).unwrap(), &data[..n]);
    }
    assert_eq!(base64_encode(b"foo"), "Zm9v");
    assert_eq!(base64_encode(b"fo"), "Zm8=");
    assert_eq!(base64_encode(b"f"), "Zg==");
    assert_eq!(base64_encode(&[0xfb, 0xff]), "+/8=");
}

#[test]
fn base64_reads_back_without_its_padding() {
    let bytes = vec![1u8, 2, 3, 4];
    let text = base64_encode(&bytes);
    assert_eq!(text, "AQIDBA==");
    assert_eq!(base64_decode("AQIDBA"), Ok(bytes.clone()));
    assert_eq!(base64_decode(" AQ\nID=BA\t"), Ok(bytes));
}
