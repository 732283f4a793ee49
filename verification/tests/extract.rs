//! JSON in text, response forms, text and number helpers.

use rmlx_server::float32::F32;
use rmlx_server::json::{parse_json, render_json, Json};
use rmlx_server::openai::json_extract::extract_top_level_json_value;
use rmlx_server::openai::response::{
    resolve_logprobs, select_finish_reason, to_response_tool_call, ParsedToolCall, TokenLogprobs,
};
use rmlx_server::text::{
    parse_unsigned, text_contains, text_ends_with, text_eq, text_starts_with, text_trim, u64_text,
};

fn extract(s: &str) -> Option<String> {
    extract_top_level_json_value(s)
}

#[test]
fn values_of_every_kind_are_extracted() {
    assert_eq!(extract(r#"{"a": {"b": 1}} tail"#).as_deref(), Some(r#"{"a": {"b": 1}}"#));
    assert_eq!(extract("[1, [2], 3] x").as_deref(), Some("[1, [2], 3]"));
    assert_eq!(extract(r#""a\"b" c"#).as_deref(), Some(r#""a\"b""#));
    assert_eq!(extract("true").as_deref(), Some("true"));
    assert_eq!(extract("false").as_deref(), Some("false"));
    assert_eq!(extract("null").as_deref(), Some("null"));
    assert_eq!(extract("-12.5e+3,").as_deref(), Some("-12.5e+3"));
    assert_eq!(extract("42").as_deref(), Some("42"));
}

#[test]
fn fences_and_space_are_skipped() {
    assert_eq!(extract("```json\n{\"a\":1}\n```").as_deref(), Some("{\"a\":1}"));
    assert_eq!(extract(" \n```\n[1]```").as_deref(), Some("[1]"));
    assert_eq!(extract("```json\nnull").as_deref(), Some("null"));
    assert_eq!(extract("  {}").as_deref(), Some("{}"));
}

#[test]
fn braces_inside_strings_do_not_count() {
    assert_eq!(
        extract(r#"{"a":"}\"{"} x"#).as_deref(),
        Some(r#"{"a":"}\"{"}"#)
    );
    assert_eq!(extract(r#"["]"] x"#).as_deref(), Some(r#"["]"]"#));
}

#[test]
fn incomplete_values_are_passed_over() {
    assert_eq!(extract("").as_deref(), None);
    assert_eq!(extract("```json\n").as_deref(), None);
    assert_eq!(extract("- item").as_deref(), None);
    assert_eq!(extract("{\"a\": tru").as_deref(), Some("\"a\""));
    assert_eq!(extract("{ 7").as_deref(), Some("7"));
    assert_eq!(extract("tru fals nul").as_deref(), None);
    assert_eq!(extract("h\u{e9} {\"\u{e9}\":1}").as_deref(), Some("{\"\u{e9}\":1}"));
}

#[test]
fn extraction_of_an_extract_changes_nothing() {
    for s in ["{\"a\":1} x", "x [1,2]", "```json\n\"s\"", "-5 6"] {
        let once = extract(s).unwrap();
        assert_eq!(extract(&once), Some(once.clone()));
    }
}

#[test]
fn finish_reasons() {
    assert_eq!(
        select_finish_reason(true, Some("stop".to_owned())).as_deref(),
        Some("tool_calls")
    );
    assert_eq!(
        select_finish_reason(false, Some("length".to_owned())).as_deref(),
        Some("length")
    );
    assert_eq!(select_finish_reason(false, None), None);
}

#[test]
fn response_form_of_a_call() {
    let c = to_response_tool_call(
        &ParsedToolCall {
            id: "i".to_owned(),
            name: "f".to_owned(),
            arguments: parse_json("{ \"a\" : [1, 2] }").unwrap(),
        },
        3,
    );
    assert_eq!(c.index, 3);
    assert_eq!(c.id, "i");
    assert_eq!(c.kind, "function");
    assert_eq!(c.function.name, "f");
    assert_eq!(c.function.arguments, r#"{"a":[1,2]}"#);
}

fn tokenizer() -> tokenizers::Tokenizer {
    r#"{
        "version": "1.0", "truncation": null, "padding": null, "added_tokens": [],
        "normalizer": null, "pre_tokenizer": null, "post_processor": null, "decoder": null,
        "model": {"type": "WordLevel", "vocab": {"[UNK]": 0, "hé": 1}, "unk_token": "[UNK]"}
    }"#
    .parse()
    .unwrap()
}

#[test]
fn alternatives_are_shown_by_their_text() {
    let v = |x: f32| F32 { bits: x.to_bits() };
    let lp = TokenLogprobs {
        token_logprob: v(-0.25),
        top: vec![(1, v(-0.25)), (9, v(-3.0))],
    };
    let c = resolve_logprobs(&lp, "ab", &tokenizer());
    assert_eq!(c.token, "ab");
    assert_eq!(c.logprob, v(-0.25));
    assert_eq!(c.bytes, Some(vec![b'a', b'b']));
    assert_eq!(c.top_logprobs.len(), 2);
    assert_eq!(c.top_logprobs[0].token, "h\u{e9}");
    assert_eq!(c.top_logprobs[0].bytes, Some(vec![b'h', 0xc3, 0xa9]));
    assert_eq!(c.top_logprobs[1].token, "<unk:9>");
    assert_eq!(c.top_logprobs[1].logprob, v(-3.0));
}

// ── JSON ─────────────────────────────────────────────────────────────────────

#[test]
fn json_is_read_and_written() {
    let j = parse_json(r#" {"b": [1, 2.5, null], "a": "x\n", "c": true} "#).unwrap();
    assert_eq!(
        render_json(&j),
        r#"{"a":"x\n","b":[1,2.5,null],"c":true}"#
    );
    assert_eq!(j.get_str("a"), Some("x\n"));
    assert!(j.get("d").is_none());
    assert!(parse_json("{} x").is_none());
    assert!(parse_json("").is_none());
    assert_eq!(render_json(&j.duplicate()), render_json(&j));
    let built = Json::object()
        .with("n", Json::number(u64::MAX))
        .with("o", Json::opt_number(None))
        .with("s", Json::opt_string(&Some("\"".to_owned())))
        .with("l", Json::array(vec![Json::Bool(false)]));
    assert_eq!(
        render_json(&built),
        r#"{"l":[false],"n":18446744073709551615,"o":null,"s":"\""}"#
    );
    assert!(built.is_object());
    let nested = parse_json(r#"{"a":{"b":"c"}}"#).unwrap();
    assert_eq!(nested.get_str2("a", "b"), Some("c"));
    assert_eq!(nested.get_str2("a", "x"), None);
    assert_eq!(Json::string("t").as_str(), Some("t"));
    assert_eq!(Json::Null.as_str(), None);
}

// ── Text ─────────────────────────────────────────────────────────────────────

#[test]
fn texts_are_compared_and_searched() {
    assert!(text_eq("a\u{e9}", "a\u{e9}"));
    assert!(!text_eq("a", "ab"));
    assert!(text_contains("xaby", "ab"));
    assert!(text_contains("x", ""));
    assert!(!text_contains("xa", "ab"));
    assert!(text_starts_with("abc", "ab"));
    assert!(!text_starts_with("a", "ab"));
    assert!(text_ends_with("abc", "bc"));
    assert!(!text_ends_with("c", "bc"));
    assert_eq!(text_trim(" \u{3000}a b\t\n"), "a b");
    assert_eq!(text_trim(" "), "");
}

#[test]
fn numbers_are_read_and_written() {
    for n in [0u64, 7, 10, 4096, u64::MAX] {
        assert_eq!(u64_text(n), format!("{n}"));
        assert_eq!(parse_unsigned(&format!("{n}"), u64::MAX), Some(n));
    }
    assert_eq!(parse_unsigned("+5", 9), Some(5));
    assert_eq!(parse_unsigned("10", 9), None);
    assert_eq!(parse_unsigned("18446744073709551616", u64::MAX), None);
    assert_eq!(parse_unsigned("", 9), None);
    assert_eq!(parse_unsigned("+", 9), None);
    assert_eq!(parse_unsigned("1a", 99), None);
}

#[test]
fn numbers_are_ordered_by_their_bits() {
    let v = |x: f32| F32 { bits: x.to_bits() };
    let values = [-2.0f32, -0.0, 0.0, 1.0e-40, 0.5, 2.0, f32::INFINITY];
    for a in values {
        for b in values {
            assert_eq!(v(a).is_at_most(v(b)), a <= b, "{a} {b}");
        }
        assert!(!v(a).is_nan());
        assert_eq!(v(a).is_zero(), a == 0.0);
        assert_eq!(v(a).is_finite(), a.is_finite());
    }
    assert!(v(f32::NAN).is_nan());
    assert!(!v(f32::NAN).is_at_most(v(1.0)));
    assert!(!v(1.0).is_at_most(v(f32::NAN)));
    assert!(v(1.0).is_within(v(0.0), v(1.0)));
}
