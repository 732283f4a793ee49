//! What a request must keep to.

use rmlx_server::float32::F32;
use rmlx_server::json::{parse_json, render_json};
use rmlx_server::openai::errors::BiasEntry;
use rmlx_server::openai::request::{
    ChatCompletionsRequest, ChatMessage, MessageContent, RequestToolCall, RequestToolCallFunction,
};
use rmlx_server::openai::validation::{
    request_measures, validate_delimiters, validate_request, Measure,
};

fn f(v: f32) -> F32 {
    F32 { bits: v.to_bits() }
}

fn user(text: &str) -> ChatMessage {
    ChatMessage {
        role: "user".to_owned(),
        content: Some(MessageContent::Text(text.to_owned())),
        tool_calls: None,
        tool_call_id: None,
        name: None,
    }
}

fn request() -> ChatCompletionsRequest {
    ChatCompletionsRequest {
        model: "m".to_owned(),
        messages: vec![user("hi")],
        stream: false,
        temperature: None,
        max_tokens: None,
        top_p: None,
        seed: None,
        stop: None,
        tools: None,
        tool_choice: None,
        response_format: None,
        top_k: None,
        min_p: None,
        repetition_penalty: None,
        frequency_penalty: None,
        presence_penalty: None,
        logit_bias: None,
        stream_options: None,
        logprobs: None,
        top_logprobs: None,
        echo: None,
        enable_thinking: None,
        thinking_budget: None,
        thinking_start_token: None,
        thinking_end_token: None,
        kv_quant: None,
        max_ctx: None,
        image_max_tokens: None,
        extra: vec![],
    }
}

fn refusal(req: &ChatCompletionsRequest) -> String {
    let reply = validate_request(req, &None).unwrap_err();
    assert_eq!(reply.status, 400);
    let error = reply.body.get("error").unwrap();
    assert_eq!(error.get_str("type"), Some("invalid_request_error"));
    error.get_str("message").unwrap().to_owned()
}

#[test]
fn a_plain_request_is_valid() {
    let v = validate_request(&request(), &None).unwrap();
    assert!(v.logit_bias.is_empty());
    assert_eq!(v.top_logprobs_k, 0);
}

#[test]
fn the_ends_of_each_range_are_valid() {
    let mut r = request();
    r.temperature = Some(f(2.0));
    r.top_p = Some(f(0.0));
    r.min_p = Some(f(1.0));
    r.repetition_penalty = Some(f(0.001));
    r.frequency_penalty = Some(f(-2.0));
    r.presence_penalty = Some(f(2.0));
    r.max_tokens = Some(1);
    r.max_ctx = Some(1);
    r.image_max_tokens = Some(1);
    r.logprobs = Some(true);
    r.top_logprobs = Some(20);
    r.echo = Some(false);
    assert_eq!(validate_request(&r, &None).unwrap().top_logprobs_k, 20);
    r.temperature = Some(f(-0.0));
    assert!(validate_request(&r, &None).is_ok());
}

#[test]
fn each_broken_rule_has_its_message() {
    let mut r = request();
    r.extra = vec!["x".to_owned(), "functions".to_owned()];
    assert_eq!(
        refusal(&r),
        "field `functions` is not supported (Stage 2+); remove it from your request"
    );

    for bad in [-0.1, 2.1, f32::NAN] {
        let mut r = request();
        r.temperature = Some(f(bad));
        assert_eq!(refusal(&r), "temperature must be in [0.0, 2.0]");
    }
    let mut r = request();
    r.top_p = Some(f(1.5));
    assert_eq!(refusal(&r), "top_p must be in [0.0, 1.0]");
    let mut r = request();
    r.min_p = Some(f(-1.0));
    assert_eq!(refusal(&r), "min_p must be in [0.0, 1.0]");
    for bad in [0.0, -0.0, -3.0] {
        let mut r = request();
        r.repetition_penalty = Some(f(bad));
        assert_eq!(refusal(&r), "repetition_penalty must be > 0.0");
    }
    let mut r = request();
    r.frequency_penalty = Some(f(2.5));
    assert_eq!(refusal(&r), "frequency_penalty must be in [-2.0, 2.0]");
    let mut r = request();
    r.presence_penalty = Some(f(-2.5));
    assert_eq!(refusal(&r), "presence_penalty must be in [-2.0, 2.0]");
    let mut r = request();
    r.max_ctx = Some(0);
    assert_eq!(refusal(&r), "max_ctx must be > 0");
    let mut r = request();
    r.image_max_tokens = Some(0);
    assert_eq!(refusal(&r), "image_max_tokens must be > 0");
    let mut r = request();
    r.top_logprobs = Some(1);
    assert_eq!(
        refusal(&r),
        "top_logprobs requires logprobs to be set to true"
    );
    let mut r = request();
    r.logprobs = Some(true);
    r.top_logprobs = Some(21);
    assert_eq!(refusal(&r), "top_logprobs must be in [0, 20]");
    let mut r = request();
    r.echo = Some(true);
    assert!(refusal(&r).starts_with("echo=true is not yet wired into the chat endpoint"));
    let mut r = request();
    r.logit_bias = Some(vec![BiasEntry {
        key: "x".to_owned(),
        bias: f(0.0),
    }]);
    assert_eq!(
        refusal(&r),
        "logit_bias key \"x\" is not a valid token id (u32)"
    );
    let mut r = request();
    r.max_tokens = Some(0);
    assert_eq!(refusal(&r), "max_tokens must be > 0");
    let mut r = request();
    r.messages = vec![];
    assert_eq!(refusal(&r), "messages must not be empty");
}

#[test]
fn a_refused_codec_is_named() {
    let reply = validate_request(&request(), &Some("unknown codec".to_owned())).unwrap_err();
    assert_eq!(
        render_json(&reply.body),
        r#"{"error":{"message":"kv_quant: unknown codec","type":"invalid_request_error"}}"#
    );
}

#[test]
fn the_first_broken_rule_decides() {
    let mut r = request();
    r.temperature = Some(f(9.0));
    r.max_tokens = Some(0);
    r.messages = vec![];
    assert_eq!(refusal(&r), "temperature must be in [0.0, 2.0]");
    r.temperature = None;
    assert_eq!(refusal(&r), "max_tokens must be > 0");
}

#[test]
fn width_of_reported_alternatives() {
    let mut r = request();
    r.logprobs = Some(true);
    assert_eq!(validate_request(&r, &None).unwrap().top_logprobs_k, 1);
    r.top_logprobs = Some(0);
    assert_eq!(validate_request(&r, &None).unwrap().top_logprobs_k, 1);
    r.top_logprobs = Some(5);
    assert_eq!(validate_request(&r, &None).unwrap().top_logprobs_k, 5);
    r.top_logprobs = None;
    r.logprobs = Some(false);
    assert_eq!(validate_request(&r, &None).unwrap().top_logprobs_k, 0);
}

#[test]
fn blank_delimiters_are_refused() {
    let some = |s: &str| Some(s.to_owned());
    assert!(validate_delimiters(&None, &None).is_ok());
    assert!(validate_delimiters(&some("<a>"), &some("</a>")).is_ok());
    let r = validate_delimiters(&some(" \n"), &some("")).unwrap_err();
    assert!(render_json(&r.body)
        .contains("`thinking_start_token` must be a non-empty, non-whitespace delimiter string"));
    let r = validate_delimiters(&None, &some("\u{3000}")).unwrap_err();
    assert_eq!(r.status, 400);
    assert!(render_json(&r.body).contains("`thinking_end_token` must be"));
}

#[test]
fn quantities_come_in_the_order_of_their_bounds() {
    let mut first = user("h\u{e9}llo");
    first.tool_calls = Some(vec![RequestToolCall {
        id: None,
        kind: None,
        function: RequestToolCallFunction {
            name: "f".to_owned(),
            arguments: "{}".to_owned(),
        },
    }]);
    let mut second = user("");
    second.content = Some(MessageContent::Parts(vec![
        parse_json(r#"{"type":"text","text":"abc"}"#).unwrap(),
        parse_json(r#"{"type":"input_audio","input_audio":{"data":"QUJDRA=="}}"#).unwrap(),
    ]));
    let mut third = user("");
    third.content = None;
    let ms = vec![first, second, third];
    assert_eq!(
        request_measures(&ms, Some(4)),
        vec![
            Measure::Messages(3),
            Measure::Tools(4),
            Measure::ToolCalls {
                count: 1,
                message: 0
            },
            Measure::ContentParts {
                count: 2,
                message: 1
            },
            Measure::InputAudioBytes { bytes: 6, part: 1 },
            Measure::TextBytes(9),
        ]
    );
    assert_eq!(
        request_measures(&vec![user("ab")], None),
        vec![Measure::Messages(1), Measure::TextBytes(2)]
    );
}
