//! Whole and streamed responses.

use rmlx_server::engine::error::EngineError;
use rmlx_server::engine::types::GenerationToken;
use rmlx_server::float32::F32;
use rmlx_server::json::parse_json;
use rmlx_server::metrics_drainer::MetricKind;
use rmlx_server::openai::errors::ApiErrorCategory;
use rmlx_server::openai::generate::{
    collected_first_token, push_itl, push_ttft, refuse_unchecked_output, streamed_first_token,
    unchecked_output_refusal, BlockingState, ResponseContext, TtftSample,
};
use rmlx_server::openai::metrics::{ItlSample, Measured};
use rmlx_server::openai::response::{
    ChatCompletionChunk, ChatCompletionsResponse, ChatLogprobContent, ParsedToolCall, Usage,
};
use rmlx_server::openai::streaming::{
    final_stop_input, handle_streaming_token, make_role_event, parser_input, stop_input,
    tail_wanted, StopPush, StreamEvent, StreamOptionsSet, StreamState, StreamStep, TokenOutcomes,
    ToolDrain,
};

const CAPACITY: usize = 16;

fn token(piece: &str) -> GenerationToken {
    GenerationToken {
        token_id: 1,
        piece: piece.to_owned(),
        done: false,
        finish_reason: None,
        is_thinking: false,
        logprobs: None,
    }
}

fn thought(piece: &str) -> GenerationToken {
    GenerationToken {
        is_thinking: true,
        ..token(piece)
    }
}

fn last(piece: &str, reason: &str) -> GenerationToken {
    GenerationToken {
        done: true,
        finish_reason: Some(reason.to_owned()),
        ..token(piece)
    }
}

fn call(name: &str) -> ParsedToolCall {
    ParsedToolCall {
        id: format!("call_{name}"),
        name: name.to_owned(),
        arguments: parse_json(r#"{"a":1}"#).unwrap(),
    }
}

// ── Times to the first token ─────────────────────────────────────────────────

/// Collects a stream of items and records its time to the first token.
fn run(
    items: Vec<Result<GenerationToken, EngineError>>,
    model: &str,
    ring: &mut Vec<TtftSample>,
) -> Result<BlockingState, EngineError> {
    let mut state = BlockingState::start(false, false);
    for item in items {
        let tok = item?;
        let before = state.ttft_ms;
        let done = state.on_token(tok, "", 3);
        if let Some(sample) = collected_first_token(before, &state, model) {
            push_ttft(ring, CAPACITY, sample);
        }
        if done {
            break;
        }
    }
    Ok(state)
}

fn fixed(pieces: &[&str]) -> Vec<Result<GenerationToken, EngineError>> {
    let n = pieces.len();
    pieces
        .iter()
        .enumerate()
        .map(|(i, p)| {
            Ok(if i + 1 == n {
                last(p, "stop")
            } else {
                token(p)
            })
        })
        .collect()
}

#[test]
fn blocking_ttft_ring_populated() {
    let mut ring = Vec::new();
    run(fixed(&["hello", " world"]), "test-model", &mut ring).unwrap();
    assert_eq!(ring.len(), 1, "one completed request → one TTFT sample");
    assert_eq!(
        ring[0].model_id, "test-model",
        "TTFT sample must carry the correct model_id"
    );
    assert!(
        ring[0].ttft_ms < 5_000,
        "TTFT must be a plausible wall-clock value"
    );
}

#[test]
fn blocking_ttft_ring_empty_on_engine_error() {
    let mut ring = Vec::new();
    let r = run(
        vec![Err(EngineError::Other("stub engine error".to_owned()))],
        "test-model",
        &mut ring,
    );
    assert!(r.is_err());
    assert_eq!(
        ring.len(),
        0,
        "engine error on first token → no TTFT sample (first token never arrived)"
    );
}

#[test]
fn blocking_ttft_ring_respects_capacity() {
    let mut ring = Vec::new();
    for i in 0..(CAPACITY + 2) {
        let model = format!("model-{i}");
        run(fixed(&["tok"]), &model, &mut ring).unwrap();
    }
    assert_eq!(
        ring.len(),
        CAPACITY,
        "ring must not exceed its capacity after overflow"
    );
    assert!(
        ring.iter().all(|s| s.model_id != "model-0"),
        "model-0 must have been evicted"
    );
    assert!(
        ring.iter().all(|s| s.model_id != "model-1"),
        "model-1 must have been evicted"
    );
}

fn measured(text: &str) -> Measured {
    Measured {
        text: text.to_owned(),
        json: parse_json(text).unwrap(),
    }
}

#[test]
fn latencies_are_kept_like_first_tokens() {
    let mut ring = Vec::new();
    for i in 0..3 {
        push_itl(
            &mut ring,
            2,
            ItlSample {
                model_id: format!("m{i}"),
                p50_ms: measured("1.0"),
                p95_ms: measured("2.0"),
                mean_ms: measured("1.5"),
                step_count: i,
            },
        );
    }
    assert_eq!(ring.len(), 2);
    assert_eq!(ring[0].model_id, "m1");
    assert_eq!(ring[1].step_count, 2);
}

// ── Whole responses ──────────────────────────────────────────────────────────

fn respond(state: BlockingState, json_object_mode: bool) -> ChatCompletionsResponse {
    state.into_response(
        &ResponseContext {
            request_id: "r1",
            model_id: "m",
            created: 77,
            prompt_tokens: 10,
            json_object_mode,
        },
        "call_x".to_owned(),
    )
}

#[test]
fn a_whole_response_is_put_together() {
    let mut ring = Vec::new();
    let state = run(fixed(&["hello", " world"]), "m", &mut ring).unwrap();
    let r = respond(state, false);
    assert_eq!(r.id, "chatcmpl-r1");
    assert_eq!(r.object, "chat.completion");
    assert_eq!(r.created, 77);
    assert_eq!(r.model, "m");
    assert_eq!(r.choices.len(), 1);
    let c = &r.choices[0];
    assert_eq!(c.message.role, "assistant");
    assert_eq!(c.message.content, "hello world");
    assert_eq!(c.message.reasoning_content, None);
    assert!(c.message.tool_calls.is_none());
    assert_eq!(c.finish_reason.as_deref(), Some("stop"));
    assert!(c.logprobs.is_none());
    assert_eq!(
        r.usage,
        Usage {
            prompt_tokens: 10,
            completion_tokens: 2,
            total_tokens: 12
        }
    );
}

#[test]
fn reasoning_goes_to_its_own_channel() {
    let mut s = BlockingState::start(false, false);
    assert!(!s.on_token(thought("why"), "", 1));
    assert!(!s.on_token(token("because"), "", 2));
    assert!(s.on_token(last("", "length"), "", 3));
    assert_eq!(s.ttft_ms, Some(1));
    let r = respond(s, false);
    assert_eq!(
        r.choices[0].message.reasoning_content.as_deref(),
        Some("why")
    );
    assert_eq!(r.choices[0].message.content, "because");
    assert_eq!(r.choices[0].finish_reason.as_deref(), Some("length"));
}

#[test]
fn log_probabilities_are_collected() {
    let lp = ChatLogprobContent {
        token: "a".to_owned(),
        logprob: F32 {
            bits: (-0.5f32).to_bits(),
        },
        bytes: Some(vec![b'a']),
        top_logprobs: vec![],
    };
    let mut s = BlockingState::start(false, false);
    s.on_token(
        GenerationToken {
            logprobs: Some(lp),
            ..token("a")
        },
        "",
        1,
    );
    s.on_token(last("", "stop"), "", 2);
    let r = respond(s, false);
    assert_eq!(
        r.choices[0].logprobs.as_ref().unwrap().content[0].token,
        "a"
    );
}

#[test]
fn the_parser_decides_what_is_text() {
    let mut s = BlockingState::start(true, false);
    s.on_token(thought("<tool"), "mm", 1);
    s.on_token(token("_call>"), "text", 2);
    // Without a piece the parser is not asked.
    s.on_token(token(""), "ignored", 3);
    s.on_token(last("", "stop"), "", 4);
    s.on_parser_finished(" rest", vec![call("f"), call("g")]);
    assert!(s.stop_candidate().is_none());
    s.on_stop(Some(1));
    let r = respond(s, false);
    let m = &r.choices[0].message;
    assert_eq!(m.content, "text rest");
    assert_eq!(m.reasoning_content.as_deref(), Some("mm"));
    let calls = m.tool_calls.as_ref().unwrap();
    assert_eq!(calls.len(), 2);
    assert_eq!(calls[1].index, 1);
    assert_eq!(calls[1].id, "call_g");
    assert_eq!(calls[1].kind, "function");
    assert_eq!(calls[1].function.name, "g");
    assert_eq!(calls[1].function.arguments, r#"{"a":1}"#);
    assert_eq!(r.choices[0].finish_reason.as_deref(), Some("tool_calls"));
}

#[test]
fn a_stop_sequence_cuts_the_text() {
    let mut s = BlockingState::start(false, false);
    s.on_token(token("ab\u{e9}ENDxyz"), "", 1);
    s.on_token(last("", "length"), "", 2);
    assert_eq!(s.stop_candidate(), Some("ab\u{e9}ENDxyz"));
    s.on_stop(Some(3));
    let r = respond(s, false);
    assert_eq!(r.choices[0].message.content, "ab\u{e9}");
    assert_eq!(r.choices[0].finish_reason.as_deref(), Some("stop"));
}

#[test]
fn json_output_loses_its_fence() {
    let mut s = BlockingState::start(false, false);
    s.on_token(last("```json\n{\"a\": 1}\n```", "stop"), "", 1);
    let r = respond(s, true);
    assert_eq!(r.choices[0].message.content, "{\"a\": 1}");
    let mut s = BlockingState::start(false, false);
    s.on_token(last("###", "stop"), "", 1);
    assert_eq!(respond(s, true).choices[0].message.content, "###");
}

#[test]
fn bare_json_output_becomes_a_call() {
    let mut s = BlockingState::start(false, true);
    s.on_token(thought("{\"name\":\"f\",\"arguments\":{\"a\":1}}"), "", 1);
    s.on_token(last("", "stop"), "", 2);
    let r = respond(s, true);
    let m = &r.choices[0].message;
    assert_eq!(m.content, "");
    assert_eq!(m.reasoning_content, None);
    let calls = m.tool_calls.as_ref().unwrap();
    assert_eq!(calls[0].id, "call_x");
    assert_eq!(calls[0].function.name, "f");
    assert_eq!(r.choices[0].finish_reason.as_deref(), Some("tool_calls"));

    let mut s = BlockingState::start(false, true);
    s.on_token(last("no json", "stop"), "", 1);
    let r = respond(s, true);
    assert_eq!(r.choices[0].message.content, "no json");
    assert_eq!(r.choices[0].finish_reason.as_deref(), Some("stop"));
}

#[test]
fn output_that_was_never_checked_is_refused() {
    assert!(refuse_unchecked_output(Some(false)));
    assert!(!refuse_unchecked_output(Some(true)));
    assert!(!refuse_unchecked_output(None));
    let refusal = unchecked_output_refusal(false, Some(false)).unwrap();
    assert_eq!(refusal.reply.status, 503);
    assert_eq!(refusal.category, Some(ApiErrorCategory::Upstream));
    assert_eq!(
        refusal.reply.body.get_str2("error", "message"),
        Some("response_format was not applied to the output")
    );
    assert!(unchecked_output_refusal(true, Some(false)).is_none());
    assert!(unchecked_output_refusal(false, Some(true)).is_none());
    assert!(unchecked_output_refusal(false, None).is_none());
}

#[test]
fn a_first_token_is_recorded_once() {
    let mut state = BlockingState::start(false, false);
    let before = state.ttft_ms;
    assert!(collected_first_token(before, &state, "m").is_none());
    state.on_token(token("a"), "", 7);
    let sample = collected_first_token(before, &state, "m").unwrap();
    assert_eq!((sample.model_id.as_str(), sample.ttft_ms), ("m", 7));
    let before = state.ttft_ms;
    state.on_token(token("b"), "", 9);
    assert!(collected_first_token(before, &state, "m").is_none());
    assert_eq!(state.ttft_ms, Some(7));
}

#[test]
fn a_streamed_first_token_brings_its_event() {
    let first = Some(Ok(token("a")));
    let (sample, event) = streamed_first_token(&first, 7, "m", "now", 64).unwrap();
    assert_eq!((sample.model_id.as_str(), sample.ttft_ms), ("m", 7));
    assert_eq!(event.model_id, "m");
    assert_eq!(event.kv_quant, "none");
    assert_eq!(event.ts_utc, "now");
    assert_eq!(event.ctx_max, 64);
    assert!(matches!(event.kind, MetricKind::TtftMs(7)));
    let failed = Some(Err(EngineError::Other("no".to_owned())));
    assert!(streamed_first_token(&failed, 7, "m", "now", 64).is_none());
    assert!(streamed_first_token(&None, 7, "m", "now", 64).is_none());
}

// ── Streamed responses ───────────────────────────────────────────────────────

fn options() -> StreamOptionsSet {
    StreamOptionsSet {
        has_parser: false,
        json_object_mode: false,
        bare_json_tool_call_mode: false,
        include_usage: false,
        stop_active: false,
    }
}

fn stream(options: StreamOptionsSet) -> StreamState {
    StreamState::start("r1", "m", 77, 10, options)
}

fn nothing() -> TokenOutcomes {
    TokenOutcomes {
        drain: ToolDrain::none(),
        push: StopPush {
            emit: String::new(),
            stopped: false,
        },
        final_drain: ToolDrain::none(),
        final_push: StopPush {
            emit: String::new(),
            stopped: false,
        },
        tail: String::new(),
        call_id: "call_x".to_owned(),
    }
}

fn chunk(e: &StreamEvent) -> &ChatCompletionChunk {
    match e {
        StreamEvent::Chunk(c) => c,
        StreamEvent::Done => panic!("not a chunk"),
    }
}

fn contents(steps: &[StreamStep]) -> String {
    let mut out = String::new();
    for s in steps {
        for e in &s.events {
            for c in &chunk(e).choices {
                if let Some(t) = &c.delta.content {
                    out.push_str(t);
                }
            }
        }
    }
    out
}

#[test]
fn a_stream_opens_with_the_role() {
    let e = make_role_event(&stream(options()));
    let c = chunk(&e);
    assert_eq!(c.id, "chatcmpl-r1");
    assert_eq!(c.object, "chat.completion.chunk");
    assert_eq!(c.created, 77);
    assert_eq!(c.model, "m");
    assert_eq!(c.choices[0].delta.role.as_deref(), Some("assistant"));
    assert_eq!(c.choices[0].delta.content, None);
    assert_eq!(c.choices[0].finish_reason, None);
}

#[test]
fn pieces_become_chunks() {
    let mut s = stream(StreamOptionsSet {
        include_usage: true,
        ..options()
    });
    let a = handle_streaming_token(Ok(thought("hm")), &mut s, nothing());
    assert_eq!(a.events.len(), 1);
    assert_eq!(
        chunk(&a.events[0]).choices[0]
            .delta
            .reasoning_content
            .as_deref(),
        Some("hm")
    );
    let b = handle_streaming_token(Ok(token("hi")), &mut s, nothing());
    assert_eq!(
        chunk(&b.events[0]).choices[0].delta.content.as_deref(),
        Some("hi")
    );
    assert!(b.completed.is_none());
    let c = handle_streaming_token(Ok(last("", "length")), &mut s, nothing());
    let finish = &c.events[c.events.len() - 2];
    assert_eq!(
        chunk(finish).choices[0].finish_reason.as_deref(),
        Some("length")
    );
    let usage = chunk(c.events.last().unwrap());
    assert!(usage.choices.is_empty());
    let expected = Usage {
        prompt_tokens: 10,
        completion_tokens: 3,
        total_tokens: 13,
    };
    assert_eq!(usage.usage, Some(expected));
    assert_eq!(c.completed, Some(expected));
}

#[test]
fn a_failure_ends_the_stream() {
    let mut s = stream(options());
    let r = handle_streaming_token(
        Err(EngineError::Other("x".to_owned())),
        &mut s,
        nothing(),
    );
    assert_eq!(r.events.len(), 1);
    assert!(matches!(r.events[0], StreamEvent::Done));
    assert_eq!(r.failed, Some(ApiErrorCategory::Upstream));
    assert!(r.completed.is_none());
}

#[test]
fn parsed_calls_are_streamed_with_their_index() {
    let mut s = stream(StreamOptionsSet {
        has_parser: true,
        ..options()
    });
    let t = token("<tool_call>");
    assert_eq!(parser_input(&s, &t).as_deref(), Some("<tool_call>"));
    let mut o = nothing();
    o.drain = ToolDrain {
        text: Some("pre".to_owned()),
        calls: vec![call("f"), call("g")],
    };
    let r = handle_streaming_token(Ok(t), &mut s, o);
    assert_eq!(r.events.len(), 3);
    assert_eq!(
        chunk(&r.events[0]).choices[0].delta.content.as_deref(),
        Some("pre")
    );
    let second = chunk(&r.events[2]).choices[0]
        .delta
        .tool_calls
        .as_ref()
        .unwrap();
    assert_eq!(second[0].index, 1);
    assert_eq!(second[0].function.name, "g");
    let r = handle_streaming_token(Ok(last("", "stop")), &mut s, nothing());
    assert_eq!(
        chunk(r.events.last().unwrap()).choices[0]
            .finish_reason
            .as_deref(),
        Some("tool_calls")
    );
}

#[test]
fn a_stop_sequence_silences_the_stream() {
    let mut s = stream(StreamOptionsSet {
        stop_active: true,
        ..options()
    });
    let t = token("abEND");
    assert_eq!(
        stop_input(&s, &t, &ToolDrain::none()).as_deref(),
        Some("abEND")
    );
    let mut o = nothing();
    o.push = StopPush {
        emit: "ab".to_owned(),
        stopped: true,
    };
    let a = handle_streaming_token(Ok(t), &mut s, o);
    assert!(s.stop_hit);
    let t = token("more");
    assert_eq!(stop_input(&s, &t, &ToolDrain::none()), None);
    let b = handle_streaming_token(Ok(t), &mut s, nothing());
    let t = last("", "length");
    assert!(!tail_wanted(&s, &t, &nothing()));
    assert_eq!(final_stop_input(&s, &t, &nothing()), None);
    let c = handle_streaming_token(Ok(t), &mut s, nothing());
    let finish = chunk(c.events.last().unwrap()).choices[0]
        .finish_reason
        .clone();
    assert_eq!(finish.as_deref(), Some("stop"));
    assert_eq!(contents(&[a, b, c]), "ab");
}

#[test]
fn held_back_text_comes_at_the_end() {
    let mut s = stream(StreamOptionsSet {
        stop_active: true,
        ..options()
    });
    let mut o = nothing();
    o.push = StopPush {
        emit: "ab".to_owned(),
        stopped: false,
    };
    let a = handle_streaming_token(Ok(token("abE")), &mut s, o);
    let t = last("", "stop");
    assert!(tail_wanted(&s, &t, &nothing()));
    let mut o = nothing();
    o.tail = "E".to_owned();
    let b = handle_streaming_token(Ok(t), &mut s, o);
    assert_eq!(contents(&[a, b]), "abE");
}

#[test]
fn streamed_json_loses_what_stands_before_it() {
    let mut s = stream(StreamOptionsSet {
        json_object_mode: true,
        ..options()
    });
    let steps = vec![
        handle_streaming_token(Ok(token("```json\n")), &mut s, nothing()),
        handle_streaming_token(Ok(token(" {\"a\"")), &mut s, nothing()),
        handle_streaming_token(Ok(token(":1}")), &mut s, nothing()),
        handle_streaming_token(Ok(last("", "stop")), &mut s, nothing()),
    ];
    assert_eq!(contents(&steps), "{\"a\":1}");
    // However the text is cut, the fence is not shown.
    let text = " ```json\n{\"n\":true}";
    for cut in 1..text.len() - 1 {
        let mut s = stream(StreamOptionsSet {
            json_object_mode: true,
            ..options()
        });
        let steps = vec![
            handle_streaming_token(Ok(token(&text[..cut])), &mut s, nothing()),
            handle_streaming_token(Ok(token(&text[cut..])), &mut s, nothing()),
        ];
        assert_eq!(contents(&steps), "{\"n\":true}", "cut at {cut}");
    }
}

#[test]
fn streamed_bare_json_becomes_a_call() {
    let mut s = stream(StreamOptionsSet {
        bare_json_tool_call_mode: true,
        json_object_mode: true,
        ..options()
    });
    let a = handle_streaming_token(Ok(thought("{\"name\":\"f\",")), &mut s, nothing());
    assert!(a.events.is_empty());
    let b = handle_streaming_token(Ok(last("\"arguments\":{}}", "stop")), &mut s, nothing());
    let calls = chunk(&b.events[0]).choices[0]
        .delta
        .tool_calls
        .as_ref()
        .unwrap();
    assert_eq!(calls[0].id, "call_x");
    assert_eq!(calls[0].function.name, "f");
    assert_eq!(calls[0].function.arguments, "{}");
    assert_eq!(
        chunk(b.events.last().unwrap()).choices[0]
            .finish_reason
            .as_deref(),
        Some("tool_calls")
    );
}

#[test]
fn streamed_and_whole_responses_agree() {
    let pieces = || vec![thought("why "), thought("so"), token("be"), token("cause")];
    let mut whole = BlockingState::start(false, false);
    let mut state = stream(options());
    let mut steps = Vec::new();
    for t in pieces() {
        steps.push(handle_streaming_token(Ok(t), &mut state, nothing()));
    }
    steps.push(handle_streaming_token(
        Ok(last("!", "stop")),
        &mut state,
        nothing(),
    ));
    for t in pieces() {
        whole.on_token(t, "", 1);
    }
    whole.on_token(last("!", "stop"), "", 1);
    let r = respond(whole, false);
    assert_eq!(contents(&steps), r.choices[0].message.content);
    assert_eq!(steps[4].completed, Some(r.usage));
}
