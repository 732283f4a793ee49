use rmlx_server::engine::error::{EngineError, OomPhase};
use rmlx_server::engine::types::{GenerationRequest, GenerationToken, SamplingParams};
use rmlx_server::float32::F32;
use rmlx_server::retry::{
    classify, is_replayable, ReplayAction, ReplayState, RequestPlan, RetryClass,
    DEFAULT_MAX_RETRIES,
};

// ── Classification ───────────────────────────────────────────────────────────

#[test]
fn classify_mlx_is_migratable() {
    let err = EngineError::Mlx("Metal watchdog killed process".to_owned());
    assert_eq!(classify(&err), RetryClass::Migratable);
}

#[test]
fn classify_other_is_migratable() {
    let err = EngineError::Other("task panicked during decode".to_owned());
    assert_eq!(classify(&err), RetryClass::Migratable);
}

#[test]
fn classify_smoke_probe_is_fatal() {
    let err = EngineError::SmokeProbe("NaN logits".to_owned());
    assert_eq!(classify(&err), RetryClass::Fatal);
}

#[test]
fn classify_oom_generation_is_fatal() {
    let err = EngineError::Oom {
        phase: OomPhase::Generation,
        requested_bytes: None,
        peak_alloc_mb: None,
        msg: "out of memory".to_owned(),
    };
    assert_eq!(classify(&err), RetryClass::Fatal);
}

#[test]
fn classify_oom_load_weights_is_fatal() {
    let err = EngineError::Oom {
        phase: OomPhase::LoadWeights,
        requested_bytes: Some(1_000_000),
        peak_alloc_mb: Some(16),
        msg: "weight OOM".to_owned(),
    };
    assert_eq!(classify(&err), RetryClass::Fatal);
}

#[test]
fn classify_oom_kv_cache_is_fatal() {
    let err = EngineError::Oom {
        phase: OomPhase::LoadKvCache,
        requested_bytes: None,
        peak_alloc_mb: None,
        msg: "kv OOM".to_owned(),
    };
    assert_eq!(classify(&err), RetryClass::Fatal);
}

#[test]
fn classify_config_is_fatal() {
    let err = EngineError::Config("missing field".to_owned());
    assert_eq!(classify(&err), RetryClass::Fatal);
}

#[test]
fn classify_loader_is_fatal() {
    let err = EngineError::Loader("safetensors mismatch".to_owned());
    assert_eq!(classify(&err), RetryClass::Fatal);
}

#[test]
fn classify_quant_is_fatal() {
    let err = EngineError::Quant("unsupported quant".to_owned());
    assert_eq!(classify(&err), RetryClass::Fatal);
}

#[test]
fn classify_model_is_fatal() {
    let err = EngineError::Model("arch unknown".to_owned());
    assert_eq!(classify(&err), RetryClass::Fatal);
}

#[test]
fn classify_io_is_fatal() {
    let err = EngineError::Io("file not found".to_owned());
    assert_eq!(classify(&err), RetryClass::Fatal);
}

#[test]
fn classify_speculative_pairing_is_fatal() {
    let err = EngineError::SpeculativePairing {
        reason: "draft model architecture 'Gemma4ForConditionalGeneration' is not a supported \
                 --draft-kind mtp family"
            .to_owned(),
    };
    assert_eq!(classify(&err), RetryClass::Fatal);
}

#[test]
fn classify_kv_ceiling_exceeded_is_fatal() {
    let err = EngineError::KvCeilingExceeded {
        requested: 641,
        ceiling: 640,
    };
    assert_eq!(classify(&err), RetryClass::Fatal);
}

#[test]
fn classify_kv_hard_cap_exceeded_is_fatal() {
    let err = EngineError::KvHardCapExceeded {
        requested: 4097,
        cap: 4096,
    };
    assert_eq!(classify(&err), RetryClass::Fatal);
}

// ── Eligibility ──────────────────────────────────────────────────────────────

fn request(temperature: f32, prompt: Vec<u32>, max_tokens: u32) -> GenerationRequest {
    GenerationRequest {
        model_id: "mock".to_owned(),
        prompt_tokens: prompt,
        max_tokens,
        sampling: SamplingParams {
            temperature: F32 {
                bits: temperature.to_bits(),
            },
            ..SamplingParams::default()
        },
        stop: vec!["END".to_owned()],
        stream: true,
        system: None,
        session_id: None,
        effective_prompt_cache_slots: None,
        tools: None,
        tool_choice: None,
        response_format: None,
        has_constraint: false,
        thinking_budget: None,
        thinking_end_token_id: None,
        enable_thinking: None,
        prompt_think_open: true,
        emit_tool_markers: false,
        thinking_start_token: None,
        thinking_end_token: None,
        kv_quant_override: None,
        max_ctx_override: None,
        images: vec![],
        audio_b64: vec![],
        image_max_tokens: None,
    }
}

fn req_with_temp(temperature: f32) -> GenerationRequest {
    request(temperature, vec![], 100)
}

#[test]
fn is_replayable_all_clear_returns_true() {
    assert!(is_replayable(&req_with_temp(0.0), true));
}

#[test]
fn is_replayable_temperature_positive_returns_false() {
    assert!(!is_replayable(&req_with_temp(0.5), true));
}

#[test]
fn is_replayable_temperature_one_returns_false() {
    assert!(!is_replayable(&req_with_temp(1.0), true));
}

#[test]
fn is_replayable_n_greater_than_one_returns_false() {
    assert!(!is_replayable(&req_with_temp(0.0), false));
}

#[test]
fn is_replayable_guided_decoding_present_returns_false() {
    let mut req = req_with_temp(0.0);
    req.has_constraint = true;
    assert!(!is_replayable(&req, true));
}

#[test]
fn is_replayable_negative_zero_and_smallest_positive() {
    assert!(is_replayable(&req_with_temp(-0.0), true));
    assert!(!is_replayable(&req_with_temp(f32::from_bits(1)), true));
}

#[test]
fn plan_reissues_the_request() {
    let req = request(0.0, vec![1, 2, 3], 16);
    let again = RequestPlan::from_gen_req(&req).build_request();
    assert_eq!(again.model_id, "mock");
    assert_eq!(again.prompt_tokens, vec![1, 2, 3]);
    assert_eq!(again.max_tokens, 16);
    assert_eq!(again.stop, vec!["END".to_owned()]);
    assert!(again.stream);
    assert!(again.prompt_think_open);
    assert!(!again.has_constraint);
    let none = request(0.0, vec![], 0);
    assert_eq!(
        RequestPlan::from_gen_req(&none).build_request().max_tokens,
        1
    );
}

// ── Replay ───────────────────────────────────────────────────────────────────

fn token(token_id: u32) -> GenerationToken {
    GenerationToken {
        token_id,
        piece: format!("t{token_id}"),
        done: false,
        finish_reason: None,
        is_thinking: false,
        logprobs: None,
    }
}

type Item = Result<GenerationToken, EngineError>;

struct Outcome {
    delivered: Vec<u32>,
    error: Option<EngineError>,
    attempts: usize,
}

/// Runs attempts one after the other, as the loop around an engine does.
fn drive(attempt: impl Fn(usize) -> Vec<Item>, max_retries: u32) -> Outcome {
    let mut state = ReplayState::new(max_retries);
    let mut delivered = vec![];
    let mut attempts = 0;
    'attempt: loop {
        let items = attempt(attempts);
        attempts += 1;
        for item in items {
            match state.on_item(item) {
                ReplayAction::Skip => {}
                ReplayAction::Forward(t) => delivered.push(t.token_id),
                ReplayAction::Retry => continue 'attempt,
                ReplayAction::Fail(e) => {
                    return Outcome {
                        delivered,
                        error: Some(e),
                        attempts,
                    }
                }
                ReplayAction::Finish => unreachable!(),
            }
        }
        return match state.on_end() {
            ReplayAction::Finish => Outcome {
                delivered,
                error: None,
                attempts,
            },
            ReplayAction::Fail(e) => Outcome {
                delivered,
                error: Some(e),
                attempts,
            },
            _ => unreachable!(),
        };
    }
}

fn tokens_failing_at(tokens: &[u32], at: Option<usize>) -> Vec<Item> {
    let mut out = vec![];
    for (i, &t) in tokens.iter().enumerate() {
        if at == Some(i) {
            out.push(Err(EngineError::Mlx("Metal watchdog (mock)".to_owned())));
            break;
        }
        out.push(Ok(token(t)));
    }
    out
}

#[test]
fn replay_stream_no_error_emits_all_tokens() {
    let tokens: Vec<u32> = (1..=5).collect();
    let r = drive(|_| tokens_failing_at(&tokens, None), DEFAULT_MAX_RETRIES);
    assert_eq!(r.delivered, tokens);
    assert!(r.error.is_none());
}

#[test]
fn replay_stream_migratable_mid_stream_seamless() {
    let tokens: Vec<u32> = (10..20).collect(); // 10 tokens
    let r = drive(
        |n| tokens_failing_at(&tokens, if n == 0 { Some(4) } else { None }),
        DEFAULT_MAX_RETRIES,
    );
    assert!(r.error.is_none());
    assert_eq!(r.delivered, tokens, "client must see all tokens exactly once");
}

#[test]
fn replay_stream_fatal_error_not_retried() {
    let r = drive(
        |_| vec![Err(EngineError::SmokeProbe("NaN logits".to_owned()))],
        2,
    );
    assert!(r.error.is_some(), "fatal error must be forwarded as-is");
    assert_eq!(r.attempts, 1);
}

#[test]
fn replay_stream_prefix_divergence_aborts() {
    let r = drive(
        |n| {
            let mut items = tokens_failing_at(
                &(0u32..10).collect::<Vec<u32>>(),
                if n == 0 { Some(3) } else { None },
            );
            if n == 1 {
                items[2] = Ok(token(0xDEAD));
            }
            items
        },
        2,
    );
    assert!(r.error.is_some(), "divergence must produce a fatal error");
    assert!(
        !r.delivered.contains(&0xDEAD),
        "diverged token must not be delivered"
    );
    assert_eq!(r.delivered, vec![0, 1, 2]);
}

#[test]
fn replay_divergence_surfaces_real_crash_not_laundered_message() {
    const CRASH_MSG: &str = "reshape: Cannot reshape array of size 0 into shape (1,8,1,32)";
    let r = drive(
        |n| {
            let mut items: Vec<Item> = (0u32..10).map(|t| Ok(token(t))).collect();
            if n == 0 {
                items[3] = Err(EngineError::Mlx(CRASH_MSG.to_owned()));
            } else {
                items[2] = Ok(token(0xDEAD));
            }
            items
        },
        2,
    );
    let e = r.error.expect("a decode crash must reach the client as an error");
    let err = e.message().unwrap();
    assert!(
        err.contains("Cannot reshape array of size 0"),
        "the real decode crash must reach the client, not a laundered message; got: {err}"
    );
    assert!(
        !err.contains("prefix divergence"),
        "the retry envelope must not launder the crash into a synthetic \
         'prefix divergence' message; got: {err}"
    );
}

#[test]
fn replay_stream_underrun_aborts() {
    let tokens: Vec<u32> = (0..10).collect();
    let r = drive(
        |n| {
            if n == 0 {
                tokens_failing_at(&tokens, Some(5))
            } else {
                tokens_failing_at(&tokens[..3], None)
            }
        },
        2,
    );
    assert!(r.error.is_some(), "underrun must produce a fatal error");
    assert_eq!(r.error.unwrap().message(), Some("Metal watchdog (mock)"));
}

#[test]
fn row_count_happy_path_one_attempt() {
    let tokens: Vec<u32> = (1..=5).collect();
    let r = drive(|_| tokens_failing_at(&tokens, None), DEFAULT_MAX_RETRIES);
    assert_eq!(r.attempts, 1, "happy path must call generate exactly once");
}

#[test]
fn row_count_one_retry_two_attempts() {
    let tokens: Vec<u32> = (1..=8).collect();
    let r = drive(
        |n| tokens_failing_at(&tokens, if n == 0 { Some(3) } else { None }),
        DEFAULT_MAX_RETRIES,
    );
    assert_eq!(r.attempts, 2, "1-retry path must call generate exactly twice");
}

#[test]
fn row_count_all_retries_exhausted_three_attempts() {
    let tokens: Vec<u32> = (0..10).collect();
    let r = drive(|_| tokens_failing_at(&tokens, Some(3)), DEFAULT_MAX_RETRIES);
    assert!(
        r.error.is_some(),
        "exhausted retries must produce an error"
    );
    // max_retries=2 → 3 total attempts.
    assert_eq!(
        r.attempts, 3,
        "exhausted-retry path must call generate 3 times"
    );
    assert_eq!(r.delivered, vec![0, 1, 2]);
}
