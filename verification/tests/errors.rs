//! Replies to failures, sampling parameters, request ids and time limits.

use std::time::Duration;

use rmlx_server::engine::error::{EngineError, OomPhase};
use rmlx_server::float32::F32;
use rmlx_server::json::render_json;
use rmlx_server::openai::errors::{
    compute_effective_timeout, enforce_max_tokens_cap, engine_error_category,
    engine_error_response, oom_response, parse_logit_bias, resolve_request_id,
    resolve_sampling_params, sanitised_request_id, timeout_reply, ApiErrorCategory,
    ApiErrorCounters, BiasEntry, GenerationConfig, ProcMem, SamplingSource,
};

fn f(v: f32) -> F32 {
    F32 { bits: v.to_bits() }
}

const MB: u64 = 1_048_576;

fn memory() -> ProcMem {
    ProcMem {
        rss_bytes: 7 * MB + 5,
        phys_footprint_bytes: 9 * MB,
        compressed_bytes: MB - 1,
    }
}

#[test]
fn oom_while_loading_is_worth_a_retry() {
    let r = oom_response(
        OomPhase::LoadWeights,
        Some(1024),
        None,
        "no room",
        Some(memory()),
    );
    assert_eq!(r.status, 507);
    assert_eq!(r.headers.len(), 1);
    assert_eq!(r.headers[0].name, "Retry-After");
    assert_eq!(r.headers[0].value, "5");
    assert_eq!(
        render_json(&r.body),
        r#"{"error":{"compressed_mb":0,"message":"no room","peak_alloc_mb":null,"phys_footprint_mb":9,"process_rss_mb":7,"requested_bytes":1024,"type":"oom_during_load"}}"#
    );
    let r = oom_response(OomPhase::LoadKvCache, None, Some(3), "no room", None);
    assert_eq!(r.status, 507);
    assert_eq!(r.headers.len(), 1);
    assert_eq!(
        render_json(&r.body),
        r#"{"error":{"compressed_mb":null,"message":"no room","peak_alloc_mb":3,"phys_footprint_mb":null,"process_rss_mb":null,"requested_bytes":null,"type":"oom_kv_cache"}}"#
    );
}

#[test]
fn oom_in_a_stream_is_not_worth_a_retry() {
    let r = oom_response(OomPhase::Generation, None, None, "gone", None);
    assert_eq!(r.status, 503);
    assert!(r.headers.is_empty());
    assert!(render_json(&r.body).contains("oom_mid_stream"));
}

#[test]
fn engine_failures_by_variant() {
    let nan = EngineError::SmokeProbe("layer 3".to_owned());
    let r = engine_error_response(&nan, "smoke", None);
    assert_eq!(r.status, 500);
    assert_eq!(
        render_json(&r.body),
        r#"{"error":{"message":"NaN logits during generation: layer 3","type":"internal_error"}}"#
    );
    assert_eq!(engine_error_category(&nan), ApiErrorCategory::Internal);

    let oom = EngineError::Oom {
        phase: OomPhase::Generation,
        requested_bytes: None,
        peak_alloc_mb: None,
        msg: "m".to_owned(),
    };
    assert_eq!(engine_error_response(&oom, "x", None).status, 503);
    assert_eq!(engine_error_category(&oom), ApiErrorCategory::OomMidStream);
    let load = EngineError::Oom {
        phase: OomPhase::LoadWeights,
        requested_bytes: None,
        peak_alloc_mb: None,
        msg: "m".to_owned(),
    };
    assert_eq!(engine_error_category(&load), ApiErrorCategory::OomLoad);
    let kv = EngineError::Oom {
        phase: OomPhase::LoadKvCache,
        requested_bytes: None,
        peak_alloc_mb: None,
        msg: "m".to_owned(),
    };
    assert_eq!(engine_error_category(&kv), ApiErrorCategory::OomKvCache);

    let other = EngineError::Other("broken".to_owned());
    let r = engine_error_response(&other, "other: broken", None);
    assert_eq!(r.status, 503);
    assert_eq!(
        render_json(&r.body),
        r#"{"error":{"message":"other: broken","type":"service_unavailable"}}"#
    );
    assert_eq!(engine_error_category(&other), ApiErrorCategory::Upstream);
}

#[test]
fn counters_count_by_category() {
    let mut c = ApiErrorCounters::new();
    c.increment(ApiErrorCategory::Timeout);
    c.increment(ApiErrorCategory::Timeout);
    c.increment(ApiErrorCategory::AdmissionSla503);
    assert_eq!(c.count(ApiErrorCategory::Timeout), 2);
    assert_eq!(c.count(ApiErrorCategory::BadRequest), 0);
    let all = c.all();
    assert_eq!(all.len(), 11);
    assert_eq!(all[6], (ApiErrorCategory::Timeout, 2));
    assert_eq!(all[10], (ApiErrorCategory::AdmissionSla503, 1));
}

// ── Sampling ─────────────────────────────────────────────────────────────────

fn defaults() -> GenerationConfig {
    GenerationConfig {
        temperature: Some(f(0.6)),
        top_p: Some(f(0.95)),
        top_k: Some(20),
        repetition_penalty: Some(f(1.1)),
        max_new_tokens: None,
    }
}

#[test]
fn request_values_win() {
    let (s, temp, nucleus) = resolve_sampling_params(
        Some(f(0.1)),
        Some(f(0.2)),
        Some(3),
        Some(f(0.4)),
        Some(f(1.5)),
        Some(f(0.6)),
        Some(f(-0.7)),
        vec![(5, f(1.0))],
        Some(42),
        Some(defaults()),
        Some(f(0.9)),
    );
    assert_eq!(s.temperature, f(0.1));
    assert_eq!(s.top_p, f(0.2));
    assert_eq!(s.top_k, 3);
    assert_eq!(s.min_p, f(0.4));
    assert_eq!(s.repetition_penalty, f(1.5));
    assert_eq!(s.frequency_penalty, f(0.6));
    assert_eq!(s.presence_penalty, f(-0.7));
    assert_eq!(s.logit_bias, vec![(5, f(1.0))]);
    assert_eq!(s.seed, Some(42));
    assert_eq!(s.top_logprobs_k, 0);
    assert_eq!(temp.as_str(), "request");
    assert_eq!(nucleus.as_str(), "request");
}

#[test]
fn server_temperature_precedes_the_model() {
    let (s, temp, nucleus) = resolve_sampling_params(
        None,
        None,
        None,
        None,
        None,
        None,
        None,
        vec![],
        None,
        Some(defaults()),
        Some(f(0.9)),
    );
    assert_eq!(s.temperature, f(0.9));
    assert_eq!(temp.as_str(), "server_default");
    assert_eq!(s.top_p, f(0.95));
    assert_eq!(nucleus.as_str(), "model_defaults");
    assert_eq!(s.top_k, 20);
    assert_eq!(s.repetition_penalty, f(1.1));
    assert_eq!(s.min_p, f(0.0));
}

#[test]
fn fixed_values_come_last() {
    let (s, temp, nucleus) = resolve_sampling_params(
        None,
        None,
        None,
        None,
        None,
        None,
        None,
        vec![],
        None,
        None,
        None,
    );
    assert_eq!(s.temperature, f(1.0));
    assert_eq!(s.top_p, f(1.0));
    assert_eq!(s.top_k, 0);
    assert_eq!(s.repetition_penalty, f(1.0));
    assert_eq!(temp, SamplingSource::HardCoded);
    assert_eq!(nucleus.as_str(), "hard_coded");
}

// ── Logit bias ───────────────────────────────────────────────────────────────

fn bias(key: &str, v: f32) -> BiasEntry {
    BiasEntry {
        key: key.to_owned(),
        bias: f(v),
    }
}

#[test]
fn biases_are_read_by_token_id() {
    assert_eq!(parse_logit_bias(&None).unwrap(), vec![]);
    let got = parse_logit_bias(&Some(vec![
        bias("0", -100.0),
        bias("+7", 2.5),
        bias("4294967295", 0.0),
    ]));
    assert_eq!(
        got.unwrap(),
        vec![(0, f(-100.0)), (7, f(2.5)), (u32::MAX, f(0.0))]
    );
}

#[test]
fn a_bias_that_is_no_token_id_is_refused() {
    let e = parse_logit_bias(&Some(vec![bias("1", 0.0), bias("a\"b", 0.0)])).unwrap_err();
    assert_eq!(e, "logit_bias key \"a\\\"b\" is not a valid token id (u32)");
    assert!(parse_logit_bias(&Some(vec![bias("4294967296", 0.0)])).is_err());
    assert!(parse_logit_bias(&Some(vec![bias("", 0.0)])).is_err());
    assert!(parse_logit_bias(&Some(vec![bias("-1", 0.0)])).is_err());
}

#[test]
fn a_bias_that_is_not_finite_is_refused() {
    let e = parse_logit_bias(&Some(vec![bias("1", f32::NAN)])).unwrap_err();
    assert_eq!(e, "logit_bias[1] = NaN is not finite");
    let e = parse_logit_bias(&Some(vec![bias("1", f32::INFINITY)])).unwrap_err();
    assert_eq!(e, "logit_bias[1] = inf is not finite");
    let e = parse_logit_bias(&Some(vec![bias("1", f32::NEG_INFINITY)])).unwrap_err();
    assert_eq!(e, "logit_bias[1] = -inf is not finite");
}

// ── The cap, ids and time limits ─────────────────────────────────────────────

#[test]
fn the_cap_refuses_and_does_not_clamp() {
    assert_eq!(enforce_max_tokens_cap(10, 10).unwrap(), 10);
    let r = enforce_max_tokens_cap(11, 10).unwrap_err();
    assert_eq!(r.status, 400);
    assert_eq!(
        render_json(&r.body),
        r#"{"error":{"message":"max_tokens 11 exceeds server cap 10","type":"invalid_request_error"}}"#
    );
    assert_eq!(enforce_max_tokens_cap(u32::MAX, u32::MAX).unwrap(), u32::MAX);
}

#[test]
fn a_usable_request_id_is_kept() {
    assert_eq!(resolve_request_id(Some(b"abc-123")), "abc-123");
    assert_eq!(resolve_request_id(Some(b"  abc \t ")), "abc");
    let long = vec![b'x'; 200];
    assert_eq!(resolve_request_id(Some(&long)).len(), 128);
    assert_eq!(sanitised_request_id(Some(b"")), None);
    assert_eq!(sanitised_request_id(Some(b"   ")), None);
    assert_eq!(sanitised_request_id(None), None);
    // Not a header text.
    assert_eq!(sanitised_request_id(Some(&[0xff, b'a'])), None);
}

#[test]
fn a_fresh_request_id_has_hex_digits() {
    let a = resolve_request_id(None);
    let b = resolve_request_id(Some(b" "));
    for id in [&a, &b] {
        let digits = id.strip_prefix("req-").unwrap();
        assert_eq!(digits.len(), 32);
        assert!(digits
            .chars()
            .all(|c| c.is_ascii_digit() || ('a'..='f').contains(&c)));
    }
    assert_ne!(a, b);
}

#[test]
fn a_client_can_only_shorten_the_time_limit() {
    assert_eq!(compute_effective_timeout(Some(b"5"), 0).unwrap(), None);
    assert_eq!(
        compute_effective_timeout(None, 60).unwrap(),
        Some(Duration::from_secs(60))
    );
    assert_eq!(
        compute_effective_timeout(Some(b"5"), 60).unwrap(),
        Some(Duration::from_secs(5))
    );
    assert_eq!(
        compute_effective_timeout(Some(b"500"), 60).unwrap(),
        Some(Duration::from_secs(60))
    );
    for bad in [&b"0"[..], b"-1", b"x", b"", b" 5", b"1.5", &[0xff]] {
        let r = compute_effective_timeout(Some(bad), 60).unwrap_err();
        assert_eq!(r.status, 400);
        assert!(render_json(&r.body)
            .contains("X-Request-Timeout-Seconds must be a positive integer"));
    }
}

#[test]
fn a_timeout_tells_its_limit() {
    let r = timeout_reply(30);
    assert_eq!(r.status, 408);
    assert_eq!(
        render_json(&r.body),
        r#"{"error":{"message":"request exceeded 30 second timeout","type":"timeout"}}"#
    );
}
