use rmlx_server::engine::admission::{after_leave, queue_full, Admission, AdmissionGauge};
use rmlx_server::engine::error::EngineError;
use rmlx_server::engine::generator::NotReadyGenerator;
use rmlx_server::engine::helpers::{
    compute_itl_stats, is_reconstructible_tool_marker, itl_rows, sorted, ttft_rows, ItlStats,
};
use rmlx_server::engine::types::{
    normalized_to_jinja_tool, GenerationRequest, NormalizedTool, Phase, SamplingParams,
};
use rmlx_server::json::{render_json, Json};

fn sample_req() -> GenerationRequest {
    GenerationRequest {
        model_id: "test".to_owned(),
        prompt_tokens: vec![],
        max_tokens: 100,
        sampling: SamplingParams::default(),
        stop: vec![],
        stream: false,
        system: None,
        session_id: None,
        effective_prompt_cache_slots: None,
        tools: None,
        tool_choice: None,
        response_format: None,
        has_constraint: false,
        thinking_budget: None,
        thinking_end_token_id: None,
        enable_thinking: None,
        prompt_think_open: false,
        emit_tool_markers: false,
        thinking_start_token: None,
        thinking_end_token: None,
        kv_quant_override: None,
        max_ctx_override: None,
        images: vec![],
        audio_b64: vec![],
        image_max_tokens: None,
    }
}

// ── Admission ────────────────────────────────────────────────────────────────

#[test]
fn admission_rejects_at_depth() {
    let mut gauge = AdmissionGauge::new(0);
    // Admit one (holds the only permit) — pending == 1.
    let a1 = gauge.admit_request(2, Some(0));
    assert!(matches!(a1, Admission::Admitted { .. }));
    assert_eq!(gauge.pending(), 1);

    // A second is in flight.
    let a2 = gauge.admit_request(2, Some(0));
    assert!(matches!(a2, Admission::Admitted { .. }));
    assert_eq!(gauge.pending(), 2);

    // Now at depth==2, a third must be rejected WITHOUT incrementing.
    let a3 = gauge.admit_request(2, Some(0));
    assert!(matches!(a3, Admission::QueueFull));
    assert_eq!(
        gauge.pending(),
        2,
        "rejected request must NOT increment gpu_pending"
    );
    assert!(queue_full(2, 2));
    assert!(!queue_full(1, 2));
}

#[test]
fn admission_unlimited_when_zero() {
    let mut gauge = AdmissionGauge::new(1000);
    let a = gauge.admit_request(0, Some(3));
    assert_eq!(
        a,
        Admission::Admitted {
            depth: 1001,
            wait_ms: 3
        },
        "0 = unlimited, must admit regardless of pending"
    );
    assert_eq!(gauge.pending(), 1001);
}

#[test]
fn admission_guard_drop_decrements_and_releases() {
    let mut gauge = AdmissionGauge::new(0);
    match gauge.admit_request(64, Some(0)) {
        Admission::Admitted { depth, .. } => assert_eq!(depth, 1, "first admission depth is 1"),
        Admission::QueueFull => panic!("should have been admitted"),
    }
    assert_eq!(gauge.pending(), 1);
    gauge.leave();
    assert_eq!(gauge.pending(), 0, "guard drop must decrement gpu_pending");
    gauge.leave();
    assert_eq!(gauge.pending(), 0);
    assert_eq!(after_leave(0), 0);
}

#[test]
fn admission_closed_queue_balances_gauge() {
    let mut gauge = AdmissionGauge::new(5);
    assert_eq!(gauge.admit_request(64, None), Admission::QueueFull);
    assert_eq!(gauge.pending(), 5);
}

// ── Generator ────────────────────────────────────────────────────────────────

#[test]
fn not_ready_emits_exactly_one_error() {
    let items = NotReadyGenerator.generate(&sample_req());
    assert_eq!(items.len(), 1, "stream should be exhausted");
    match &items[0] {
        Err(EngineError::Other(msg)) => assert_eq!(msg, "generator not ready"),
        other => panic!("expected Err(Other(...)), got {other:?}"),
    }
}

#[test]
fn not_ready_error_is_other_variant() {
    let items = NotReadyGenerator.generate(&sample_req());
    assert!(matches!(&items[0], Err(EngineError::Other(_))));
}

// ── Latency ──────────────────────────────────────────────────────────────────

const MS: u64 = 1_000_000;

fn ms(ns: u64) -> f64 {
    ns as f64 / 1e6
}

fn mean(s: &ItlStats) -> f64 {
    s.sum_ns as f64 / s.count as f64 / 1e6
}

#[test]
fn compute_itl_uniform_10ms() {
    let timestamps: Vec<u64> = (0..5).map(|i| 1_000_000_000 + 10 * MS * i).collect();
    let s = compute_itl_stats(&timestamps).expect("should compute for 5 steps");
    assert!((ms(s.p50_ns) - 10.0).abs() < 1.0);
    assert!((ms(s.p95_ns) - 10.0).abs() < 1.0);
    assert!((ms(s.p99_ns) - 10.0).abs() < 1.0);
    assert!((mean(&s) - 10.0).abs() < 1.0);
    assert_eq!(s.spikes, 0, "uniform sequence should have no spikes");
}

#[test]
fn compute_itl_skewed_sequence() {
    // 9 × 8 ms then 1 × 80 ms.
    let mut timestamps: Vec<u64> = vec![0];
    for _ in 0..9 {
        let prev = *timestamps.last().unwrap();
        timestamps.push(prev + 8 * MS);
    }
    let prev = *timestamps.last().unwrap();
    timestamps.push(prev + 80 * MS);

    let s = compute_itl_stats(&timestamps).expect("should compute for 11 steps");
    let (p50, p95, mean) = (ms(s.p50_ns), ms(s.p95_ns), mean(&s));
    assert!(p50 < 15.0, "p50 should be ~8 ms, got {p50}");
    assert!(p95 > 15.0, "p95 should be > 15 ms due to spike, got {p95}");
    assert!(
        mean > p50 && mean < p95,
        "mean should lie between p50 and p95"
    );
    assert!(
        s.spikes >= 1,
        "80 ms interval should count as a spike, got {}",
        s.spikes
    );
}

#[test]
fn f9_compute_itl_p99_and_spikes_known_vector() {
    let mut timestamps: Vec<u64> = vec![0];
    for _ in 0..90 {
        let prev = *timestamps.last().unwrap();
        timestamps.push(prev + 10 * MS);
    }
    for _ in 0..9 {
        let prev = *timestamps.last().unwrap();
        timestamps.push(prev + 100 * MS);
    }
    let s = compute_itl_stats(&timestamps).expect("should compute for 100 intervals");
    assert!(ms(s.p50_ns) < 15.0);
    assert!(ms(s.p99_ns) > 50.0);
    assert_eq!(s.spikes, 9, "should count exactly 9 spike intervals");
    assert_eq!(s.count, 99);
}

#[test]
fn f9_no_spikes_uniform_sequence() {
    let timestamps: Vec<u64> = (0..20).map(|i| 10 * MS * i).collect();
    let s = compute_itl_stats(&timestamps).expect("should compute");
    assert_eq!(s.spikes, 0, "uniform sequence must have 0 spikes");
}

#[test]
fn compute_itl_too_few_timestamps_returns_none() {
    assert!(compute_itl_stats(&vec![]).is_none());
    assert!(compute_itl_stats(&vec![7]).is_none());
}

#[test]
fn itl_exact_values() {
    // Intervals 30, 10, 20, 10 in arrival order; a step back counts as zero.
    let s = compute_itl_stats(&vec![0, 30, 40, 60, 70]).unwrap();
    assert_eq!(
        s,
        ItlStats {
            p50_ns: 10,
            p95_ns: 30,
            p99_ns: 30,
            sum_ns: 70,
            count: 4,
            spikes: 0
        }
    );
    let s = compute_itl_stats(&vec![5, 3]).unwrap();
    assert_eq!(s.p50_ns, 0);
    assert_eq!(sorted(&vec![3, 1, 2, 1]), vec![1, 1, 2, 3]);
}

#[test]
fn record_itl_percentiles_writes_six_rows_including_tpot() {
    let stats = ItlStats {
        p50_ns: 7_500_000,
        p95_ns: 12_000_000,
        p99_ns: 18_300_000,
        sum_ns: 0,
        count: 1,
        spikes: 0,
    };
    let rows = itl_rows(&stats);
    assert_eq!(rows.len(), 6, "expected 6 rows (3 itl + 3 tpot)");
    for (op, expected) in [
        ("itl_p50_ms", 7.5),
        ("itl_p95_ms", 12.0),
        ("itl_p99_ms", 18.3),
        ("tpot_p50_ms", 7.5),
        ("tpot_p95_ms", 12.0),
        ("tpot_p99_ms", 18.3),
    ] {
        let row = rows.iter().find(|r| r.op == op).unwrap();
        assert!((ms(row.nanos) - expected).abs() < 1e-6, "{op}");
        assert_eq!(row.unit, "ms", "{op} unit");
    }
}

#[test]
fn ttft_rows_tell_cold_from_warm() {
    let rows = ttft_rows(true, 5);
    assert_eq!(rows[0].op, "ttft_cold_ms");
    assert_eq!(rows[1].op, "prefill_duration_ms");
    assert_eq!(rows[1].nanos, 5);
    assert_eq!(ttft_rows(false, 5)[0].op, "ttft_warm_ms");
}

// ── Types ────────────────────────────────────────────────────────────────────

#[test]
fn phase_enum_derives_equality_and_debug() {
    assert_eq!(Phase::Prefill, Phase::Prefill);
    assert_eq!(Phase::Decode, Phase::Decode);
    assert_ne!(Phase::Prefill, Phase::Decode);
    // Debug should produce a non-empty, recognisable string.
    let s = format!("{:?}", Phase::Prefill);
    assert!(s.contains("Prefill"), "Debug for Prefill: {s}");
    let s = format!("{:?}", Phase::Decode);
    assert!(s.contains("Decode"), "Debug for Decode: {s}");
}

fn assert_copy<T: Copy>() {}

fn assert_hash<T: std::hash::Hash>() {}

#[test]
fn phase_is_copy_and_hash() {
    assert_copy::<Phase>();
    assert_hash::<Phase>();
}

#[test]
fn tool_markers_are_three() {
    assert!(is_reconstructible_tool_marker("<|tool_call>"));
    assert!(is_reconstructible_tool_marker("<tool_call|>"));
    assert!(is_reconstructible_tool_marker("<|\"|>"));
    assert!(!is_reconstructible_tool_marker("<turn|>"));
    assert!(!is_reconstructible_tool_marker("<|channel>"));
    assert!(!is_reconstructible_tool_marker("<|tool>"));
}

#[test]
fn template_tool_has_the_expected_shape() {
    let t = NormalizedTool {
        name: "f".to_owned(),
        description: None,
        schema: Json::object().with("type", Json::string("object")),
    };
    assert_eq!(
        render_json(&normalized_to_jinja_tool(&t)),
        r#"{"function":{"description":null,"name":"f","parameters":{"type":"object"}},"type":"function"}"#
    );
}
