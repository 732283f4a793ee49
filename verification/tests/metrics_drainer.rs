use rmlx_server::metrics_drainer::{
    admission_events, completion_events, event_kind_to_metrics, event_to_run_record, itl_events,
    log_drop, memory_events, recordable_kv_bytes, ssd_update, Arrival, Batch, BatchAction,
    DrainerHandle, EventSource, ItlMillis, KvBytesVerdict, MetricEvent, MetricKind, MetricValue,
    SendOutcome, SsdUpdate, BATCH_SIZE, F64,
};

fn float(v: f64) -> F64 {
    F64 { bits: v.to_bits() }
}

fn number(v: Option<MetricValue>) -> f64 {
    match v.unwrap() {
        MetricValue::Real(x) => f64::from_bits(x.bits),
        MetricValue::Ratio { num, den } => num as f64 / den as f64,
    }
}

fn make_event(kind: MetricKind) -> MetricEvent {
    MetricEvent {
        model_id: "mlx-community__gemma-4-e2b-it-mxfp8".into(),
        kv_quant: "k8v8".into(),
        ts_utc: "2026-05-11T00:00:00Z".into(),
        ctx_max: 8192,
        kind,
    }
}

#[test]
fn backpressure_increments_dropped_counter() {
    let mut handle = DrainerHandle::new(true);
    // First 2 sends succeed (capacity = 2).
    assert!(handle.try_emit(SendOutcome::Queued));
    assert!(handle.try_emit(SendOutcome::Queued));

    // Third send should be dropped.
    assert!(!handle.try_emit(SendOutcome::Full));
    assert_eq!(
        handle.dropped_count(),
        1,
        "one event should be counted as dropped"
    );

    // Fourth send also dropped.
    assert!(!handle.try_emit(SendOutcome::Full));
    assert_eq!(handle.dropped_count(), 2);
}

#[test]
fn closed_or_disabled_queue_counts_nothing() {
    let mut handle = DrainerHandle::new(true);
    assert!(!handle.try_emit(SendOutcome::Closed));
    assert_eq!(handle.dropped_count(), 0);
    let mut off = DrainerHandle::new(false);
    assert!(!off.is_enabled());
    assert!(!off.try_emit(SendOutcome::Queued));
    assert!(!off.try_emit(SendOutcome::Full));
    assert_eq!(off.dropped_count(), 0);
}

#[test]
fn one_drop_in_64_is_logged() {
    assert!(log_drop(0));
    assert!(!log_drop(1));
    assert!(!log_drop(63));
    assert!(log_drop(64));
}

#[test]
fn kv_cache_bytes_produces_one_metric() {
    let m = event_kind_to_metrics(&MetricKind::KvCacheBytes(12345));
    assert_eq!(m.len(), 1);
    assert_eq!(m[0].name, "kv_cache_bytes");
    assert!((number(m[0].value) - 12345.0).abs() < 1.0);
}

#[test]
fn load_phases_produces_five_metrics() {
    let m = event_kind_to_metrics(&MetricKind::LoadPhases {
        mmap_ms: float(1.0),
        dequant_ms: float(2.0),
        gpu_residency_ms: float(3.0),
        first_kernel_ready_ms: float(4.0),
        total_ms: float(10.0),
    });
    assert_eq!(m.len(), 5);
    let names: Vec<&str> = m.iter().map(|e| e.name.as_str()).collect();
    assert!(names.contains(&"load_mmap_ms"));
    assert!(names.contains(&"load_total_ms"));
}

#[test]
fn f1b_prompt_tokens_produces_one_metric() {
    let m = event_kind_to_metrics(&MetricKind::PromptTokens(4096));
    assert_eq!(m.len(), 1, "PromptTokens must emit exactly 1 MetricEntry");
    assert_eq!(m[0].name, "prompt_tokens_live");
    assert!((number(m[0].value) - 4096.0).abs() < 1.0, "value must match");
}

#[test]
fn f1b_completion_tokens_produces_one_metric() {
    let m = event_kind_to_metrics(&MetricKind::CompletionTokens(32));
    assert_eq!(
        m.len(),
        1,
        "CompletionTokens must emit exactly 1 MetricEntry"
    );
    assert_eq!(m[0].name, "completion_tokens_live");
    assert!((number(m[0].value) - 32.0).abs() < 1.0, "value must match");
}

#[test]
fn f9_itl_p99_produces_one_metric() {
    let m = event_kind_to_metrics(&MetricKind::ItlP99Ms(float(13.7)));
    assert_eq!(m.len(), 1, "ItlP99Ms must emit exactly 1 MetricEntry");
    assert_eq!(m[0].name, "itl_p99_ms");
    assert!((number(m[0].value) - 13.7).abs() < 0.01, "value must match");
}

#[test]
fn f9_itl_spikes_produces_one_metric() {
    let m = event_kind_to_metrics(&MetricKind::ItlSpikes(3));
    assert_eq!(m.len(), 1, "ItlSpikes must emit exactly 1 MetricEntry");
    assert_eq!(m[0].name, "itl_spikes");
    assert!((number(m[0].value) - 3.0).abs() < 0.01, "value must match");
}

#[test]
fn itl_stats_produces_three_metrics_with_correct_names() {
    let m = event_kind_to_metrics(&MetricKind::ItlStats {
        p50_ms: float(8.3),
        p95_ms: float(11.2),
        mean_ms: float(8.5),
        step_count: 128,
    });
    assert_eq!(m.len(), 3, "ItlStats must emit exactly 3 metric entries");

    let names: Vec<&str> = m.iter().map(|e| e.name.as_str()).collect();
    assert!(names.contains(&"itl_p50_ms"), "must include itl_p50_ms");
    assert!(names.contains(&"itl_p95_ms"), "must include itl_p95_ms");
    assert!(names.contains(&"step_ms_mean"), "must include step_ms_mean");

    let p50 = m.iter().find(|e| e.name == "itl_p50_ms").unwrap();
    let p95 = m.iter().find(|e| e.name == "itl_p95_ms").unwrap();
    let mean = m.iter().find(|e| e.name == "step_ms_mean").unwrap();

    assert!((number(p50.value) - 8.3).abs() < 0.01, "p50 value mismatch");
    assert!(
        (number(p95.value) - 11.2).abs() < 0.01,
        "p95 value mismatch"
    );
    assert!(
        (number(mean.value) - 8.5).abs() < 0.01,
        "mean value mismatch"
    );
}

#[test]
fn spill_and_hydrate_record_time_and_throughput() {
    let m = event_kind_to_metrics(&MetricKind::SsdSpillUs {
        dur_us: 2_000_000,
        bytes: 4 * 1024 * 1024,
    });
    assert_eq!(m[0].name, "ssd_spill_ms");
    assert_eq!(number(m[0].value), 2000.0);
    assert_eq!(m[1].name, "ssd_spill_mb_per_s");
    assert_eq!(number(m[1].value), 2.0);
    let m = event_kind_to_metrics(&MetricKind::SsdHydrateUs {
        dur_us: 0,
        bytes: 10,
    });
    assert_eq!(m[0].name, "ssd_hydrate_ms");
    assert_eq!(m[1].name, "ssd_hydrate_mb_per_s");
    assert_eq!(number(m[1].value), 0.0);
}

#[test]
fn record_carries_the_context_of_its_event() {
    let r = event_to_run_record(&make_event(MetricKind::TtftMs(7)));
    assert_eq!(r.ctx_max, 8192);
    assert_eq!(r.kv_quant, "k8v8");
    assert_eq!(r.prompt_name, "live_request");
    assert_eq!(r.prompt_body, "(live_request)");
    assert_eq!(r.notes, "spsc_drainer");
    assert_eq!(r.metrics.len(), 1);
    assert_eq!(r.metrics[0].name, "ttft_warm_ms");
}

#[test]
fn disk_tier_totals_follow_events() {
    assert_eq!(
        ssd_update(&MetricKind::SsdSpillUs {
            dur_us: 3,
            bytes: 1
        }),
        Some(SsdUpdate::Spill(3))
    );
    assert_eq!(
        ssd_update(&MetricKind::SsdHydrateUs {
            dur_us: 4,
            bytes: 1
        }),
        Some(SsdUpdate::Hydrate(4))
    );
    assert_eq!(
        ssd_update(&MetricKind::SsdBytesUsed(5)),
        Some(SsdUpdate::BytesUsed(5))
    );
    assert_eq!(
        ssd_update(&MetricKind::SsdEvictTotal(6)),
        Some(SsdUpdate::Evicted(6))
    );
    assert_eq!(ssd_update(&MetricKind::QueueDepth(1)), None);
}

#[test]
fn batches_flush_when_full_late_or_closed() {
    let mut batch = Batch::new();
    assert_eq!(batch.on_arrival(Arrival::Timeout), BatchAction::Wait);
    for i in 1..BATCH_SIZE {
        let a = batch.on_arrival(Arrival::Event(make_event(MetricKind::TtftMs(i as u64))));
        assert_eq!(a, BatchAction::Wait);
    }
    let a = batch.on_arrival(Arrival::Event(make_event(MetricKind::TtftMs(0))));
    assert_eq!(a, BatchAction::Flush);
    assert_eq!(batch.take().len(), BATCH_SIZE);
    let _ = batch.on_arrival(Arrival::Event(make_event(MetricKind::TtftMs(1))));
    assert_eq!(batch.on_arrival(Arrival::Timeout), BatchAction::Flush);
    assert_eq!(batch.take().len(), 1);
    assert_eq!(batch.on_arrival(Arrival::Closed), BatchAction::FlushAndExit);
    assert!(batch.take().is_empty());
}

#[test]
fn requests_report_their_events() {
    let e = completion_events("m", "now", 9, Some(12), 3, 4);
    assert_eq!(e.len(), 3);
    assert_eq!(e[0].kind, MetricKind::TtftMs(12));
    assert_eq!(e[1].kind, MetricKind::PromptTokens(3));
    assert_eq!(e[2].kind, MetricKind::CompletionTokens(4));
    assert_eq!(e[2].kv_quant, "none");
    assert_eq!(completion_events("m", "now", 9, None, 3, 4).len(), 2);
    let e = admission_events("m", "now", 9, 5, 6);
    assert_eq!(e[0].kind, MetricKind::QueueWaitMs(5));
    assert_eq!(e[1].kind, MetricKind::QueueDepth(6));
}

const SOURCE: EventSource<'static> = EventSource {
    model_id: "m",
    kv_quant: "k8v8",
    ts_utc: "t",
    ctx_max: 4096,
};

#[test]
fn latencies_of_a_generation_are_three_events() {
    let events = itl_events(
        &SOURCE,
        &ItlMillis {
            p50_ms: float(1.0),
            p95_ms: float(2.0),
            p99_ms: float(3.0),
            mean_ms: float(1.5),
            step_count: 7,
            spikes: 2,
        },
    );
    let kinds: Vec<MetricKind> = events.iter().map(|e| e.kind).collect();
    assert_eq!(
        kinds,
        vec![
            MetricKind::ItlStats {
                p50_ms: float(1.0),
                p95_ms: float(2.0),
                mean_ms: float(1.5),
                step_count: 7
            },
            MetricKind::ItlP99Ms(float(3.0)),
            MetricKind::ItlSpikes(2),
        ]
    );
    assert!(events
        .iter()
        .all(|e| e.kv_quant == "k8v8" && e.model_id == "m" && e.ts_utc == "t"));
    assert_eq!(events[2].ctx_max, 4096);
}

#[test]
fn only_a_reported_cache_size_is_recorded() {
    let kinds = |v: KvBytesVerdict, peak: Option<u64>| -> Vec<MetricKind> {
        memory_events(&SOURCE, v, peak)
            .iter()
            .map(|e| e.kind)
            .collect()
    };
    assert_eq!(
        kinds(KvBytesVerdict::Reported(5), Some(3 * 1_048_576 + 9)),
        vec![MetricKind::KvCacheBytes(5), MetricKind::MetalPeakAllocMb(3)]
    );
    assert_eq!(kinds(KvBytesVerdict::Unreported, None), vec![]);
    assert_eq!(kinds(KvBytesVerdict::ReportedZero, None), vec![]);
    assert_eq!(recordable_kv_bytes(KvBytesVerdict::Reported(0)), None);
    assert_eq!(recordable_kv_bytes(KvBytesVerdict::Reported(1)), Some(1));
}
