//! Metrics as Prometheus text and as JSON.

use rmlx_server::json::{parse_json, render_json, Json};
use rmlx_server::openai::errors::ProcMem;
use rmlx_server::openai::generate::TtftSample;
use rmlx_server::openai::metrics::{
    hit_rate, metrics_cache, metrics_v1_summary, model_json, model_metrics, partial_hit_rate,
    percentile_u64, render_prometheus, CacheStats, ItlSample, Labelled, Measured, MetricsSnapshot,
    Quotient, SsdHistogram, SsdTier,
};

fn stats() -> CacheStats {
    CacheStats {
        hits: 3,
        misses: 1,
        evictions: 2,
        bytes: 100,
        block_hits: 5,
        block_misses: 6,
        partial_hits: 1,
        ssd_hits: 4,
    }
}

fn no_durations() -> SsdHistogram {
    SsdHistogram {
        buckets: vec![],
        count: 0,
        sum_us: 0,
    }
}

fn measured(text: &str) -> Measured {
    Measured {
        text: text.to_owned(),
        json: parse_json(text).unwrap(),
    }
}

fn idle() -> MetricsSnapshot {
    MetricsSnapshot {
        models: vec![],
        ttft_samples: vec![],
        itl_samples: vec![],
        tokens_in: 0,
        tokens_out: 0,
        error_counts: vec![],
        proc_mem: None,
        uptime_s: measured("1.5"),
        in_flight: 0,
        requests_started: 0,
        requests_completed: 0,
        requests_failed: 0,
        avg_decode_tok_s: None,
        ssd: SsdTier {
            bytes_used: vec![],
            evict_total: vec![],
            spill: no_durations(),
            hydrate: no_durations(),
        },
    }
}

fn labelled(label: &str, value: u64) -> Labelled {
    Labelled {
        label: label.to_owned(),
        value,
    }
}

fn busy() -> MetricsSnapshot {
    let mut s = idle();
    s.models = vec![model_metrics("m".to_owned(), Some(stats()), 64, Some(2048)).unwrap()];
    s.ttft_samples = [30u64, 10, 20]
        .iter()
        .map(|&ttft_ms| TtftSample {
            model_id: "m".to_owned(),
            ttft_ms,
        })
        .collect();
    s.itl_samples = vec![ItlSample {
        model_id: "m".to_owned(),
        p50_ms: measured("1.25"),
        p95_ms: measured("2.5"),
        mean_ms: measured("1.5"),
        step_count: 9,
    }];
    s.tokens_in = 11;
    s.tokens_out = 22;
    s.error_counts = vec![labelled("bad_request", 2)];
    s.proc_mem = Some(ProcMem {
        rss_bytes: 5,
        phys_footprint_bytes: 6,
        compressed_bytes: 7,
    });
    s.in_flight = 1;
    s.requests_started = 4;
    s.requests_completed = 3;
    s.requests_failed = 1;
    s.avg_decode_tok_s = Some("666.667".to_owned());
    s.ssd = SsdTier {
        bytes_used: vec![labelled("a", 10), labelled("b", 20)],
        evict_total: vec![labelled("a", 1)],
        spill: SsdHistogram {
            buckets: vec![(100, 1), (1000, 2)],
            count: 3,
            sum_us: 5100,
        },
        hydrate: no_durations(),
    };
    s
}

#[test]
fn the_exposition_of_an_idle_server() {
    let text = render_prometheus(&idle());
    assert!(text.starts_with(
        "# HELP rmlx_lifetime_tokens_total Lifetime cumulative token count since server start.\n# TYPE rmlx_lifetime_tokens_total counter\nrmlx_lifetime_tokens_total{direction=\"in\"} 0\nrmlx_lifetime_tokens_total{direction=\"out\"} 0\n"
    ));
    assert!(text.ends_with('\n'));
    for absent in ["rmlx_ttft_ms", "rmlx_itl_ms", "rmlx_process", "rmlx_ssd_"] {
        assert!(
            !text.contains(&format!("\n{absent}")),
            "{absent} in an idle exposition"
        );
    }
    assert!(text.contains("\nrmlx_uptime_seconds 1.5\n"));
    assert!(text.contains("\nrmlx_in_flight 0\n"));
}

#[test]
fn the_exposition_of_a_busy_server() {
    let text = render_prometheus(&busy());
    for line in [
        "rmlx_lifetime_tokens_total{direction=\"in\"} 11",
        "rmlx_lifetime_tokens_total{direction=\"out\"} 22",
        "rmlx_api_errors_total{category=\"bad_request\"} 2",
        "rmlx_ttft_ms{quantile=\"0.50\"} 20",
        "rmlx_ttft_ms{quantile=\"0.95\"} 30",
        "rmlx_ttft_ms{quantile=\"0.99\"} 30",
        "rmlx_itl_ms{quantile=\"0.50\"} 1.25",
        "rmlx_itl_ms{quantile=\"0.95\"} 2.5",
        "rmlx_process_rss_bytes 5",
        "rmlx_process_phys_footprint_bytes 6",
        "rmlx_avg_decode_tok_s 666.667",
        "rmlx_requests_total{outcome=\"started\"} 4",
        "rmlx_requests_total{outcome=\"completed\"} 3",
        "rmlx_requests_total{outcome=\"failed\"} 1",
        "rmlx_ssd_bytes_used{namespace=\"b\"} 20",
        "rmlx_ssd_evict_total{namespace=\"a\"} 1",
        "rmlx_ssd_evict_total{namespace=\"b\"} 0",
        "rmlx_ssd_spill_us_bucket{le=\"1000\"} 2",
        "rmlx_ssd_spill_us_bucket{le=\"+Inf\"} 3",
        "rmlx_ssd_spill_us_sum 5100",
        "rmlx_ssd_spill_us_count 3",
    ] {
        assert!(text.contains(&format!("\n{line}\n")), "missing: {line}");
    }
    assert!(!text.contains("rmlx_ssd_hydrate_us"));
    // Each metric is introduced before its first sample.
    for name in ["rmlx_requests_total", "rmlx_ssd_spill_us", "rmlx_itl_ms"] {
        let help = text.find(&format!("# HELP {name} ")).unwrap();
        let sample = text.find(&format!("\n{name}")).unwrap();
        assert!(help < sample);
    }
}

#[test]
fn percentiles_by_nearest_rank() {
    assert_eq!(percentile_u64(&[], 50), 0);
    assert_eq!(percentile_u64(&[7], 99), 7);
    let v: Vec<u64> = (1..=100).collect();
    assert_eq!(percentile_u64(&v, 0), 1);
    assert_eq!(percentile_u64(&v, 1), 1);
    assert_eq!(percentile_u64(&v, 50), 50);
    assert_eq!(percentile_u64(&v, 95), 95);
    assert_eq!(percentile_u64(&v, 99), 99);
    assert_eq!(percentile_u64(&v, 100), 100);
    assert_eq!(percentile_u64(&v, 200), 100);
    assert_eq!(percentile_u64(&[1, 2, 3], 50), 2);
}

#[test]
fn rates_of_a_cache() {
    assert_eq!(hit_rate(&stats()), Quotient { num: 3, den: 4 });
    assert_eq!(partial_hit_rate(&stats()), Quotient { num: 1, den: 3 });
    let none = CacheStats {
        hits: 0,
        misses: 0,
        ..stats()
    };
    assert_eq!(hit_rate(&none).num, 0);
    assert_eq!(partial_hit_rate(&none).num, 0);
    let full = CacheStats {
        hits: u64::MAX,
        misses: u64::MAX,
        ..stats()
    };
    assert_eq!(hit_rate(&full).den, 2 * u128::from(u64::MAX));
}

#[test]
fn counters_of_a_model() {
    assert!(model_metrics("m".to_owned(), None, 0, None).is_none());
    let m = model_metrics("m".to_owned(), Some(stats()), 64, None).unwrap();
    assert_eq!(
        render_json(&model_json(&m, parse_json("0.75").unwrap(), parse_json("0.5").unwrap(), None)),
        r#"{"block_hits":5,"block_misses":6,"bytes":100,"evictions":2,"hit_rate":0.75,"hits":3,"kv_cache_bytes":64,"metal_peak_alloc_bytes":null,"misses":1,"model_id":"m","partial_hit_rate":0.5,"partial_hits":1,"ssd_hits":4}"#
    );
    let m = model_metrics("m".to_owned(), None, 0, Some(9)).unwrap();
    let phases = parse_json(r#"{"total_ms":1.5}"#);
    assert_eq!(
        render_json(&model_json(&m, Json::number(0), Json::number(0), phases)),
        r#"{"load_phases":{"total_ms":1.5},"metal_peak_alloc_bytes":9,"model_id":"m"}"#
    );
}

#[test]
fn the_cache_metrics() {
    let body = metrics_cache(&busy(), vec![parse_json(r#"{"model_id":"m"}"#).unwrap()]);
    assert_eq!(
        render_json(&body),
        r#"{"error_counts":{"bad_request":2},"itl":[{"model_id":"m","p50_ms":1.25,"p95_ms":2.5,"step_count":9,"step_mean_ms":1.5}],"models":[{"model_id":"m"}],"tokens_in":11,"tokens_out":22,"ttft":[{"model_id":"m","ttft_ms":30},{"model_id":"m","ttft_ms":10},{"model_id":"m","ttft_ms":20}]}"#
    );
}

#[test]
fn the_summary() {
    assert_eq!(
        render_json(&metrics_v1_summary(&busy(), parse_json("666.6").unwrap())),
        r#"{"avg_decode_tok_s":666.6,"avg_request_tok_s":null,"in_flight":1,"last_error":null,"requests_completed":3,"requests_failed":1,"requests_started":4,"tokens_in":11,"tokens_out":22,"uptime_s":1.5}"#
    );
    assert!(render_json(&metrics_v1_summary(&idle(), Json::Null))
        .contains(r#""avg_decode_tok_s":null"#));
}

#[test]
fn a_measured_value_has_a_form_of_its_own_in_json() {
    let mut snapshot = idle();
    snapshot.uptime_s = Measured {
        text: "5".to_owned(),
        json: parse_json("5.0").unwrap(),
    };
    assert!(render_prometheus(&snapshot).contains("\nrmlx_uptime_seconds 5\n"));
    assert!(render_json(&metrics_v1_summary(&snapshot, Json::Null)).contains(r#""uptime_s":5.0"#));
}
