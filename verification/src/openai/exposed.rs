//! What the metrics of a server show.
//!
//! Every number of a snapshot is found in the text exposition, on a line of its own,
//! under the name and the labels that say what it counts.

use vstd::prelude::*;

use crate::engine::helpers::{is_sorted_from, lemma_sorted_unique};
use crate::json::{get, law_member_reads_back, member_count, Json, JsonV};
use crate::openai::metrics::{
    ascending_of, bucket_lines, error_section, exposition, has_label, header, histogram, hit_rate,
    itl_body, itl_section, label, labelled_lines, lemma_ends_with_part, lemma_header_ends,
    lemma_histogram_ends, lemma_labelled_end, lemma_line_ended, lemma_sample_ends,
    lemma_section_ends, lemma_zero_end, line_ended, memory_section, metric_help, metric_kind,
    metric_name, metrics_cache, metrics_v1_summary, model_json, model_lines, model_metrics,
    model_section, models_lines, partial_hit_rate, percentile, percentile_u64, render_prometheus,
    request_section, result_label, sample, server_section, ssd_bytes_section, ssd_evict_section,
    ssd_histograms, throughput_section, tier_active, token_section, ttft_body, ttft_lines,
    ttft_values, zero_lines, CacheStats, HistV, ItlV, Labelled,
    MetricsSnapshot, ModelMetric, ModelMetrics,
    ModelV, Quotient, SnapshotV, SsdHistogram,
};
use crate::text::{decimal, views};

verus! {

// ── Lines ────────────────────────────────────────────────────────────────────

/// A text holds this line: it stands at the beginning or behind a line break, and a
/// line break stands behind it.
pub open spec fn has_line(text: Seq<char>, line: Seq<char>) -> bool {
    exists|before: Seq<char>, after: Seq<char>|
        is_split(text, before, line, after)
}

/// A text is made up of these lines before a line, the line, and the text after it.
pub open spec fn is_split(
    text: Seq<char>,
    before: Seq<char>,
    line: Seq<char>,
    after: Seq<char>,
) -> bool {
    text == before + line + "\n"@ + after && (before.len() == 0 || before.last() == '\n')
}

/// The line of a number without labels.
pub open spec fn bare_line(name: Seq<char>, number: Seq<char>) -> Seq<char> {
    name + " "@ + number
}

/// The line of a number under one label.
pub open spec fn line_of(
    name: Seq<char>,
    key: Seq<char>,
    value: Seq<char>,
    number: Seq<char>,
) -> Seq<char> {
    name + ("{"@ + key + "=\""@ + value + "\"}"@) + " "@ + number
}

/// The line of a number under a model and a result.
pub open spec fn result_line(
    name: Seq<char>,
    model: Seq<char>,
    result: Seq<char>,
    number: Seq<char>,
) -> Seq<char> {
    name + ("{model=\""@ + model + "\",result=\""@ + result + "\"}"@) + " "@ + number
}

proof fn lemma_line_behind(a: Seq<char>, b: Seq<char>, line: Seq<char>)
    requires
        line_ended(a),
        has_line(b, line),
    ensures
        has_line(a + b, line),
{
    let (before, after) = choose|before: Seq<char>, after: Seq<char>|
        is_split(b, before, line, after);
    lemma_line_ended(a, before);
    assert(a + b =~= (a + before) + line + "\n"@ + after);
    assert(is_split(a + b, a + before, line, after));
}

proof fn lemma_line_before(a: Seq<char>, b: Seq<char>, line: Seq<char>)
    requires
        has_line(a, line),
    ensures
        has_line(a + b, line),
{
    let (before, after) = choose|before: Seq<char>, after: Seq<char>|
        is_split(a, before, line, after);
    assert(a + b =~= before + line + "\n"@ + (after + b));
    assert(is_split(a + b, before, line, after + b));
}

proof fn lemma_sample_line(name: Seq<char>, labels: Seq<char>, value: Seq<char>)
    ensures
        has_line(sample(name, labels, value), name + labels + " "@ + value),
{
    let line = name + labels + " "@ + value;
    let none = Seq::<char>::empty();
    assert(sample(name, labels, value) =~= none + line + "\n"@ + none);
    assert(is_split(sample(name, labels, value), none, line, none));
}

/// Without labels.
proof fn lemma_bare_line(name: Seq<char>, value: Seq<char>)
    ensures
        has_line(sample(name, ""@, value), bare_line(name, value)),
{
    reveal_strlit("");
    lemma_sample_line(name, ""@, value);
    assert(name + ""@ + " "@ + value =~= bare_line(name, value));
}

// ── Sections ─────────────────────────────────────────────────────────────────

/// The sections of the exposition, by their position.
spec fn section(s: SnapshotV, i: int) -> Seq<char> {
    if i == 0 {
        token_section(s)
    } else if i == 1 {
        error_section(s)
    } else if i == 2 {
        model_section(ModelMetric::CacheResults, s.models)
    } else if i == 3 {
        model_section(ModelMetric::SsdHits, s.models)
    } else if i == 4 {
        model_section(ModelMetric::CacheBytes, s.models)
    } else if i == 5 {
        model_section(ModelMetric::KvCacheBytes, s.models)
    } else if i == 6 {
        model_section(ModelMetric::MetalPeak, s.models)
    } else if i == 7 {
        ttft_lines(ascending_of(ttft_values(s.ttft)))
    } else if i == 8 {
        itl_section(s.itl)
    } else if i == 9 {
        memory_section(s.proc_mem)
    } else if i == 10 {
        server_section(s)
    } else if i == 11 {
        throughput_section(s.avg_decode_tok_s)
    } else if i == 12 {
        request_section(s)
    } else if i == 13 {
        ssd_bytes_section(s.ssd)
    } else if i == 14 {
        ssd_evict_section(s.ssd)
    } else {
        ssd_histograms(s.ssd)
    }
}

/// The first sections, one behind the other.
spec fn sections(s: SnapshotV, n: nat) -> Seq<char>
    decreases n,
{
    if n == 0 {
        Seq::empty()
    } else {
        sections(s, (n - 1) as nat) + section(s, n - 1)
    }
}

proof fn lemma_model_lines_end(which: ModelMetric, m: ModelV)
    ensures
        line_ended(model_lines(which, m)),
{
    let name = metric_name(which);
    assert forall|labels: Seq<char>, v: Seq<char>| line_ended(#[trigger] sample(name, labels, v))
        && sample(name, labels, v).len() > 0 by {
        lemma_sample_ends(name, labels, v);
    }
    match (which, m.stats) {
        (ModelMetric::CacheResults, Some(st)) => {
            lemma_line_ended(
                sample(name, result_label(m.model_id, "hit"@), decimal(st.hits as nat)),
                sample(name, result_label(m.model_id, "miss"@), decimal(st.misses as nat)),
            );
        },
        _ => {},
    }
}

proof fn lemma_models_lines_end(which: ModelMetric, ms: Seq<ModelV>)
    ensures
        line_ended(models_lines(which, ms)),
    decreases ms.len(),
{
    if ms.len() > 0 {
        lemma_models_lines_end(which, ms.drop_last());
        lemma_model_lines_end(which, ms.last());
        lemma_line_ended(models_lines(which, ms.drop_last()), model_lines(which, ms.last()));
    }
}

#[verifier::spinoff_prover]
#[verifier::rlimit(40)]
proof fn lemma_sections_end(s: SnapshotV, i: int)
    requires
        0 <= i < 16,
    ensures
        line_ended(section(s, i)),
{
    assert forall|name: Seq<char>, labels: Seq<char>, v: Seq<char>, a: Seq<char>| line_ended(
        #[trigger] (a + sample(name, labels, v)),
    ) by {
        lemma_sample_ends(name, labels, v);
        lemma_ends_with_part(a, sample(name, labels, v));
    }
    assert forall|name: Seq<char>, help: Seq<char>, kind: Seq<char>| line_ended(
        #[trigger] header(name, help, kind),
    ) by {
        lemma_header_ends(name, help, kind);
    }
    if i == 1 {
        let name = "rmlx_api_errors_total"@;
        lemma_labelled_end(name, "category"@, s.error_counts);
        lemma_line_ended(
            header(name, "Lifetime API error count by category since server start."@, "counter"@),
            labelled_lines(name, "category"@, s.error_counts),
        );
    } else if 2 <= i <= 6 {
        let which = if i == 2 {
            ModelMetric::CacheResults
        } else if i == 3 {
            ModelMetric::SsdHits
        } else if i == 4 {
            ModelMetric::CacheBytes
        } else if i == 5 {
            ModelMetric::KvCacheBytes
        } else {
            ModelMetric::MetalPeak
        };
        lemma_models_lines_end(which, s.models);
        lemma_line_ended(
            header(metric_name(which), metric_help(which), metric_kind(which)),
            models_lines(which, s.models),
        );
    } else if i >= 13 {
        lemma_section_ends(s.ssd);
    }
}

#[verifier::spinoff_prover]
#[verifier::rlimit(60)]
proof fn lemma_all_sections(s: SnapshotV)
    ensures
        exposition(s) == sections(s, 16),
{
    let p0 = sections(s, 0);
    let p1 = sections(s, 1);
    assert(p1 == p0 + section(s, 0));
    let p2 = sections(s, 2);
    assert(p2 == p1 + section(s, 1));
    let p3 = sections(s, 3);
    assert(p3 == p2 + section(s, 2));
    let p4 = sections(s, 4);
    assert(p4 == p3 + section(s, 3));
    let p5 = sections(s, 5);
    assert(p5 == p4 + section(s, 4));
    let p6 = sections(s, 6);
    assert(p6 == p5 + section(s, 5));
    let p7 = sections(s, 7);
    assert(p7 == p6 + section(s, 6));
    let p8 = sections(s, 8);
    assert(p8 == p7 + section(s, 7));
    let p9 = sections(s, 9);
    assert(p9 == p8 + section(s, 8));
    let p10 = sections(s, 10);
    assert(p10 == p9 + section(s, 9));
    let p11 = sections(s, 11);
    assert(p11 == p10 + section(s, 10));
    let p12 = sections(s, 12);
    assert(p12 == p11 + section(s, 11));
    let p13 = sections(s, 13);
    assert(p13 == p12 + section(s, 12));
    let p14 = sections(s, 14);
    assert(p14 == p13 + section(s, 13));
    let p15 = sections(s, 15);
    assert(p15 == p14 + section(s, 14));
    let p16 = sections(s, 16);
    assert(p16 == p15 + section(s, 15));
    assert(Seq::<char>::empty() + section(s, 0) =~= section(s, 0));
}

proof fn lemma_sections_grow(s: SnapshotV, i: int, n: nat, line: Seq<char>)
    requires
        0 <= i < 16,
        n <= 16,
        has_line(section(s, i), line),
    ensures
        line_ended(sections(s, n)),
        i < n ==> has_line(sections(s, n), line),
    decreases n,
{
    if n > 0 {
        let m = (n - 1) as nat;
        lemma_sections_grow(s, i, m, line);
        lemma_sections_end(s, m as int);
        lemma_line_ended(sections(s, m), section(s, m as int));
        if i < m {
            lemma_line_before(sections(s, m), section(s, m as int), line);
        } else if i == m {
            lemma_line_behind(sections(s, m), section(s, m as int), line);
        }
    }
}

/// What stands in a section stands in the exposition.
proof fn lemma_exposed(s: SnapshotV, i: int, line: Seq<char>)
    requires
        0 <= i < 16,
        has_line(section(s, i), line),
    ensures
        has_line(exposition(s), line),
{
    lemma_all_sections(s);
    lemma_sections_grow(s, i, 16, line);
}

/// A line of the last part of a section, and of the part before it.
proof fn lemma_last_two(
    head: Seq<char>,
    n1: Seq<char>,
    l1: Seq<char>,
    v1: Seq<char>,
    n2: Seq<char>,
    l2: Seq<char>,
    v2: Seq<char>,
)
    requires
        line_ended(head),
    ensures
        has_line(head + sample(n1, l1, v1), n1 + l1 + " "@ + v1),
        has_line(head + sample(n1, l1, v1) + sample(n2, l2, v2), n1 + l1 + " "@ + v1),
        has_line(head + sample(n1, l1, v1) + sample(n2, l2, v2), n2 + l2 + " "@ + v2),
        line_ended(head + sample(n1, l1, v1) + sample(n2, l2, v2)),
{
    let a = sample(n1, l1, v1);
    let b = sample(n2, l2, v2);
    lemma_sample_line(n1, l1, v1);
    lemma_sample_line(n2, l2, v2);
    lemma_sample_ends(n1, l1, v1);
    lemma_sample_ends(n2, l2, v2);
    lemma_line_behind(head, a, n1 + l1 + " "@ + v1);
    lemma_line_before(head + a, b, n1 + l1 + " "@ + v1);
    lemma_line_ended(head, a);
    lemma_line_behind(head + a, b, n2 + l2 + " "@ + v2);
    lemma_line_ended(head + a, b);
}

// ── Laws ─────────────────────────────────────────────────────────────────────

/// The tokens that went in and out and the requests that were started, completed and
/// failed are shown, each under its own label.
#[verifier::spinoff_prover]
#[verifier::rlimit(60)]
pub proof fn law_counts_are_exposed(snap: MetricsSnapshot, text: String)
    requires
        call_ensures(render_prometheus, (&snap,), text),
    ensures
        has_line(
            text@,
            line_of(
                "rmlx_lifetime_tokens_total"@,
                "direction"@,
                "in"@,
                decimal(snap.tokens_in as nat),
            ),
        ),
        has_line(
            text@,
            line_of(
                "rmlx_lifetime_tokens_total"@,
                "direction"@,
                "out"@,
                decimal(snap.tokens_out as nat),
            ),
        ),
        has_line(
            text@,
            line_of(
                "rmlx_requests_total"@,
                "outcome"@,
                "started"@,
                decimal(snap.requests_started as nat),
            ),
        ),
        has_line(
            text@,
            line_of(
                "rmlx_requests_total"@,
                "outcome"@,
                "completed"@,
                decimal(snap.requests_completed as nat),
            ),
        ),
        has_line(
            text@,
            line_of(
                "rmlx_requests_total"@,
                "outcome"@,
                "failed"@,
                decimal(snap.requests_failed as nat),
            ),
        ),
{
    let s = snap@;
    let name = "rmlx_lifetime_tokens_total"@;
    let (v_in, v_out) = (decimal(s.tokens_in as nat), decimal(s.tokens_out as nat));
    let help = "Lifetime cumulative token count since server start."@;
    lemma_header_ends(name, help, "counter"@);
    lemma_last_two(
        header(name, help, "counter"@),
        name,
        label("direction"@, "in"@),
        v_in,
        name,
        label("direction"@, "out"@),
        v_out,
    );
    lemma_exposed(s, 0, line_of(name, "direction"@, "in"@, v_in));
    lemma_exposed(s, 0, line_of(name, "direction"@, "out"@, v_out));
    let name = "rmlx_requests_total"@;
    let help = "Lifetime request count by outcome since server start."@;
    let h = header(name, help, "counter"@);
    let v1 = decimal(s.requests_started as nat);
    let v2 = decimal(s.requests_completed as nat);
    let v3 = decimal(s.requests_failed as nat);
    let (l1, l2, l3) = (
        label("outcome"@, "started"@),
        label("outcome"@, "completed"@),
        label("outcome"@, "failed"@),
    );
    lemma_header_ends(name, help, "counter"@);
    lemma_last_two(h, name, l1, v1, name, l2, v2);
    let two = h + sample(name, l1, v1) + sample(name, l2, v2);
    lemma_line_before(two, sample(name, l3, v3), name + l1 + " "@ + v1);
    lemma_line_before(two, sample(name, l3, v3), name + l2 + " "@ + v2);
    lemma_sample_line(name, l3, v3);
    lemma_line_behind(two, sample(name, l3, v3), name + l3 + " "@ + v3);
    lemma_exposed(s, 12, line_of(name, "outcome"@, "started"@, v1));
    lemma_exposed(s, 12, line_of(name, "outcome"@, "completed"@, v2));
    lemma_exposed(s, 12, line_of(name, "outcome"@, "failed"@, v3));
}

/// The uptime, the requests in flight, the throughput and the process's memory are
/// shown, each under its own name; what is not known is not shown in its place.
#[verifier::spinoff_prover]
#[verifier::rlimit(60)]
pub proof fn law_gauges_are_exposed(snap: MetricsSnapshot, text: String)
    requires
        call_ensures(render_prometheus, (&snap,), text),
    ensures
        has_line(text@, bare_line("rmlx_uptime_seconds"@, snap.uptime_s.text@)),
        has_line(text@, bare_line("rmlx_in_flight"@, decimal(snap.in_flight as nat))),
        snap.avg_decode_tok_s matches Some(t) ==> has_line(
            text@,
            bare_line("rmlx_avg_decode_tok_s"@, t@),
        ),
        snap.proc_mem matches Some(m) ==> {
            &&& has_line(
                text@,
                bare_line("rmlx_process_rss_bytes"@, decimal(m.rss_bytes as nat)),
            )
            &&& has_line(
                text@,
                bare_line(
                    "rmlx_process_phys_footprint_bytes"@,
                    decimal(m.phys_footprint_bytes as nat),
                ),
            )
        },
{
    let s = snap@;
    lemma_server_exposed(s);
    lemma_memory_exposed(s);
    match s.avg_decode_tok_s {
        Some(t) => {
            let name = "rmlx_avg_decode_tok_s"@;
            let help =
                "Mean decode throughput in tokens/s (avg of ITL ring, formula: 1000/mean_itl_ms)."@;
            lemma_header_ends(name, help, "gauge"@);
            lemma_bare_line(name, t);
            lemma_line_behind(
                header(name, help, "gauge"@),
                sample(name, ""@, t),
                bare_line(name, t),
            );
            lemma_exposed(s, 11, bare_line(name, t));
        },
        None => {},
    }
}

#[verifier::spinoff_prover]
#[verifier::rlimit(40)]
proof fn lemma_server_exposed(s: SnapshotV)
    ensures
        has_line(exposition(s), bare_line("rmlx_uptime_seconds"@, s.uptime_s.text)),
        has_line(exposition(s), bare_line("rmlx_in_flight"@, decimal(s.in_flight as nat))),
{
    let up = "rmlx_uptime_seconds"@;
    let fl = "rmlx_in_flight"@;
    let h1 = header(up, "Server uptime in seconds since start."@, "gauge"@);
    let h2 = header(fl, "Current number of in-flight (admitted) requests."@, "gauge"@);
    lemma_header_ends(up, "Server uptime in seconds since start."@, "gauge"@);
    lemma_header_ends(fl, "Current number of in-flight (admitted) requests."@, "gauge"@);
    lemma_two_gauges(h1, up, s.uptime_s.text, h2, fl, decimal(s.in_flight as nat));
    lemma_exposed(s, 10, bare_line(up, s.uptime_s.text));
    lemma_exposed(s, 10, bare_line(fl, decimal(s.in_flight as nat)));
}

#[verifier::spinoff_prover]
#[verifier::rlimit(40)]
proof fn lemma_memory_exposed(s: SnapshotV)
    ensures
        s.proc_mem matches Some(m) ==> {
            &&& has_line(
                exposition(s),
                bare_line("rmlx_process_rss_bytes"@, decimal(m.rss_bytes as nat)),
            )
            &&& has_line(
                exposition(s),
                bare_line(
                    "rmlx_process_phys_footprint_bytes"@,
                    decimal(m.phys_footprint_bytes as nat),
                ),
            )
        },
{
    match s.proc_mem {
        Some(m) => {
            let n1 = "rmlx_process_rss_bytes"@;
            let n2 = "rmlx_process_phys_footprint_bytes"@;
            let help1 = "Process resident set size in bytes."@;
            let help2 = "Process physical memory footprint in bytes (Activity Monitor metric)."@;
            lemma_header_ends(n1, help1, "gauge"@);
            lemma_header_ends(n2, help2, "gauge"@);
            let v1 = decimal(m.rss_bytes as nat);
            let v2 = decimal(m.phys_footprint_bytes as nat);
            lemma_two_gauges(
                header(n1, help1, "gauge"@),
                n1,
                v1,
                header(n2, help2, "gauge"@),
                n2,
                v2,
            );
            lemma_exposed(s, 9, bare_line(n1, v1));
            lemma_exposed(s, 9, bare_line(n2, v2));
        },
        None => {},
    }
}

proof fn lemma_two_gauges(
    h1: Seq<char>,
    n1: Seq<char>,
    v1: Seq<char>,
    h2: Seq<char>,
    n2: Seq<char>,
    v2: Seq<char>,
)
    requires
        line_ended(h1),
        line_ended(h2),
    ensures
        has_line(h1 + sample(n1, ""@, v1) + h2 + sample(n2, ""@, v2), bare_line(n1, v1)),
        has_line(h1 + sample(n1, ""@, v1) + h2 + sample(n2, ""@, v2), bare_line(n2, v2)),
{
    let a = sample(n1, ""@, v1);
    let b = sample(n2, ""@, v2);
    lemma_bare_line(n1, v1);
    lemma_bare_line(n2, v2);
    lemma_sample_ends(n1, ""@, v1);
    lemma_line_behind(h1, a, bare_line(n1, v1));
    lemma_line_before(h1 + a, h2, bare_line(n1, v1));
    lemma_line_before(h1 + a + h2, b, bare_line(n1, v1));
    lemma_line_ended(h1, a);
    lemma_line_ended(h1 + a, h2);
    lemma_line_behind(h1 + a + h2, b, bare_line(n2, v2));
}

/// Every model with cache counters shows its hits as `hit` and its misses as `miss`,
/// and the hits from disk and the bytes of its cache under their own names; every model
/// shows the size of its key-value cache, where it has one, and the peak of the Metal
/// allocator, where that is known.
#[verifier::spinoff_prover]
#[verifier::rlimit(60)]
pub proof fn law_models_are_exposed(snap: MetricsSnapshot, text: String, i: int)
    requires
        call_ensures(render_prometheus, (&snap,), text),
        0 <= i < snap.models@.len(),
    ensures
        ({
            let m = snap.models@[i];
            &&& m.stats matches Some(st) ==> {
                &&& has_line(
                    text@,
                    result_line(
                        "rmlx_prompt_cache_total"@,
                        m.model_id@,
                        "hit"@,
                        decimal(st.hits as nat),
                    ),
                )
                &&& has_line(
                    text@,
                    result_line(
                        "rmlx_prompt_cache_total"@,
                        m.model_id@,
                        "miss"@,
                        decimal(st.misses as nat),
                    ),
                )
                &&& has_line(
                    text@,
                    line_of(
                        "rmlx_prompt_cache_ssd_hits_total"@,
                        "model"@,
                        m.model_id@,
                        decimal(st.ssd_hits as nat),
                    ),
                )
                &&& has_line(
                    text@,
                    line_of(
                        "rmlx_prompt_cache_bytes"@,
                        "model"@,
                        m.model_id@,
                        decimal(st.bytes as nat),
                    ),
                )
            }
            &&& m.kv_cache_bytes > 0 ==> has_line(
                text@,
                line_of(
                    "rmlx_kv_cache_bytes"@,
                    "model"@,
                    m.model_id@,
                    decimal(m.kv_cache_bytes as nat),
                ),
            )
            &&& m.metal_peak_alloc_bytes matches Some(n) ==> has_line(
                text@,
                line_of(
                    "rmlx_metal_peak_alloc_bytes"@,
                    "model"@,
                    m.model_id@,
                    decimal(n as nat),
                ),
            )
        }),
{
    let s = snap@;
    let m = snap.models@[i];
    assert(s.models[i] == m@);
    match m.stats {
        Some(st) => {
            let name = "rmlx_prompt_cache_total"@;
            let hit = sample(name, result_label(m.model_id@, "hit"@), decimal(st.hits as nat));
            let miss = sample(name, result_label(m.model_id@, "miss"@), decimal(st.misses as nat));
            let hit_line = result_line(name, m.model_id@, "hit"@, decimal(st.hits as nat));
            let miss_line = result_line(name, m.model_id@, "miss"@, decimal(st.misses as nat));
            lemma_sample_line(name, result_label(m.model_id@, "hit"@), decimal(st.hits as nat));
            lemma_sample_line(name, result_label(m.model_id@, "miss"@), decimal(st.misses as nat));
            lemma_sample_ends(name, result_label(m.model_id@, "hit"@), decimal(st.hits as nat));
            lemma_line_before(hit, miss, hit_line);
            lemma_line_behind(hit, miss, miss_line);
            lemma_model_exposed(s, ModelMetric::CacheResults, i, hit_line);
            lemma_model_exposed(s, ModelMetric::CacheResults, i, miss_line);
            lemma_one_line(s, ModelMetric::SsdHits, i, st.ssd_hits);
            lemma_one_line(s, ModelMetric::CacheBytes, i, st.bytes);
        },
        None => {},
    }
    if m.kv_cache_bytes > 0 {
        lemma_one_line(s, ModelMetric::KvCacheBytes, i, m.kv_cache_bytes);
    }
    match m.metal_peak_alloc_bytes {
        Some(n) => {
            lemma_one_line(s, ModelMetric::MetalPeak, i, n);
        },
        None => {},
    }
}

/// The only line of a model in a section.
proof fn lemma_one_line(s: SnapshotV, which: ModelMetric, i: int, n: u64)
    requires
        0 <= i < s.models.len(),
        model_lines(which, s.models[i]) == sample(
            metric_name(which),
            label("model"@, s.models[i].model_id),
            decimal(n as nat),
        ),
    ensures
        has_line(
            exposition(s),
            line_of(metric_name(which), "model"@, s.models[i].model_id, decimal(n as nat)),
        ),
{
    let m = s.models[i];
    lemma_sample_line(metric_name(which), label("model"@, m.model_id), decimal(n as nat));
    lemma_model_exposed(
        s,
        which,
        i,
        line_of(metric_name(which), "model"@, m.model_id, decimal(n as nat)),
    );
}

proof fn lemma_models_hold(which: ModelMetric, ms: Seq<ModelV>, i: int, line: Seq<char>)
    requires
        0 <= i < ms.len(),
        has_line(model_lines(which, ms[i]), line),
    ensures
        has_line(models_lines(which, ms), line),
    decreases ms.len(),
{
    let init = ms.drop_last();
    lemma_models_lines_end(which, init);
    if i == ms.len() - 1 {
        lemma_line_behind(models_lines(which, init), model_lines(which, ms.last()), line);
    } else {
        assert(init[i] == ms[i]);
        lemma_models_hold(which, init, i, line);
        lemma_line_before(models_lines(which, init), model_lines(which, ms.last()), line);
    }
}

proof fn lemma_model_exposed(s: SnapshotV, which: ModelMetric, i: int, line: Seq<char>)
    requires
        0 <= i < s.models.len(),
        has_line(model_lines(which, s.models[i]), line),
    ensures
        has_line(exposition(s), line),
{
    let h = header(metric_name(which), metric_help(which), metric_kind(which));
    lemma_models_hold(which, s.models, i, line);
    lemma_header_ends(metric_name(which), metric_help(which), metric_kind(which));
    lemma_line_behind(h, models_lines(which, s.models), line);
    let k = match which {
        ModelMetric::CacheResults => 2int,
        ModelMetric::SsdHits => 3int,
        ModelMetric::CacheBytes => 4int,
        ModelMetric::KvCacheBytes => 5int,
        ModelMetric::MetalPeak => 6int,
    };
    lemma_exposed(s, k, line);
}

/// A model shows nothing but these lines: two of its cache results and one each of the
/// others, and none of what it does not have.
pub proof fn law_model_shows_only_its_numbers(m: ModelV)
    ensures
        m.stats is None ==> {
            &&& model_lines(ModelMetric::CacheResults, m).len() == 0
            &&& model_lines(ModelMetric::SsdHits, m).len() == 0
            &&& model_lines(ModelMetric::CacheBytes, m).len() == 0
        },
        m.stats matches Some(st) ==> {
            &&& model_lines(ModelMetric::CacheResults, m) == result_line(
                "rmlx_prompt_cache_total"@,
                m.model_id,
                "hit"@,
                decimal(st.hits as nat),
            ) + "\n"@ + result_line(
                "rmlx_prompt_cache_total"@,
                m.model_id,
                "miss"@,
                decimal(st.misses as nat),
            ) + "\n"@
            &&& model_lines(ModelMetric::SsdHits, m) == line_of(
                "rmlx_prompt_cache_ssd_hits_total"@,
                "model"@,
                m.model_id,
                decimal(st.ssd_hits as nat),
            ) + "\n"@
            &&& model_lines(ModelMetric::CacheBytes, m) == line_of(
                "rmlx_prompt_cache_bytes"@,
                "model"@,
                m.model_id,
                decimal(st.bytes as nat),
            ) + "\n"@
        },
        m.kv_cache_bytes == 0 ==> model_lines(ModelMetric::KvCacheBytes, m).len() == 0,
        m.kv_cache_bytes > 0 ==> model_lines(ModelMetric::KvCacheBytes, m) == line_of(
            "rmlx_kv_cache_bytes"@,
            "model"@,
            m.model_id,
            decimal(m.kv_cache_bytes as nat),
        ) + "\n"@,
        m.metal_peak_alloc_bytes is None ==> model_lines(ModelMetric::MetalPeak, m).len() == 0,
        m.metal_peak_alloc_bytes matches Some(n) ==> model_lines(ModelMetric::MetalPeak, m)
            == line_of(
            "rmlx_metal_peak_alloc_bytes"@,
            "model"@,
            m.model_id,
            decimal(n as nat),
        ) + "\n"@,
{
    match m.stats {
        Some(st) => {
            assert(model_lines(ModelMetric::CacheResults, m) =~= result_line(
                "rmlx_prompt_cache_total"@,
                m.model_id,
                "hit"@,
                decimal(st.hits as nat),
            ) + "\n"@ + result_line(
                "rmlx_prompt_cache_total"@,
                m.model_id,
                "miss"@,
                decimal(st.misses as nat),
            ) + "\n"@);
        },
        None => {},
    }
}

/// Every failure count is shown under its category, and every namespace of the disk
/// tier with its size and its evictions, which are zero where none are counted.
#[verifier::spinoff_prover]
#[verifier::rlimit(60)]
pub proof fn law_labelled_counts_are_exposed(snap: MetricsSnapshot, text: String, i: int)
    requires
        call_ensures(render_prometheus, (&snap,), text),
    ensures
        0 <= i < snap.error_counts@.len() ==> has_line(
            text@,
            line_of(
                "rmlx_api_errors_total"@,
                "category"@,
                snap.error_counts@[i].label@,
                decimal(snap.error_counts@[i].value as nat),
            ),
        ),
        0 <= i < snap.ssd.bytes_used@.len() ==> has_line(
            text@,
            line_of(
                "rmlx_ssd_bytes_used"@,
                "namespace"@,
                snap.ssd.bytes_used@[i].label@,
                decimal(snap.ssd.bytes_used@[i].value as nat),
            ),
        ),
        0 <= i < snap.ssd.evict_total@.len() ==> has_line(
            text@,
            line_of(
                "rmlx_ssd_evict_total"@,
                "namespace"@,
                snap.ssd.evict_total@[i].label@,
                decimal(snap.ssd.evict_total@[i].value as nat),
            ),
        ),
        0 <= i < snap.ssd.bytes_used@.len() && (forall|k: int|
            0 <= k < snap.ssd.evict_total@.len() ==> (#[trigger] snap.ssd.evict_total@[k]).label@
                != snap.ssd.bytes_used@[i].label@) ==> has_line(
            text@,
            line_of(
                "rmlx_ssd_evict_total"@,
                "namespace"@,
                snap.ssd.bytes_used@[i].label@,
                "0"@,
            ),
        ),
{
    let s = snap@;
    let t = s.ssd;
    if 0 <= i < snap.error_counts@.len() {
        let name = "rmlx_api_errors_total"@;
        let help = "Lifetime API error count by category since server start."@;
        let e = snap.error_counts@[i];
        assert(s.error_counts[i] == e@);
        let line = line_of(name, "category"@, e.label@, decimal(e.value as nat));
        lemma_labelled_holds(name, "category"@, s.error_counts, i);
        lemma_header_ends(name, help, "counter"@);
        lemma_line_behind(
            header(name, help, "counter"@),
            labelled_lines(name, "category"@, s.error_counts),
            line,
        );
        lemma_exposed(s, 1, line);
    }
    let name = "rmlx_ssd_evict_total"@;
    let help = "Lifetime SSD-tier LRU eviction count."@;
    let h = header(name, help, "counter"@);
    let counted = labelled_lines(name, "namespace"@, t.evict_total);
    let zeros = zero_lines(t.bytes_used, t.evict_total);
    lemma_header_ends(name, help, "counter"@);
    lemma_labelled_end(name, "namespace"@, t.evict_total);
    lemma_line_ended(h, counted);
    if 0 <= i < snap.ssd.bytes_used@.len() {
        let used = "rmlx_ssd_bytes_used"@;
        let used_help = "Current on-disk KV-block cache footprint in bytes."@;
        let e = snap.ssd.bytes_used@[i];
        assert(t.bytes_used[i] == e@);
        let line = line_of(used, "namespace"@, e.label@, decimal(e.value as nat));
        lemma_labelled_holds(used, "namespace"@, t.bytes_used, i);
        lemma_header_ends(used, used_help, "gauge"@);
        lemma_line_behind(
            header(used, used_help, "gauge"@),
            labelled_lines(used, "namespace"@, t.bytes_used),
            line,
        );
        lemma_exposed(s, 13, line);
        if forall|k: int|
            0 <= k < snap.ssd.evict_total@.len() ==> (#[trigger] snap.ssd.evict_total@[k]).label@
                != e.label@ {
            assert forall|k: int| 0 <= k < t.evict_total.len() implies (
            #[trigger] t.evict_total[k]).0 != e.label@ by {
                assert(t.evict_total[k] == snap.ssd.evict_total@[k]@);
            }
            let zero = line_of(name, "namespace"@, e.label@, "0"@);
            lemma_zeros_hold(t.bytes_used, t.evict_total, i);
            lemma_line_behind(h + counted, zeros, zero);
            lemma_exposed(s, 14, zero);
        }
    }
    if 0 <= i < snap.ssd.evict_total@.len() {
        let e = snap.ssd.evict_total@[i];
        assert(t.evict_total[i] == e@);
        let line = line_of(name, "namespace"@, e.label@, decimal(e.value as nat));
        lemma_labelled_holds(name, "namespace"@, t.evict_total, i);
        lemma_line_behind(h, counted, line);
        lemma_line_before(h + counted, zeros, line);
        lemma_exposed(s, 14, line);
    }
}

proof fn lemma_labelled_holds(
    name: Seq<char>,
    key: Seq<char>,
    vs: Seq<(Seq<char>, u64)>,
    i: int,
)
    requires
        0 <= i < vs.len(),
    ensures
        has_line(labelled_lines(name, key, vs), line_of(name, key, vs[i].0, decimal(vs[i].1 as nat))),
    decreases vs.len(),
{
    let init = vs.drop_last();
    let last = sample(name, label(key, vs.last().0), decimal(vs.last().1 as nat));
    let line = line_of(name, key, vs[i].0, decimal(vs[i].1 as nat));
    lemma_labelled_end(name, key, init);
    if i == vs.len() - 1 {
        lemma_sample_line(name, label(key, vs.last().0), decimal(vs.last().1 as nat));
        lemma_line_behind(labelled_lines(name, key, init), last, line);
    } else {
        assert(init[i] == vs[i]);
        lemma_labelled_holds(name, key, init, i);
        lemma_line_before(labelled_lines(name, key, init), last, line);
    }
}

proof fn lemma_zeros_hold(
    used: Seq<(Seq<char>, u64)>,
    evicted: Seq<(Seq<char>, u64)>,
    i: int,
)
    requires
        0 <= i < used.len(),
        forall|k: int| 0 <= k < evicted.len() ==> (#[trigger] evicted[k]).0 != used[i].0,
    ensures
        has_line(
            zero_lines(used, evicted),
            line_of("rmlx_ssd_evict_total"@, "namespace"@, used[i].0, "0"@),
        ),
    decreases used.len(),
{
    let init = used.drop_last();
    let name = "rmlx_ssd_evict_total"@;
    let line = line_of(name, "namespace"@, used[i].0, "0"@);
    let last = sample(name, label("namespace"@, used.last().0), "0"@);
    lemma_zero_end(init, evicted);
    if i == used.len() - 1 {
        lemma_sample_line(name, label("namespace"@, used.last().0), "0"@);
        assert(!has_label(evicted, used.last().0));
        lemma_line_behind(zero_lines(init, evicted), last, line);
    } else {
        assert(init[i] == used[i]);
        lemma_zeros_hold(init, evicted, i);
        let tail = if has_label(evicted, used.last().0) {
            Seq::empty()
        } else {
            last
        };
        lemma_line_before(zero_lines(init, evicted), tail, line);
    }
}

/// A percentile of values in ascending order is the value at its nearest rank: the
/// least one up to which at least that share of the values stands.
pub proof fn law_percentile_is_the_nearest_rank(values: &[u64], p: u8, r: u64, rank: int)
    requires
        call_ensures(percentile_u64, (values, p), r),
        1 <= p <= 100,
        1 <= rank <= values@.len(),
        100 * (rank - 1) < p * values@.len() <= 100 * rank,
    ensures
        r == values@[rank - 1],
{
    lemma_nearest_rank(values@, p as nat, rank);
}

proof fn lemma_nearest_rank(values: Seq<u64>, p: nat, rank: int)
    requires
        1 <= rank <= values.len(),
        100 * (rank - 1) < p * values.len() <= 100 * rank,
    ensures
        percentile(values, p) == values[rank - 1],
{
}

/// The times to the first token are shown by their nearest ranks at one half, 95 and 99
/// in a hundred; the latencies between tokens are those of the latest request.
#[verifier::spinoff_prover]
#[verifier::rlimit(60)]
pub proof fn law_latencies_are_exposed(
    snap: MetricsSnapshot,
    text: String,
    times: Seq<u64>,
    r50: int,
    r95: int,
    r99: int,
)
    requires
        call_ensures(render_prometheus, (&snap,), text),
        forall|i: int, j: int| 0 <= i <= j < times.len() ==> times[i] <= times[j],
        times.to_multiset() == snap.ttft_samples@.map_values(
            |x: crate::openai::generate::TtftSample| x.ttft_ms,
        ).to_multiset(),
        1 <= r50 <= times.len(),
        1 <= r95 <= times.len(),
        1 <= r99 <= times.len(),
        100 * (r50 - 1) < 50 * times.len() <= 100 * r50,
        100 * (r95 - 1) < 95 * times.len() <= 100 * r95,
        100 * (r99 - 1) < 99 * times.len() <= 100 * r99,
    ensures
        has_line(
            text@,
            line_of("rmlx_ttft_ms"@, "quantile"@, "0.50"@, decimal(times[r50 - 1] as nat)),
        ),
        has_line(
            text@,
            line_of("rmlx_ttft_ms"@, "quantile"@, "0.95"@, decimal(times[r95 - 1] as nat)),
        ),
        has_line(
            text@,
            line_of("rmlx_ttft_ms"@, "quantile"@, "0.99"@, decimal(times[r99 - 1] as nat)),
        ),
{
    let s = snap@;
    let raw = ttft_values(s.ttft);
    assert(raw =~= snap.ttft_samples@.map_values(
        |x: crate::openai::generate::TtftSample| x.ttft_ms,
    ));
    assert(is_sorted_from(times, raw));
    let t = ascending_of(raw);
    assert(is_sorted_from(t, raw));
    lemma_sorted_unique(t, times);
    lemma_nearest_rank(times, 50, r50);
    lemma_nearest_rank(times, 95, r95);
    lemma_nearest_rank(times, 99, r99);
    let name = "rmlx_ttft_ms"@;
    let help = "Time to first token in milliseconds (from ring buffer)."@;
    let h = header(name, help, "gauge"@);
    lemma_header_ends(name, help, "gauge"@);
    let (l1, l2, l3) = (
        label("quantile"@, "0.50"@),
        label("quantile"@, "0.95"@),
        label("quantile"@, "0.99"@),
    );
    let v1 = decimal(times[r50 - 1] as nat);
    let v2 = decimal(times[r95 - 1] as nat);
    let v3 = decimal(times[r99 - 1] as nat);
    lemma_last_two(h, name, l1, v1, name, l2, v2);
    let two = h + sample(name, l1, v1) + sample(name, l2, v2);
    lemma_line_before(two, sample(name, l3, v3), name + l1 + " "@ + v1);
    lemma_line_before(two, sample(name, l3, v3), name + l2 + " "@ + v2);
    lemma_sample_line(name, l3, v3);
    lemma_line_behind(two, sample(name, l3, v3), name + l3 + " "@ + v3);
    lemma_exposed(s, 7, line_of(name, "quantile"@, "0.50"@, v1));
    lemma_exposed(s, 7, line_of(name, "quantile"@, "0.95"@, v2));
    lemma_exposed(s, 7, line_of(name, "quantile"@, "0.99"@, v3));
}

/// The latencies between tokens that are shown are the median and the 95th percentile
/// of the latest request.
#[verifier::spinoff_prover]
#[verifier::rlimit(60)]
pub proof fn law_latest_latencies_are_exposed(snap: MetricsSnapshot, text: String)
    requires
        call_ensures(render_prometheus, (&snap,), text),
        snap.itl_samples@.len() > 0,
    ensures
        has_line(
            text@,
            line_of(
                "rmlx_itl_ms"@,
                "quantile"@,
                "0.50"@,
                snap.itl_samples@.last().p50_ms.text@,
            ),
        ),
        has_line(
            text@,
            line_of(
                "rmlx_itl_ms"@,
                "quantile"@,
                "0.95"@,
                snap.itl_samples@.last().p95_ms.text@,
            ),
        ),
{
    let s = snap@;
    let name = "rmlx_itl_ms"@;
    let help = "Inter-token latency in milliseconds (last request)."@;
    assert(s.itl.last() == snap.itl_samples@.last()@);
    lemma_header_ends(name, help, "gauge"@);
    let (v1, v2) = (s.itl.last().p50_ms.text, s.itl.last().p95_ms.text);
    lemma_last_two(
        header(name, help, "gauge"@),
        name,
        label("quantile"@, "0.50"@),
        v1,
        name,
        label("quantile"@, "0.95"@),
        v2,
    );
    lemma_exposed(s, 8, line_of(name, "quantile"@, "0.50"@, v1));
    lemma_exposed(s, 8, line_of(name, "quantile"@, "0.95"@, v2));
}

/// The durations of spills and of hydrations are shown as histograms under their own
/// names: each bucket with its bound and its count, then all durations, their sum and
/// their number.
#[verifier::spinoff_prover]
#[verifier::rlimit(60)]
pub proof fn law_durations_are_exposed(snap: MetricsSnapshot, text: String, i: int)
    requires
        call_ensures(render_prometheus, (&snap,), text),
    ensures
        snap.ssd.spill.count > 0 || snap.ssd.hydrate.count > 0 || snap.ssd.bytes_used@.len() > 0
            || snap.ssd.evict_total@.len() > 0 ==> {
            let h = snap.ssd.spill;
            &&& has_line(text@, bare_line("rmlx_ssd_spill_us"@ + "_sum"@, decimal(h.sum_us as nat)))
            &&& has_line(text@, bare_line("rmlx_ssd_spill_us"@ + "_count"@, decimal(h.count as nat)))
            &&& has_line(
                text@,
                line_of(
                    "rmlx_ssd_spill_us"@ + "_bucket"@,
                    "le"@,
                    "+Inf"@,
                    decimal(h.count as nat),
                ),
            )
            &&& 0 <= i < h.buckets@.len() ==> has_line(
                text@,
                line_of(
                    "rmlx_ssd_spill_us"@ + "_bucket"@,
                    "le"@,
                    decimal(h.buckets@[i].0 as nat),
                    decimal(h.buckets@[i].1 as nat),
                ),
            )
        },
        snap.ssd.hydrate.count > 0 ==> {
            let h = snap.ssd.hydrate;
            &&& has_line(
                text@,
                bare_line("rmlx_ssd_hydrate_us"@ + "_sum"@, decimal(h.sum_us as nat)),
            )
            &&& has_line(
                text@,
                bare_line("rmlx_ssd_hydrate_us"@ + "_count"@, decimal(h.count as nat)),
            )
            &&& has_line(
                text@,
                line_of(
                    "rmlx_ssd_hydrate_us"@ + "_bucket"@,
                    "le"@,
                    "+Inf"@,
                    decimal(h.count as nat),
                ),
            )
            &&& 0 <= i < h.buckets@.len() ==> has_line(
                text@,
                line_of(
                    "rmlx_ssd_hydrate_us"@ + "_bucket"@,
                    "le"@,
                    decimal(h.buckets@[i].0 as nat),
                    decimal(h.buckets@[i].1 as nat),
                ),
            )
        },
{
    let s = snap@;
    let t = s.ssd;
    assert(t.bytes_used.len() == snap.ssd.bytes_used@.len());
    assert(t.evict_total.len() == snap.ssd.evict_total@.len());
    let n1 = "rmlx_ssd_spill_us"@;
    let n2 = "rmlx_ssd_hydrate_us"@;
    lemma_histogram_lines(n1, "Per-spill duration in microseconds."@, t.spill, i);
    lemma_histogram_lines(n2, "Per-hydrate duration in microseconds."@, t.hydrate, i);
    if tier_active(t) {
        lemma_spill_exposed(s, bare_line(n1 + "_sum"@, decimal(t.spill.sum_us as nat)));
        lemma_spill_exposed(s, bare_line(n1 + "_count"@, decimal(t.spill.count as nat)));
        lemma_spill_exposed(
            s,
            line_of(n1 + "_bucket"@, "le"@, "+Inf"@, decimal(t.spill.count as nat)),
        );
        if 0 <= i < t.spill.buckets.len() {
            let b = t.spill.buckets[i];
            lemma_spill_exposed(
                s,
                line_of(n1 + "_bucket"@, "le"@, decimal(b.0 as nat), decimal(b.1 as nat)),
            );
        }
    }
    if t.hydrate.count > 0 {
        lemma_hydrate_exposed(s, bare_line(n2 + "_sum"@, decimal(t.hydrate.sum_us as nat)));
        lemma_hydrate_exposed(s, bare_line(n2 + "_count"@, decimal(t.hydrate.count as nat)));
        lemma_hydrate_exposed(
            s,
            line_of(n2 + "_bucket"@, "le"@, "+Inf"@, decimal(t.hydrate.count as nat)),
        );
        if 0 <= i < t.hydrate.buckets.len() {
            let b = t.hydrate.buckets[i];
            lemma_hydrate_exposed(
                s,
                line_of(n2 + "_bucket"@, "le"@, decimal(b.0 as nat), decimal(b.1 as nat)),
            );
        }
    }
}

/// What stands in the histogram of spills stands in the exposition.
#[verifier::spinoff_prover]
#[verifier::rlimit(40)]
proof fn lemma_spill_exposed(s: SnapshotV, line: Seq<char>)
    requires
        tier_active(s.ssd),
        has_line(
            histogram("rmlx_ssd_spill_us"@, "Per-spill duration in microseconds."@, s.ssd.spill),
            line,
        ),
    ensures
        has_line(exposition(s), line),
{
    let spill = histogram(
        "rmlx_ssd_spill_us"@,
        "Per-spill duration in microseconds."@,
        s.ssd.spill,
    );
    let hydrate = if s.ssd.hydrate.count > 0 {
        histogram(
            "rmlx_ssd_hydrate_us"@,
            "Per-hydrate duration in microseconds."@,
            s.ssd.hydrate,
        )
    } else {
        Seq::empty()
    };
    lemma_line_before(spill, hydrate, line);
    assert(section(s, 15) == spill + hydrate);
    lemma_exposed(s, 15, line);
}

/// What stands in the histogram of hydrations stands in the exposition.
#[verifier::spinoff_prover]
#[verifier::rlimit(40)]
proof fn lemma_hydrate_exposed(s: SnapshotV, line: Seq<char>)
    requires
        s.ssd.hydrate.count > 0,
        has_line(
            histogram(
                "rmlx_ssd_hydrate_us"@,
                "Per-hydrate duration in microseconds."@,
                s.ssd.hydrate,
            ),
            line,
        ),
    ensures
        has_line(exposition(s), line),
{
    let spill = histogram(
        "rmlx_ssd_spill_us"@,
        "Per-spill duration in microseconds."@,
        s.ssd.spill,
    );
    let hydrate = histogram(
        "rmlx_ssd_hydrate_us"@,
        "Per-hydrate duration in microseconds."@,
        s.ssd.hydrate,
    );
    lemma_histogram_ends(
        "rmlx_ssd_spill_us"@,
        "Per-spill duration in microseconds."@,
        s.ssd.spill,
    );
    lemma_line_behind(spill, hydrate, line);
    assert(section(s, 15) == spill + hydrate);
    lemma_exposed(s, 15, line);
}

#[verifier::spinoff_prover]
#[verifier::rlimit(40)]
proof fn lemma_histogram_lines(name: Seq<char>, help: Seq<char>, h: HistV, i: int)
    ensures
        has_line(histogram(name, help, h), bare_line(name + "_sum"@, decimal(h.sum_us as nat))),
        has_line(histogram(name, help, h), bare_line(name + "_count"@, decimal(h.count as nat))),
        has_line(
            histogram(name, help, h),
            line_of(name + "_bucket"@, "le"@, "+Inf"@, decimal(h.count as nat)),
        ),
        0 <= i < h.buckets.len() ==> has_line(
            histogram(name, help, h),
            line_of(
                name + "_bucket"@,
                "le"@,
                decimal(h.buckets[i].0 as nat),
                decimal(h.buckets[i].1 as nat),
            ),
        ),
{
    let head = header(name, help, "histogram"@);
    let buckets = bucket_lines(name, h.buckets);
    let (bn, bl, v) = (name + "_bucket"@, label("le"@, "+Inf"@), decimal(h.count as nat));
    let all = sample(bn, bl, v);
    let sum = sample(name + "_sum"@, ""@, decimal(h.sum_us as nat));
    let count = sample(name + "_count"@, ""@, v);
    lemma_header_ends(name, help, "histogram"@);
    lemma_buckets_hold(name, h.buckets, i);
    lemma_line_ended(head, buckets);
    lemma_last_two(head + buckets, bn, bl, v, name + "_sum"@, ""@, decimal(h.sum_us as nat));
    let inf = line_of(bn, "le"@, "+Inf"@, v);
    let sum_line = bare_line(name + "_sum"@, decimal(h.sum_us as nat));
    let count_line = bare_line(name + "_count"@, v);
    lemma_line_before(head + buckets + all + sum, count, inf);
    lemma_bare_line(name + "_sum"@, decimal(h.sum_us as nat));
    lemma_sample_ends(bn, bl, v);
    lemma_line_ended(head + buckets, all);
    lemma_line_behind(head + buckets + all, sum, sum_line);
    lemma_line_before(head + buckets + all + sum, count, sum_line);
    lemma_bare_line(name + "_count"@, v);
    lemma_line_behind(head + buckets + all + sum, count, count_line);
    if 0 <= i < h.buckets.len() {
        let line = line_of(
            bn,
            "le"@,
            decimal(h.buckets[i].0 as nat),
            decimal(h.buckets[i].1 as nat),
        );
        lemma_line_behind(head, buckets, line);
        lemma_line_before(head + buckets, all, line);
        lemma_line_before(head + buckets + all, sum, line);
        lemma_line_before(head + buckets + all + sum, count, line);
    }
}

proof fn lemma_buckets_hold(name: Seq<char>, bs: Seq<(u64, u64)>, i: int)
    ensures
        line_ended(bucket_lines(name, bs)),
        0 <= i < bs.len() ==> has_line(
            bucket_lines(name, bs),
            line_of(
                name + "_bucket"@,
                "le"@,
                decimal(bs[i].0 as nat),
                decimal(bs[i].1 as nat),
            ),
        ),
    decreases bs.len(),
{
    if bs.len() > 0 {
        let init = bs.drop_last();
        let bn = name + "_bucket"@;
        let (l, v) = (label("le"@, decimal(bs.last().0 as nat)), decimal(bs.last().1 as nat));
        lemma_buckets_hold(name, init, i);
        lemma_sample_ends(bn, l, v);
        lemma_line_ended(bucket_lines(name, init), sample(bn, l, v));
        if 0 <= i < bs.len() {
            let line = line_of(
                bn,
                "le"@,
                decimal(bs[i].0 as nat),
                decimal(bs[i].1 as nat),
            );
            if i == bs.len() - 1 {
                lemma_sample_line(bn, l, v);
                lemma_line_behind(bucket_lines(name, init), sample(bn, l, v), line);
            } else {
                assert(init[i] == bs[i]);
                lemma_line_before(bucket_lines(name, init), sample(bn, l, v), line);
            }
        }
    }
}

// ── Nothing else ─────────────────────────────────────────────────────────────

/// The text of lines, each ended by a line break.
pub open spec fn lines_text(ls: Seq<Seq<char>>) -> Seq<char>
    decreases ls.len(),
{
    if ls.len() == 0 {
        Seq::empty()
    } else {
        lines_text(ls.drop_last()) + ls.last() + "\n"@
    }
}

/// The two lines that say what a metric measures and of which type it is.
pub open spec fn introduction(name: Seq<char>, help: Seq<char>, kind: Seq<char>) -> Seq<Seq<char>> {
    seq!["# HELP "@ + name + " "@ + help].push("# TYPE "@ + name + " "@ + kind)
}

/// The lines of labelled numbers.
pub open spec fn lines_of_labelled(name: Seq<char>, key: Seq<char>, vs: Seq<Labelled>) -> Seq<
    Seq<char>,
> {
    Seq::new(vs.len(), |i: int| line_of(name, key, vs[i].label@, decimal(vs[i].value as nat)))
}

/// The lines of a model in the section of a metric.
pub open spec fn lines_of_model(which: ModelMetric, m: ModelMetrics) -> Seq<Seq<char>> {
    let id = m.model_id@;
    match which {
        ModelMetric::CacheResults => match m.stats {
            Some(st) => seq![
                result_line("rmlx_prompt_cache_total"@, id, "hit"@, decimal(st.hits as nat)),
            ].push(
                result_line("rmlx_prompt_cache_total"@, id, "miss"@, decimal(st.misses as nat)),
            ),
            None => Seq::empty(),
        },
        ModelMetric::SsdHits => match m.stats {
            Some(st) => seq![
                line_of(
                    "rmlx_prompt_cache_ssd_hits_total"@,
                    "model"@,
                    id,
                    decimal(st.ssd_hits as nat),
                ),
            ],
            None => Seq::empty(),
        },
        ModelMetric::CacheBytes => match m.stats {
            Some(st) => seq![
                line_of("rmlx_prompt_cache_bytes"@, "model"@, id, decimal(st.bytes as nat)),
            ],
            None => Seq::empty(),
        },
        ModelMetric::KvCacheBytes => if m.kv_cache_bytes > 0 {
            seq![line_of("rmlx_kv_cache_bytes"@, "model"@, id, decimal(m.kv_cache_bytes as nat))]
        } else {
            Seq::empty()
        },
        ModelMetric::MetalPeak => match m.metal_peak_alloc_bytes {
            Some(n) => seq![
                line_of("rmlx_metal_peak_alloc_bytes"@, "model"@, id, decimal(n as nat)),
            ],
            None => Seq::empty(),
        },
    }
}

/// The lines of all models in the section of a metric, in order.
pub open spec fn lines_of_models(which: ModelMetric, ms: Seq<ModelMetrics>) -> Seq<Seq<char>>
    decreases ms.len(),
{
    if ms.len() == 0 {
        Seq::empty()
    } else {
        lines_of_models(which, ms.drop_last()) + lines_of_model(which, ms.last())
    }
}

/// The lines of zero for namespaces without evictions.
pub open spec fn lines_of_zeros(used: Seq<Labelled>, evicted: Seq<Labelled>) -> Seq<Seq<char>>
    decreases used.len(),
{
    if used.len() == 0 {
        Seq::empty()
    } else {
        let before = lines_of_zeros(used.drop_last(), evicted);
        if exists|k: int|
            0 <= k < evicted.len() && (#[trigger] evicted[k]).label@ == used.last().label@ {
            before
        } else {
            before.push(
                line_of("rmlx_ssd_evict_total"@, "namespace"@, used.last().label@, "0"@),
            )
        }
    }
}

/// The lines of a histogram.
pub open spec fn lines_of_histogram(name: Seq<char>, help: Seq<char>, h: SsdHistogram) -> Seq<
    Seq<char>,
> {
    introduction(name, help, "histogram"@) + Seq::new(
        h.buckets@.len(),
        |i: int|
            line_of(
                name + "_bucket"@,
                "le"@,
                decimal(h.buckets@[i].0 as nat),
                decimal(h.buckets@[i].1 as nat),
            ),
    ).push(line_of(name + "_bucket"@, "le"@, "+Inf"@, decimal(h.count as nat))).push(
        bare_line(name + "_sum"@, decimal(h.sum_us as nat)),
    ).push(bare_line(name + "_count"@, decimal(h.count as nat)))
}

/// The lines of the section at this place of the exposition. `times` holds the times to
/// the first token in ascending order.
pub open spec fn shown(snap: MetricsSnapshot, times: Seq<u64>, i: int) -> Seq<Seq<char>> {
    if i == 0 {
        introduction(
            "rmlx_lifetime_tokens_total"@,
            "Lifetime cumulative token count since server start."@,
            "counter"@,
        ).push(
            line_of(
                "rmlx_lifetime_tokens_total"@,
                "direction"@,
                "in"@,
                decimal(snap.tokens_in as nat),
            ),
        ).push(
            line_of(
                "rmlx_lifetime_tokens_total"@,
                "direction"@,
                "out"@,
                decimal(snap.tokens_out as nat),
            ),
        )
    } else if i == 1 {
        introduction(
            "rmlx_api_errors_total"@,
            "Lifetime API error count by category since server start."@,
            "counter"@,
        ) + lines_of_labelled("rmlx_api_errors_total"@, "category"@, snap.error_counts@)
    } else if i == 2 {
        introduction(
            "rmlx_prompt_cache_total"@,
            "Lifetime prompt-cache result count."@,
            "counter"@,
        ) + lines_of_models(ModelMetric::CacheResults, snap.models@)
    } else if i == 3 {
        introduction(
            "rmlx_prompt_cache_ssd_hits_total"@,
            "Lifetime RAM-miss-served-from-SSD count."@,
            "counter"@,
        ) + lines_of_models(ModelMetric::SsdHits, snap.models@)
    } else if i == 4 {
        introduction(
            "rmlx_prompt_cache_bytes"@,
            "Current prompt-cache memory usage in bytes."@,
            "gauge"@,
        ) + lines_of_models(ModelMetric::CacheBytes, snap.models@)
    } else if i == 5 {
        introduction(
            "rmlx_kv_cache_bytes"@,
            "Last-request KV-cache allocation in bytes."@,
            "gauge"@,
        ) + lines_of_models(ModelMetric::KvCacheBytes, snap.models@)
    } else if i == 6 {
        introduction(
            "rmlx_metal_peak_alloc_bytes"@,
            "Metal allocator peak allocation in bytes."@,
            "gauge"@,
        ) + lines_of_models(ModelMetric::MetalPeak, snap.models@)
    } else if i == 7 {
        if times.len() == 0 {
            Seq::empty()
        } else {
            introduction(
                "rmlx_ttft_ms"@,
                "Time to first token in milliseconds (from ring buffer)."@,
                "gauge"@,
            ).push(
                line_of(
                    "rmlx_ttft_ms"@,
                    "quantile"@,
                    "0.50"@,
                    decimal(times[(50 * times.len() + 99) / 100 - 1] as nat),
                ),
            ).push(
                line_of(
                    "rmlx_ttft_ms"@,
                    "quantile"@,
                    "0.95"@,
                    decimal(times[(95 * times.len() + 99) / 100 - 1] as nat),
                ),
            ).push(
                line_of(
                    "rmlx_ttft_ms"@,
                    "quantile"@,
                    "0.99"@,
                    decimal(times[(99 * times.len() + 99) / 100 - 1] as nat),
                ),
            )
        }
    } else if i == 8 {
        if snap.itl_samples@.len() == 0 {
            Seq::empty()
        } else {
            introduction(
                "rmlx_itl_ms"@,
                "Inter-token latency in milliseconds (last request)."@,
                "gauge"@,
            ).push(
                line_of(
                    "rmlx_itl_ms"@,
                    "quantile"@,
                    "0.50"@,
                    snap.itl_samples@.last().p50_ms.text@,
                ),
            ).push(
                line_of(
                    "rmlx_itl_ms"@,
                    "quantile"@,
                    "0.95"@,
                    snap.itl_samples@.last().p95_ms.text@,
                ),
            )
        }
    } else if i == 9 {
        match snap.proc_mem {
            None => Seq::empty(),
            Some(m) => introduction(
                "rmlx_process_rss_bytes"@,
                "Process resident set size in bytes."@,
                "gauge"@,
            ).push(bare_line("rmlx_process_rss_bytes"@, decimal(m.rss_bytes as nat)))
                + introduction(
                "rmlx_process_phys_footprint_bytes"@,
                "Process physical memory footprint in bytes (Activity Monitor metric)."@,
                "gauge"@,
            ).push(
                bare_line(
                    "rmlx_process_phys_footprint_bytes"@,
                    decimal(m.phys_footprint_bytes as nat),
                ),
            ),
        }
    } else if i == 10 {
        introduction(
            "rmlx_uptime_seconds"@,
            "Server uptime in seconds since start."@,
            "gauge"@,
        ).push(bare_line("rmlx_uptime_seconds"@, snap.uptime_s.text@)) + introduction(
            "rmlx_in_flight"@,
            "Current number of in-flight (admitted) requests."@,
            "gauge"@,
        ).push(bare_line("rmlx_in_flight"@, decimal(snap.in_flight as nat)))
    } else if i == 11 {
        match snap.avg_decode_tok_s {
            None => Seq::empty(),
            Some(t) => introduction(
                "rmlx_avg_decode_tok_s"@,
                "Mean decode throughput in tokens/s (avg of ITL ring, formula: 1000/mean_itl_ms)."@,
                "gauge"@,
            ).push(bare_line("rmlx_avg_decode_tok_s"@, t@)),
        }
    } else if i == 12 {
        introduction(
            "rmlx_requests_total"@,
            "Lifetime request count by outcome since server start."@,
            "counter"@,
        ).push(
            line_of(
                "rmlx_requests_total"@,
                "outcome"@,
                "started"@,
                decimal(snap.requests_started as nat),
            ),
        ).push(
            line_of(
                "rmlx_requests_total"@,
                "outcome"@,
                "completed"@,
                decimal(snap.requests_completed as nat),
            ),
        ).push(
            line_of(
                "rmlx_requests_total"@,
                "outcome"@,
                "failed"@,
                decimal(snap.requests_failed as nat),
            ),
        )
    } else if i == 13 {
        if snap.ssd.bytes_used@.len() == 0 {
            Seq::empty()
        } else {
            introduction(
                "rmlx_ssd_bytes_used"@,
                "Current on-disk KV-block cache footprint in bytes."@,
                "gauge"@,
            ) + lines_of_labelled("rmlx_ssd_bytes_used"@, "namespace"@, snap.ssd.bytes_used@)
        }
    } else if i == 14 {
        if !disk_in_use(snap) {
            Seq::empty()
        } else {
            introduction(
                "rmlx_ssd_evict_total"@,
                "Lifetime SSD-tier LRU eviction count."@,
                "counter"@,
            ) + lines_of_labelled("rmlx_ssd_evict_total"@, "namespace"@, snap.ssd.evict_total@)
                + lines_of_zeros(snap.ssd.bytes_used@, snap.ssd.evict_total@)
        }
    } else {
        (if disk_in_use(snap) {
            lines_of_histogram(
                "rmlx_ssd_spill_us"@,
                "Per-spill duration in microseconds."@,
                snap.ssd.spill,
            )
        } else {
            Seq::empty()
        }) + if snap.ssd.hydrate.count > 0 {
            lines_of_histogram(
                "rmlx_ssd_hydrate_us"@,
                "Per-hydrate duration in microseconds."@,
                snap.ssd.hydrate,
            )
        } else {
            Seq::empty()
        }
    }
}

/// The disk tier holds something or has done something.
pub open spec fn disk_in_use(snap: MetricsSnapshot) -> bool {
    snap.ssd.bytes_used@.len() > 0 || snap.ssd.evict_total@.len() > 0 || snap.ssd.spill.count > 0
        || snap.ssd.hydrate.count > 0
}

/// The lines of the first sections, one behind the other.
pub open spec fn shown_until(snap: MetricsSnapshot, times: Seq<u64>, n: nat) -> Seq<Seq<char>>
    decreases n,
{
    if n == 0 {
        Seq::empty()
    } else {
        shown_until(snap, times, (n - 1) as nat) + shown(snap, times, n - 1)
    }
}

proof fn lemma_lines_add(a: Seq<Seq<char>>, b: Seq<Seq<char>>)
    ensures
        lines_text(a + b) == lines_text(a) + lines_text(b),
    decreases b.len(),
{
    if b.len() == 0 {
        assert(a + b =~= a);
        assert(lines_text(a) + Seq::<char>::empty() =~= lines_text(a));
    } else {
        assert((a + b).drop_last() =~= a + b.drop_last());
        assert((a + b).last() == b.last());
        lemma_lines_add(a, b.drop_last());
        assert(lines_text(a + b) =~= lines_text(a) + lines_text(b));
    }
}

proof fn lemma_lines_push(a: Seq<Seq<char>>, line: Seq<char>)
    ensures
        lines_text(a.push(line)) == lines_text(a) + (line + "\n"@),
{
    assert(a.push(line).drop_last() =~= a);
    assert(lines_text(a.push(line)) =~= lines_text(a) + (line + "\n"@));
}

proof fn lemma_one_shown(line: Seq<char>)
    ensures
        lines_text(seq![line]) == line + "\n"@,
{
    let none = Seq::<Seq<char>>::empty();
    lemma_lines_push(none, line);
    assert(none.push(line) =~= seq![line]);
    assert(Seq::<char>::empty() + (line + "\n"@) =~= line + "\n"@);
}

proof fn lemma_introduction(name: Seq<char>, help: Seq<char>, kind: Seq<char>)
    ensures
        lines_text(introduction(name, help, kind)) == header(name, help, kind),
{
    reveal_strlit("\n# TYPE ");
    reveal_strlit("\n");
    reveal_strlit("# TYPE ");
    assert("\n# TYPE "@ =~= "\n"@ + "# TYPE "@);
    let first = "# HELP "@ + name + " "@ + help;
    let second = "# TYPE "@ + name + " "@ + kind;
    lemma_one_shown(first);
    lemma_lines_push(seq![first], second);
    assert(header(name, help, kind) =~= first + "\n"@ + (second + "\n"@));
}

/// A pushed line is the sample behind what was before.
proof fn lemma_push_labelled(
    a: Seq<Seq<char>>,
    name: Seq<char>,
    key: Seq<char>,
    value: Seq<char>,
    number: Seq<char>,
)
    ensures
        lines_text(a.push(line_of(name, key, value, number))) == lines_text(a) + sample(
            name,
            label(key, value),
            number,
        ),
{
    lemma_lines_push(a, line_of(name, key, value, number));
    assert(line_of(name, key, value, number) + "\n"@ =~= sample(name, label(key, value), number));
}

proof fn lemma_push_bare(a: Seq<Seq<char>>, name: Seq<char>, number: Seq<char>)
    ensures
        lines_text(a.push(bare_line(name, number))) == lines_text(a) + sample(name, ""@, number),
{
    reveal_strlit("");
    lemma_lines_push(a, bare_line(name, number));
    assert(bare_line(name, number) + "\n"@ =~= sample(name, ""@, number));
}

proof fn lemma_labelled_shown(name: Seq<char>, key: Seq<char>, vs: Seq<Labelled>)
    ensures
        lines_text(lines_of_labelled(name, key, vs)) == labelled_lines(name, key, views(vs)),
    decreases vs.len(),
{
    let all = lines_of_labelled(name, key, vs);
    if vs.len() == 0 {
        assert(all =~= Seq::empty());
        assert(views(vs) =~= Seq::empty());
    } else {
        let init = vs.drop_last();
        let last = vs.last();
        lemma_labelled_shown(name, key, init);
        assert(views(vs).drop_last() =~= views(init));
        assert(views(vs).last() == last@);
        assert(all =~= lines_of_labelled(name, key, init).push(
            line_of(name, key, last.label@, decimal(last.value as nat)),
        ));
        lemma_push_labelled(
            lines_of_labelled(name, key, init),
            name,
            key,
            last.label@,
            decimal(last.value as nat),
        );
    }
}

proof fn lemma_model_shown(which: ModelMetric, m: ModelMetrics)
    ensures
        lines_text(lines_of_model(which, m)) == model_lines(which, m@),
{
    law_model_shows_only_its_numbers(m@);
    let ls = lines_of_model(which, m);
    if ls.len() == 1 {
        lemma_one_shown(ls[0]);
        assert(ls =~= seq![ls[0]]);
    } else if ls.len() == 2 {
        lemma_one_shown(ls[0]);
        lemma_lines_push(seq![ls[0]], ls[1]);
        assert(ls =~= seq![ls[0]].push(ls[1]));
        assert(ls[0] + "\n"@ + ls[1] + "\n"@ =~= ls[0] + "\n"@ + (ls[1] + "\n"@));
    } else {
        assert(ls =~= Seq::empty());
        assert(model_lines(which, m@) =~= Seq::empty());
    }
}

proof fn lemma_models_shown(which: ModelMetric, ms: Seq<ModelMetrics>)
    ensures
        lines_text(lines_of_models(which, ms)) == models_lines(which, views(ms)),
    decreases ms.len(),
{
    if ms.len() == 0 {
        assert(views(ms) =~= Seq::empty());
    } else {
        let init = ms.drop_last();
        lemma_models_shown(which, init);
        assert(views(ms).drop_last() =~= views(init));
        assert(views(ms).last() == ms.last()@);
        lemma_model_shown(which, ms.last());
        lemma_lines_add(lines_of_models(which, init), lines_of_model(which, ms.last()));
    }
}

proof fn lemma_zeros_shown(used: Seq<Labelled>, evicted: Seq<Labelled>)
    ensures
        lines_text(lines_of_zeros(used, evicted)) == zero_lines(views(used), views(evicted)),
    decreases used.len(),
{
    if used.len() == 0 {
        assert(views(used) =~= Seq::empty());
    } else {
        let init = used.drop_last();
        let name = used.last().label@;
        lemma_zeros_shown(init, evicted);
        assert(views(used).drop_last() =~= views(init));
        assert(views(used).last() == used.last()@);
        let there = exists|k: int| 0 <= k < evicted.len() && (#[trigger] evicted[k]).label@ == name;
        assert(has_label(views(evicted), name) == there) by {
            if there {
                let k = choose|k: int|
                    0 <= k < evicted.len() && (#[trigger] evicted[k]).label@ == name;
                assert(views(evicted)[k] == evicted[k]@);
            }
            if has_label(views(evicted), name) {
                let k = choose|k: int|
                    0 <= k < views(evicted).len() && (#[trigger] views(evicted)[k]).0 == name;
                assert(views(evicted)[k] == evicted[k]@);
            }
        }
        lemma_push_labelled(
            lines_of_zeros(init, evicted),
            "rmlx_ssd_evict_total"@,
            "namespace"@,
            name,
            "0"@,
        );
        assert(zero_lines(views(init), views(evicted)) + Seq::<char>::empty() =~= zero_lines(
            views(init),
            views(evicted),
        ));
    }
}

proof fn lemma_buckets_shown(name: Seq<char>, bs: Seq<(u64, u64)>)
    ensures
        lines_text(
            Seq::new(
                bs.len(),
                |i: int|
                    line_of(
                        name + "_bucket"@,
                        "le"@,
                        decimal(bs[i].0 as nat),
                        decimal(bs[i].1 as nat),
                    ),
            ),
        ) == bucket_lines(name, bs),
    decreases bs.len(),
{
    let all = Seq::new(
        bs.len(),
        |i: int|
            line_of(name + "_bucket"@, "le"@, decimal(bs[i].0 as nat), decimal(bs[i].1 as nat)),
    );
    if bs.len() == 0 {
        assert(all =~= Seq::empty());
    } else {
        let init = bs.drop_last();
        let before = Seq::new(
            init.len(),
            |i: int|
                line_of(
                    name + "_bucket"@,
                    "le"@,
                    decimal(init[i].0 as nat),
                    decimal(init[i].1 as nat),
                ),
        );
        lemma_buckets_shown(name, init);
        assert(all =~= before.push(
            line_of(
                name + "_bucket"@,
                "le"@,
                decimal(bs.last().0 as nat),
                decimal(bs.last().1 as nat),
            ),
        ));
        lemma_push_labelled(
            before,
            name + "_bucket"@,
            "le"@,
            decimal(bs.last().0 as nat),
            decimal(bs.last().1 as nat),
        );
    }
}

proof fn lemma_histogram_shown(name: Seq<char>, help: Seq<char>, h: SsdHistogram)
    ensures
        lines_text(lines_of_histogram(name, help, h)) == histogram(name, help, h@),
{
    let head = introduction(name, help, "histogram"@);
    let bs = Seq::new(
        h.buckets@.len(),
        |i: int|
            line_of(
                name + "_bucket"@,
                "le"@,
                decimal(h.buckets@[i].0 as nat),
                decimal(h.buckets@[i].1 as nat),
            ),
    );
    let v = decimal(h.count as nat);
    let l1 = line_of(name + "_bucket"@, "le"@, "+Inf"@, v);
    let l2 = bare_line(name + "_sum"@, decimal(h.sum_us as nat));
    let l3 = bare_line(name + "_count"@, v);
    lemma_introduction(name, help, "histogram"@);
    lemma_buckets_shown(name, h.buckets@);
    lemma_lines_add(head, bs);
    lemma_push_labelled(head + bs, name + "_bucket"@, "le"@, "+Inf"@, v);
    lemma_push_bare((head + bs).push(l1), name + "_sum"@, decimal(h.sum_us as nat));
    lemma_push_bare((head + bs).push(l1).push(l2), name + "_count"@, v);
    assert(lines_of_histogram(name, help, h) =~= (head + bs).push(l1).push(l2).push(l3));
}

#[verifier::spinoff_prover]
#[verifier::rlimit(40)]
proof fn lemma_shown_0(snap: MetricsSnapshot, times: Seq<u64>)
    requires
        times == ascending_of(ttft_values(snap@.ttft)),
    ensures
        section(snap@, 0) == lines_text(shown(snap, times, 0)),
{
    let name = "rmlx_lifetime_tokens_total"@;
    let head = introduction(name, "Lifetime cumulative token count since server start."@, "counter"@);
    lemma_introduction(name, "Lifetime cumulative token count since server start."@, "counter"@);
    lemma_push_labelled(head, name, "direction"@, "in"@, decimal(snap.tokens_in as nat));
    let l1 = head.push(line_of(name, "direction"@, "in"@, decimal(snap.tokens_in as nat)));
    lemma_push_labelled(l1, name, "direction"@, "out"@, decimal(snap.tokens_out as nat));
}

#[verifier::spinoff_prover]
#[verifier::rlimit(40)]
proof fn lemma_shown_1(snap: MetricsSnapshot, times: Seq<u64>)
    requires
        times == ascending_of(ttft_values(snap@.ttft)),
    ensures
        section(snap@, 1) == lines_text(shown(snap, times, 1)),
{
    let name = "rmlx_api_errors_total"@;
    let help = "Lifetime API error count by category since server start."@;
    lemma_introduction(name, help, "counter"@);
    lemma_labelled_shown(name, "category"@, snap.error_counts@);
    lemma_lines_add(
        introduction(name, help, "counter"@),
        lines_of_labelled(name, "category"@, snap.error_counts@),
    );
}

#[verifier::spinoff_prover]
#[verifier::rlimit(40)]
proof fn lemma_shown_2(snap: MetricsSnapshot, times: Seq<u64>)
    requires
        times == ascending_of(ttft_values(snap@.ttft)),
    ensures
        section(snap@, 2) == lines_text(shown(snap, times, 2)),
{
    let which = ModelMetric::CacheResults;
    lemma_introduction("rmlx_prompt_cache_total"@, "Lifetime prompt-cache result count."@, "counter"@);
    lemma_models_shown(which, snap.models@);
    lemma_lines_add(
        introduction("rmlx_prompt_cache_total"@, "Lifetime prompt-cache result count."@, "counter"@),
        lines_of_models(which, snap.models@),
    );
}

#[verifier::spinoff_prover]
#[verifier::rlimit(40)]
proof fn lemma_shown_3(snap: MetricsSnapshot, times: Seq<u64>)
    requires
        times == ascending_of(ttft_values(snap@.ttft)),
    ensures
        section(snap@, 3) == lines_text(shown(snap, times, 3)),
{
    let which = ModelMetric::SsdHits;
    lemma_introduction("rmlx_prompt_cache_ssd_hits_total"@, "Lifetime RAM-miss-served-from-SSD count."@, "counter"@);
    lemma_models_shown(which, snap.models@);
    lemma_lines_add(
        introduction("rmlx_prompt_cache_ssd_hits_total"@, "Lifetime RAM-miss-served-from-SSD count."@, "counter"@),
        lines_of_models(which, snap.models@),
    );
}

#[verifier::spinoff_prover]
#[verifier::rlimit(40)]
proof fn lemma_shown_4(snap: MetricsSnapshot, times: Seq<u64>)
    requires
        times == ascending_of(ttft_values(snap@.ttft)),
    ensures
        section(snap@, 4) == lines_text(shown(snap, times, 4)),
{
    let which = ModelMetric::CacheBytes;
    lemma_introduction("rmlx_prompt_cache_bytes"@, "Current prompt-cache memory usage in bytes."@, "gauge"@);
    lemma_models_shown(which, snap.models@);
    lemma_lines_add(
        introduction("rmlx_prompt_cache_bytes"@, "Current prompt-cache memory usage in bytes."@, "gauge"@),
        lines_of_models(which, snap.models@),
    );
}

#[verifier::spinoff_prover]
#[verifier::rlimit(40)]
proof fn lemma_shown_5(snap: MetricsSnapshot, times: Seq<u64>)
    requires
        times == ascending_of(ttft_values(snap@.ttft)),
    ensures
        section(snap@, 5) == lines_text(shown(snap, times, 5)),
{
    let which = ModelMetric::KvCacheBytes;
    lemma_introduction("rmlx_kv_cache_bytes"@, "Last-request KV-cache allocation in bytes."@, "gauge"@);
    lemma_models_shown(which, snap.models@);
    lemma_lines_add(
        introduction("rmlx_kv_cache_bytes"@, "Last-request KV-cache allocation in bytes."@, "gauge"@),
        lines_of_models(which, snap.models@),
    );
}

#[verifier::spinoff_prover]
#[verifier::rlimit(40)]
proof fn lemma_shown_6(snap: MetricsSnapshot, times: Seq<u64>)
    requires
        times == ascending_of(ttft_values(snap@.ttft)),
    ensures
        section(snap@, 6) == lines_text(shown(snap, times, 6)),
{
    let which = ModelMetric::MetalPeak;
    lemma_introduction("rmlx_metal_peak_alloc_bytes"@, "Metal allocator peak allocation in bytes."@, "gauge"@);
    lemma_models_shown(which, snap.models@);
    lemma_lines_add(
        introduction("rmlx_metal_peak_alloc_bytes"@, "Metal allocator peak allocation in bytes."@, "gauge"@),
        lines_of_models(which, snap.models@),
    );
}

#[verifier::spinoff_prover]
#[verifier::rlimit(40)]
proof fn lemma_shown_7(snap: MetricsSnapshot, times: Seq<u64>)
    requires
        times == ascending_of(ttft_values(snap@.ttft)),
    ensures
        section(snap@, 7) == lines_text(shown(snap, times, 7)),
{
    if times.len() > 0 {
        let n = times.len();
        let v50 = decimal(times[(50 * n + 99) / 100 - 1] as nat);
        let v95 = decimal(times[(95 * n + 99) / 100 - 1] as nat);
        let v99 = decimal(times[(99 * n + 99) / 100 - 1] as nat);
        assert(percentile(times, 50) == times[(50 * n + 99) / 100 - 1]);
        assert(percentile(times, 95) == times[(95 * n + 99) / 100 - 1]);
        assert(percentile(times, 99) == times[(99 * n + 99) / 100 - 1]);
        let name = "rmlx_ttft_ms"@;
        let head = introduction(name, "Time to first token in milliseconds (from ring buffer)."@, "gauge"@);
        lemma_introduction(name, "Time to first token in milliseconds (from ring buffer)."@, "gauge"@);
        lemma_push_labelled(head, name, "quantile"@, "0.50"@, v50);
        let l1 = head.push(line_of(name, "quantile"@, "0.50"@, v50));
        lemma_push_labelled(l1, name, "quantile"@, "0.95"@, v95);
        let l2 = l1.push(line_of(name, "quantile"@, "0.95"@, v95));
        lemma_push_labelled(l2, name, "quantile"@, "0.99"@, v99);
    }
}

#[verifier::spinoff_prover]
#[verifier::rlimit(40)]
proof fn lemma_shown_8(snap: MetricsSnapshot, times: Seq<u64>)
    requires
        times == ascending_of(ttft_values(snap@.ttft)),
    ensures
        section(snap@, 8) == lines_text(shown(snap, times, 8)),
{
    let itl = snap.itl_samples@;
    assert(snap@.itl.len() == itl.len());
    if itl.len() > 0 {
        assert(snap@.itl.last() == itl.last()@);
        let v50 = itl.last().p50_ms.text@;
        let v95 = itl.last().p95_ms.text@;
        let name = "rmlx_itl_ms"@;
        let head = introduction(name, "Inter-token latency in milliseconds (last request)."@, "gauge"@);
        lemma_introduction(name, "Inter-token latency in milliseconds (last request)."@, "gauge"@);
        lemma_push_labelled(head, name, "quantile"@, "0.50"@, v50);
        let l1 = head.push(line_of(name, "quantile"@, "0.50"@, v50));
        lemma_push_labelled(l1, name, "quantile"@, "0.95"@, v95);
    }
}

#[verifier::spinoff_prover]
#[verifier::rlimit(40)]
proof fn lemma_shown_9(snap: MetricsSnapshot, times: Seq<u64>)
    requires
        times == ascending_of(ttft_values(snap@.ttft)),
    ensures
        section(snap@, 9) == lines_text(shown(snap, times, 9)),
{
    match snap.proc_mem {
        Some(m) => {
            let (n1, n2) = ("rmlx_process_rss_bytes"@, "rmlx_process_phys_footprint_bytes"@);
            let (v1, v2) = (decimal(m.rss_bytes as nat), decimal(m.phys_footprint_bytes as nat));
            let i1 = introduction(n1, "Process resident set size in bytes."@, "gauge"@);
            let i2 = introduction(n2, "Process physical memory footprint in bytes (Activity Monitor metric)."@, "gauge"@);
            lemma_introduction(n1, "Process resident set size in bytes."@, "gauge"@);
            lemma_introduction(n2, "Process physical memory footprint in bytes (Activity Monitor metric)."@, "gauge"@);
            lemma_push_bare(i1, n1, v1);
            lemma_push_bare(i2, n2, v2);
            lemma_lines_add(i1.push(bare_line(n1, v1)), i2.push(bare_line(n2, v2)));
            let a = lines_text(i1) + sample(n1, ""@, v1);
            assert(a + (lines_text(i2) + sample(n2, ""@, v2)) =~= a + lines_text(i2) + sample(
                n2,
                ""@,
                v2,
            ));
        },
        None => {},
    }
}

#[verifier::spinoff_prover]
#[verifier::rlimit(40)]
proof fn lemma_shown_10(snap: MetricsSnapshot, times: Seq<u64>)
    requires
        times == ascending_of(ttft_values(snap@.ttft)),
    ensures
        section(snap@, 10) == lines_text(shown(snap, times, 10)),
{
    let (n1, n2) = ("rmlx_uptime_seconds"@, "rmlx_in_flight"@);
    let (v1, v2) = (snap.uptime_s.text@, decimal(snap.in_flight as nat));
    let i1 = introduction(n1, "Server uptime in seconds since start."@, "gauge"@);
    let i2 = introduction(n2, "Current number of in-flight (admitted) requests."@, "gauge"@);
    lemma_introduction(n1, "Server uptime in seconds since start."@, "gauge"@);
    lemma_introduction(n2, "Current number of in-flight (admitted) requests."@, "gauge"@);
    lemma_push_bare(i1, n1, v1);
    lemma_push_bare(i2, n2, v2);
    lemma_lines_add(i1.push(bare_line(n1, v1)), i2.push(bare_line(n2, v2)));
    let a = lines_text(i1) + sample(n1, ""@, v1);
    assert(a + (lines_text(i2) + sample(n2, ""@, v2)) =~= a + lines_text(i2) + sample(
        n2,
        ""@,
        v2,
    ));
}

#[verifier::spinoff_prover]
#[verifier::rlimit(40)]
proof fn lemma_shown_11(snap: MetricsSnapshot, times: Seq<u64>)
    requires
        times == ascending_of(ttft_values(snap@.ttft)),
    ensures
        section(snap@, 11) == lines_text(shown(snap, times, 11)),
{
    match snap.avg_decode_tok_s {
        Some(t) => {
            let name = "rmlx_avg_decode_tok_s"@;
            let help =
                "Mean decode throughput in tokens/s (avg of ITL ring, formula: 1000/mean_itl_ms)."@;
            lemma_introduction(name, help, "gauge"@);
            lemma_push_bare(introduction(name, help, "gauge"@), name, t@);
        },
        None => {},
    }
}

#[verifier::spinoff_prover]
#[verifier::rlimit(40)]
proof fn lemma_shown_12(snap: MetricsSnapshot, times: Seq<u64>)
    requires
        times == ascending_of(ttft_values(snap@.ttft)),
    ensures
        section(snap@, 12) == lines_text(shown(snap, times, 12)),
{
    let name = "rmlx_requests_total"@;
    let head = introduction(name, "Lifetime request count by outcome since server start."@, "counter"@);
    lemma_introduction(name, "Lifetime request count by outcome since server start."@, "counter"@);
    lemma_push_labelled(head, name, "outcome"@, "started"@, decimal(snap.requests_started as nat));
    let l1 = head.push(line_of(name, "outcome"@, "started"@, decimal(snap.requests_started as nat)));
    lemma_push_labelled(l1, name, "outcome"@, "completed"@, decimal(snap.requests_completed as nat));
    let l2 = l1.push(line_of(name, "outcome"@, "completed"@, decimal(snap.requests_completed as nat)));
    lemma_push_labelled(l2, name, "outcome"@, "failed"@, decimal(snap.requests_failed as nat));
}

#[verifier::spinoff_prover]
#[verifier::rlimit(40)]
proof fn lemma_shown_13(snap: MetricsSnapshot, times: Seq<u64>)
    requires
        times == ascending_of(ttft_values(snap@.ttft)),
    ensures
        section(snap@, 13) == lines_text(shown(snap, times, 13)),
{
    let used = snap.ssd.bytes_used@;
    let name = "rmlx_ssd_bytes_used"@;
    let help = "Current on-disk KV-block cache footprint in bytes."@;
    assert(snap@.ssd.bytes_used.len() == used.len());
    lemma_introduction(name, help, "gauge"@);
    lemma_labelled_shown(name, "namespace"@, used);
    lemma_lines_add(
        introduction(name, help, "gauge"@),
        lines_of_labelled(name, "namespace"@, used),
    );
}

#[verifier::spinoff_prover]
#[verifier::rlimit(40)]
proof fn lemma_shown_14(snap: MetricsSnapshot, times: Seq<u64>)
    requires
        times == ascending_of(ttft_values(snap@.ttft)),
    ensures
        section(snap@, 14) == lines_text(shown(snap, times, 14)),
{
    let (used, evicted) = (snap.ssd.bytes_used@, snap.ssd.evict_total@);
    let name = "rmlx_ssd_evict_total"@;
    let help = "Lifetime SSD-tier LRU eviction count."@;
    assert(snap@.ssd.bytes_used.len() == used.len());
    assert(snap@.ssd.evict_total.len() == evicted.len());
    let head = introduction(name, help, "counter"@);
    let counted = lines_of_labelled(name, "namespace"@, evicted);
    lemma_introduction(name, help, "counter"@);
    lemma_labelled_shown(name, "namespace"@, evicted);
    lemma_zeros_shown(used, evicted);
    lemma_lines_add(head, counted);
    lemma_lines_add(head + counted, lines_of_zeros(used, evicted));
}

#[verifier::spinoff_prover]
#[verifier::rlimit(40)]
proof fn lemma_shown_15(snap: MetricsSnapshot, times: Seq<u64>)
    requires
        times == ascending_of(ttft_values(snap@.ttft)),
    ensures
        section(snap@, 15) == lines_text(shown(snap, times, 15)),
{
    assert(snap@.ssd.bytes_used.len() == snap.ssd.bytes_used@.len());
    assert(snap@.ssd.evict_total.len() == snap.ssd.evict_total@.len());
    let none = Seq::<Seq<char>>::empty();
    let spill = if disk_in_use(snap) {
        lines_of_histogram(
            "rmlx_ssd_spill_us"@,
            "Per-spill duration in microseconds."@,
            snap.ssd.spill,
        )
    } else {
        none
    };
    let hydrate = if snap.ssd.hydrate.count > 0 {
        lines_of_histogram(
            "rmlx_ssd_hydrate_us"@,
            "Per-hydrate duration in microseconds."@,
            snap.ssd.hydrate,
        )
    } else {
        none
    };
    lemma_histogram_shown(
        "rmlx_ssd_spill_us"@,
        "Per-spill duration in microseconds."@,
        snap.ssd.spill,
    );
    lemma_histogram_shown(
        "rmlx_ssd_hydrate_us"@,
        "Per-hydrate duration in microseconds."@,
        snap.ssd.hydrate,
    );
    lemma_lines_add(spill, hydrate);
}

proof fn lemma_section_shown(snap: MetricsSnapshot, times: Seq<u64>, i: int)
    requires
        0 <= i < 16,
        times == ascending_of(ttft_values(snap@.ttft)),
    ensures
        section(snap@, i) == lines_text(shown(snap, times, i)),
{
    if i == 0 {
        lemma_shown_0(snap, times);
    } else if i == 1 {
        lemma_shown_1(snap, times);
    } else if i == 2 {
        lemma_shown_2(snap, times);
    } else if i == 3 {
        lemma_shown_3(snap, times);
    } else if i == 4 {
        lemma_shown_4(snap, times);
    } else if i == 5 {
        lemma_shown_5(snap, times);
    } else if i == 6 {
        lemma_shown_6(snap, times);
    } else if i == 7 {
        lemma_shown_7(snap, times);
    } else if i == 8 {
        lemma_shown_8(snap, times);
    } else if i == 9 {
        lemma_shown_9(snap, times);
    } else if i == 10 {
        lemma_shown_10(snap, times);
    } else if i == 11 {
        lemma_shown_11(snap, times);
    } else if i == 12 {
        lemma_shown_12(snap, times);
    } else if i == 13 {
        lemma_shown_13(snap, times);
    } else if i == 14 {
        lemma_shown_14(snap, times);
    } else if i == 15 {
        lemma_shown_15(snap, times);
    }
}

proof fn lemma_sections_shown(snap: MetricsSnapshot, times: Seq<u64>, n: nat)
    requires
        n <= 16,
        times == ascending_of(ttft_values(snap@.ttft)),
    ensures
        sections(snap@, n) == lines_text(shown_until(snap, times, n)),
    decreases n,
{
    if n > 0 {
        let m = (n - 1) as nat;
        lemma_sections_shown(snap, times, m);
        lemma_section_shown(snap, times, m as int);
        lemma_lines_add(shown_until(snap, times, m), shown(snap, times, m as int));
    }
}

/// The exposition is these lines, in this order, and no others: of each metric the two
/// that say what it measures and of which type it is, and then its numbers. `times`
/// holds the times to the first token in ascending order.
pub proof fn law_exposition_is_these_lines(
    snap: MetricsSnapshot,
    text: String,
    times: Seq<u64>,
)
    requires
        call_ensures(render_prometheus, (&snap,), text),
        forall|i: int, j: int| 0 <= i <= j < times.len() ==> times[i] <= times[j],
        times.to_multiset() == snap.ttft_samples@.map_values(
            |x: crate::openai::generate::TtftSample| x.ttft_ms,
        ).to_multiset(),
    ensures
        text@ == lines_text(shown_until(snap, times, 16)),
{
    let s = snap@;
    let raw = ttft_values(s.ttft);
    assert(raw =~= snap.ttft_samples@.map_values(
        |x: crate::openai::generate::TtftSample| x.ttft_ms,
    ));
    assert(is_sorted_from(times, raw));
    let t = ascending_of(raw);
    assert(is_sorted_from(t, raw));
    lemma_sorted_unique(t, times);
    lemma_all_sections(s);
    lemma_sections_shown(snap, times, 16);
}

// ── JSON ─────────────────────────────────────────────────────────────────────

/// A value is this unsigned integer.
pub open spec fn is_count(v: Option<JsonV>, n: u64) -> bool {
    v == Some(JsonV::Number(decimal(n as nat)))
}

/// The counters of a model stand in its JSON under their own names; counters that it
/// does not have are absent.
#[verifier::spinoff_prover]
#[verifier::rlimit(60)]
pub proof fn law_model_json_shows_the_counters(
    m: ModelMetrics,
    rate: Json,
    partial_rate: Json,
    phases: Option<Json>,
    r: Json,
)
    requires
        call_ensures(model_json, (&m, rate, partial_rate, phases), r),
    ensures
        get(r@, "model_id"@) == Some(JsonV::Str(m.model_id@)),
        m.stats matches Some(st) ==> {
            &&& is_count(get(r@, "hits"@), st.hits)
            &&& is_count(get(r@, "misses"@), st.misses)
            &&& is_count(get(r@, "evictions"@), st.evictions)
            &&& is_count(get(r@, "bytes"@), st.bytes)
            &&& is_count(get(r@, "block_hits"@), st.block_hits)
            &&& is_count(get(r@, "block_misses"@), st.block_misses)
            &&& is_count(get(r@, "partial_hits"@), st.partial_hits)
            &&& is_count(get(r@, "ssd_hits"@), st.ssd_hits)
            &&& is_count(get(r@, "kv_cache_bytes"@), m.kv_cache_bytes)
            &&& get(r@, "hit_rate"@) == Some(rate@)
            &&& get(r@, "partial_hit_rate"@) == Some(partial_rate@)
            &&& member_count(r@) == 13 + if phases is Some {
                1int
            } else {
                0int
            }
        },
        m.stats is None ==> {
            &&& get(r@, "hits"@) is None
            &&& get(r@, "misses"@) is None
            &&& get(r@, "hit_rate"@) is None
            &&& m.kv_cache_bytes > 0 ==> is_count(get(r@, "kv_cache_bytes"@), m.kv_cache_bytes)
            &&& m.kv_cache_bytes == 0 ==> get(r@, "kv_cache_bytes"@) is None
        },
        m.metal_peak_alloc_bytes matches Some(n) ==> is_count(
            get(r@, "metal_peak_alloc_bytes"@),
            n,
        ),
        phases matches Some(p) ==> get(r@, "load_phases"@) == Some(p@),
        phases is None ==> get(r@, "load_phases"@) is None,
{
    broadcast use law_member_reads_back;

    reveal_strlit("model_id");
    reveal_strlit("hits");
    reveal_strlit("misses");
    reveal_strlit("evictions");
    reveal_strlit("bytes");
    reveal_strlit("hit_rate");
    reveal_strlit("kv_cache_bytes");
    reveal_strlit("metal_peak_alloc_bytes");
    reveal_strlit("block_hits");
    reveal_strlit("block_misses");
    reveal_strlit("partial_hits");
    reveal_strlit("partial_hit_rate");
    reveal_strlit("ssd_hits");
    reveal_strlit("load_phases");
    assert("model_id"@.len() == 8);
    assert("hits"@.len() == 4);
    assert("misses"@.len() == 6);
    assert("evictions"@.len() == 9);
    assert("bytes"@.len() == 5);
    assert("hit_rate"@.len() == 8);
    assert("kv_cache_bytes"@.len() == 14);
    assert("metal_peak_alloc_bytes"@.len() == 22);
    assert("block_hits"@.len() == 10);
    assert("block_misses"@.len() == 12);
    assert("partial_hits"@.len() == 12);
    assert("partial_hit_rate"@.len() == 16);
    assert("ssd_hits"@.len() == 8);
    assert("load_phases"@.len() == 11);
    assert("model_id"@[0] != "hit_rate"@[0]);
    assert("model_id"@[0] != "ssd_hits"@[0]);
    assert("hit_rate"@[0] != "ssd_hits"@[0]);
    assert("block_misses"@[0] != "partial_hits"@[0]);
}

/// The cache metrics hold the models as given, every time to the first token and every
/// latency in order with their own names, and the totals.
#[verifier::spinoff_prover]
#[verifier::rlimit(60)]
pub proof fn law_cache_json_shows_the_samples(
    snap: MetricsSnapshot,
    models: Vec<Json>,
    r: Json,
    i: int,
)
    requires
        call_ensures(metrics_cache, (&snap, models), r),
    ensures
        member_count(r@) == 6,
        get(r@, "models"@) == Some(JsonV::Array(views(models@))),
        is_count(get(r@, "tokens_in"@), snap.tokens_in),
        is_count(get(r@, "tokens_out"@), snap.tokens_out),
        get(r@, "ttft"@) matches Some(JsonV::Array(ts)) && {
            &&& ts.len() == snap.ttft_samples@.len()
            &&& 0 <= i < ts.len() ==> {
                &&& get(ts[i], "model_id"@) == Some(JsonV::Str(snap.ttft_samples@[i].model_id@))
                &&& is_count(get(ts[i], "ttft_ms"@), snap.ttft_samples@[i].ttft_ms)
            }
        },
        get(r@, "itl"@) matches Some(JsonV::Array(ts)) && {
            &&& ts.len() == snap.itl_samples@.len()
            &&& 0 <= i < ts.len() ==> {
                let x = snap.itl_samples@[i];
                &&& get(ts[i], "model_id"@) == Some(JsonV::Str(x.model_id@))
                &&& get(ts[i], "p50_ms"@) == Some(x.p50_ms.json@)
                &&& get(ts[i], "p95_ms"@) == Some(x.p95_ms.json@)
                &&& get(ts[i], "step_mean_ms"@) == Some(x.mean_ms.json@)
                &&& is_count(get(ts[i], "step_count"@), x.step_count)
            }
        },
        get(r@, "error_counts"@) matches Some(JsonV::Object(es)) && {
            &&& es.len() == snap.error_counts@.len()
            &&& 0 <= i < es.len() ==> {
                &&& es[i].0 == snap.error_counts@[i].label@
                &&& is_count(Some(es[i].1), snap.error_counts@[i].value)
            }
        },
{
    broadcast use law_member_reads_back;

    reveal_strlit("models");
    reveal_strlit("ttft");
    reveal_strlit("itl");
    reveal_strlit("tokens_in");
    reveal_strlit("tokens_out");
    reveal_strlit("error_counts");
    assert("models"@.len() == 6);
    assert("ttft"@.len() == 4);
    assert("itl"@.len() == 3);
    assert("tokens_in"@.len() == 9);
    assert("tokens_out"@.len() == 10);
    assert("error_counts"@.len() == 12);
    lemma_sample_members();
    let s = snap@;
    assert(s.ttft.len() == snap.ttft_samples@.len());
    assert(s.itl.len() == snap.itl_samples@.len());
    assert(s.error_counts.len() == snap.error_counts@.len());
    if 0 <= i < snap.ttft_samples@.len() {
        assert(s.ttft[i] == snap.ttft_samples@[i]@);
    }
    if 0 <= i < snap.itl_samples@.len() {
        assert(s.itl[i] == snap.itl_samples@[i]@);
    }
    if 0 <= i < snap.error_counts@.len() {
        assert(s.error_counts[i] == snap.error_counts@[i]@);
    }
}

/// The members of the samples.
proof fn lemma_sample_members()
    ensures
        forall|x: (Seq<char>, u64)|
            get(#[trigger] ttft_body(x), "model_id"@) == Some(JsonV::Str(x.0)) && get(
                ttft_body(x),
                "ttft_ms"@,
            ) == Some(JsonV::Number(decimal(x.1 as nat))),
        forall|x: ItlV| get(#[trigger] itl_body(x), "model_id"@) == Some(JsonV::Str(x.model_id))
            && get(itl_body(x), "p50_ms"@) == Some(x.p50_ms.json) && get(itl_body(x), "p95_ms"@)
            == Some(x.p95_ms.json) && get(itl_body(x), "step_mean_ms"@) == Some(x.mean_ms.json)
            && get(itl_body(x), "step_count"@) == Some(
            JsonV::Number(decimal(x.step_count as nat)),
        ),
{
    broadcast use law_member_reads_back;

    reveal_strlit("model_id");
    reveal_strlit("ttft_ms");
    reveal_strlit("p50_ms");
    reveal_strlit("p95_ms");
    reveal_strlit("step_mean_ms");
    reveal_strlit("step_count");
    assert("model_id"@.len() == 8);
    assert("ttft_ms"@.len() == 7);
    assert("p50_ms"@.len() == 6);
    assert("p95_ms"@.len() == 6);
    assert("step_mean_ms"@.len() == 12);
    assert("step_count"@.len() == 10);
    assert("p50_ms"@[1] != "p95_ms"@[1]);
}

/// The summary holds the server's counters, each under its own name.
#[verifier::spinoff_prover]
#[verifier::rlimit(60)]
pub proof fn law_summary_shows_the_counters(snap: MetricsSnapshot, decode_tok_s: Json, r: Json)
    requires
        call_ensures(metrics_v1_summary, (&snap, decode_tok_s), r),
    ensures
        member_count(r@) == 10,
        get(r@, "uptime_s"@) == Some(snap.uptime_s.json@),
        is_count(get(r@, "in_flight"@), snap.in_flight),
        is_count(get(r@, "requests_started"@), snap.requests_started),
        is_count(get(r@, "requests_completed"@), snap.requests_completed),
        is_count(get(r@, "requests_failed"@), snap.requests_failed),
        is_count(get(r@, "tokens_in"@), snap.tokens_in),
        is_count(get(r@, "tokens_out"@), snap.tokens_out),
        get(r@, "avg_decode_tok_s"@) == Some(decode_tok_s@),
        get(r@, "avg_request_tok_s"@) == Some(JsonV::Null),
        get(r@, "last_error"@) == Some(JsonV::Null),
{
    broadcast use law_member_reads_back;

    reveal_strlit("uptime_s");
    reveal_strlit("in_flight");
    reveal_strlit("requests_started");
    reveal_strlit("requests_completed");
    reveal_strlit("requests_failed");
    reveal_strlit("avg_request_tok_s");
    reveal_strlit("avg_decode_tok_s");
    reveal_strlit("tokens_in");
    reveal_strlit("tokens_out");
    reveal_strlit("last_error");
    assert("uptime_s"@.len() == 8);
    assert("in_flight"@.len() == 9);
    assert("requests_started"@.len() == 16);
    assert("requests_completed"@.len() == 18);
    assert("requests_failed"@.len() == 15);
    assert("avg_request_tok_s"@.len() == 17);
    assert("avg_decode_tok_s"@.len() == 16);
    assert("tokens_in"@.len() == 9);
    assert("tokens_out"@.len() == 10);
    assert("last_error"@.len() == 10);
    assert("in_flight"@[0] != "tokens_in"@[0]);
    assert("requests_started"@[0] != "avg_decode_tok_s"@[0]);
    assert("tokens_out"@[0] != "last_error"@[0]);
}

/// The rate of hits is hits over lookups, that of partial hits is partial hits over
/// hits; a rate of nothing is zero.
pub proof fn law_rates_are_shares(st: CacheStats, r: Quotient, p: Quotient)
    requires
        call_ensures(hit_rate, (&st,), r),
        call_ensures(partial_hit_rate, (&st,), p),
    ensures
        r.den > 0,
        p.den > 0,
        st.hits + st.misses > 0 ==> r.num == st.hits && r.den == st.hits + st.misses,
        st.hits > 0 ==> p.num == st.partial_hits && p.den == st.hits,
        st.hits + st.misses == 0 ==> r.num == 0,
        st.hits == 0 ==> p.num == 0,
{
}

/// A model is listed with the numbers that were read of it, unless there are none.
pub proof fn law_model_is_listed_with_its_numbers(
    model_id: String,
    stats: Option<CacheStats>,
    kv_cache_bytes: u64,
    metal_peak: Option<u64>,
    r: Option<ModelMetrics>,
)
    requires
        call_ensures(model_metrics, (model_id, stats, kv_cache_bytes, metal_peak), r),
    ensures
        r is None == (stats is None && kv_cache_bytes == 0 && metal_peak is None),
        r matches Some(m) ==> {
            &&& m.model_id@ == model_id@
            &&& m.stats == stats
            &&& m.kv_cache_bytes == kv_cache_bytes
            &&& m.metal_peak_alloc_bytes == metal_peak
        },
{
}

} // verus!
