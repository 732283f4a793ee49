//! Metrics of a running server.
//!
//! Numbers that are not whole (rates, latencies, the uptime) come in as the
//! decimal texts under which they are shown.

use vstd::prelude::*;
use vstd::string::StringExecFns;

use crate::engine::helpers::{is_sorted_from, sorted};
use crate::json::{number_value, opt_number_value, Json, JsonV};
use crate::openai::errors::ProcMem;
use crate::openai::generate::TtftSample;
use crate::text::{decimal, opt_view, starts_with, u64_text, views};

verus! {

// ── Snapshot ─────────────────────────────────────────────────────────────────

/// Counters of a prompt cache.
#[derive(Clone, Copy, Debug, PartialEq, Eq, Structural)]
pub struct CacheStats {
    pub hits: u64,
    pub misses: u64,
    pub evictions: u64,
    pub bytes: u64,
    pub block_hits: u64,
    pub block_misses: u64,
    pub partial_hits: u64,
    pub ssd_hits: u64,
}

/// The counters of one loaded model.
#[derive(Debug)]
pub struct ModelMetrics {
    pub model_id: String,
    /// Absent when the generator has no prompt cache.
    pub stats: Option<CacheStats>,
    pub kv_cache_bytes: u64,
    pub metal_peak_alloc_bytes: Option<u64>,
}

pub struct ModelV {
    pub model_id: Seq<char>,
    pub stats: Option<CacheStats>,
    pub kv_cache_bytes: u64,
    pub metal_peak_alloc_bytes: Option<u64>,
}

impl View for ModelMetrics {
    type V = ModelV;

    open spec fn view(&self) -> ModelV {
        ModelV {
            model_id: self.model_id@,
            stats: self.stats,
            kv_cache_bytes: self.kv_cache_bytes,
            metal_peak_alloc_bytes: self.metal_peak_alloc_bytes,
        }
    }
}

/// The counters of one loaded model; none when there is nothing to say of it.
pub fn model_metrics(
    model_id: String,
    stats: Option<CacheStats>,
    kv_cache_bytes: u64,
    metal_peak_alloc_bytes: Option<u64>,
) -> (r: Option<ModelMetrics>)
    ensures
        match r {
            None => stats is None && kv_cache_bytes == 0 && metal_peak_alloc_bytes is None,
            Some(m) => {
                &&& stats is Some || kv_cache_bytes > 0 || metal_peak_alloc_bytes is Some
                &&& m@ == (ModelV {
                    model_id: model_id@,
                    stats,
                    kv_cache_bytes,
                    metal_peak_alloc_bytes,
                })
            },
        },
{
    if stats.is_none() && kv_cache_bytes == 0 && metal_peak_alloc_bytes.is_none() {
        None
    } else {
        Some(ModelMetrics { model_id, stats, kv_cache_bytes, metal_peak_alloc_bytes })
    }
}

/// A number under a label.
#[derive(Debug)]
pub struct Labelled {
    pub label: String,
    pub value: u64,
}

impl View for Labelled {
    type V = (Seq<char>, u64);

    open spec fn view(&self) -> (Seq<char>, u64) {
        (self.label@, self.value)
    }
}

/// A measured value: the text that it is displayed as, and its JSON form.
#[derive(Debug)]
pub struct Measured {
    pub text: String,
    pub json: Json,
}

pub struct MeasuredV {
    pub text: Seq<char>,
    pub json: JsonV,
}

impl View for Measured {
    type V = MeasuredV;

    open spec fn view(&self) -> MeasuredV {
        MeasuredV { text: self.text@, json: self.json@ }
    }
}

/// Latencies between the tokens of one request.
#[derive(Debug)]
pub struct ItlSample {
    pub model_id: String,
    pub p50_ms: Measured,
    pub p95_ms: Measured,
    pub mean_ms: Measured,
    pub step_count: u64,
}

pub struct ItlV {
    pub model_id: Seq<char>,
    pub p50_ms: MeasuredV,
    pub p95_ms: MeasuredV,
    pub mean_ms: MeasuredV,
    pub step_count: u64,
}

impl View for ItlSample {
    type V = ItlV;

    open spec fn view(&self) -> ItlV {
        ItlV {
            model_id: self.model_id@,
            p50_ms: self.p50_ms@,
            p95_ms: self.p95_ms@,
            mean_ms: self.mean_ms@,
            step_count: self.step_count,
        }
    }
}

/// A histogram of durations in microseconds.
#[derive(Debug)]
pub struct SsdHistogram {
    /// The upper bound of each bucket, with the number of durations up to it.
    pub buckets: Vec<(u64, u64)>,
    pub count: u64,
    pub sum_us: u64,
}

pub struct HistV {
    pub buckets: Seq<(u64, u64)>,
    pub count: u64,
    pub sum_us: u64,
}

impl View for SsdHistogram {
    type V = HistV;

    open spec fn view(&self) -> HistV {
        HistV { buckets: self.buckets@, count: self.count, sum_us: self.sum_us }
    }
}

/// The totals of the disk tier, by namespace.
#[derive(Debug)]
pub struct SsdTier {
    pub bytes_used: Vec<Labelled>,
    pub evict_total: Vec<Labelled>,
    pub spill: SsdHistogram,
    pub hydrate: SsdHistogram,
}

pub struct SsdV {
    pub bytes_used: Seq<(Seq<char>, u64)>,
    pub evict_total: Seq<(Seq<char>, u64)>,
    pub spill: HistV,
    pub hydrate: HistV,
}

impl View for SsdTier {
    type V = SsdV;

    open spec fn view(&self) -> SsdV {
        SsdV {
            bytes_used: views(self.bytes_used@),
            evict_total: views(self.evict_total@),
            spill: self.spill@,
            hydrate: self.hydrate@,
        }
    }
}

/// The metrics of a server at one moment.
#[derive(Debug)]
pub struct MetricsSnapshot {
    pub models: Vec<ModelMetrics>,
    /// Times to the first token, the oldest first.
    pub ttft_samples: Vec<TtftSample>,
    /// Latencies between tokens, the oldest first.
    pub itl_samples: Vec<ItlSample>,
    pub tokens_in: u64,
    pub tokens_out: u64,
    /// Failed requests by category.
    pub error_counts: Vec<Labelled>,
    pub proc_mem: Option<ProcMem>,
    /// Seconds since the start.
    pub uptime_s: Measured,
    pub in_flight: u64,
    pub requests_started: u64,
    pub requests_completed: u64,
    pub requests_failed: u64,
    /// Tokens per second of decoding, as text with three decimals.
    pub avg_decode_tok_s: Option<String>,
    pub ssd: SsdTier,
}

pub struct SnapshotV {
    pub models: Seq<ModelV>,
    pub ttft: Seq<(Seq<char>, u64)>,
    pub itl: Seq<ItlV>,
    pub tokens_in: u64,
    pub tokens_out: u64,
    pub error_counts: Seq<(Seq<char>, u64)>,
    pub proc_mem: Option<ProcMem>,
    pub uptime_s: MeasuredV,
    pub in_flight: u64,
    pub requests_started: u64,
    pub requests_completed: u64,
    pub requests_failed: u64,
    pub avg_decode_tok_s: Option<Seq<char>>,
    pub ssd: SsdV,
}

impl View for MetricsSnapshot {
    type V = SnapshotV;

    open spec fn view(&self) -> SnapshotV {
        SnapshotV {
            models: views(self.models@),
            ttft: views(self.ttft_samples@),
            itl: views(self.itl_samples@),
            tokens_in: self.tokens_in,
            tokens_out: self.tokens_out,
            error_counts: views(self.error_counts@),
            proc_mem: self.proc_mem,
            uptime_s: self.uptime_s@,
            in_flight: self.in_flight,
            requests_started: self.requests_started,
            requests_completed: self.requests_completed,
            requests_failed: self.requests_failed,
            avg_decode_tok_s: opt_view(self.avg_decode_tok_s),
            ssd: self.ssd@,
        }
    }
}

// ── Percentiles ──────────────────────────────────────────────────────────────

/// The `p`-th percentile of ascending values, by nearest rank; zero of none.
pub open spec fn percentile(s: Seq<u64>, p: nat) -> u64 {
    if s.len() == 0 {
        0
    } else {
        let r = (p * s.len() + 99) / 100 - 1;
        if r < 0 {
            s[0]
        } else if r >= s.len() {
            s[s.len() - 1]
        } else {
            s[r as int]
        }
    }
}

/// The `p`-th percentile of ascending values, by nearest rank; zero of none.
pub fn percentile_u64(sorted: &[u64], p: u8) -> (r: u64)
    ensures
        r == percentile(sorted@, p as nat),
{
    let n: usize = sorted.len();
    if n == 0 {
        return 0;
    }
    proof {
        assert(p * n <= 255 * u64::MAX) by (nonlinear_arith)
            requires
                p <= 255,
                n <= u64::MAX,
        ;
    }
    let wide: u128 = p as u128 * n as u128;
    let up: u128 = (wide + 99) / 100;
    if up == 0 {
        return sorted[0];
    }
    let rank: u128 = up - 1;
    if rank >= n as u128 {
        sorted[n - 1]
    } else {
        sorted[rank as usize]
    }
}

/// A percentile of values is one of them.
pub proof fn law_percentile_is_a_value(s: Seq<u64>, p: nat)
    requires
        s.len() > 0,
    ensures
        s.contains(percentile(s, p)),
{
    let r = (p * s.len() + 99) / 100 - 1;
    if r < 0 {
        assert(s[0] == percentile(s, p));
    } else if r >= s.len() {
        assert(s[s.len() - 1] == percentile(s, p));
    } else {
        assert(s[r as int] == percentile(s, p));
    }
}

/// A higher percentile of ascending values is no smaller.
pub proof fn law_percentiles_ascend(s: Seq<u64>, p: nat, q: nat)
    requires
        crate::engine::helpers::ascending(s),
        p <= q,
    ensures
        percentile(s, p) <= percentile(s, q),
{
    if s.len() > 0 {
        assert(p * s.len() <= q * s.len()) by (nonlinear_arith)
            requires
                p <= q,
        ;
        let a = (p * s.len() + 99) / 100 - 1;
        let b = (q * s.len() + 99) / 100 - 1;
        assert(a <= b);
    }
}

// ── Text exposition ──────────────────────────────────────────────────────────

/// The lines that introduce a metric.
pub open spec fn header(name: Seq<char>, help: Seq<char>, kind: Seq<char>) -> Seq<char> {
    "# HELP "@ + name + " "@ + help + "\n# TYPE "@ + name + " "@ + kind + "\n"@
}

/// A line with a value; labels stand between the name and the value.
pub open spec fn sample(name: Seq<char>, labels: Seq<char>, value: Seq<char>) -> Seq<char> {
    name + labels + " "@ + value + "\n"@
}

/// One label with its value.
pub open spec fn label(key: Seq<char>, value: Seq<char>) -> Seq<char> {
    "{"@ + key + "=\""@ + value + "\"}"@
}

proof fn lemma_join3(o: Seq<char>, a: Seq<char>, b: Seq<char>)
    ensures
        o + a + b == o + (a + b),
{
    assert(o + a + b =~= o + (a + b));
}

proof fn lemma_join4(o: Seq<char>, a: Seq<char>, b: Seq<char>, c: Seq<char>)
    ensures
        o + a + b + c == o + (a + b + c),
{
    assert(o + a + b + c =~= o + (a + b + c));
}

proof fn lemma_join5(o: Seq<char>, a: Seq<char>, b: Seq<char>, c: Seq<char>, d: Seq<char>)
    ensures
        o + a + b + c + d == o + (a + b + c + d),
{
    assert(o + a + b + c + d =~= o + (a + b + c + d));
}

fn push_header(out: &mut String, name: &str, help: &str, kind: &str)
    ensures
        final(out)@ == old(out)@ + header(name@, help@, kind@),
{
    let ghost before = out@;
    out.append("# HELP ");
    out.append(name);
    out.append(" ");
    out.append(help);
    out.append("\n# TYPE ");
    out.append(name);
    out.append(" ");
    out.append(kind);
    out.append("\n");
    proof {
        assert(out@ =~= before + header(name@, help@, kind@));
    }
}

fn push_sample(out: &mut String, name: &str, labels: &str, value: &str)
    ensures
        final(out)@ == old(out)@ + sample(name@, labels@, value@),
{
    let ghost before = out@;
    out.append(name);
    out.append(labels);
    out.append(" ");
    out.append(value);
    out.append("\n");
    proof {
        assert(out@ =~= before + sample(name@, labels@, value@));
    }
}

fn make_label(key: &str, value: &str) -> (r: String)
    ensures
        r@ == label(key@, value@),
{
    crate::text::join5("{", key, "=\"", value, "\"}")
}

/// The lines of labelled numbers.
pub open spec fn labelled_lines(name: Seq<char>, key: Seq<char>, vs: Seq<(Seq<char>, u64)>) -> Seq<
    char,
>
    decreases vs.len(),
{
    if vs.len() == 0 {
        Seq::empty()
    } else {
        labelled_lines(name, key, vs.drop_last()) + sample(
            name,
            label(key, vs.last().0),
            decimal(vs.last().1 as nat),
        )
    }
}

fn push_labelled(out: &mut String, name: &str, key: &str, vs: &Vec<Labelled>)
    ensures
        final(out)@ == old(out)@ + labelled_lines(name@, key@, views(vs@)),
{
    let ghost before = out@;
    let ghost all = views(vs@);
    let mut i: usize = 0;
    proof {
        assert(all.subrange(0, 0) =~= Seq::empty());
        assert(out@ =~= before + labelled_lines(name@, key@, all.subrange(0, 0)));
    }
    while i < vs.len()
        invariant
            i <= vs@.len(),
            all == views(vs@),
            out@ == before + labelled_lines(name@, key@, all.subrange(0, i as int)),
        decreases vs@.len() - i,
    {
        proof {
            let next = all.subrange(0, i + 1);
            assert(next.drop_last() =~= all.subrange(0, i as int));
            assert(next.last() == vs@[i as int]@);
        }
        let ghost so_far = out@;
        push_sample(
            out,
            name,
            make_label(key, vs[i].label.as_str()).as_str(),
            u64_text(vs[i].value).as_str(),
        );
        proof {
            assert(out@ =~= before + labelled_lines(name@, key@, all.subrange(0, i + 1)));
        }
        i += 1;
    }
    proof {
        assert(all.subrange(0, i as int) =~= all);
    }
}

/// The metrics that each model has a line of.
#[derive(Clone, Copy, Debug, PartialEq, Eq, Structural)]
pub enum ModelMetric {
    CacheResults,
    SsdHits,
    CacheBytes,
    KvCacheBytes,
    MetalPeak,
}

/// The name of a per-model metric.
pub open spec fn metric_name(which: ModelMetric) -> Seq<char> {
    match which {
        ModelMetric::CacheResults => "rmlx_prompt_cache_total"@,
        ModelMetric::SsdHits => "rmlx_prompt_cache_ssd_hits_total"@,
        ModelMetric::CacheBytes => "rmlx_prompt_cache_bytes"@,
        ModelMetric::KvCacheBytes => "rmlx_kv_cache_bytes"@,
        ModelMetric::MetalPeak => "rmlx_metal_peak_alloc_bytes"@,
    }
}

/// What a per-model metric measures.
pub open spec fn metric_help(which: ModelMetric) -> Seq<char> {
    match which {
        ModelMetric::CacheResults => "Lifetime prompt-cache result count."@,
        ModelMetric::SsdHits => "Lifetime RAM-miss-served-from-SSD count."@,
        ModelMetric::CacheBytes => "Current prompt-cache memory usage in bytes."@,
        ModelMetric::KvCacheBytes => "Last-request KV-cache allocation in bytes."@,
        ModelMetric::MetalPeak => "Metal allocator peak allocation in bytes."@,
    }
}

/// Whether a per-model metric only grows.
pub open spec fn metric_kind(which: ModelMetric) -> Seq<char> {
    match which {
        ModelMetric::CacheResults => "counter"@,
        ModelMetric::SsdHits => "counter"@,
        _ => "gauge"@,
    }
}

/// The label of a model with a cache result.
pub open spec fn result_label(model: Seq<char>, result: Seq<char>) -> Seq<char> {
    "{model=\""@ + model + "\",result=\""@ + result + "\"}"@
}

/// The lines of one model; none where it has no such number.
pub open spec fn model_lines(which: ModelMetric, m: ModelV) -> Seq<char> {
    let name = metric_name(which);
    let one = |n: u64| sample(name, label("model"@, m.model_id), decimal(n as nat));
    match which {
        ModelMetric::CacheResults => match m.stats {
            Some(s) => sample(name, result_label(m.model_id, "hit"@), decimal(s.hits as nat))
                + sample(name, result_label(m.model_id, "miss"@), decimal(s.misses as nat)),
            None => Seq::empty(),
        },
        ModelMetric::SsdHits => match m.stats {
            Some(s) => one(s.ssd_hits),
            None => Seq::empty(),
        },
        ModelMetric::CacheBytes => match m.stats {
            Some(s) => one(s.bytes),
            None => Seq::empty(),
        },
        ModelMetric::KvCacheBytes => if m.kv_cache_bytes > 0 {
            one(m.kv_cache_bytes)
        } else {
            Seq::empty()
        },
        ModelMetric::MetalPeak => match m.metal_peak_alloc_bytes {
            Some(n) => one(n),
            None => Seq::empty(),
        },
    }
}

/// The lines of all models.
pub open spec fn models_lines(which: ModelMetric, ms: Seq<ModelV>) -> Seq<char>
    decreases ms.len(),
{
    if ms.len() == 0 {
        Seq::empty()
    } else {
        models_lines(which, ms.drop_last()) + model_lines(which, ms.last())
    }
}

/// A per-model metric with its introduction.
pub open spec fn model_section(which: ModelMetric, ms: Seq<ModelV>) -> Seq<char> {
    header(metric_name(which), metric_help(which), metric_kind(which)) + models_lines(which, ms)
}

fn metric_texts(which: ModelMetric) -> (r: (&'static str, &'static str, &'static str))
    ensures
        r.0@ == metric_name(which),
        r.1@ == metric_help(which),
        r.2@ == metric_kind(which),
{
    match which {
        ModelMetric::CacheResults => (
            "rmlx_prompt_cache_total",
            "Lifetime prompt-cache result count.",
            "counter",
        ),
        ModelMetric::SsdHits => (
            "rmlx_prompt_cache_ssd_hits_total",
            "Lifetime RAM-miss-served-from-SSD count.",
            "counter",
        ),
        ModelMetric::CacheBytes => (
            "rmlx_prompt_cache_bytes",
            "Current prompt-cache memory usage in bytes.",
            "gauge",
        ),
        ModelMetric::KvCacheBytes => (
            "rmlx_kv_cache_bytes",
            "Last-request KV-cache allocation in bytes.",
            "gauge",
        ),
        ModelMetric::MetalPeak => (
            "rmlx_metal_peak_alloc_bytes",
            "Metal allocator peak allocation in bytes.",
            "gauge",
        ),
    }
}

fn push_model(out: &mut String, which: ModelMetric, m: &ModelMetrics)
    ensures
        final(out)@ == old(out)@ + model_lines(which, m@),
{
    let name = metric_texts(which).0;
    let ghost before = out@;
    let value: Option<u64> = match which {
        ModelMetric::CacheResults => {
            match m.stats {
                Some(s) => {
                    push_sample(
                        out,
                        name,
                        crate::text::join5(
                            "{model=\"",
                            m.model_id.as_str(),
                            "\",result=\"",
                            "hit",
                            "\"}",
                        ).as_str(),
                        u64_text(s.hits).as_str(),
                    );
                    push_sample(
                        out,
                        name,
                        crate::text::join5(
                            "{model=\"",
                            m.model_id.as_str(),
                            "\",result=\"",
                            "miss",
                            "\"}",
                        ).as_str(),
                        u64_text(s.misses).as_str(),
                    );
                },
                None => {},
            }
            proof {
                assert(out@ =~= before + model_lines(which, m@));
            }
            return ;
        },
        ModelMetric::SsdHits => match m.stats {
            Some(s) => Some(s.ssd_hits),
            None => None,
        },
        ModelMetric::CacheBytes => match m.stats {
            Some(s) => Some(s.bytes),
            None => None,
        },
        ModelMetric::KvCacheBytes => if m.kv_cache_bytes > 0 {
            Some(m.kv_cache_bytes)
        } else {
            None
        },
        ModelMetric::MetalPeak => m.metal_peak_alloc_bytes,
    };
    match value {
        Some(n) => push_sample(
            out,
            name,
            make_label("model", m.model_id.as_str()).as_str(),
            u64_text(n).as_str(),
        ),
        None => {},
    }
    proof {
        assert(out@ =~= before + model_lines(which, m@));
    }
}

fn push_models(out: &mut String, which: ModelMetric, models: &Vec<ModelMetrics>)
    ensures
        final(out)@ == old(out)@ + model_section(which, views(models@)),
{
    let ghost start = out@;
    let (name, help, kind) = metric_texts(which);
    push_header(out, name, help, kind);
    let ghost before = out@;
    let ghost all = views(models@);
    let mut i: usize = 0;
    proof {
        assert(all.subrange(0, 0) =~= Seq::empty());
        assert(out@ =~= before + models_lines(which, all.subrange(0, 0)));
    }
    while i < models.len()
        invariant
            i <= models@.len(),
            all == views(models@),
            out@ == before + models_lines(which, all.subrange(0, i as int)),
        decreases models@.len() - i,
    {
        proof {
            let next = all.subrange(0, i + 1);
            assert(next.drop_last() =~= all.subrange(0, i as int));
            assert(next.last() == models@[i as int]@);
        }
        push_model(out, which, &models[i]);
        proof {
            assert(out@ =~= before + models_lines(which, all.subrange(0, i + 1)));
        }
        i += 1;
    }
    proof {
        assert(all.subrange(0, i as int) =~= all);
        assert(out@ =~= start + model_section(which, all));
    }
}

/// The lines of the token counters.
pub open spec fn token_section(s: SnapshotV) -> Seq<char> {
    let name = "rmlx_lifetime_tokens_total"@;
    header(name, "Lifetime cumulative token count since server start."@, "counter"@) + sample(
        name,
        label("direction"@, "in"@),
        decimal(s.tokens_in as nat),
    ) + sample(name, label("direction"@, "out"@), decimal(s.tokens_out as nat))
}

/// The lines of the error counters.
pub open spec fn error_section(s: SnapshotV) -> Seq<char> {
    let name = "rmlx_api_errors_total"@;
    header(name, "Lifetime API error count by category since server start."@, "counter"@)
        + labelled_lines(name, "category"@, s.error_counts)
}

/// The times of samples.
pub open spec fn ttft_values(ttft: Seq<(Seq<char>, u64)>) -> Seq<u64> {
    Seq::new(ttft.len(), |i: int| ttft[i].1)
}

/// The lines of the times to the first token, of `t` ascending; none of none.
pub open spec fn ttft_lines(t: Seq<u64>) -> Seq<char> {
    let name = "rmlx_ttft_ms"@;
    if t.len() == 0 {
        Seq::empty()
    } else {
        header(name, "Time to first token in milliseconds (from ring buffer)."@, "gauge"@) + sample(
            name,
            label("quantile"@, "0.50"@),
            decimal(percentile(t, 50) as nat),
        ) + sample(name, label("quantile"@, "0.95"@), decimal(percentile(t, 95) as nat)) + sample(
            name,
            label("quantile"@, "0.99"@),
            decimal(percentile(t, 99) as nat),
        )
    }
}

/// The values of `s` in ascending order.
pub open spec fn ascending_of(s: Seq<u64>) -> Seq<u64> {
    choose|t: Seq<u64>| is_sorted_from(t, s)
}

/// The lines of the latencies between tokens of the latest request.
pub open spec fn itl_section(itl: Seq<ItlV>) -> Seq<char> {
    let name = "rmlx_itl_ms"@;
    if itl.len() == 0 {
        Seq::empty()
    } else {
        header(name, "Inter-token latency in milliseconds (last request)."@, "gauge"@) + sample(
            name,
            label("quantile"@, "0.50"@),
            itl.last().p50_ms.text,
        ) + sample(name, label("quantile"@, "0.95"@), itl.last().p95_ms.text)
    }
}

/// The lines of the process's memory.
pub open spec fn memory_section(mem: Option<ProcMem>) -> Seq<char> {
    match mem {
        None => Seq::empty(),
        Some(m) => header(
            "rmlx_process_rss_bytes"@,
            "Process resident set size in bytes."@,
            "gauge"@,
        ) + sample("rmlx_process_rss_bytes"@, ""@, decimal(m.rss_bytes as nat)) + header(
            "rmlx_process_phys_footprint_bytes"@,
            "Process physical memory footprint in bytes (Activity Monitor metric)."@,
            "gauge"@,
        ) + sample(
            "rmlx_process_phys_footprint_bytes"@,
            ""@,
            decimal(m.phys_footprint_bytes as nat),
        ),
    }
}

/// The lines of the server's own gauges.
pub open spec fn server_section(s: SnapshotV) -> Seq<char> {
    header("rmlx_uptime_seconds"@, "Server uptime in seconds since start."@, "gauge"@) + sample(
        "rmlx_uptime_seconds"@,
        ""@,
        s.uptime_s.text,
    ) + header(
        "rmlx_in_flight"@,
        "Current number of in-flight (admitted) requests."@,
        "gauge"@,
    ) + sample("rmlx_in_flight"@, ""@, decimal(s.in_flight as nat))
}

/// The lines of the decode throughput.
pub open spec fn throughput_section(avg: Option<Seq<char>>) -> Seq<char> {
    match avg {
        None => Seq::empty(),
        Some(t) => header(
            "rmlx_avg_decode_tok_s"@,
            "Mean decode throughput in tokens/s (avg of ITL ring, formula: 1000/mean_itl_ms)."@,
            "gauge"@,
        ) + sample("rmlx_avg_decode_tok_s"@, ""@, t),
    }
}

/// The lines of the request counters.
pub open spec fn request_section(s: SnapshotV) -> Seq<char> {
    let name = "rmlx_requests_total"@;
    header(name, "Lifetime request count by outcome since server start."@, "counter"@) + sample(
        name,
        label("outcome"@, "started"@),
        decimal(s.requests_started as nat),
    ) + sample(name, label("outcome"@, "completed"@), decimal(s.requests_completed as nat))
        + sample(name, label("outcome"@, "failed"@), decimal(s.requests_failed as nat))
}

/// The disk tier is in use.
pub open spec fn tier_active(t: SsdV) -> bool {
    t.bytes_used.len() > 0 || t.evict_total.len() > 0 || t.spill.count > 0 || t.hydrate.count > 0
}

/// The lines of the disk tier's size.
pub open spec fn ssd_bytes_section(t: SsdV) -> Seq<char> {
    if t.bytes_used.len() == 0 {
        Seq::empty()
    } else {
        header(
            "rmlx_ssd_bytes_used"@,
            "Current on-disk KV-block cache footprint in bytes."@,
            "gauge"@,
        ) + labelled_lines("rmlx_ssd_bytes_used"@, "namespace"@, t.bytes_used)
    }
}

/// A number stands under this label.
pub open spec fn has_label(vs: Seq<(Seq<char>, u64)>, name: Seq<char>) -> bool {
    exists|i: int| 0 <= i < vs.len() && (#[trigger] vs[i]).0 == name
}

/// Lines of zero for namespaces without evictions.
pub open spec fn zero_lines(used: Seq<(Seq<char>, u64)>, evicted: Seq<(Seq<char>, u64)>) -> Seq<
    char,
>
    decreases used.len(),
{
    if used.len() == 0 {
        Seq::empty()
    } else {
        zero_lines(used.drop_last(), evicted) + if has_label(evicted, used.last().0) {
            Seq::empty()
        } else {
            sample("rmlx_ssd_evict_total"@, label("namespace"@, used.last().0), "0"@)
        }
    }
}

/// The lines of the disk tier's evictions.
pub open spec fn ssd_evict_section(t: SsdV) -> Seq<char> {
    if !tier_active(t) {
        Seq::empty()
    } else {
        header(
            "rmlx_ssd_evict_total"@,
            "Lifetime SSD-tier LRU eviction count."@,
            "counter"@,
        ) + labelled_lines("rmlx_ssd_evict_total"@, "namespace"@, t.evict_total) + zero_lines(
            t.bytes_used,
            t.evict_total,
        )
    }
}

/// The bucket lines of a histogram.
pub open spec fn bucket_lines(name: Seq<char>, bs: Seq<(u64, u64)>) -> Seq<char>
    decreases bs.len(),
{
    if bs.len() == 0 {
        Seq::empty()
    } else {
        bucket_lines(name, bs.drop_last()) + sample(
            name + "_bucket"@,
            label("le"@, decimal(bs.last().0 as nat)),
            decimal(bs.last().1 as nat),
        )
    }
}

/// A histogram. Every duration is counted once, in the last bucket and in the
/// count.
pub open spec fn histogram(name: Seq<char>, help: Seq<char>, h: HistV) -> Seq<char> {
    header(name, help, "histogram"@) + bucket_lines(name, h.buckets) + sample(
        name + "_bucket"@,
        label("le"@, "+Inf"@),
        decimal(h.count as nat),
    ) + sample(name + "_sum"@, ""@, decimal(h.sum_us as nat)) + sample(
        name + "_count"@,
        ""@,
        decimal(h.count as nat),
    )
}

/// The histograms of the disk tier: spills while the tier is in use, hydrations
/// once there were some.
pub open spec fn ssd_histograms(t: SsdV) -> Seq<char> {
    (if tier_active(t) {
        histogram("rmlx_ssd_spill_us"@, "Per-spill duration in microseconds."@, t.spill)
    } else {
        Seq::empty()
    }) + if t.hydrate.count > 0 {
        histogram("rmlx_ssd_hydrate_us"@, "Per-hydrate duration in microseconds."@, t.hydrate)
    } else {
        Seq::empty()
    }
}

/// The whole exposition.
pub open spec fn exposition(s: SnapshotV) -> Seq<char> {
    token_section(s) + error_section(s) + model_section(ModelMetric::CacheResults, s.models)
        + model_section(ModelMetric::SsdHits, s.models) + model_section(
        ModelMetric::CacheBytes,
        s.models,
    ) + model_section(ModelMetric::KvCacheBytes, s.models) + model_section(
        ModelMetric::MetalPeak,
        s.models,
    ) + ttft_lines(ascending_of(ttft_values(s.ttft))) + itl_section(s.itl) + memory_section(
        s.proc_mem,
    ) + server_section(s) + throughput_section(s.avg_decode_tok_s) + request_section(s)
        + ssd_bytes_section(s.ssd) + ssd_evict_section(s.ssd) + ssd_histograms(s.ssd)
}

fn push_tokens(out: &mut String, s: &MetricsSnapshot)
    ensures
        final(out)@ == old(out)@ + token_section(s@),
{
    let ghost before = out@;
    let name = "rmlx_lifetime_tokens_total";
    push_header(out, name, "Lifetime cumulative token count since server start.", "counter");
    push_sample(
        out,
        name,
        make_label("direction", "in").as_str(),
        u64_text(s.tokens_in).as_str(),
    );
    push_sample(
        out,
        name,
        make_label("direction", "out").as_str(),
        u64_text(s.tokens_out).as_str(),
    );
    proof {
        lemma_join4(
            before,
            header(name@, "Lifetime cumulative token count since server start."@, "counter"@),
            sample(name@, label("direction"@, "in"@), decimal(s.tokens_in as nat)),
            sample(name@, label("direction"@, "out"@), decimal(s.tokens_out as nat)),
        );
    }
}

fn push_errors(out: &mut String, s: &MetricsSnapshot)
    ensures
        final(out)@ == old(out)@ + error_section(s@),
{
    let ghost before = out@;
    let name = "rmlx_api_errors_total";
    push_header(out, name, "Lifetime API error count by category since server start.", "counter");
    push_labelled(out, name, "category", &s.error_counts);
    proof {
        lemma_join3(
            before,
            header(name@, "Lifetime API error count by category since server start."@, "counter"@),
            labelled_lines(name@, "category"@, s@.error_counts),
        );
    }
}

fn push_ttft(out: &mut String, samples: &Vec<TtftSample>)
    ensures
        final(out)@ == old(out)@ + ttft_lines(ascending_of(ttft_values(views(samples@)))),
{
    let ghost before = out@;
    let ghost wanted = ttft_values(views(samples@));
    let mut values: Vec<u64> = Vec::new();
    let mut i: usize = 0;
    while i < samples.len()
        invariant
            i <= samples@.len(),
            wanted == ttft_values(views(samples@)),
            values@ =~= wanted.subrange(0, i as int),
        decreases samples@.len() - i,
    {
        values.push(samples[i].ttft_ms);
        i += 1;
    }
    proof {
        assert(values@ =~= wanted);
    }
    let t = sorted(&values);
    proof {
        assert(is_sorted_from(t@, wanted));
        crate::engine::helpers::lemma_sorted_unique(t@, ascending_of(wanted));
    }
    if t.len() > 0 {
        let name = "rmlx_ttft_ms";
        push_header(
            out,
            name,
            "Time to first token in milliseconds (from ring buffer).",
            "gauge",
        );
        push_sample(
            out,
            name,
            make_label("quantile", "0.50").as_str(),
            u64_text(percentile_u64(t.as_slice(), 50)).as_str(),
        );
        push_sample(
            out,
            name,
            make_label("quantile", "0.95").as_str(),
            u64_text(percentile_u64(t.as_slice(), 95)).as_str(),
        );
        push_sample(
            out,
            name,
            make_label("quantile", "0.99").as_str(),
            u64_text(percentile_u64(t.as_slice(), 99)).as_str(),
        );
    }
    proof {
        assert(out@ =~= before + ttft_lines(t@));
    }
}

fn push_itl(out: &mut String, s: &MetricsSnapshot)
    ensures
        final(out)@ == old(out)@ + itl_section(s@.itl),
{
    let ghost before = out@;
    let n: usize = s.itl_samples.len();
    if n > 0 {
        let last = &s.itl_samples[n - 1];
        let name = "rmlx_itl_ms";
        push_header(out, name, "Inter-token latency in milliseconds (last request).", "gauge");
        push_sample(
            out,
            name,
            make_label("quantile", "0.50").as_str(),
            last.p50_ms.text.as_str(),
        );
        push_sample(
            out,
            name,
            make_label("quantile", "0.95").as_str(),
            last.p95_ms.text.as_str(),
        );
        proof {
            assert(s@.itl.last() == last@);
            lemma_join4(
                before,
                header(
                    name@,
                    "Inter-token latency in milliseconds (last request)."@,
                    "gauge"@,
                ),
                sample(name@, label("quantile"@, "0.50"@), last@.p50_ms.text),
                sample(name@, label("quantile"@, "0.95"@), last@.p95_ms.text),
            );
        }
    } else {
        proof {
            assert(before + Seq::<char>::empty() =~= before);
        }
    }
}

fn push_memory(out: &mut String, mem: Option<ProcMem>)
    ensures
        final(out)@ == old(out)@ + memory_section(mem),
{
    let ghost before = out@;
    match mem {
        Some(m) => {
            push_header(
                out,
                "rmlx_process_rss_bytes",
                "Process resident set size in bytes.",
                "gauge",
            );
            push_sample(out, "rmlx_process_rss_bytes", "", u64_text(m.rss_bytes).as_str());
            push_header(
                out,
                "rmlx_process_phys_footprint_bytes",
                "Process physical memory footprint in bytes (Activity Monitor metric).",
                "gauge",
            );
            push_sample(
                out,
                "rmlx_process_phys_footprint_bytes",
                "",
                u64_text(m.phys_footprint_bytes).as_str(),
            );
            proof {
                lemma_join5(
                    before,
                    header(
                        "rmlx_process_rss_bytes"@,
                        "Process resident set size in bytes."@,
                        "gauge"@,
                    ),
                    sample("rmlx_process_rss_bytes"@, ""@, decimal(m.rss_bytes as nat)),
                    header(
                        "rmlx_process_phys_footprint_bytes"@,
                        "Process physical memory footprint in bytes (Activity Monitor metric)."@,
                        "gauge"@,
                    ),
                    sample(
                        "rmlx_process_phys_footprint_bytes"@,
                        ""@,
                        decimal(m.phys_footprint_bytes as nat),
                    ),
                );
            }
        },
        None => {
            proof {
                assert(before + Seq::<char>::empty() =~= before);
            }
        },
    }
}

fn push_server(out: &mut String, s: &MetricsSnapshot)
    ensures
        final(out)@ == old(out)@ + server_section(s@),
{
    let ghost before = out@;
    push_header(
        out,
        "rmlx_uptime_seconds",
        "Server uptime in seconds since start.",
        "gauge",
    );
    push_sample(out, "rmlx_uptime_seconds", "", s.uptime_s.text.as_str());
    push_header(
        out,
        "rmlx_in_flight",
        "Current number of in-flight (admitted) requests.",
        "gauge",
    );
    push_sample(out, "rmlx_in_flight", "", u64_text(s.in_flight).as_str());
    proof {
        lemma_join5(
            before,
            header(
                "rmlx_uptime_seconds"@,
                "Server uptime in seconds since start."@,
                "gauge"@,
            ),
            sample("rmlx_uptime_seconds"@, ""@, s@.uptime_s.text),
            header(
                "rmlx_in_flight"@,
                "Current number of in-flight (admitted) requests."@,
                "gauge"@,
            ),
            sample("rmlx_in_flight"@, ""@, decimal(s.in_flight as nat)),
        );
    }
}

fn push_throughput(out: &mut String, avg: &Option<String>)
    ensures
        final(out)@ == old(out)@ + throughput_section(opt_view(*avg)),
{
    let ghost before = out@;
    match avg {
        Some(t) => {
            push_header(
                out,
                "rmlx_avg_decode_tok_s",
                "Mean decode throughput in tokens/s (avg of ITL ring, formula: 1000/mean_itl_ms).",
                "gauge",
            );
            push_sample(out, "rmlx_avg_decode_tok_s", "", t.as_str());
            proof {
                lemma_join3(
                    before,
                    header(
                        "rmlx_avg_decode_tok_s"@,
                        "Mean decode throughput in tokens/s (avg of ITL ring, formula: 1000/mean_itl_ms)."@,
                        "gauge"@,
                    ),
                    sample("rmlx_avg_decode_tok_s"@, ""@, t@),
                );
            }
        },
        None => {
            proof {
                assert(before + Seq::<char>::empty() =~= before);
            }
        },
    }
}

fn push_requests(out: &mut String, s: &MetricsSnapshot)
    ensures
        final(out)@ == old(out)@ + request_section(s@),
{
    let ghost before = out@;
    let name = "rmlx_requests_total";
    push_header(out, name, "Lifetime request count by outcome since server start.", "counter");
    push_sample(
        out,
        name,
        make_label("outcome", "started").as_str(),
        u64_text(s.requests_started).as_str(),
    );
    push_sample(
        out,
        name,
        make_label("outcome", "completed").as_str(),
        u64_text(s.requests_completed).as_str(),
    );
    push_sample(
        out,
        name,
        make_label("outcome", "failed").as_str(),
        u64_text(s.requests_failed).as_str(),
    );
    proof {
        lemma_join5(
            before,
            header(name@, "Lifetime request count by outcome since server start."@, "counter"@),
            sample(name@, label("outcome"@, "started"@), decimal(s.requests_started as nat)),
            sample(name@, label("outcome"@, "completed"@), decimal(s.requests_completed as nat)),
            sample(name@, label("outcome"@, "failed"@), decimal(s.requests_failed as nat)),
        );
    }
}

fn label_given(vs: &Vec<Labelled>, name: &str) -> (r: bool)
    ensures
        r == has_label(views(vs@), name@),
{
    let mut i: usize = 0;
    while i < vs.len()
        invariant
            i <= vs@.len(),
            forall|k: int| 0 <= k < i ==> (#[trigger] views(vs@)[k]).0 != name@,
        decreases vs@.len() - i,
    {
        if crate::text::text_eq(vs[i].label.as_str(), name) {
            proof {
                assert(views(vs@)[i as int].0 == name@);
            }
            return true;
        }
        i += 1;
    }
    false
}

fn push_zeros(out: &mut String, used: &Vec<Labelled>, evicted: &Vec<Labelled>)
    ensures
        final(out)@ == old(out)@ + zero_lines(views(used@), views(evicted@)),
{
    let ghost before = out@;
    let ghost all = views(used@);
    let mut i: usize = 0;
    proof {
        assert(all.subrange(0, 0) =~= Seq::empty());
        assert(out@ =~= before + zero_lines(all.subrange(0, 0), views(evicted@)));
    }
    while i < used.len()
        invariant
            i <= used@.len(),
            all == views(used@),
            out@ == before + zero_lines(all.subrange(0, i as int), views(evicted@)),
        decreases used@.len() - i,
    {
        proof {
            let next = all.subrange(0, i + 1);
            assert(next.drop_last() =~= all.subrange(0, i as int));
            assert(next.last() == used@[i as int]@);
        }
        if !label_given(evicted, used[i].label.as_str()) {
            push_sample(
                out,
                "rmlx_ssd_evict_total",
                make_label("namespace", used[i].label.as_str()).as_str(),
                "0",
            );
        }
        proof {
            assert(out@ =~= before + zero_lines(all.subrange(0, i + 1), views(evicted@)));
        }
        i += 1;
    }
    proof {
        assert(all.subrange(0, i as int) =~= all);
    }
}

fn push_histogram(out: &mut String, name: &str, help: &str, h: &SsdHistogram)
    ensures
        final(out)@ == old(out)@ + histogram(name@, help@, h@),
{
    let ghost start = out@;
    push_header(out, name, help, "histogram");
    let ghost before = out@;
    let ghost all = h.buckets@;
    let bucket = crate::text::join2(name, "_bucket");
    let mut i: usize = 0;
    proof {
        assert(all.subrange(0, 0) =~= Seq::empty());
        assert(out@ =~= before + bucket_lines(name@, all.subrange(0, 0)));
    }
    while i < h.buckets.len()
        invariant
            i <= h.buckets@.len(),
            all == h.buckets@,
            bucket@ == name@ + "_bucket"@,
            out@ == before + bucket_lines(name@, all.subrange(0, i as int)),
        decreases h.buckets@.len() - i,
    {
        proof {
            let next = all.subrange(0, i + 1);
            assert(next.drop_last() =~= all.subrange(0, i as int));
        }
        let (le, n): (u64, u64) = h.buckets[i];
        push_sample(
            out,
            bucket.as_str(),
            make_label("le", u64_text(le).as_str()).as_str(),
            u64_text(n).as_str(),
        );
        proof {
            assert(out@ =~= before + bucket_lines(name@, all.subrange(0, i + 1)));
        }
        i += 1;
    }
    proof {
        assert(all.subrange(0, i as int) =~= all);
    }
    push_sample(
        out,
        bucket.as_str(),
        make_label("le", "+Inf").as_str(),
        u64_text(h.count).as_str(),
    );
    push_sample(
        out,
        crate::text::join2(name, "_sum").as_str(),
        "",
        u64_text(h.sum_us).as_str(),
    );
    push_sample(
        out,
        crate::text::join2(name, "_count").as_str(),
        "",
        u64_text(h.count).as_str(),
    );
    proof {
        assert(out@ =~= start + histogram(name@, help@, h@));
    }
}

fn push_ssd_bytes(out: &mut String, t: &SsdTier)
    ensures
        final(out)@ == old(out)@ + ssd_bytes_section(t@),
{
    let ghost before = out@;
    if t.bytes_used.len() > 0 {
        push_header(
            out,
            "rmlx_ssd_bytes_used",
            "Current on-disk KV-block cache footprint in bytes.",
            "gauge",
        );
        push_labelled(out, "rmlx_ssd_bytes_used", "namespace", &t.bytes_used);
        proof {
            lemma_join3(
                before,
                header(
                    "rmlx_ssd_bytes_used"@,
                    "Current on-disk KV-block cache footprint in bytes."@,
                    "gauge"@,
                ),
                labelled_lines("rmlx_ssd_bytes_used"@, "namespace"@, t@.bytes_used),
            );
        }
    } else {
        proof {
            assert(before + Seq::<char>::empty() =~= before);
        }
    }
}

fn is_tier_active(t: &SsdTier) -> (r: bool)
    ensures
        r == tier_active(t@),
{
    t.bytes_used.len() > 0 || t.evict_total.len() > 0 || t.spill.count > 0 || t.hydrate.count > 0
}

fn push_ssd_evictions(out: &mut String, t: &SsdTier)
    ensures
        final(out)@ == old(out)@ + ssd_evict_section(t@),
{
    let ghost before = out@;
    if is_tier_active(t) {
        push_header(
            out,
            "rmlx_ssd_evict_total",
            "Lifetime SSD-tier LRU eviction count.",
            "counter",
        );
        push_labelled(out, "rmlx_ssd_evict_total", "namespace", &t.evict_total);
        push_zeros(out, &t.bytes_used, &t.evict_total);
        proof {
            lemma_join4(
                before,
                header(
                    "rmlx_ssd_evict_total"@,
                    "Lifetime SSD-tier LRU eviction count."@,
                    "counter"@,
                ),
                labelled_lines("rmlx_ssd_evict_total"@, "namespace"@, t@.evict_total),
                zero_lines(t@.bytes_used, t@.evict_total),
            );
        }
    } else {
        proof {
            assert(before + Seq::<char>::empty() =~= before);
        }
    }
}

fn push_ssd_histograms(out: &mut String, t: &SsdTier)
    ensures
        final(out)@ == old(out)@ + ssd_histograms(t@),
{
    let ghost before = out@;
    let ghost spill = if tier_active(t@) {
        histogram("rmlx_ssd_spill_us"@, "Per-spill duration in microseconds."@, t@.spill)
    } else {
        Seq::empty()
    };
    let ghost hydrate = if t@.hydrate.count > 0 {
        histogram("rmlx_ssd_hydrate_us"@, "Per-hydrate duration in microseconds."@, t@.hydrate)
    } else {
        Seq::empty()
    };
    if is_tier_active(t) {
        push_histogram(
            out,
            "rmlx_ssd_spill_us",
            "Per-spill duration in microseconds.",
            &t.spill,
        );
    } else {
        proof {
            assert(before + Seq::<char>::empty() =~= before);
        }
    }
    let ghost middle = out@;
    if t.hydrate.count > 0 {
        push_histogram(
            out,
            "rmlx_ssd_hydrate_us",
            "Per-hydrate duration in microseconds.",
            &t.hydrate,
        );
    } else {
        proof {
            assert(middle + Seq::<char>::empty() =~= middle);
        }
    }
    proof {
        lemma_join3(before, spill, hydrate);
    }
}

/// The metrics in Prometheus text format.
pub fn render_prometheus(snap: &MetricsSnapshot) -> (r: String)
    ensures
        r@ == exposition(snap@),
{
    let mut out = String::new();
    push_tokens(&mut out, snap);
    proof {
        assert(out@ =~= token_section(snap@));
    }
    push_errors(&mut out, snap);
    push_models(&mut out, ModelMetric::CacheResults, &snap.models);
    push_models(&mut out, ModelMetric::SsdHits, &snap.models);
    push_models(&mut out, ModelMetric::CacheBytes, &snap.models);
    push_models(&mut out, ModelMetric::KvCacheBytes, &snap.models);
    push_models(&mut out, ModelMetric::MetalPeak, &snap.models);
    push_ttft(&mut out, &snap.ttft_samples);
    push_itl(&mut out, snap);
    push_memory(&mut out, snap.proc_mem);
    push_server(&mut out, snap);
    push_throughput(&mut out, &snap.avg_decode_tok_s);
    push_requests(&mut out, snap);
    push_ssd_bytes(&mut out, &snap.ssd);
    push_ssd_evictions(&mut out, &snap.ssd);
    push_ssd_histograms(&mut out, &snap.ssd);
    out
}

/// Empty, or ended by a line break.
pub open spec fn line_ended(s: Seq<char>) -> bool {
    s.len() == 0 || s.last() == '\n'
}

pub(crate) proof fn lemma_line_ended(a: Seq<char>, b: Seq<char>)
    requires
        line_ended(a),
        line_ended(b),
    ensures
        line_ended(a + b),
        b.len() > 0 ==> (a + b).len() > 0,
{
    if b.len() == 0 {
        assert(a + b =~= a);
    } else {
        assert((a + b).last() == b.last());
    }
}

pub(crate) proof fn lemma_sample_ends(name: Seq<char>, labels: Seq<char>, value: Seq<char>)
    ensures
        line_ended(sample(name, labels, value)),
        sample(name, labels, value).len() > 0,
{
    reveal_strlit("\n");
    lemma_line_ended(Seq::empty(), "\n"@);
    let head = name + labels + " "@ + value;
    assert((head + "\n"@).last() == '\n');
}

pub(crate) proof fn lemma_ends_with_part(a: Seq<char>, b: Seq<char>)
    requires
        line_ended(b),
        b.len() > 0,
    ensures
        line_ended(a + b),
        (a + b).len() > 0,
{
    assert((a + b).last() == b.last());
}

pub(crate) proof fn lemma_histogram_ends(name: Seq<char>, help: Seq<char>, h: HistV)
    ensures
        line_ended(histogram(name, help, h)),
{
    let last = sample(name + "_count"@, ""@, decimal(h.count as nat));
    lemma_sample_ends(name + "_count"@, ""@, decimal(h.count as nat));
    let head = header(name, help, "histogram"@) + bucket_lines(name, h.buckets) + sample(
        name + "_bucket"@,
        label("le"@, "+Inf"@),
        decimal(h.count as nat),
    ) + sample(name + "_sum"@, ""@, decimal(h.sum_us as nat));
    lemma_ends_with_part(head, last);
}

/// The exposition is not empty and ends with a line break.
pub proof fn law_exposition_ends_with_newline(s: SnapshotV)
    ensures
        exposition(s).len() > 0,
        exposition(s).last() == '\n',
{
    let t = s.ssd;
    let failed = sample(
        "rmlx_requests_total"@,
        label("outcome"@, "failed"@),
        decimal(s.requests_failed as nat),
    );
    lemma_sample_ends(
        "rmlx_requests_total"@,
        label("outcome"@, "failed"@),
        decimal(s.requests_failed as nat),
    );
    let name = "rmlx_requests_total"@;
    let r_head = header(
        name,
        "Lifetime request count by outcome since server start."@,
        "counter"@,
    ) + sample(name, label("outcome"@, "started"@), decimal(s.requests_started as nat)) + sample(
        name,
        label("outcome"@, "completed"@),
        decimal(s.requests_completed as nat),
    );
    lemma_ends_with_part(r_head, failed);
    assert(request_section(s) == r_head + failed);
    let e0 = token_section(s) + error_section(s) + model_section(
        ModelMetric::CacheResults,
        s.models,
    ) + model_section(ModelMetric::SsdHits, s.models) + model_section(
        ModelMetric::CacheBytes,
        s.models,
    ) + model_section(ModelMetric::KvCacheBytes, s.models) + model_section(
        ModelMetric::MetalPeak,
        s.models,
    ) + ttft_lines(ascending_of(ttft_values(s.ttft))) + itl_section(s.itl) + memory_section(
        s.proc_mem,
    ) + server_section(s) + throughput_section(s.avg_decode_tok_s);
    let e1 = e0 + request_section(s);
    lemma_ends_with_part(e0, request_section(s));
    lemma_section_ends(t);
    let e2 = e1 + ssd_bytes_section(t);
    lemma_line_ended(e1, ssd_bytes_section(t));
    let e3 = e2 + ssd_evict_section(t);
    lemma_line_ended(e2, ssd_evict_section(t));
    lemma_line_ended(e3, ssd_histograms(t));
    assert(exposition(s) == e3 + ssd_histograms(t));
    assert(exposition(s).len() >= e1.len());
}

pub(crate) proof fn lemma_header_ends(name: Seq<char>, help: Seq<char>, kind: Seq<char>)
    ensures
        line_ended(header(name, help, kind)),
{
    reveal_strlit("\n");
    lemma_ends_with_part("# HELP "@ + name + " "@ + help + "\n# TYPE "@ + name + " "@ + kind, "\n"@);
}

pub(crate) proof fn lemma_section_ends(t: SsdV)
    ensures
        line_ended(ssd_bytes_section(t)),
        line_ended(ssd_evict_section(t)),
        line_ended(ssd_histograms(t)),
{
    lemma_labelled_end("rmlx_ssd_bytes_used"@, "namespace"@, t.bytes_used);
    lemma_labelled_end("rmlx_ssd_evict_total"@, "namespace"@, t.evict_total);
    lemma_zero_end(t.bytes_used, t.evict_total);
    let h1 = header(
        "rmlx_ssd_bytes_used"@,
        "Current on-disk KV-block cache footprint in bytes."@,
        "gauge"@,
    );
    lemma_header_ends(
        "rmlx_ssd_bytes_used"@,
        "Current on-disk KV-block cache footprint in bytes."@,
        "gauge"@,
    );
    lemma_line_ended(h1, labelled_lines("rmlx_ssd_bytes_used"@, "namespace"@, t.bytes_used));
    let h2 = header(
        "rmlx_ssd_evict_total"@,
        "Lifetime SSD-tier LRU eviction count."@,
        "counter"@,
    );
    lemma_header_ends(
        "rmlx_ssd_evict_total"@,
        "Lifetime SSD-tier LRU eviction count."@,
        "counter"@,
    );
    let lines = labelled_lines("rmlx_ssd_evict_total"@, "namespace"@, t.evict_total);
    lemma_line_ended(h2, lines);
    lemma_line_ended(h2 + lines, zero_lines(t.bytes_used, t.evict_total));
    lemma_histogram_ends(
        "rmlx_ssd_spill_us"@,
        "Per-spill duration in microseconds."@,
        t.spill,
    );
    lemma_histogram_ends(
        "rmlx_ssd_hydrate_us"@,
        "Per-hydrate duration in microseconds."@,
        t.hydrate,
    );
    let spill = if tier_active(t) {
        histogram("rmlx_ssd_spill_us"@, "Per-spill duration in microseconds."@, t.spill)
    } else {
        Seq::empty()
    };
    let hydrate = if t.hydrate.count > 0 {
        histogram("rmlx_ssd_hydrate_us"@, "Per-hydrate duration in microseconds."@, t.hydrate)
    } else {
        Seq::empty()
    };
    lemma_line_ended(spill, hydrate);
}

pub(crate) proof fn lemma_labelled_end(name: Seq<char>, key: Seq<char>, vs: Seq<(Seq<char>, u64)>)
    ensures
        line_ended(labelled_lines(name, key, vs)),
    decreases vs.len(),
{
    if vs.len() > 0 {
        let last = (label(key, vs.last().0), decimal(vs.last().1 as nat));
        lemma_sample_ends(name, last.0, last.1);
        lemma_ends_with_part(
            labelled_lines(name, key, vs.drop_last()),
            sample(name, last.0, last.1),
        );
    }
}

pub(crate) proof fn lemma_zero_end(used: Seq<(Seq<char>, u64)>, evicted: Seq<(Seq<char>, u64)>)
    ensures
        line_ended(zero_lines(used, evicted)),
    decreases used.len(),
{
    if used.len() > 0 {
        lemma_zero_end(used.drop_last(), evicted);
        lemma_sample_ends("rmlx_ssd_evict_total"@, label("namespace"@, used.last().0), "0"@);
        let last = if has_label(evicted, used.last().0) {
            Seq::empty()
        } else {
            sample("rmlx_ssd_evict_total"@, label("namespace"@, used.last().0), "0"@)
        };
        lemma_line_ended(zero_lines(used.drop_last(), evicted), last);
    }
}

/// Empty, or begun by the lines that introduce the metric.
pub open spec fn introduced(section: Seq<char>, name: Seq<char>) -> bool {
    section.len() == 0 || starts_with(section, "# HELP "@ + name + " "@)
}

proof fn lemma_starts_longer(a: Seq<char>, b: Seq<char>, prefix: Seq<char>)
    requires
        starts_with(a, prefix),
    ensures
        starts_with(a + b, prefix),
{
    assert((a + b).subrange(0, prefix.len() as int) =~= a.subrange(0, prefix.len() as int));
}

proof fn lemma_header_introduces(name: Seq<char>, help: Seq<char>, kind: Seq<char>)
    ensures
        starts_with(header(name, help, kind), "# HELP "@ + name + " "@),
{
    let prefix = "# HELP "@ + name + " "@;
    assert(header(name, help, kind).subrange(0, prefix.len() as int) =~= prefix);
}

proof fn lemma_introduced4(
    name: Seq<char>,
    help: Seq<char>,
    kind: Seq<char>,
    a: Seq<char>,
    b: Seq<char>,
    c: Seq<char>,
)
    ensures
        introduced(header(name, help, kind) + a, name),
        introduced(header(name, help, kind) + a + b, name),
        introduced(header(name, help, kind) + a + b + c, name),
{
    let prefix = "# HELP "@ + name + " "@;
    let h = header(name, help, kind);
    lemma_header_introduces(name, help, kind);
    lemma_starts_longer(h, a, prefix);
    lemma_starts_longer(h + a, b, prefix);
    lemma_starts_longer(h + a + b, c, prefix);
}

/// Every section of the exposition is empty or begins with the lines that
/// introduce its metric, whatever was measured.
pub proof fn law_sections_are_introduced(s: SnapshotV, which: ModelMetric, t: Seq<u64>)
    ensures
        introduced(token_section(s), "rmlx_lifetime_tokens_total"@),
        introduced(error_section(s), "rmlx_api_errors_total"@),
        introduced(model_section(which, s.models), metric_name(which)),
        introduced(ttft_lines(t), "rmlx_ttft_ms"@),
        introduced(itl_section(s.itl), "rmlx_itl_ms"@),
        introduced(memory_section(s.proc_mem), "rmlx_process_rss_bytes"@),
        introduced(server_section(s), "rmlx_uptime_seconds"@),
        introduced(throughput_section(s.avg_decode_tok_s), "rmlx_avg_decode_tok_s"@),
        introduced(request_section(s), "rmlx_requests_total"@),
        introduced(ssd_bytes_section(s.ssd), "rmlx_ssd_bytes_used"@),
        introduced(ssd_evict_section(s.ssd), "rmlx_ssd_evict_total"@),
{
    assert forall|name: Seq<char>, help: Seq<char>, kind: Seq<char>, a: Seq<char>|
        introduced(#[trigger] (header(name, help, kind) + a), name) by {
        lemma_introduced4(name, help, kind, a, a, a);
    }
    assert forall|
        name: Seq<char>,
        help: Seq<char>,
        kind: Seq<char>,
        a: Seq<char>,
        b: Seq<char>,
    | introduced(#[trigger] (header(name, help, kind) + a + b), name) by {
        lemma_introduced4(name, help, kind, a, b, b);
    }
    assert forall|
        name: Seq<char>,
        help: Seq<char>,
        kind: Seq<char>,
        a: Seq<char>,
        b: Seq<char>,
        c: Seq<char>,
    | introduced(#[trigger] (header(name, help, kind) + a + b + c), name) by {
        lemma_introduced4(name, help, kind, a, b, c);
    }
}

// ── JSON ─────────────────────────────────────────────────────────────────────

/// A quotient of two counters.
#[derive(Clone, Copy, Debug, PartialEq, Eq, Structural)]
pub struct Quotient {
    pub num: u64,
    pub den: u128,
}

/// The share of hits among all lookups; zero where there were none.
pub fn hit_rate(stats: &CacheStats) -> (r: Quotient)
    ensures
        r.den > 0,
        if stats.hits + stats.misses == 0 {
            r.num == 0
        } else {
            r.num == stats.hits && r.den == stats.hits + stats.misses
        },
{
    let total: u128 = stats.hits as u128 + stats.misses as u128;
    if total == 0 {
        Quotient { num: 0, den: 1 }
    } else {
        Quotient { num: stats.hits, den: total }
    }
}

/// The share of partial hits among all hits; zero where there were none.
pub fn partial_hit_rate(stats: &CacheStats) -> (r: Quotient)
    ensures
        r.den > 0,
        if stats.hits == 0 {
            r.num == 0
        } else {
            r.num == stats.partial_hits && r.den == stats.hits
        },
{
    if stats.hits == 0 {
        Quotient { num: 0, den: 1 }
    } else {
        Quotient { num: stats.partial_hits, den: stats.hits as u128 }
    }
}

/// The counters of a model. The rates are shown as the given texts.
pub open spec fn model_body(
    m: ModelV,
    hit_rate: JsonV,
    partial_hit_rate: JsonV,
    load_phases: Option<JsonV>,
) -> JsonV {
    let base = JsonV::object().with("model_id"@, JsonV::Str(m.model_id));
    let counters = match m.stats {
        Some(s) => base.with("hits"@, number_value(s.hits as nat)).with(
            "misses"@,
            number_value(s.misses as nat),
        ).with("evictions"@, number_value(s.evictions as nat)).with(
            "bytes"@,
            number_value(s.bytes as nat),
        ).with("hit_rate"@, hit_rate).with(
            "kv_cache_bytes"@,
            number_value(m.kv_cache_bytes as nat),
        ).with("metal_peak_alloc_bytes"@, opt_number_value(m.metal_peak_alloc_bytes)).with(
            "block_hits"@,
            number_value(s.block_hits as nat),
        ).with("block_misses"@, number_value(s.block_misses as nat)).with(
            "partial_hits"@,
            number_value(s.partial_hits as nat),
        ).with("partial_hit_rate"@, partial_hit_rate).with(
            "ssd_hits"@,
            number_value(s.ssd_hits as nat),
        ),
        None => {
            let kv = if m.kv_cache_bytes > 0 {
                base.with("kv_cache_bytes"@, number_value(m.kv_cache_bytes as nat))
            } else {
                base
            };
            match m.metal_peak_alloc_bytes {
                Some(n) => kv.with("metal_peak_alloc_bytes"@, number_value(n as nat)),
                None => kv,
            }
        },
    };
    match load_phases {
        Some(lp) => counters.with("load_phases"@, lp),
        None => counters,
    }
}

/// The counters of a model as JSON. The rates and the times of its load come in as
/// JSON.
pub fn model_json(
    m: &ModelMetrics,
    hit_rate: Json,
    partial_hit_rate: Json,
    load_phases: Option<Json>,
) -> (r: Json)
    ensures
        r@ == model_body(
            m@,
            hit_rate@,
            partial_hit_rate@,
            match load_phases {
                Some(j) => Some(j@),
                None => None,
            },
        ),
{
    let base = Json::object().with("model_id", Json::string(m.model_id.as_str()));
    let counters = match m.stats {
        Some(s) => base.with("hits", Json::number(s.hits)).with(
            "misses",
            Json::number(s.misses),
        ).with("evictions", Json::number(s.evictions)).with("bytes", Json::number(s.bytes)).with(
            "hit_rate",
            hit_rate,
        ).with("kv_cache_bytes", Json::number(m.kv_cache_bytes)).with(
            "metal_peak_alloc_bytes",
            Json::opt_number(m.metal_peak_alloc_bytes),
        ).with("block_hits", Json::number(s.block_hits)).with(
            "block_misses",
            Json::number(s.block_misses),
        ).with("partial_hits", Json::number(s.partial_hits)).with(
            "partial_hit_rate",
            partial_hit_rate,
        ).with("ssd_hits", Json::number(s.ssd_hits)),
        None => {
            let kv = if m.kv_cache_bytes > 0 {
                base.with("kv_cache_bytes", Json::number(m.kv_cache_bytes))
            } else {
                base
            };
            match m.metal_peak_alloc_bytes {
                Some(n) => kv.with("metal_peak_alloc_bytes", Json::number(n)),
                None => kv,
            }
        },
    };
    match load_phases {
        Some(lp) => counters.with("load_phases", lp),
        None => counters,
    }
}

/// A time to the first token.
pub open spec fn ttft_body(s: (Seq<char>, u64)) -> JsonV {
    JsonV::object().with("model_id"@, JsonV::Str(s.0)).with("ttft_ms"@, number_value(s.1 as nat))
}

/// Latencies between tokens.
pub open spec fn itl_body(s: ItlV) -> JsonV {
    JsonV::object().with("model_id"@, JsonV::Str(s.model_id)).with(
        "p50_ms"@,
        s.p50_ms.json,
    ).with("p95_ms"@, s.p95_ms.json).with("step_mean_ms"@, s.mean_ms.json).with(
        "step_count"@,
        number_value(s.step_count as nat),
    )
}

/// The members of an object of labelled numbers.
pub open spec fn labelled_body(vs: Seq<(Seq<char>, u64)>) -> JsonV {
    JsonV::Object(Seq::new(vs.len(), |i: int| (vs[i].0, number_value(vs[i].1 as nat))))
}

/// The cache metrics.
pub open spec fn cache_body(s: SnapshotV, models: Seq<JsonV>) -> JsonV {
    JsonV::object().with("models"@, JsonV::Array(models)).with(
        "ttft"@,
        JsonV::Array(Seq::new(s.ttft.len(), |i: int| ttft_body(s.ttft[i]))),
    ).with("itl"@, JsonV::Array(Seq::new(s.itl.len(), |i: int| itl_body(s.itl[i])))).with(
        "tokens_in"@,
        number_value(s.tokens_in as nat),
    ).with("tokens_out"@, number_value(s.tokens_out as nat)).with(
        "error_counts"@,
        labelled_body(s.error_counts),
    )
}

fn labelled_json(vs: &Vec<Labelled>) -> (r: Json)
    ensures
        r@ == labelled_body(views(vs@)),
{
    let ghost all = views(vs@);
    let mut out = Json::object();
    let mut i: usize = 0;
    proof {
        assert(labelled_body(all.subrange(0, 0))->Object_0 =~= Seq::empty());
    }
    while i < vs.len()
        invariant
            i <= vs@.len(),
            all == views(vs@),
            out@ == labelled_body(all.subrange(0, i as int)),
        decreases vs@.len() - i,
    {
        out = out.with(vs[i].label.as_str(), Json::number(vs[i].value));
        proof {
            let ms = labelled_body(all.subrange(0, i as int))->Object_0;
            assert(labelled_body(all.subrange(0, i + 1))->Object_0 =~= ms.push(
                (all[i as int].0, number_value(all[i as int].1 as nat)),
            ));
        }
        i += 1;
    }
    proof {
        assert(all.subrange(0, i as int) =~= all);
    }
    out
}

/// The cache metrics as JSON. `models` holds the counters of each model.
pub fn metrics_cache(snap: &MetricsSnapshot, models: Vec<Json>) -> (r: Json)
    ensures
        r@ == cache_body(snap@, views(models@)),
{
    let ghost s = snap@;
    let mut ttft: Vec<Json> = Vec::new();
    let mut i: usize = 0;
    while i < snap.ttft_samples.len()
        invariant
            i <= snap.ttft_samples@.len(),
            s == snap@,
            ttft@.len() == i,
            forall|k: int| 0 <= k < i ==> (#[trigger] ttft@[k])@ == ttft_body(s.ttft[k]),
        decreases snap.ttft_samples@.len() - i,
    {
        let x = &snap.ttft_samples[i];
        ttft.push(
            Json::object().with("model_id", Json::string(x.model_id.as_str())).with(
                "ttft_ms",
                Json::number(x.ttft_ms),
            ),
        );
        i += 1;
    }
    let mut itl: Vec<Json> = Vec::new();
    let mut k: usize = 0;
    while k < snap.itl_samples.len()
        invariant
            k <= snap.itl_samples@.len(),
            s == snap@,
            itl@.len() == k,
            forall|j: int| 0 <= j < k ==> (#[trigger] itl@[j])@ == itl_body(s.itl[j]),
        decreases snap.itl_samples@.len() - k,
    {
        let x = &snap.itl_samples[k];
        itl.push(
            Json::object().with("model_id", Json::string(x.model_id.as_str())).with(
                "p50_ms",
                x.p50_ms.json.duplicate(),
            ).with("p95_ms", x.p95_ms.json.duplicate()).with(
                "step_mean_ms",
                x.mean_ms.json.duplicate(),
            ).with("step_count", Json::number(x.step_count)),
        );
        k += 1;
    }
    proof {
        assert(views(ttft@) =~= Seq::new(s.ttft.len(), |i: int| ttft_body(s.ttft[i])));
        assert(views(itl@) =~= Seq::new(s.itl.len(), |i: int| itl_body(s.itl[i])));
    }
    Json::object().with("models", Json::array(models)).with("ttft", Json::array(ttft)).with(
        "itl",
        Json::array(itl),
    ).with("tokens_in", Json::number(snap.tokens_in)).with(
        "tokens_out",
        Json::number(snap.tokens_out),
    ).with("error_counts", labelled_json(&snap.error_counts))
}

/// The summary of a server. `decode_tok_s` is the throughput of decoding; `null`
/// where there is none.
pub fn metrics_v1_summary(snap: &MetricsSnapshot, decode_tok_s: Json) -> (r: Json)
    ensures
        ({
            let s = snap@;
            r@ == JsonV::object().with("uptime_s"@, s.uptime_s.json).with(
                "in_flight"@,
                number_value(s.in_flight as nat),
            ).with("requests_started"@, number_value(s.requests_started as nat)).with(
                "requests_completed"@,
                number_value(s.requests_completed as nat),
            ).with("requests_failed"@, number_value(s.requests_failed as nat)).with(
                "avg_request_tok_s"@,
                JsonV::Null,
            ).with(
                "avg_decode_tok_s"@,
                decode_tok_s@,
            ).with("tokens_in"@, number_value(s.tokens_in as nat)).with(
                "tokens_out"@,
                number_value(s.tokens_out as nat),
            ).with("last_error"@, JsonV::Null)
        }),
{
    Json::object().with("uptime_s", snap.uptime_s.json.duplicate()).with(
        "in_flight",
        Json::number(snap.in_flight),
    ).with("requests_started", Json::number(snap.requests_started)).with(
        "requests_completed",
        Json::number(snap.requests_completed),
    ).with("requests_failed", Json::number(snap.requests_failed)).with(
        "avg_request_tok_s",
        Json::Null,
    ).with(
        "avg_decode_tok_s",
        decode_tok_s,
    ).with("tokens_in", Json::number(snap.tokens_in)).with(
        "tokens_out",
        Json::number(snap.tokens_out),
    ).with("last_error", Json::Null)
}

} // verus!
