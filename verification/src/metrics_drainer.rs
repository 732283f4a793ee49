//! Telemetry events: what they record, and when they are written.
//!
//! Events are queued without blocking, collected into batches and written by a
//! background task. The queue and the database stand outside; the decisions are
//! made here.

use vstd::prelude::*;

use crate::text::{lemma_views_push, views};

verus! {

// ── Values ───────────────────────────────────────────────────────────────────

/// An IEEE 754 binary64 number, by its bit pattern.
#[derive(Clone, Copy, Debug, PartialEq, Eq, Structural)]
pub struct F64 {
    pub bits: u64,
}

/// A recorded value.
#[derive(Clone, Copy, Debug, PartialEq, Eq, Structural)]
pub enum MetricValue {
    /// A number that was measured as such.
    Real(F64),
    /// The quotient of two integers; the denominator is not zero.
    Ratio { num: u128, den: u128 },
}

/// A whole number.
pub open spec fn whole(n: nat) -> MetricValue {
    MetricValue::Ratio { num: n as u128, den: 1 }
}

/// A number of milliseconds, given in microseconds.
pub open spec fn millis_of(us: u64) -> MetricValue {
    MetricValue::Ratio { num: us as u128, den: 1000 }
}

/// Mebibytes per second; zero when no time has passed.
pub open spec fn throughput(bytes: u64, us: u64) -> MetricValue {
    if us == 0 {
        whole(0)
    } else {
        MetricValue::Ratio { num: (bytes * 1_000_000) as u128, den: (us * 1_048_576) as u128 }
    }
}

/// One value of an observation.
#[derive(Debug)]
pub struct MetricEntry {
    pub name: String,
    pub value: Option<MetricValue>,
}

pub struct EntryV {
    pub name: Seq<char>,
    pub value: Option<MetricValue>,
}

impl View for MetricEntry {
    type V = EntryV;

    open spec fn view(&self) -> EntryV {
        EntryV { name: self.name@, value: self.value }
    }
}

// ── Events ───────────────────────────────────────────────────────────────────

/// What an event measures.
#[derive(Clone, Copy, Debug, PartialEq, Eq, Structural)]
pub enum MetricKind {
    KvCacheBytes(u64),
    TtftMs(u64),
    PromptCacheHits(u64),
    PromptCacheMisses(u64),
    PromptCacheBytes(u64),
    BlockHits(u64),
    BlockMisses(u64),
    PartialHits(u64),
    HotCacheHits(u64),
    HotCacheEvictions(u64),
    SsdHits(u64),
    LoadPhases {
        mmap_ms: F64,
        dequant_ms: F64,
        gpu_residency_ms: F64,
        first_kernel_ready_ms: F64,
        total_ms: F64,
    },
    ItlStats { p50_ms: F64, p95_ms: F64, mean_ms: F64, step_count: usize },
    QueueWaitMs(u64),
    QueueDepth(u64),
    MetalPeakAllocMb(u64),
    PromptTokens(u32),
    CompletionTokens(u32),
    ItlP99Ms(F64),
    ItlSpikes(u64),
    SsdBytesUsed(u64),
    SsdEvictTotal(u64),
    SsdSpillUs { dur_us: u64, bytes: u64 },
    SsdHydrateUs { dur_us: u64, bytes: u64 },
}

/// A telemetry event.
#[derive(Debug)]
pub struct MetricEvent {
    pub model_id: String,
    /// The label of the codec.
    pub kv_quant: String,
    /// The time of the event, as ISO 8601.
    pub ts_utc: String,
    /// The greatest context in effect.
    pub ctx_max: i64,
    pub kind: MetricKind,
}

pub struct EventRecordV {
    pub model_id: Seq<char>,
    pub kv_quant: Seq<char>,
    pub ts_utc: Seq<char>,
    pub ctx_max: i64,
    pub kind: MetricKind,
}

impl View for MetricEvent {
    type V = EventRecordV;

    open spec fn view(&self) -> EventRecordV {
        EventRecordV {
            model_id: self.model_id@,
            kv_quant: self.kv_quant@,
            ts_utc: self.ts_utc@,
            ctx_max: self.ctx_max,
            kind: self.kind,
        }
    }
}

/// One named value.
pub open spec fn entry(name: Seq<char>, value: MetricValue) -> EntryV {
    EntryV { name, value: Some(value) }
}

/// One named whole number.
pub open spec fn count(name: Seq<char>, n: nat) -> Seq<EntryV> {
    seq![entry(name, whole(n))]
}

/// The values that an event records, each under its name.
pub open spec fn entries_of(kind: MetricKind) -> Seq<EntryV> {
    match kind {
        MetricKind::KvCacheBytes(v) => count("kv_cache_bytes"@, v as nat),
        MetricKind::TtftMs(v) => count("ttft_warm_ms"@, v as nat),
        MetricKind::PromptCacheHits(v) => count("prompt_cache_hits"@, v as nat),
        MetricKind::PromptCacheMisses(v) => count("prompt_cache_misses"@, v as nat),
        MetricKind::PromptCacheBytes(v) => count("prompt_cache_bytes"@, v as nat),
        MetricKind::BlockHits(v) => count("prompt_cache_block_hits"@, v as nat),
        MetricKind::BlockMisses(v) => count("prompt_cache_block_misses"@, v as nat),
        MetricKind::PartialHits(v) => count("prompt_cache_partial_hits"@, v as nat),
        MetricKind::HotCacheHits(v) => count("prompt_cache_hot_cache_hits"@, v as nat),
        MetricKind::HotCacheEvictions(v) => count("prompt_cache_hot_cache_evictions"@, v as nat),
        MetricKind::SsdHits(v) => count("prompt_cache_ssd_hits"@, v as nat),
        MetricKind::LoadPhases {
            mmap_ms,
            dequant_ms,
            gpu_residency_ms,
            first_kernel_ready_ms,
            total_ms,
        } => seq![entry("load_mmap_ms"@, MetricValue::Real(mmap_ms))].push(
            entry("load_dequant_ms"@, MetricValue::Real(dequant_ms)),
        ).push(entry("load_gpu_residency_ms"@, MetricValue::Real(gpu_residency_ms))).push(
            entry("load_first_kernel_ready_ms"@, MetricValue::Real(first_kernel_ready_ms)),
        ).push(entry("load_total_ms"@, MetricValue::Real(total_ms))),
        MetricKind::ItlStats { p50_ms, p95_ms, mean_ms, step_count: _ } => seq![
            entry("itl_p50_ms"@, MetricValue::Real(p50_ms)),
        ].push(entry("itl_p95_ms"@, MetricValue::Real(p95_ms))).push(
            entry("step_ms_mean"@, MetricValue::Real(mean_ms)),
        ),
        MetricKind::QueueWaitMs(v) => count("queue_wait_ms"@, v as nat),
        MetricKind::QueueDepth(v) => count("queue_depth"@, v as nat),
        MetricKind::MetalPeakAllocMb(v) => count("metal_peak_alloc_mb"@, v as nat),
        MetricKind::PromptTokens(v) => count("prompt_tokens_live"@, v as nat),
        MetricKind::CompletionTokens(v) => count("completion_tokens_live"@, v as nat),
        MetricKind::ItlP99Ms(v) => seq![entry("itl_p99_ms"@, MetricValue::Real(v))],
        MetricKind::ItlSpikes(v) => count("itl_spikes"@, v as nat),
        MetricKind::SsdBytesUsed(v) => count("ssd_bytes_used"@, v as nat),
        MetricKind::SsdEvictTotal(v) => count("ssd_evict_total"@, v as nat),
        MetricKind::SsdSpillUs { dur_us, bytes } => seq![
            entry("ssd_spill_ms"@, millis_of(dur_us)),
        ].push(entry("ssd_spill_mb_per_s"@, throughput(bytes, dur_us))),
        MetricKind::SsdHydrateUs { dur_us, bytes } => seq![
            entry("ssd_hydrate_ms"@, millis_of(dur_us)),
        ].push(entry("ssd_hydrate_mb_per_s"@, throughput(bytes, dur_us))),
    }
}

fn push_entry(out: &mut Vec<MetricEntry>, name: &str, value: MetricValue)
    ensures
        views(final(out)@) == views(old(out)@).push(entry(name@, value)),
{
    let e = MetricEntry { name: name.to_owned(), value: Some(value) };
    proof {
        lemma_views_push(out@, e);
    }
    out.push(e);
}

fn one(name: &str, value: MetricValue) -> (r: Vec<MetricEntry>)
    ensures
        views(r@) == seq![entry(name@, value)],
{
    let mut out: Vec<MetricEntry> = Vec::new();
    proof {
        assert(views(out@) =~= Seq::empty());
    }
    push_entry(&mut out, name, value);
    out
}

fn one_count(name: &str, n: u64) -> (r: Vec<MetricEntry>)
    ensures
        views(r@) == count(name@, n as nat),
{
    one(name, MetricValue::Ratio { num: n as u128, den: 1 })
}

fn throughput_value(bytes: u64, us: u64) -> (r: MetricValue)
    ensures
        r == throughput(bytes, us),
{
    if us == 0 {
        MetricValue::Ratio { num: 0, den: 1 }
    } else {
        MetricValue::Ratio { num: bytes as u128 * 1_000_000, den: us as u128 * 1_048_576 }
    }
}

/// The values that an event records, each under its name.
pub fn event_kind_to_metrics(kind: &MetricKind) -> (r: Vec<MetricEntry>)
    ensures
        views(r@) == entries_of(*kind),
{
    match *kind {
        MetricKind::KvCacheBytes(v) => one_count("kv_cache_bytes", v),
        MetricKind::TtftMs(v) => one_count("ttft_warm_ms", v),
        MetricKind::PromptCacheHits(v) => one_count("prompt_cache_hits", v),
        MetricKind::PromptCacheMisses(v) => one_count("prompt_cache_misses", v),
        MetricKind::PromptCacheBytes(v) => one_count("prompt_cache_bytes", v),
        MetricKind::BlockHits(v) => one_count("prompt_cache_block_hits", v),
        MetricKind::BlockMisses(v) => one_count("prompt_cache_block_misses", v),
        MetricKind::PartialHits(v) => one_count("prompt_cache_partial_hits", v),
        MetricKind::HotCacheHits(v) => one_count("prompt_cache_hot_cache_hits", v),
        MetricKind::HotCacheEvictions(v) => one_count("prompt_cache_hot_cache_evictions", v),
        MetricKind::SsdHits(v) => one_count("prompt_cache_ssd_hits", v),
        MetricKind::LoadPhases {
            mmap_ms,
            dequant_ms,
            gpu_residency_ms,
            first_kernel_ready_ms,
            total_ms,
        } => {
            let mut out = one("load_mmap_ms", MetricValue::Real(mmap_ms));
            push_entry(&mut out, "load_dequant_ms", MetricValue::Real(dequant_ms));
            push_entry(&mut out, "load_gpu_residency_ms", MetricValue::Real(gpu_residency_ms));
            push_entry(
                &mut out,
                "load_first_kernel_ready_ms",
                MetricValue::Real(first_kernel_ready_ms),
            );
            push_entry(&mut out, "load_total_ms", MetricValue::Real(total_ms));
            out
        },
        MetricKind::ItlStats { p50_ms, p95_ms, mean_ms, step_count: _ } => {
            let mut out = one("itl_p50_ms", MetricValue::Real(p50_ms));
            push_entry(&mut out, "itl_p95_ms", MetricValue::Real(p95_ms));
            push_entry(&mut out, "step_ms_mean", MetricValue::Real(mean_ms));
            out
        },
        MetricKind::QueueWaitMs(v) => one_count("queue_wait_ms", v),
        MetricKind::QueueDepth(v) => one_count("queue_depth", v),
        MetricKind::MetalPeakAllocMb(v) => one_count("metal_peak_alloc_mb", v),
        MetricKind::PromptTokens(v) => one_count("prompt_tokens_live", v as u64),
        MetricKind::CompletionTokens(v) => one_count("completion_tokens_live", v as u64),
        MetricKind::ItlP99Ms(v) => one("itl_p99_ms", MetricValue::Real(v)),
        MetricKind::ItlSpikes(v) => one_count("itl_spikes", v),
        MetricKind::SsdBytesUsed(v) => one_count("ssd_bytes_used", v),
        MetricKind::SsdEvictTotal(v) => one_count("ssd_evict_total", v),
        MetricKind::SsdSpillUs { dur_us, bytes } => {
            let mut out = one(
                "ssd_spill_ms",
                MetricValue::Ratio { num: dur_us as u128, den: 1000 },
            );
            push_entry(&mut out, "ssd_spill_mb_per_s", throughput_value(bytes, dur_us));
            out
        },
        MetricKind::SsdHydrateUs { dur_us, bytes } => {
            let mut out = one(
                "ssd_hydrate_ms",
                MetricValue::Ratio { num: dur_us as u128, den: 1000 },
            );
            push_entry(&mut out, "ssd_hydrate_mb_per_s", throughput_value(bytes, dur_us));
            out
        },
    }
}

/// Every event records something, and no recorded quotient divides by zero.
pub proof fn law_every_event_records(kind: MetricKind)
    ensures
        entries_of(kind).len() >= 1,
        forall|i: int|
            0 <= i < entries_of(kind).len() ==> ((#[trigger] entries_of(kind)[i]).value
                matches Some(v) && (v matches MetricValue::Ratio { num, den } ==> den > 0)),
{
}

/// What an event changes in the running totals of the disk tier.
#[derive(Clone, Copy, Debug, PartialEq, Eq, Structural)]
pub enum SsdUpdate {
    Spill(u64),
    Hydrate(u64),
    BytesUsed(u64),
    Evicted(u64),
}

/// What an event changes in the running totals of the disk tier, if anything.
pub fn ssd_update(kind: &MetricKind) -> (r: Option<SsdUpdate>)
    ensures
        r == match *kind {
            MetricKind::SsdSpillUs { dur_us, bytes: _ } => Some(SsdUpdate::Spill(dur_us)),
            MetricKind::SsdHydrateUs { dur_us, bytes: _ } => Some(SsdUpdate::Hydrate(dur_us)),
            MetricKind::SsdBytesUsed(n) => Some(SsdUpdate::BytesUsed(n)),
            MetricKind::SsdEvictTotal(n) => Some(SsdUpdate::Evicted(n)),
            _ => None,
        },
{
    match *kind {
        MetricKind::SsdSpillUs { dur_us, bytes: _ } => Some(SsdUpdate::Spill(dur_us)),
        MetricKind::SsdHydrateUs { dur_us, bytes: _ } => Some(SsdUpdate::Hydrate(dur_us)),
        MetricKind::SsdBytesUsed(n) => Some(SsdUpdate::BytesUsed(n)),
        MetricKind::SsdEvictTotal(n) => Some(SsdUpdate::Evicted(n)),
        _ => None,
    }
}

/// An observation, as it is written to the database. Its prompt is a fixed text
/// that stands for all live requests.
#[derive(Debug)]
pub struct RunRecord {
    pub model_id: String,
    pub kv_quant: String,
    pub ctx_max: i64,
    pub prompt_name: String,
    pub prompt_body: String,
    pub prompt_notes: String,
    pub ts_utc: String,
    pub notes: String,
    pub metrics: Vec<MetricEntry>,
}

/// The observation of an event.
pub fn event_to_run_record(ev: &MetricEvent) -> (r: RunRecord)
    ensures
        r.model_id@ == ev@.model_id,
        r.kv_quant@ == ev@.kv_quant,
        r.ctx_max == ev@.ctx_max,
        r.prompt_name@ == "live_request"@,
        r.prompt_body@ == "(live_request)"@,
        r.prompt_notes@ == "per-request telemetry from SPSC drainer"@,
        r.ts_utc@ == ev@.ts_utc,
        r.notes@ == "spsc_drainer"@,
        views(r.metrics@) == entries_of(ev@.kind),
{
    RunRecord {
        model_id: ev.model_id.clone(),
        kv_quant: ev.kv_quant.clone(),
        ctx_max: ev.ctx_max,
        prompt_name: "live_request".to_owned(),
        prompt_body: "(live_request)".to_owned(),
        prompt_notes: "per-request telemetry from SPSC drainer".to_owned(),
        ts_utc: ev.ts_utc.clone(),
        notes: "spsc_drainer".to_owned(),
        metrics: event_kind_to_metrics(&ev.kind),
    }
}

// ── Events of a request ──────────────────────────────────────────────────────

/// The event of a request at the handler, where no codec is known.
pub open spec fn handler_event(
    model_id: Seq<char>,
    ts_utc: Seq<char>,
    ctx_max: i64,
    kind: MetricKind,
) -> EventRecordV {
    EventRecordV { model_id, kv_quant: "none"@, ts_utc, ctx_max, kind }
}

/// An event of a request, as its handler records it.
pub fn make_event(model_id: &str, ts_utc: &str, ctx_max: i64, kind: MetricKind) -> (r: MetricEvent)
    ensures
        r@ == handler_event(model_id@, ts_utc@, ctx_max, kind),
{
    MetricEvent {
        model_id: model_id.to_owned(),
        kv_quant: "none".to_owned(),
        ts_utc: ts_utc.to_owned(),
        ctx_max,
        kind,
    }
}

/// The events of a request that is complete: the time to its first token where it
/// is still to be recorded, and its token counts.
pub fn completion_events(
    model_id: &str,
    ts_utc: &str,
    ctx_max: i64,
    ttft_ms: Option<u64>,
    prompt_tokens: u32,
    completion_tokens: u32,
) -> (r: Vec<MetricEvent>)
    ensures
        ({
            let at = |kind: MetricKind| handler_event(model_id@, ts_utc@, ctx_max, kind);
            let first = match ttft_ms {
                Some(ms) => seq![at(MetricKind::TtftMs(ms))],
                None => Seq::empty(),
            };
            views(r@) == first.push(at(MetricKind::PromptTokens(prompt_tokens))).push(
                at(MetricKind::CompletionTokens(completion_tokens)),
            )
        }),
{
    let mut out: Vec<MetricEvent> = Vec::new();
    match ttft_ms {
        Some(ms) => out.push(make_event(model_id, ts_utc, ctx_max, MetricKind::TtftMs(ms))),
        None => {},
    }
    out.push(make_event(model_id, ts_utc, ctx_max, MetricKind::PromptTokens(prompt_tokens)));
    out.push(
        make_event(model_id, ts_utc, ctx_max, MetricKind::CompletionTokens(completion_tokens)),
    );
    proof {
        let at = |kind: MetricKind| handler_event(model_id@, ts_utc@, ctx_max, kind);
        let first = match ttft_ms {
            Some(ms) => seq![at(MetricKind::TtftMs(ms))],
            None => Seq::empty(),
        };
        assert(views(out@) =~= first.push(at(MetricKind::PromptTokens(prompt_tokens))).push(
            at(MetricKind::CompletionTokens(completion_tokens)),
        ));
    }
    out
}

/// The events of a request that was admitted: how long it waited, and how deep
/// the queue was.
pub fn admission_events(
    model_id: &str,
    ts_utc: &str,
    ctx_max: i64,
    wait_ms: u64,
    depth: u64,
) -> (r: Vec<MetricEvent>)
    ensures
        r@.len() == 2,
        r@[0]@ == handler_event(model_id@, ts_utc@, ctx_max, MetricKind::QueueWaitMs(wait_ms)),
        r@[1]@ == handler_event(model_id@, ts_utc@, ctx_max, MetricKind::QueueDepth(depth)),
{
    let mut out: Vec<MetricEvent> = Vec::new();
    out.push(make_event(model_id, ts_utc, ctx_max, MetricKind::QueueWaitMs(wait_ms)));
    out.push(make_event(model_id, ts_utc, ctx_max, MetricKind::QueueDepth(depth)));
    out
}

// ── Events of a generation ───────────────────────────────────────────────────

/// Latencies between the tokens of one generation, in milliseconds.
#[derive(Clone, Copy, Debug, PartialEq, Eq, Structural)]
pub struct ItlMillis {
    pub p50_ms: F64,
    pub p95_ms: F64,
    pub p99_ms: F64,
    pub mean_ms: F64,
    pub step_count: usize,
    pub spikes: u64,
}

/// Where a generation's events belong.
#[derive(Clone, Copy, Debug)]
pub struct EventSource<'a> {
    pub model_id: &'a str,
    /// The label of the codec that the generation ran on.
    pub kv_quant: &'a str,
    pub ts_utc: &'a str,
    pub ctx_max: i64,
}

impl EventSource<'_> {
    /// An event of this source.
    pub open spec fn spec_event(self, kind: MetricKind) -> EventRecordV {
        EventRecordV {
            model_id: self.model_id@,
            kv_quant: self.kv_quant@,
            ts_utc: self.ts_utc@,
            ctx_max: self.ctx_max,
            kind,
        }
    }

    fn event(&self, kind: MetricKind) -> (r: MetricEvent)
        ensures
            r@ == self.spec_event(kind),
    {
        MetricEvent {
            model_id: self.model_id.to_owned(),
            kv_quant: self.kv_quant.to_owned(),
            ts_utc: self.ts_utc.to_owned(),
            ctx_max: self.ctx_max,
            kind,
        }
    }
}

/// The events of a generation's latencies.
pub fn itl_events(source: &EventSource<'_>, itl: &ItlMillis) -> (r: Vec<MetricEvent>)
    ensures
        r@.len() == 3,
        r@[0]@ == source.spec_event(
            MetricKind::ItlStats {
                p50_ms: itl.p50_ms,
                p95_ms: itl.p95_ms,
                mean_ms: itl.mean_ms,
                step_count: itl.step_count,
            },
        ),
        r@[1]@ == source.spec_event(MetricKind::ItlP99Ms(itl.p99_ms)),
        r@[2]@ == source.spec_event(MetricKind::ItlSpikes(itl.spikes)),
{
    let mut out: Vec<MetricEvent> = Vec::new();
    out.push(
        source.event(
            MetricKind::ItlStats {
                p50_ms: itl.p50_ms,
                p95_ms: itl.p95_ms,
                mean_ms: itl.mean_ms,
                step_count: itl.step_count,
            },
        ),
    );
    out.push(source.event(MetricKind::ItlP99Ms(itl.p99_ms)));
    out.push(source.event(MetricKind::ItlSpikes(itl.spikes)));
    out
}

/// What is known of the size of a generation's cache.
#[derive(Clone, Copy, Debug, PartialEq, Eq, Structural)]
pub enum KvBytesVerdict {
    Reported(u64),
    /// The readable figure is of an earlier generation.
    Unreported,
    /// The accounting is wrong.
    ReportedZero,
}

/// The size that is recorded: one that was reported and is not zero.
pub open spec fn recordable(verdict: KvBytesVerdict) -> Option<u64> {
    match verdict {
        KvBytesVerdict::Reported(n) if n > 0 => Some(n),
        _ => None,
    }
}

/// The size that is recorded, if any.
pub fn recordable_kv_bytes(verdict: KvBytesVerdict) -> (r: Option<u64>)
    ensures
        r == recordable(verdict),
{
    match verdict {
        KvBytesVerdict::Reported(n) => if n > 0 {
            Some(n)
        } else {
            None
        },
        _ => None,
    }
}

/// The events of a generation's memory: the size of its cache, where it is known,
/// and the peak of the allocator in mebibytes, where it is reported.
pub open spec fn memory_kinds(verdict: KvBytesVerdict, peak_bytes: Option<u64>) -> Seq<MetricKind> {
    let cache = match recordable(verdict) {
        Some(n) => seq![MetricKind::KvCacheBytes(n)],
        None => Seq::empty(),
    };
    match peak_bytes {
        Some(b) => cache.push(MetricKind::MetalPeakAllocMb((b / 1_048_576) as u64)),
        None => cache,
    }
}

/// The events of a generation's memory.
pub fn memory_events(
    source: &EventSource<'_>,
    verdict: KvBytesVerdict,
    peak_bytes: Option<u64>,
) -> (r: Vec<MetricEvent>)
    ensures
        views(r@) == memory_kinds(verdict, peak_bytes).map_values(
            |k: MetricKind| source.spec_event(k),
        ),
{
    let mut out: Vec<MetricEvent> = Vec::new();
    match recordable_kv_bytes(verdict) {
        Some(n) => out.push(source.event(MetricKind::KvCacheBytes(n))),
        None => {},
    }
    match peak_bytes {
        Some(b) => out.push(source.event(MetricKind::MetalPeakAllocMb(b / 1_048_576))),
        None => {},
    }
    proof {
        assert(views(out@) =~= memory_kinds(verdict, peak_bytes).map_values(
            |k: MetricKind| source.spec_event(k),
        ));
    }
    out
}

// ── The producer ─────────────────────────────────────────────────────────────

/// What became of an attempt to queue an event.
#[derive(Clone, Copy, Debug, PartialEq, Eq, Structural)]
pub enum SendOutcome {
    Queued,
    Full,
    Closed,
}

/// Counts the events that were lost because the queue was full.
#[derive(Debug)]
pub struct DrainerHandle {
    enabled: bool,
    dropped: u64,
}

pub struct HandleV {
    /// Whether events are recorded at all.
    pub enabled: bool,
    pub dropped: nat,
}

impl View for DrainerHandle {
    type V = HandleV;

    closed spec fn view(&self) -> HandleV {
        HandleV { enabled: self.enabled, dropped: self.dropped as nat }
    }
}

impl DrainerHandle {
    /// A handle that has lost nothing.
    pub fn new(enabled: bool) -> (r: Self)
        ensures
            r@ == (HandleV { enabled, dropped: 0 }),
    {
        DrainerHandle { enabled, dropped: 0 }
    }

    /// Whether events are to be queued at all.
    pub fn is_enabled(&self) -> (r: bool)
        ensures
            r == self@.enabled,
    {
        self.enabled
    }

    /// Takes note of an attempt to queue an event; whether the event was queued.
    /// Only a full queue counts as a loss.
    pub fn try_emit(&mut self, outcome: SendOutcome) -> (r: bool)
        requires
            old(self)@.dropped < u64::MAX,
        ensures
            r == (old(self)@.enabled && outcome == SendOutcome::Queued),
            final(self)@.enabled == old(self)@.enabled,
            final(self)@.dropped == old(self)@.dropped + if old(self)@.enabled && outcome
                == SendOutcome::Full {
                1nat
            } else {
                0
            },
    {
        if !self.enabled {
            return false;
        }
        match outcome {
            SendOutcome::Queued => true,
            SendOutcome::Full => {
                self.dropped = self.dropped + 1;
                false
            },
            SendOutcome::Closed => false,
        }
    }

    /// How many events were lost because the queue was full.
    pub fn dropped_count(&self) -> (r: u64)
        ensures
            r == self@.dropped,
    {
        self.dropped
    }
}

/// Whether a loss is logged, by the number of losses before it: one in 64 is.
pub fn log_drop(dropped_before: u64) -> (r: bool)
    ensures
        r == (dropped_before % 64 == 0),
{
    dropped_before % 64 == 0
}

// ── The consumer ─────────────────────────────────────────────────────────────

/// How many events the queue holds.
pub const CHANNEL_CAPACITY: usize = 256;

/// How many events are written at once.
pub const BATCH_SIZE: usize = 32;

/// How long events wait for a batch to fill up, in milliseconds.
pub const FLUSH_INTERVAL_MS: u64 = 100;

/// What waiting for an event gave.
#[derive(Debug)]
pub enum Arrival {
    Event(MetricEvent),
    /// The interval is over.
    Timeout,
    /// There will be no more events.
    Closed,
}

/// What the consumer does next.
#[derive(Clone, Copy, Debug, PartialEq, Eq, Structural)]
pub enum BatchAction {
    /// Wait for another event.
    Wait,
    /// Write the batch and begin a new one.
    Flush,
    /// Write the batch and end.
    FlushAndExit,
}

/// Events that have been collected.
#[derive(Debug)]
pub struct Batch {
    events: Vec<MetricEvent>,
}

impl View for Batch {
    type V = Seq<EventRecordV>;

    closed spec fn view(&self) -> Seq<EventRecordV> {
        views(self.events@)
    }
}

/// The batch after an arrival.
pub open spec fn batch_after(batch: Seq<EventRecordV>, a: Arrival) -> Seq<EventRecordV> {
    match a {
        Arrival::Event(e) => batch.push(e@),
        _ => batch,
    }
}

/// What the consumer does after an arrival: a full batch is written, and so is
/// what there is when the interval is over or the queue is closed.
pub open spec fn batch_action(batch: Seq<EventRecordV>, a: Arrival) -> BatchAction {
    match a {
        Arrival::Event(_) => if batch.len() + 1 >= BATCH_SIZE {
            BatchAction::Flush
        } else {
            BatchAction::Wait
        },
        Arrival::Timeout => if batch.len() > 0 {
            BatchAction::Flush
        } else {
            BatchAction::Wait
        },
        Arrival::Closed => BatchAction::FlushAndExit,
    }
}

impl Batch {
    /// A batch without events.
    pub fn new() -> (r: Self)
        ensures
            r@ == Seq::<EventRecordV>::empty(),
    {
        let r = Batch { events: Vec::new() };
        proof {
            assert(views(r.events@) =~= Seq::empty());
        }
        r
    }

    /// Takes in an arrival and says what to do.
    pub fn on_arrival(&mut self, a: Arrival) -> (r: BatchAction)
        ensures
            final(self)@ == batch_after(old(self)@, a),
            r == batch_action(old(self)@, a),
    {
        match a {
            Arrival::Event(e) => {
                proof {
                    lemma_views_push(self.events@, e);
                }
                self.events.push(e);
                if self.events.len() >= BATCH_SIZE {
                    BatchAction::Flush
                } else {
                    BatchAction::Wait
                }
            },
            Arrival::Timeout => if self.events.len() > 0 {
                BatchAction::Flush
            } else {
                BatchAction::Wait
            },
            Arrival::Closed => BatchAction::FlushAndExit,
        }
    }

    /// Hands out the events and empties the batch.
    pub fn take(&mut self) -> (r: Vec<MetricEvent>)
        ensures
            views(r@) == old(self)@,
            final(self)@ == Seq::<EventRecordV>::empty(),
    {
        let mut out: Vec<MetricEvent> = Vec::new();
        std::mem::swap(&mut out, &mut self.events);
        proof {
            assert(views(self.events@) =~= Seq::empty());
        }
        out
    }
}

/// A batch that waits is never full, and no event is lost between arrivals.
pub proof fn law_batches_stay_small(batch: Seq<EventRecordV>, a: Arrival)
    requires
        batch.len() < BATCH_SIZE,
    ensures
        batch_action(batch, a) == BatchAction::Wait ==> batch_after(batch, a).len() < BATCH_SIZE,
        batch_after(batch, a).len() <= BATCH_SIZE,
        batch_after(batch, a).subrange(0, batch.len() as int) == batch,
{
    assert(batch_after(batch, a).subrange(0, batch.len() as int) =~= batch);
}

// ── Laws ─────────────────────────────────────────────────────────────────────

/// An entry gives this value under this name.
pub open spec fn names(e: MetricEntry, name: Seq<char>, value: MetricValue) -> bool {
    e.name@ == name && e.value == Some(value)
}

/// A whole number.
pub open spec fn whole_number(n: int) -> MetricValue {
    MetricValue::Ratio { num: n as u128, den: 1 }
}

/// A duration in microseconds as milliseconds.
pub open spec fn as_millis(us: u64) -> MetricValue {
    MetricValue::Ratio { num: us as u128, den: 1000 }
}

/// Mebibytes per second: zero over no time.
pub open spec fn mebibytes_per_second(bytes: u64, us: u64) -> MetricValue {
    if us == 0 {
        whole_number(0)
    } else {
        MetricValue::Ratio { num: (bytes * 1_000_000) as u128, den: (us * 1_048_576) as u128 }
    }
}

/// Every event records what it measured, under the name of what it measured, and
/// nothing else.
pub proof fn law_events_record_what_they_measure(kind: MetricKind, r: Vec<MetricEntry>)
    requires
        call_ensures(event_kind_to_metrics, (&kind,), r),
    ensures
        match kind {
            MetricKind::KvCacheBytes(n) => r@.len() == 1 && names(r@[0], "kv_cache_bytes"@, whole_number(n as int)),
            MetricKind::TtftMs(n) => r@.len() == 1 && names(r@[0], "ttft_warm_ms"@, whole_number(n as int)),
            MetricKind::PromptCacheHits(n) => r@.len() == 1 && names(r@[0], "prompt_cache_hits"@, whole_number(n as int)),
            MetricKind::PromptCacheMisses(n) => r@.len() == 1 && names(r@[0], "prompt_cache_misses"@, whole_number(n as int)),
            MetricKind::PromptCacheBytes(n) => r@.len() == 1 && names(r@[0], "prompt_cache_bytes"@, whole_number(n as int)),
            MetricKind::BlockHits(n) => r@.len() == 1 && names(r@[0], "prompt_cache_block_hits"@, whole_number(n as int)),
            MetricKind::BlockMisses(n) => r@.len() == 1 && names(r@[0], "prompt_cache_block_misses"@, whole_number(n as int)),
            MetricKind::PartialHits(n) => r@.len() == 1 && names(r@[0], "prompt_cache_partial_hits"@, whole_number(n as int)),
            MetricKind::HotCacheHits(n) => r@.len() == 1 && names(r@[0], "prompt_cache_hot_cache_hits"@, whole_number(n as int)),
            MetricKind::HotCacheEvictions(n) => r@.len() == 1 && names(r@[0], "prompt_cache_hot_cache_evictions"@, whole_number(n as int)),
            MetricKind::SsdHits(n) => r@.len() == 1 && names(r@[0], "prompt_cache_ssd_hits"@, whole_number(n as int)),
            MetricKind::QueueWaitMs(n) => r@.len() == 1 && names(r@[0], "queue_wait_ms"@, whole_number(n as int)),
            MetricKind::QueueDepth(n) => r@.len() == 1 && names(r@[0], "queue_depth"@, whole_number(n as int)),
            MetricKind::MetalPeakAllocMb(n) => r@.len() == 1 && names(r@[0], "metal_peak_alloc_mb"@, whole_number(n as int)),
            MetricKind::PromptTokens(n) => r@.len() == 1 && names(r@[0], "prompt_tokens_live"@, whole_number(n as int)),
            MetricKind::CompletionTokens(n) => r@.len() == 1 && names(r@[0], "completion_tokens_live"@, whole_number(n as int)),
            MetricKind::ItlSpikes(n) => r@.len() == 1 && names(r@[0], "itl_spikes"@, whole_number(n as int)),
            MetricKind::SsdBytesUsed(n) => r@.len() == 1 && names(r@[0], "ssd_bytes_used"@, whole_number(n as int)),
            MetricKind::SsdEvictTotal(n) => r@.len() == 1 && names(r@[0], "ssd_evict_total"@, whole_number(n as int)),
            MetricKind::ItlP99Ms(v) => r@.len() == 1 && names(
                r@[0],
                "itl_p99_ms"@,
                MetricValue::Real(v),
            ),
            MetricKind::LoadPhases {
                mmap_ms,
                dequant_ms,
                gpu_residency_ms,
                first_kernel_ready_ms,
                total_ms,
            } => {
                &&& r@.len() == 5
                &&& names(r@[0], "load_mmap_ms"@, MetricValue::Real(mmap_ms))
                &&& names(r@[1], "load_dequant_ms"@, MetricValue::Real(dequant_ms))
                &&& names(r@[2], "load_gpu_residency_ms"@, MetricValue::Real(gpu_residency_ms))
                &&& names(
                    r@[3],
                    "load_first_kernel_ready_ms"@,
                    MetricValue::Real(first_kernel_ready_ms),
                )
                &&& names(r@[4], "load_total_ms"@, MetricValue::Real(total_ms))
            },
            MetricKind::ItlStats { p50_ms, p95_ms, mean_ms, step_count: _ } => {
                &&& r@.len() == 3
                &&& names(r@[0], "itl_p50_ms"@, MetricValue::Real(p50_ms))
                &&& names(r@[1], "itl_p95_ms"@, MetricValue::Real(p95_ms))
                &&& names(r@[2], "step_ms_mean"@, MetricValue::Real(mean_ms))
            },
            MetricKind::SsdSpillUs { dur_us, bytes } => {
                &&& r@.len() == 2
                &&& names(r@[0], "ssd_spill_ms"@, as_millis(dur_us))
                &&& names(r@[1], "ssd_spill_mb_per_s"@, mebibytes_per_second(bytes, dur_us))
            },
            MetricKind::SsdHydrateUs { dur_us, bytes } => {
                &&& r@.len() == 2
                &&& names(r@[0], "ssd_hydrate_ms"@, as_millis(dur_us))
                &&& names(r@[1], "ssd_hydrate_mb_per_s"@, mebibytes_per_second(bytes, dur_us))
            },
        },
{
    assert(views(r@).len() == r@.len());
    assert forall|i: int| 0 <= i < r@.len() implies views(r@)[i] == (#[trigger] r@[i])@ by {}
}

/// The record of an event belongs to the event's model, codec, time and context, and
/// holds what the event measured.
pub proof fn law_record_is_of_its_event(ev: MetricEvent, r: RunRecord, ms: Vec<MetricEntry>)
    requires
        call_ensures(event_to_run_record, (&ev,), r),
        call_ensures(event_kind_to_metrics, (&ev.kind,), ms),
    ensures
        r.model_id@ == ev.model_id@,
        r.kv_quant@ == ev.kv_quant@,
        r.ts_utc@ == ev.ts_utc@,
        r.ctx_max == ev.ctx_max,
        views(r.metrics@) == views(ms@),
        r.prompt_name@ == "live_request"@,
        r.notes@ == "spsc_drainer"@,
{
}

/// An event is of this request, and measures this; its handler knows no codec.
pub open spec fn is_handler_event(
    e: MetricEvent,
    model_id: &str,
    ts_utc: &str,
    ctx_max: i64,
    kind: MetricKind,
) -> bool {
    &&& e.model_id@ == model_id@
    &&& e.kv_quant@ == "none"@
    &&& e.ts_utc@ == ts_utc@
    &&& e.ctx_max == ctx_max
    &&& e.kind == kind
}

/// A request that was admitted records how long it waited and how deep the queue was;
/// one that is complete records its first token's time, where that is still to be
/// recorded, and then the tokens of its prompt and of its answer.
pub proof fn law_requests_record_their_counts(
    model_id: &str,
    ts_utc: &str,
    ctx_max: i64,
    wait_ms: u64,
    depth: u64,
    ttft_ms: Option<u64>,
    prompt_tokens: u32,
    completion_tokens: u32,
    admitted: Vec<MetricEvent>,
    done: Vec<MetricEvent>,
)
    requires
        call_ensures(admission_events, (model_id, ts_utc, ctx_max, wait_ms, depth), admitted),
        call_ensures(
            completion_events,
            (model_id, ts_utc, ctx_max, ttft_ms, prompt_tokens, completion_tokens),
            done,
        ),
    ensures
        admitted@.len() == 2,
        is_handler_event(
            admitted@[0],
            model_id,
            ts_utc,
            ctx_max,
            MetricKind::QueueWaitMs(wait_ms),
        ),
        is_handler_event(admitted@[1], model_id, ts_utc, ctx_max, MetricKind::QueueDepth(depth)),
        ({
            let n = if ttft_ms is Some {
                1int
            } else {
                0int
            };
            &&& done@.len() == n + 2
            &&& ttft_ms matches Some(ms) ==> is_handler_event(
                done@[0],
                model_id,
                ts_utc,
                ctx_max,
                MetricKind::TtftMs(ms),
            )
            &&& is_handler_event(
                done@[n],
                model_id,
                ts_utc,
                ctx_max,
                MetricKind::PromptTokens(prompt_tokens),
            )
            &&& is_handler_event(
                done@[n + 1],
                model_id,
                ts_utc,
                ctx_max,
                MetricKind::CompletionTokens(completion_tokens),
            )
        }),
{
    assert(views(done@).len() == done@.len());
    assert forall|i: int| 0 <= i < done@.len() implies views(done@)[i] == (
    #[trigger] done@[i])@ by {}
    let n = if ttft_ms is Some {
        1int
    } else {
        0int
    };
    assert(done@[n]@ == views(done@)[n]);
    assert(done@[n + 1]@ == views(done@)[n + 1]);
}

/// An event is of this generation, and measures this.
pub open spec fn is_event_of(e: MetricEvent, source: EventSource<'_>, kind: MetricKind) -> bool {
    &&& e.model_id@ == source.model_id@
    &&& e.kv_quant@ == source.kv_quant@
    &&& e.ts_utc@ == source.ts_utc@
    &&& e.ctx_max == source.ctx_max
    &&& e.kind == kind
}

/// A generation records its latencies and spikes; of its memory it records a size of
/// the cache that was reported and is not zero, and the allocator's peak in whole
/// mebibytes, where it is known.
pub proof fn law_generations_record_their_measures(
    source: EventSource<'_>,
    itl: ItlMillis,
    verdict: KvBytesVerdict,
    peak: Option<u64>,
    latencies: Vec<MetricEvent>,
    memory: Vec<MetricEvent>,
)
    requires
        call_ensures(itl_events, (&source, &itl), latencies),
        call_ensures(memory_events, (&source, verdict, peak), memory),
    ensures
        latencies@.len() == 3,
        is_event_of(
            latencies@[0],
            source,
            MetricKind::ItlStats {
                p50_ms: itl.p50_ms,
                p95_ms: itl.p95_ms,
                mean_ms: itl.mean_ms,
                step_count: itl.step_count,
            },
        ),
        is_event_of(latencies@[1], source, MetricKind::ItlP99Ms(itl.p99_ms)),
        is_event_of(latencies@[2], source, MetricKind::ItlSpikes(itl.spikes)),
        ({
            let known = verdict matches KvBytesVerdict::Reported(n) && n > 0;
            let n = if known {
                1int
            } else {
                0int
            };
            &&& memory@.len() == n + if peak is Some {
                1int
            } else {
                0int
            }
            &&& known ==> is_event_of(
                memory@[0],
                source,
                MetricKind::KvCacheBytes(verdict->Reported_0),
            )
            &&& peak matches Some(b) ==> is_event_of(
                memory@[n],
                source,
                MetricKind::MetalPeakAllocMb((b / 1048576) as u64),
            )
        }),
{
    assert(views(memory@).len() == memory@.len());
    assert forall|i: int| 0 <= i < memory@.len() implies views(memory@)[i] == (
    #[trigger] memory@[i])@ by {}
}

/// The totals of the disk tier follow the events of spills, hydrations, sizes and
/// evictions, each with its own number, and no other event.
pub proof fn law_disk_totals_follow_their_events(kind: MetricKind, r: Option<SsdUpdate>)
    requires
        call_ensures(ssd_update, (&kind,), r),
    ensures
        kind matches MetricKind::SsdSpillUs { dur_us, bytes: _ } ==> r == Some(
            SsdUpdate::Spill(dur_us),
        ),
        kind matches MetricKind::SsdHydrateUs { dur_us, bytes: _ } ==> r == Some(
            SsdUpdate::Hydrate(dur_us),
        ),
        kind matches MetricKind::SsdBytesUsed(n) ==> r == Some(SsdUpdate::BytesUsed(n)),
        kind matches MetricKind::SsdEvictTotal(n) ==> r == Some(SsdUpdate::Evicted(n)),
        r is Some ==> kind is SsdSpillUs || kind is SsdHydrateUs || kind is SsdBytesUsed || kind
            is SsdEvictTotal,
{
}

/// Only a full queue loses an event, and every loss is counted; a handle that is not
/// enabled neither queues nor counts.
pub proof fn law_losses_are_counted(h: &mut DrainerHandle, outcome: SendOutcome, queued: bool)
    requires
        call_ensures(DrainerHandle::try_emit, (h, outcome), queued),
    ensures
        !old(h)@.enabled ==> !queued && final(h)@.dropped == old(h)@.dropped,
        old(h)@.enabled ==> match outcome {
            SendOutcome::Queued => queued && final(h)@.dropped == old(h)@.dropped,
            SendOutcome::Full => !queued && final(h)@.dropped == old(h)@.dropped + 1,
            SendOutcome::Closed => !queued && final(h)@.dropped == old(h)@.dropped,
        },
{
}

/// A batch keeps every event that arrives, in order. It is written when it holds 32
/// events, when the interval is over and it holds some, and when the queue is closed.
pub proof fn law_batch_is_written_in_time(b: &mut Batch, a: Arrival, r: BatchAction)
    requires
        call_ensures(Batch::on_arrival, (b, a), r),
    ensures
        match a {
            Arrival::Event(e) => {
                &&& final(b)@ == old(b)@.push(e@)
                &&& old(b)@.len() >= 31 ==> r == BatchAction::Flush
                &&& old(b)@.len() < 31 ==> r == BatchAction::Wait
            },
            Arrival::Timeout => {
                &&& final(b)@ == old(b)@
                &&& old(b)@.len() > 0 ==> r == BatchAction::Flush
                &&& old(b)@.len() == 0 ==> r == BatchAction::Wait
            },
            Arrival::Closed => final(b)@ == old(b)@ && r == BatchAction::FlushAndExit,
        },
{
}

/// A batch that is taken is handed out whole and leaves nothing behind.
pub proof fn law_taken_batch_is_whole(b: &mut Batch, r: Vec<MetricEvent>)
    requires
        call_ensures(Batch::take, (b,), r),
    ensures
        views(r@) == old(b)@,
        final(b)@.len() == 0,
{
}

/// One loss in 64 is logged, the first among them.
pub proof fn law_few_losses_are_logged(before: u64, r: bool)
    requires
        call_ensures(log_drop, (before,), r),
    ensures
        before == 0 ==> r,
        r == (before % 64 == 0),
{
}

/// The queue holds 256 events; up to 32 are written at once, after a tenth of a second
/// at the latest.
pub proof fn law_queue_limits()
    ensures
        CHANNEL_CAPACITY == 256,
        BATCH_SIZE == 32,
        FLUSH_INTERVAL_MS == 100,
{
}

} // verus!
