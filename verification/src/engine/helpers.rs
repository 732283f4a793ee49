//! Latency statistics and tool markers of a generation.

use vstd::prelude::*;

use crate::text::text_eq;

verus! {

// ── Tool markers ─────────────────────────────────────────────────────────────

/// The special tokens of the Gemma 4 tool-call protocol.
pub open spec fn is_tool_marker(surface: Seq<char>) -> bool {
    surface == "<|tool_call>"@ || surface == "<tool_call|>"@ || surface == "<|\"|>"@
}

/// Whether a suppressed special token is to be put back into the text, because
/// the tool-call parser needs it.
pub fn is_reconstructible_tool_marker(surface: &str) -> (r: bool)
    ensures
        r == is_tool_marker(surface@),
{
    text_eq(surface, "<|tool_call>") || text_eq(surface, "<tool_call|>") || text_eq(
        surface,
        "<|\"|>",
    )
}

// ── Sorting ──────────────────────────────────────────────────────────────────

/// In ascending order.
pub open spec fn ascending(s: Seq<u64>) -> bool {
    forall|i: int, j: int| 0 <= i <= j < s.len() ==> s[i] <= s[j]
}

/// `t` holds the numbers of `s` in ascending order.
pub open spec fn is_sorted_from(t: Seq<u64>, s: Seq<u64>) -> bool {
    ascending(t) && t.to_multiset() == s.to_multiset()
}

/// The numbers in ascending order.
pub fn sorted(values: &Vec<u64>) -> (r: Vec<u64>)
    ensures
        is_sorted_from(r@, values@),
        r@.len() == values@.len(),
{
    let mut out: Vec<u64> = Vec::new();
    let mut i: usize = 0;
    proof {
        assert(values@.subrange(0, 0) =~= out@);
    }
    while i < values.len()
        invariant
            i <= values@.len(),
            ascending(out@),
            out@.len() == i,
            out@.to_multiset() == values@.subrange(0, i as int).to_multiset(),
        decreases values@.len() - i,
    {
        let v: u64 = values[i];
        let mut at: usize = out.len();
        while at > 0 && out[at - 1] > v
            invariant
                at <= out@.len(),
                forall|k: int| at <= k < out@.len() ==> out@[k] > v,
            decreases at,
        {
            at -= 1;
        }
        let ghost before = out@;
        out.insert(at, v);
        proof {
            vstd::seq_lib::to_multiset_insert(before, at as int, v);
            let prefix = values@.subrange(0, i as int);
            assert(values@.subrange(0, i + 1) =~= prefix.push(v));
            prefix.to_multiset_ensures();
            assert forall|a: int, b: int| 0 <= a <= b < out@.len() implies out@[a] <= out@[b] by {
                if b < at {
                    assert(before[a] <= before[b]);
                } else if a < at && b == at {
                    if at > 0 {
                        assert(before[a] <= before[at - 1]);
                    }
                } else if a < at {
                    assert(before[a] <= before[b - 1]);
                } else if a > at {
                    assert(before[a - 1] <= before[b - 1]);
                }
            }
        }
        i += 1;
    }
    proof {
        assert(values@.subrange(0, i as int) =~= values@);
    }
    out
}

/// Sorting determines the result.
pub proof fn lemma_sorted_unique(a: Seq<u64>, b: Seq<u64>)
    requires
        ascending(a),
        ascending(b),
        a.to_multiset() == b.to_multiset(),
    ensures
        a == b,
    decreases a.len(),
{
    broadcast use vstd::seq_lib::group_to_multiset_ensures;

    assert(a.len() == a.to_multiset().len());
    assert(b.len() == b.to_multiset().len());
    if a.len() == 0 {
        assert(a =~= b);
    } else {
        let x = a[a.len() - 1];
        let y = b[b.len() - 1];
        assert(a.to_multiset().count(x) > 0) by {
            assert(a.contains(x));
        }
        assert(b.to_multiset().count(y) > 0) by {
            assert(b.contains(y));
        }
        assert(b.contains(x));
        assert(a.contains(y));
        let i = choose|i: int| 0 <= i < b.len() && b[i] == x;
        let j = choose|j: int| 0 <= j < a.len() && a[j] == y;
        assert(b[i] <= y);
        assert(a[j] <= x);
        let a1 = a.drop_last();
        let b1 = b.drop_last();
        assert(a =~= a1.push(x));
        assert(b =~= b1.push(y));
        assert(a1.to_multiset() =~= a.to_multiset().remove(x));
        assert(b1.to_multiset() =~= b.to_multiset().remove(y));
        lemma_sorted_unique(a1, b1);
    }
}

// ── Latency between tokens ───────────────────────────────────────────────────

/// Statistics of the times between tokens, in nanoseconds.
#[derive(Clone, Copy, Debug, PartialEq, Eq, Structural)]
pub struct ItlStats {
    pub p50_ns: u64,
    pub p95_ns: u64,
    pub p99_ns: u64,
    /// The sum of all intervals; the mean is this over `count`.
    pub sum_ns: u128,
    pub count: u64,
    /// Intervals of more than three times the median.
    pub spikes: u64,
}

/// The time from each arrival to the next. A clock that runs backwards gives
/// zero.
pub open spec fn intervals(timestamps: Seq<u64>) -> Seq<u64> {
    Seq::new(
        (timestamps.len() - 1) as nat,
        |i: int|
            if timestamps[i + 1] >= timestamps[i] {
                (timestamps[i + 1] - timestamps[i]) as u64
            } else {
                0
            },
    )
}

/// The position of a percentile in `n` ascending values, by nearest rank.
pub open spec fn rank(percent: nat, n: nat) -> int {
    let r = (percent * n + 99) / 100 - 1;
    if r < 0 {
        0
    } else {
        r as int
    }
}

/// The sum of all values.
pub open spec fn sum(s: Seq<u64>) -> nat
    decreases s.len(),
{
    if s.len() == 0 {
        0
    } else {
        sum(s.drop_last()) + s.last() as nat
    }
}

/// How many values exceed `bound`.
pub open spec fn above(s: Seq<u64>, bound: nat) -> nat
    decreases s.len(),
{
    if s.len() == 0 {
        0
    } else {
        above(s.drop_last(), bound) + if s.last() > bound {
            1nat
        } else {
            0
        }
    }
}

/// The statistics of ascending intervals.
pub open spec fn stats_of(t: Seq<u64>) -> ItlStats {
    let p50 = t[rank(50, t.len())];
    ItlStats {
        p50_ns: p50,
        p95_ns: t[rank(95, t.len())],
        p99_ns: t[rank(99, t.len())],
        sum_ns: sum(t) as u128,
        count: t.len() as u64,
        spikes: above(t, 3 * p50 as nat) as u64,
    }
}

fn rank_of(percent: u128, n: usize) -> (r: usize)
    requires
        0 < n,
        0 < percent <= 100,
    ensures
        r == rank(percent as nat, n as nat),
        r < n,
{
    let wide: u128 = n as u128;
    proof {
        assert(percent * wide + 99 <= 100 * wide + 99) by (nonlinear_arith)
            requires
                percent <= 100,
        ;
        assert(percent * wide >= 1) by (nonlinear_arith)
            requires
                percent >= 1,
                wide >= 1,
        ;
    }
    ((percent * wide + 99) / 100 - 1) as usize
}

/// Statistics of the times between tokens, from the times of their arrival in
/// nanoseconds; none for fewer than two tokens.
///
/// Percentiles go by nearest rank. A spike is an interval of more than three
/// times the median, which outliers do not move.
pub fn compute_itl_stats(timestamps: &Vec<u64>) -> (r: Option<ItlStats>)
    ensures
        match r {
            None => timestamps@.len() < 2,
            Some(stats) => timestamps@.len() >= 2 && exists|t: Seq<u64>| #[trigger]
                is_sorted_from(t, intervals(timestamps@)) && stats == stats_of(t),
        },
{
    let n: usize = timestamps.len();
    if n < 2 {
        return None;
    }
    let mut gaps: Vec<u64> = Vec::new();
    let mut i: usize = 0;
    while i + 1 < n
        invariant
            n == timestamps@.len(),
            n >= 2,
            i <= n - 1,
            gaps@ =~= intervals(timestamps@).subrange(0, i as int),
        decreases n - i,
    {
        let (a, b): (u64, u64) = (timestamps[i], timestamps[i + 1]);
        gaps.push(
            if b >= a {
                b - a
            } else {
                0
            },
        );
        i += 1;
    }
    proof {
        assert(gaps@ =~= intervals(timestamps@));
    }
    let t = sorted(&gaps);
    let count: usize = t.len();
    let p50: u64 = t[rank_of(50, count)];
    let p95: u64 = t[rank_of(95, count)];
    let p99: u64 = t[rank_of(99, count)];
    let bound: u128 = 3 * p50 as u128;
    let mut sum_ns: u128 = 0;
    let mut spikes: u64 = 0;
    let mut k: usize = 0;
    proof {
        assert(t@.subrange(0, 0) =~= Seq::empty());
    }
    while k < count
        invariant
            k <= count,
            count == t@.len(),
            bound == 3 * p50 as nat,
            sum_ns == sum(t@.subrange(0, k as int)),
            sum_ns <= k * u64::MAX,
            spikes == above(t@.subrange(0, k as int), bound as nat),
            spikes <= k,
        decreases count - k,
    {
        let v: u64 = t[k];
        proof {
            let next = t@.subrange(0, k + 1);
            assert(next.drop_last() =~= t@.subrange(0, k as int));
            assert(next.last() == v);
            assert(k * u64::MAX + u64::MAX == (k + 1) * u64::MAX) by (nonlinear_arith);
            assert((k + 1) * u64::MAX <= u64::MAX * u64::MAX) by (nonlinear_arith)
                requires
                    k + 1 <= u64::MAX,
            ;
        }
        sum_ns = sum_ns + v as u128;
        if v as u128 > bound {
            spikes = spikes + 1;
        }
        k += 1;
    }
    proof {
        assert(t@.subrange(0, k as int) =~= t@);
        assert(is_sorted_from(t@, intervals(timestamps@)));
    }
    Some(ItlStats { p50_ns: p50, p95_ns: p95, p99_ns: p99, sum_ns, count: count as u64, spikes })
}

/// The percentiles of a generation are intervals that occurred, in order.
pub proof fn law_percentiles_are_ordered(t: Seq<u64>, s: Seq<u64>)
    requires
        s.len() > 0,
        is_sorted_from(t, s),
    ensures
        stats_of(t).p50_ns <= stats_of(t).p95_ns <= stats_of(t).p99_ns,
        s.contains(stats_of(t).p50_ns),
        s.contains(stats_of(t).p95_ns),
        s.contains(stats_of(t).p99_ns),
{
    broadcast use vstd::seq_lib::group_to_multiset_ensures;

    let n = t.len();
    assert(n == t.to_multiset().len());
    assert(s.len() == s.to_multiset().len());
    lemma_rank(50, n);
    lemma_rank(95, n);
    lemma_rank(99, n);
    assert(t.contains(t[rank(50, n)]));
    assert(t.to_multiset().count(t[rank(50, n)]) > 0);
    assert(s.to_multiset().count(t[rank(50, n)]) > 0);
    assert(t.contains(t[rank(95, n)]));
    assert(t.to_multiset().count(t[rank(95, n)]) > 0);
    assert(s.to_multiset().count(t[rank(95, n)]) > 0);
    assert(t.contains(t[rank(99, n)]));
    assert(t.to_multiset().count(t[rank(99, n)]) > 0);
    assert(s.to_multiset().count(t[rank(99, n)]) > 0);
    assert(50 * n <= 95 * n && 95 * n <= 99 * n);
}

proof fn lemma_rank(percent: nat, n: nat)
    requires
        n > 0,
        percent <= 100,
    ensures
        0 <= rank(percent, n) < n,
{
    assert(percent * n + 99 <= 100 * n + 99) by (nonlinear_arith)
        requires
            percent <= 100,
    ;
}

/// When all intervals are equal there are no spikes, and every percentile is that
/// interval.
pub proof fn law_uniform_has_no_spikes(t: Seq<u64>, s: Seq<u64>, v: u64)
    requires
        s.len() > 0,
        is_sorted_from(t, s),
        forall|i: int| 0 <= i < t.len() ==> t[i] == v,
        s.len() < u64::MAX,
    ensures
        stats_of(t).spikes == 0,
        stats_of(t).p50_ns == v,
        stats_of(t).p99_ns == v,
{
    broadcast use vstd::seq_lib::group_to_multiset_ensures;

    assert(t.len() == t.to_multiset().len());
    assert(s.len() == s.to_multiset().len());
    lemma_rank(50, t.len());
    lemma_rank(99, t.len());
    lemma_none_above(t, v);
}

proof fn lemma_none_above(t: Seq<u64>, v: u64)
    requires
        forall|i: int| 0 <= i < t.len() ==> t[i] == v,
    ensures
        above(t, 3 * v as nat) == 0,
    decreases t.len(),
{
    if t.len() > 0 {
        lemma_none_above(t.drop_last(), v);
    }
}

// ── Rows of the events table ─────────────────────────────────────────────────

/// A latency that is recorded, in milliseconds.
#[derive(Clone, Copy, Debug)]
pub struct LatencyRow {
    pub op: &'static str,
    pub unit: &'static str,
    /// The value in nanoseconds.
    pub nanos: u64,
}

pub struct RowV {
    pub op: Seq<char>,
    pub unit: Seq<char>,
    pub nanos: u64,
}

impl View for LatencyRow {
    type V = RowV;

    open spec fn view(&self) -> RowV {
        RowV { op: self.op@, unit: self.unit@, nanos: self.nanos }
    }
}

fn ms_row(op: &'static str, nanos: u64) -> (r: LatencyRow)
    ensures
        r@ == (RowV { op: op@, unit: "ms"@, nanos }),
{
    LatencyRow { op, unit: "ms", nanos }
}

/// The rows of a generation's percentiles, each under its two names.
pub fn itl_rows(stats: &ItlStats) -> (r: Vec<LatencyRow>)
    ensures
        r@.len() == 6,
        r@[0]@ == (RowV { op: "itl_p50_ms"@, unit: "ms"@, nanos: stats.p50_ns }),
        r@[1]@ == (RowV { op: "itl_p95_ms"@, unit: "ms"@, nanos: stats.p95_ns }),
        r@[2]@ == (RowV { op: "itl_p99_ms"@, unit: "ms"@, nanos: stats.p99_ns }),
        r@[3]@ == (RowV { op: "tpot_p50_ms"@, unit: "ms"@, nanos: stats.p50_ns }),
        r@[4]@ == (RowV { op: "tpot_p95_ms"@, unit: "ms"@, nanos: stats.p95_ns }),
        r@[5]@ == (RowV { op: "tpot_p99_ms"@, unit: "ms"@, nanos: stats.p99_ns }),
{
    let mut out: Vec<LatencyRow> = Vec::new();
    out.push(ms_row("itl_p50_ms", stats.p50_ns));
    out.push(ms_row("itl_p95_ms", stats.p95_ns));
    out.push(ms_row("itl_p99_ms", stats.p99_ns));
    out.push(ms_row("tpot_p50_ms", stats.p50_ns));
    out.push(ms_row("tpot_p95_ms", stats.p95_ns));
    out.push(ms_row("tpot_p99_ms", stats.p99_ns));
    out
}

/// The rows of a time to the first token: under its own name, which tells a first
/// request after a load from the others, and as the time of the prefill.
pub fn ttft_rows(is_cold: bool, nanos: u64) -> (r: Vec<LatencyRow>)
    ensures
        r@.len() == 2,
        r@[0]@ == (RowV {
            op: if is_cold {
                "ttft_cold_ms"@
            } else {
                "ttft_warm_ms"@
            },
            unit: "ms"@,
            nanos,
        }),
        r@[1]@ == (RowV { op: "prefill_duration_ms"@, unit: "ms"@, nanos }),
{
    let mut out: Vec<LatencyRow> = Vec::new();
    out.push(
        ms_row(
            if is_cold {
                "ttft_cold_ms"
            } else {
                "ttft_warm_ms"
            },
            nanos,
        ),
    );
    out.push(ms_row("prefill_duration_ms", nanos));
    out
}

// ── What is measured ─────────────────────────────────────────────────────────

/// A sum grows by each value, and the count of values above a bound by each that is.
pub proof fn law_sums_and_counts_grow(s: Seq<u64>, x: u64, bound: nat)
    ensures
        sum(Seq::empty()) == 0,
        above(Seq::empty(), bound) == 0,
        sum(s.push(x)) == sum(s) + x,
        above(s.push(x), bound) == above(s, bound) + if x > bound {
            1nat
        } else {
            0
        },
{
    assert(s.push(x).drop_last() =~= s);
}

/// The latencies of a generation are the times between its arrivals: the percentiles
/// stand at their nearest ranks among them, the sum and the count are those of all, and
/// a spike is a time of more than three medians. Without two arrivals there are none.
/// `t` holds the times in ascending order.
pub proof fn law_latencies_are_the_times_between(
    timestamps: Vec<u64>,
    gaps: Seq<u64>,
    t: Seq<u64>,
    r: Option<ItlStats>,
    r50: int,
    r95: int,
    r99: int,
)
    requires
        call_ensures(compute_itl_stats, (&timestamps,), r),
        timestamps@.len() < u64::MAX,
        timestamps@.len() >= 2 ==> gaps.len() == timestamps@.len() - 1,
        forall|i: int|
            0 <= i < gaps.len() ==> #[trigger] gaps[i] == if timestamps@[i + 1] >= timestamps@[i] {
                timestamps@[i + 1] - timestamps@[i]
            } else {
                0
            },
        forall|i: int, j: int| 0 <= i <= j < t.len() ==> t[i] <= t[j],
        t.to_multiset() == gaps.to_multiset(),
        1 <= r50 <= t.len(),
        1 <= r95 <= t.len(),
        1 <= r99 <= t.len(),
        100 * (r50 - 1) < 50 * t.len() <= 100 * r50,
        100 * (r95 - 1) < 95 * t.len() <= 100 * r95,
        100 * (r99 - 1) < 99 * t.len() <= 100 * r99,
        sum(t) <= u128::MAX,
    ensures
        r is Some == (timestamps@.len() >= 2),
        r matches Some(st) ==> {
            &&& st.p50_ns == t[r50 - 1]
            &&& st.p95_ns == t[r95 - 1]
            &&& st.p99_ns == t[r99 - 1]
            &&& st.sum_ns == sum(t)
            &&& st.count == gaps.len()
            &&& st.spikes == above(t, 3 * t[r50 - 1] as nat)
        },
{
    broadcast use vstd::seq_lib::group_to_multiset_ensures;

    if timestamps@.len() >= 2 {
        assert(gaps =~= intervals(timestamps@));
        let u = choose|u: Seq<u64>| #[trigger]
            is_sorted_from(u, intervals(timestamps@)) && r->0 == stats_of(u);
        lemma_sorted_unique(u, t);
        assert(t.len() == t.to_multiset().len());
        assert(gaps.len() == gaps.to_multiset().len());
        lemma_above_bounded(t, 3 * t[r50 - 1] as nat);
    }
}

proof fn lemma_above_bounded(s: Seq<u64>, bound: nat)
    ensures
        above(s, bound) <= s.len(),
    decreases s.len(),
{
    if s.len() > 0 {
        lemma_above_bounded(s.drop_last(), bound);
    }
}

/// A row gives this many nanoseconds under this name, shown in milliseconds.
pub open spec fn is_row(r: LatencyRow, op: Seq<char>, nanos: u64) -> bool {
    r.op@ == op && r.unit@ == "ms"@ && r.nanos == nanos
}

/// The percentiles of a generation are recorded under both of their names, and the time
/// to a first token under one that tells whether the model had just been loaded, and as
/// the duration of the prefill.
pub proof fn law_rows_are_named(
    stats: ItlStats,
    rows: Vec<LatencyRow>,
    is_cold: bool,
    nanos: u64,
    first: Vec<LatencyRow>,
)
    requires
        call_ensures(itl_rows, (&stats,), rows),
        call_ensures(ttft_rows, (is_cold, nanos), first),
    ensures
        rows@.len() == 6,
        is_row(rows@[0], "itl_p50_ms"@, stats.p50_ns),
        is_row(rows@[1], "itl_p95_ms"@, stats.p95_ns),
        is_row(rows@[2], "itl_p99_ms"@, stats.p99_ns),
        is_row(rows@[3], "tpot_p50_ms"@, stats.p50_ns),
        is_row(rows@[4], "tpot_p95_ms"@, stats.p95_ns),
        is_row(rows@[5], "tpot_p99_ms"@, stats.p99_ns),
        first@.len() == 2,
        is_cold ==> is_row(first@[0], "ttft_cold_ms"@, nanos),
        !is_cold ==> is_row(first@[0], "ttft_warm_ms"@, nanos),
        is_row(first@[1], "prefill_duration_ms"@, nanos),
{
}

/// Three tokens of the tool protocol are put back into the text, and no others.
pub proof fn law_tool_markers_are_known(surface: &str, r: bool)
    requires
        call_ensures(is_reconstructible_tool_marker, (surface,), r),
    ensures
        r == (surface@ == "<|tool_call>"@ || surface@ == "<tool_call|>"@ || surface@
            == "<|\"|>"@),
{
}

} // verus!
