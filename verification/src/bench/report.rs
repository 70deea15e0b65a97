use vstd::prelude::*;
use crate::telemetry::TokenTrace;

verus! {

/// Sum of the total latencies of `ts`.
pub open spec fn total_us_sum(ts: Seq<TokenTrace>) -> nat
    decreases ts.len(),
{
    if ts.len() == 0 {
        0
    } else {
        total_us_sum(ts.drop_last()) + ts.last().latency.total_us as nat
    }
}

/// Sum of the stall latencies of `ts`.
pub open spec fn stall_us_sum(ts: Seq<TokenTrace>) -> nat
    decreases ts.len(),
{
    if ts.len() == 0 {
        0
    } else {
        stall_us_sum(ts.drop_last()) + ts.last().latency.stall_us as nat
    }
}

/// Highest VRAM use among `ts`, 0 when there are none.
pub open spec fn peak_vram(ts: Seq<TokenTrace>) -> u32
    decreases ts.len(),
{
    if ts.len() == 0 {
        0
    } else {
        let m = peak_vram(ts.drop_last());
        if ts.last().vram_usage_mb > m { ts.last().vram_usage_mb } else { m }
    }
}

/// Highest fallback level among `ts`, 0 when there are none.
pub open spec fn max_fallback(ts: Seq<TokenTrace>) -> u8
    decreases ts.len(),
{
    if ts.len() == 0 {
        0
    } else {
        let m = max_fallback(ts.drop_last());
        if ts.last().fallback_level > m { ts.last().fallback_level } else { m }
    }
}

/// Ascending order.
pub open spec fn ascending(s: Seq<u32>) -> bool {
    forall|i: int, j: int| 0 <= i <= j < s.len() ==> s[i] <= s[j]
}

/// The integer aggregates of a run's traces, from which a bench report is made:
/// the count, the summed simulated and stall time, the peak VRAM and fallback level,
/// and the total latencies in ascending order (for percentiles).
pub struct TraceTotals {
    pub tokens: usize,
    pub sim_us_total: u64,
    pub stall_us_total: u64,
    pub peak_vram_mb: u32,
    pub fallback_level_max: u8,
    pub sorted_totals: Vec<u32>,
}

/// Put `e` in `v`, keeping it ascending.
fn insert_ascending(v: &mut Vec<u32>, e: u32)
    requires
        ascending(old(v)@),
    ensures
        ascending(final(v)@),
        final(v)@.to_multiset() == old(v)@.to_multiset().insert(e),
{
    let mut i: usize = 0;
    while i < v.len() && v[i] <= e
        invariant
            i <= v.len(),
            forall|k: int| 0 <= k < i ==> v@[k] <= e,
        decreases v.len() - i,
    {
        i = i + 1;
    }
    let ghost s = v@;
    v.insert(i, e);
    proof {
        s.insert_ensures(i as int, e);
        assert(v@ =~= s.insert(i as int, e));
        assert forall|a: int, b: int| 0 <= a <= b < v@.len() implies v@[a] <= v@[b] by {
            if b < i {
            } else if b == i {
            } else if a < i {
                assert(v@[b] == s[b - 1]);
                assert(s[b - 1] >= s[i as int] || b - 1 == i);
            } else if a == i {
                assert(v@[b] == s[b - 1]);
                assert(s[b - 1] >= s[i as int]);
            } else {
                assert(v@[a] == s[a - 1]);
                assert(v@[b] == s[b - 1]);
            }
        }
        let t = v@;
        assert(t.remove(i as int) =~= s);
        t.to_multiset_ensures();
        assert(t.to_multiset().remove(e) =~= s.to_multiset());
        assert(t.contains(e)) by {
            assert(t[i as int] == e);
        }
        assert(t.to_multiset().count(e) > 0);
        assert(t.to_multiset() =~= s.to_multiset().insert(e));
    }
}

/// Aggregate a run's traces.
pub fn aggregate(traces: &[TokenTrace]) -> (r: TraceTotals)
    requires
        total_us_sum(traces@) <= u64::MAX,
        stall_us_sum(traces@) <= u64::MAX,
    ensures
        r.tokens == traces@.len(),
        r.sim_us_total == total_us_sum(traces@),
        r.stall_us_total == stall_us_sum(traces@),
        r.peak_vram_mb == peak_vram(traces@),
        r.fallback_level_max == max_fallback(traces@),
        forall|i: int| 0 <= i < traces@.len() ==> (#[trigger] traces@[i]).vram_usage_mb <= r.peak_vram_mb,
        traces@.len() > 0 ==> exists|i: int|
            0 <= i < traces@.len() && (#[trigger] traces@[i]).vram_usage_mb == r.peak_vram_mb,
        forall|i: int| 0 <= i < traces@.len() ==> (#[trigger] traces@[i]).fallback_level <= r.fallback_level_max,
        traces@.len() > 0 ==> exists|i: int|
            0 <= i < traces@.len() && (#[trigger] traces@[i]).fallback_level == r.fallback_level_max,
        ascending(r.sorted_totals@),
        r.sorted_totals@.to_multiset() == traces@.map_values(|t: TokenTrace| t.latency.total_us).to_multiset(),
{
    let ghost totals = traces@.map_values(|t: TokenTrace| t.latency.total_us);
    let mut sim: u64 = 0;
    let mut stall: u64 = 0;
    let mut peak: u32 = 0;
    let mut fb: u8 = 0;
    let mut sorted: Vec<u32> = Vec::new();
    let mut i: usize = 0;
    proof {
        assert(totals.take(0) =~= Seq::<u32>::empty());
        assert(sorted@ =~= Seq::<u32>::empty());
    }
    while i < traces.len()
        invariant
            i <= traces.len(),
            totals == traces@.map_values(|t: TokenTrace| t.latency.total_us),
            total_us_sum(traces@) <= u64::MAX,
            stall_us_sum(traces@) <= u64::MAX,
            sim == total_us_sum(traces@.take(i as int)),
            stall == stall_us_sum(traces@.take(i as int)),
            peak == peak_vram(traces@.take(i as int)),
            fb == max_fallback(traces@.take(i as int)),
            ascending(sorted@),
            sorted@.to_multiset() == totals.take(i as int).to_multiset(),
        decreases traces.len() - i,
    {
        let t = &traces[i];
        proof {
            assert(traces@.take(i + 1).drop_last() =~= traces@.take(i as int));
            assert(traces@.take(i + 1).last() == *t);
            lemma_sums_grow(traces@, i as int + 1);
        }
        sim = sim + t.latency.total_us as u64;
        stall = stall + t.latency.stall_us as u64;
        if t.vram_usage_mb > peak {
            peak = t.vram_usage_mb;
        }
        if t.fallback_level > fb {
            fb = t.fallback_level;
        }
        insert_ascending(&mut sorted, t.latency.total_us);
        proof {
            assert(totals.take(i + 1) =~= totals.take(i as int).push(t.latency.total_us));
            totals.take(i as int).to_multiset_ensures();
        }
        i = i + 1;
    }
    proof {
        assert(traces@.take(traces.len() as int) =~= traces@);
        assert(totals.take(traces.len() as int) =~= totals);
        lemma_peaks_are_maxima(traces@);
    }
    TraceTotals {
        tokens: traces.len(),
        sim_us_total: sim,
        stall_us_total: stall,
        peak_vram_mb: peak,
        fallback_level_max: fb,
        sorted_totals: sorted,
    }
}

proof fn lemma_sums_grow(ts: Seq<TokenTrace>, n: int)
    requires
        0 <= n <= ts.len(),
    ensures
        total_us_sum(ts.take(n)) <= total_us_sum(ts),
        stall_us_sum(ts.take(n)) <= stall_us_sum(ts),
    decreases ts.len() - n,
{
    if n < ts.len() {
        lemma_sums_grow(ts, n + 1);
        assert(ts.take(n + 1).drop_last() =~= ts.take(n));
    } else {
        assert(ts.take(n) =~= ts);
    }
}

/// Peak law: the peak VRAM of a run is the largest VRAM use among its traces (0
/// when there are none), and the highest fallback level is the largest level among
/// them (0 when there are none).
pub proof fn lemma_peaks_are_maxima(ts: Seq<TokenTrace>)
    ensures
        forall|i: int| 0 <= i < ts.len() ==> (#[trigger] ts[i]).vram_usage_mb <= peak_vram(ts),
        ts.len() > 0 ==> exists|i: int| 0 <= i < ts.len() && (#[trigger] ts[i]).vram_usage_mb == peak_vram(ts),
        ts.len() == 0 ==> peak_vram(ts) == 0,
        forall|i: int| 0 <= i < ts.len() ==> (#[trigger] ts[i]).fallback_level <= max_fallback(ts),
        ts.len() > 0 ==> exists|i: int| 0 <= i < ts.len() && (#[trigger] ts[i]).fallback_level == max_fallback(ts),
        ts.len() == 0 ==> max_fallback(ts) == 0,
    decreases ts.len(),
{
    if ts.len() > 0 {
        let init = ts.drop_last();
        lemma_peaks_are_maxima(init);
        assert forall|i: int| 0 <= i < ts.len() - 1 implies ts[i] == init[i] by {}
        let last = ts.len() - 1;
        assert(ts[last] == ts.last());
        if ts.last().vram_usage_mb <= peak_vram(init) && init.len() > 0 {
            let k = choose|k: int| 0 <= k < init.len() && (#[trigger] init[k]).vram_usage_mb == peak_vram(init);
            assert(ts[k] == init[k]);
        }
        if ts.last().fallback_level <= max_fallback(init) && init.len() > 0 {
            let k = choose|k: int| 0 <= k < init.len() && (#[trigger] init[k]).fallback_level == max_fallback(init);
            assert(ts[k] == init[k]);
        }
    }
}

/// Sum law: the summed total and stall latencies of one trace are its own, and
/// those of a run split in two add up.
pub proof fn lemma_sums_add(a: Seq<TokenTrace>, b: Seq<TokenTrace>, t: TokenTrace)
    ensures
        total_us_sum(seq![t]) == t.latency.total_us,
        stall_us_sum(seq![t]) == t.latency.stall_us,
        total_us_sum(a + b) == total_us_sum(a) + total_us_sum(b),
        stall_us_sum(a + b) == stall_us_sum(a) + stall_us_sum(b),
    decreases b.len(),
{
    let one = seq![t];
    assert(one.drop_last() =~= Seq::<TokenTrace>::empty());
    assert(one.last() == t);
    assert(total_us_sum(one.drop_last()) == 0);
    assert(stall_us_sum(one.drop_last()) == 0);
    if b.len() == 0 {
        assert(a + b =~= a);
    } else {
        lemma_sums_add(a, b.drop_last(), t);
        assert((a + b).drop_last() =~= a + b.drop_last());
        assert((a + b).last() == b.last());
    }
}

} // verus!
