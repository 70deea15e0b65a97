use vstd::prelude::*;
use crate::control::PrecisionTier;
use crate::telemetry::{TokenTrace, TraceView};

verus! {

/// Whether two tokens' plans diverge: their difficulty class, target depth, or
/// precision plan differ. (Burst and chain phase are upstream of the decision and
/// only informational.)
pub open spec fn plans_differ(o: TraceView, a: TraceView) -> bool {
    o.profiler_decision.difficulty != a.profiler_decision.difficulty
        || o.profiler_decision.target_depth != a.profiler_decision.target_depth
        || o.precision_plan != a.precision_plan
}

/// Among the first `n` token pairs, how many plans diverge.
pub open spec fn diverging(o: Seq<TraceView>, a: Seq<TraceView>, n: nat) -> nat
    decreases n,
{
    if n == 0 {
        0
    } else {
        diverging(o, a, (n - 1) as nat) + if plans_differ(o[n - 1], a[n - 1]) { 1nat } else { 0nat }
    }
}

/// The plain outcome of a plan-divergence pass: over how many token pairs, and how
/// many of them diverged. The divergence is `mismatches / samples` (0 when there are
/// no samples).
pub struct DivergenceCount {
    pub mismatches: usize,
    pub samples: usize,
}

/// Compares the plans of two runs over the same input.
pub struct PlanDivergence;

fn tiers_equal(a: &Vec<PrecisionTier>, b: &Vec<PrecisionTier>) -> (r: bool)
    ensures
        r == (a@ == b@),
{
    if a.len() != b.len() {
        return false;
    }
    let mut i: usize = 0;
    while i < a.len()
        invariant
            i <= a.len(),
            a.len() == b.len(),
            forall|k: int| 0 <= k < i ==> a@[k] == b@[k],
        decreases a.len() - i,
    {
        if a[i] != b[i] {
            return false;
        }
        i = i + 1;
    }
    assert(a@ =~= b@);
    true
}

impl PlanDivergence {
    /// The scorer's name.
    pub fn name(&self) -> (s: &'static str)
        ensures
            s@ == "plan-divergence"@,
    {
        "plan-divergence"
    }

    /// Count diverging plans over the token pairs both runs have.
    pub fn count(&self, oracle: &[TokenTrace], adaptive: &[TokenTrace]) -> (c: DivergenceCount)
        ensures
            c.samples == (if oracle@.len() <= adaptive@.len() { oracle@.len() } else { adaptive@.len() }),
            c.mismatches == diverging(
                oracle@.map_values(|t: TokenTrace| t@),
                adaptive@.map_values(|t: TokenTrace| t@),
                c.samples as nat,
            ),
            c.mismatches <= c.samples,
    {
        let n = if oracle.len() <= adaptive.len() { oracle.len() } else { adaptive.len() };
        let ghost ov = oracle@.map_values(|t: TokenTrace| t@);
        let ghost av = adaptive@.map_values(|t: TokenTrace| t@);
        let mut mismatches: usize = 0;
        let mut i: usize = 0;
        while i < n
            invariant
                i <= n,
                n <= oracle.len(),
                n <= adaptive.len(),
                ov == oracle@.map_values(|t: TokenTrace| t@),
                av == adaptive@.map_values(|t: TokenTrace| t@),
                mismatches == diverging(ov, av, i as nat),
                mismatches <= i,
            decreases n - i,
        {
            let o = &oracle[i];
            let a = &adaptive[i];
            let same_tiers = tiers_equal(&o.precision_plan, &a.precision_plan);
            let diff = o.profiler_decision.difficulty != a.profiler_decision.difficulty
                || o.profiler_decision.target_depth != a.profiler_decision.target_depth || !same_tiers;
            assert(ov[i as int] == o@);
            assert(av[i as int] == a@);
            assert(diff == plans_differ(o@, a@));
            if diff {
                mismatches = mismatches + 1;
            }
            i = i + 1;
        }
        DivergenceCount { mismatches, samples: n }
    }
}

/// A run compared with itself never diverges.
pub proof fn lemma_identical_runs_do_not_diverge(runs: Seq<TraceView>, n: nat)
    requires
        n <= runs.len(),
    ensures
        diverging(runs, runs, n) == 0,
    decreases n,
{
    if n > 0 {
        lemma_identical_runs_do_not_diverge(runs, (n - 1) as nat);
    }
}

/// When every compared pair differs in target depth, every pair diverges.
pub proof fn lemma_depth_drift_diverges_everywhere(o: Seq<TraceView>, a: Seq<TraceView>, n: nat)
    requires
        n <= o.len(),
        n <= a.len(),
        forall|i: int|
            0 <= i < n ==> #[trigger] o[i].profiler_decision.target_depth
                != a[i].profiler_decision.target_depth,
    ensures
        diverging(o, a, n) == n,
    decreases n,
{
    if n > 0 {
        lemma_depth_drift_diverges_everywhere(o, a, (n - 1) as nat);
        assert(o[n - 1].profiler_decision.target_depth != a[n - 1].profiler_decision.target_depth);
    }
}

/// Divergence looks only at the plan: pairs that agree on difficulty class, target
/// depth and precision plan never diverge, whatever else (burst, chain phase,
/// latencies) differs; pairs that differ in difficulty class or precision plan
/// always diverge.
pub proof fn lemma_divergence_reads_the_plan(o: Seq<TraceView>, a: Seq<TraceView>, n: nat)
    requires
        n <= o.len(),
        n <= a.len(),
    ensures
        (forall|i: int|
            0 <= i < n ==> (#[trigger] o[i]).profiler_decision.difficulty
                == a[i].profiler_decision.difficulty && o[i].profiler_decision.target_depth
                == a[i].profiler_decision.target_depth && o[i].precision_plan == a[i].precision_plan)
            ==> diverging(o, a, n) == 0,
        (forall|i: int|
            0 <= i < n ==> (#[trigger] o[i]).profiler_decision.difficulty
                != a[i].profiler_decision.difficulty || o[i].precision_plan != a[i].precision_plan)
            ==> diverging(o, a, n) == n,
        diverging(o, a, n) == diverging(a, o, n),
        diverging(o, a, n) <= n,
    decreases n,
{
    if n > 0 {
        lemma_divergence_reads_the_plan(o, a, (n - 1) as nat);
        let k = n - 1;
        assert(o[k] == o[k]);
    }
}

} // verus!
