use vstd::prelude::*;
use crate::context::{RoutingContext, RoutingContextView};
use crate::decision::{copy_experts, experts_equal, flatten_experts, ActualRouting, RoutingView};
use crate::telemetry::TokenTrace;
use crate::traits::BranchPredictor;

verus! {

/// How many recorded tokens a replay saw, and on how many the predictor hit.
pub struct ReplayResult {
    pub tokens: usize,
    pub hits: usize,
}

/// What replay feeds the predictor for a recorded token: its position and its
/// recorded prediction as the recent experts.
pub open spec fn replay_context(t: TokenTrace) -> RoutingContextView {
    RoutingContextView { position: t.position, recent_experts: t.predicted_experts@ }
}

/// What replay teaches the predictor for a recorded token: one layer holding the
/// recorded actual experts.
pub open spec fn replay_actual(t: TokenTrace) -> RoutingView {
    RoutingView { experts: seq![t.actual_experts@], exit_layer: 0 }
}

/// Replaying `traces` from predictor state `state`: the hits (a hit is a predicted
/// expert set, flattened, equal to the recorded actual experts) and the final state.
pub open spec fn replay_run<B: BranchPredictor>(state: B::V, traces: Seq<TokenTrace>) -> (nat, B::V)
    decreases traces.len(),
{
    if traces.len() == 0 {
        (0, state)
    } else {
        let (hits, s1) = replay_run::<B>(state, traces.drop_last());
        let t = traces.last();
        let p = B::prediction_for(s1, replay_context(t));
        let hit: nat = if p.experts.flatten() == t.actual_experts@ { 1 } else { 0 };
        (hits + hit, B::learned(s1, p, replay_actual(t)))
    }
}

proof fn lemma_replay_hits_bounded<B: BranchPredictor>(state: B::V, traces: Seq<TokenTrace>)
    ensures
        replay_run::<B>(state, traces).0 <= traces.len(),
    decreases traces.len(),
{
    if traces.len() > 0 {
        lemma_replay_hits_bounded::<B>(state, traces.drop_last());
    }
}

/// Counterfactual replay: re-feed recorded routing contexts to a candidate predictor
/// and count its hits, without re-running any model.
pub fn replay<B: BranchPredictor>(traces: &[TokenTrace], pred: &mut B) -> (r: ReplayResult)
    ensures
        r.tokens == traces@.len(),
        r.hits == replay_run::<B>(old(pred)@, traces@).0,
        final(pred)@ == replay_run::<B>(old(pred)@, traces@).1,
        r.hits <= r.tokens,
{
    let mut hits: usize = 0;
    let mut i: usize = 0;
    while i < traces.len()
        invariant
            i <= traces.len(),
            hits == replay_run::<B>(old(pred)@, traces@.take(i as int)).0,
            pred@ == replay_run::<B>(old(pred)@, traces@.take(i as int)).1,
            hits <= i,
        decreases traces.len() - i,
    {
        let t = &traces[i];
        let rctx = RoutingContext { position: t.position, recent_experts: copy_experts(&t.predicted_experts) };
        let predicted = pred.predict(&rctx);
        let flat = flatten_experts(&predicted.experts_per_moe_layer);
        if experts_equal(&flat, &t.actual_experts) {
            hits = hits + 1;
        }
        let actual = ActualRouting { experts_per_moe_layer: vec![copy_experts(&t.actual_experts)], exit_layer: 0 };
        proof {
            assert(actual@.experts =~= seq![t.actual_experts@]);
            assert(traces@.take(i + 1).drop_last() =~= traces@.take(i as int));
            assert(traces@.take(i + 1).last() == *t);
        }
        pred.update(&predicted, &actual);
        i = i + 1;
    }
    proof {
        assert(traces@.take(traces.len() as int) =~= traces@);
        lemma_replay_hits_bounded::<B>(old(pred)@, traces@);
    }
    ReplayResult { tokens: traces.len(), hits }
}

/// Replay law for one recorded token: the predictor is asked at the token's
/// position with the token's recorded prediction as its recent experts (never its
/// actual experts); it scores a hit exactly when its answer, flattened, is the
/// recorded actual routing; and it is then taught one layer holding that routing.
pub proof fn lemma_replay_token<B: BranchPredictor>(state: B::V, t: TokenTrace)
    ensures
        ({
            let p = B::prediction_for(
                state,
                RoutingContextView { position: t.position, recent_experts: t.predicted_experts@ },
            );
            &&& replay_run::<B>(state, seq![t]).0 == (if p.experts.flatten() == t.actual_experts@ {
                1nat
            } else {
                0nat
            })
            &&& replay_run::<B>(state, seq![t]).1 == B::learned(
                state,
                p,
                RoutingView { experts: seq![t.actual_experts@], exit_layer: 0 },
            )
        }),
{
    let one = seq![t];
    assert(one.drop_last() =~= Seq::<TokenTrace>::empty());
    assert(one.last() == t);
    assert(replay_run::<B>(state, one.drop_last()) == (0nat, state));
}

/// Replay law for a split record: replaying `a` then `b` counts the hits of `a`
/// plus those of `b` replayed from where `a` left the predictor, and leaves the
/// predictor where that second replay leaves it.
pub proof fn lemma_replay_append<B: BranchPredictor>(
    state: B::V,
    a: Seq<TokenTrace>,
    b: Seq<TokenTrace>,
)
    ensures
        ({
            let ra = replay_run::<B>(state, a);
            let rb = replay_run::<B>(ra.1, b);
            &&& replay_run::<B>(state, a + b).0 == ra.0 + rb.0
            &&& replay_run::<B>(state, a + b).1 == rb.1
        }),
    decreases b.len(),
{
    if b.len() == 0 {
        assert(a + b =~= a);
    } else {
        lemma_replay_append::<B>(state, a, b.drop_last());
        assert((a + b).drop_last() =~= a + b.drop_last());
        assert((a + b).last() == b.last());
    }
}

} // verus!
