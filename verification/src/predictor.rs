use vstd::prelude::*;
use std::collections::HashMap;
use crate::context::{RoutingContext, RoutingContextView};
use crate::decision::{
    copy_layers, flatten_experts, nested_view, ActualRouting, PredictionView, RoutingPrediction,
    RoutingView,
};
use crate::traits::BranchPredictor;

verus! {

broadcast use vstd::std_specs::hash::group_hash_axioms;

/// FNV-1a offset basis.
pub const FNV_OFFSET: u64 = 1469598103934665603;

/// FNV-1a prime.
pub const FNV_PRIME: u64 = 1099511628211;

/// One FNV-1a step over an expert id.
pub open spec fn fnv_step(h: u64, e: u16) -> u64 {
    (h ^ (e as u64)).wrapping_mul(FNV_PRIME)
}

/// FNV-1a hash of a list of expert ids.
pub open spec fn fnv(s: Seq<u16>) -> u64
    decreases s.len(),
{
    if s.len() == 0 {
        FNV_OFFSET
    } else {
        fnv_step(fnv(s.drop_last()), s.last())
    }
}

/// The signature of a recent-expert history: the hash of its last `order` entries
/// (all of them when it is shorter).
pub open spec fn signature(recent: Seq<u16>, order: usize) -> u64 {
    let start = if recent.len() >= order { recent.len() - order } else { 0 };
    fnv(recent.subrange(start as int, recent.len() as int))
}

/// What an n-gram predictor knows: its order, and the routing that followed each
/// signature.
pub struct NgramState {
    pub order: usize,
    pub table: Map<u64, Seq<Seq<u16>>>,
}

/// Phase 1 n-gram branch predictor: maps a recent-expert signature to the expert
/// set that followed it. Prefetch only.
pub struct NgramBranchPredictor {
    table: HashMap<u64, Vec<Vec<u16>>>,
    order: usize,
}

impl View for NgramBranchPredictor {
    type V = NgramState;

    closed spec fn view(&self) -> NgramState {
        NgramState {
            order: self.order,
            table: self.table@.map_values(|v: Vec<Vec<u16>>| nested_view(v)),
        }
    }
}

impl NgramBranchPredictor {
    /// A predictor that keys on the last `order` experts and knows nothing yet.
    pub fn new(order: usize) -> (p: Self)
        ensures
            p@.order == order,
            p@.table == Map::<u64, Seq<Seq<u16>>>::empty(),
    {
        let p = NgramBranchPredictor { table: HashMap::new(), order };
        assert(p@.table =~= Map::<u64, Seq<Seq<u16>>>::empty());
        p
    }

    fn sig(&self, recent: &[u16]) -> (h: u64)
        ensures
            h == signature(recent@, self.order),
    {
        let take = recent.len().saturating_sub(self.order);
        let mut h: u64 = FNV_OFFSET;
        let mut i: usize = take;
        while i < recent.len()
            invariant
                take <= i <= recent.len(),
                take == (if recent@.len() >= self.order { recent@.len() - self.order } else { 0 }),
                h == fnv(recent@.subrange(take as int, i as int)),
            decreases recent.len() - i,
        {
            let e = recent[i];
            h = (h ^ (e as u64)).wrapping_mul(FNV_PRIME);
            assert(recent@.subrange(take as int, i + 1).drop_last() =~= recent@.subrange(
                take as int,
                i as int,
            ));
            i = i + 1;
        }
        h
    }
}

impl BranchPredictor for NgramBranchPredictor {
    /// The routing stored under the signature of the recent experts, or nothing.
    open spec fn prediction_for(state: NgramState, ctx: RoutingContextView) -> PredictionView {
        let sig = signature(ctx.recent_experts, state.order);
        PredictionView {
            experts: if state.table.contains_key(sig) {
                state.table[sig]
            } else {
                Seq::empty()
            },
            likely_exit_layer: 0,
        }
    }

    /// The actual routing, stored under the signature of its own flattened experts, so
    /// that a repeated context predicts the same continuation next time.
    open spec fn learned(state: NgramState, predicted: PredictionView, actual: RoutingView) -> NgramState {
        NgramState {
            order: state.order,
            table: state.table.insert(signature(actual.experts.flatten(), state.order), actual.experts),
        }
    }

    fn predict(&self, ctx: &RoutingContext) -> (p: RoutingPrediction) {
        let sig = self.sig(ctx.recent_experts.as_slice());
        let experts = match self.table.get(&sig) {
            Some(v) => copy_layers(v),
            None => Vec::new(),
        };
        let p = RoutingPrediction { experts_per_moe_layer: experts, likely_exit_layer: 0 };
        assert(p@.experts =~= Self::prediction_for(self@, ctx@).experts);
        p
    }

    fn update(&mut self, predicted: &RoutingPrediction, actual: &ActualRouting) {
        let flat = flatten_experts(&actual.experts_per_moe_layer);
        let sig = self.sig(flat.as_slice());
        let stored = copy_layers(&actual.experts_per_moe_layer);
        let ghost before = self.table@;
        self.table.insert(sig, stored);
        assert(self.table@ == before.insert(sig, stored));
        assert(self@.table =~= old(self)@.table.insert(sig, nested_view(actual.experts_per_moe_layer)));
    }
}

/// Learning: after an update with routing `actual`, a context whose recent experts
/// are `actual`'s experts flattened predicts `actual` again.
pub proof fn lemma_learns_repeated_pattern(
    state: NgramState,
    predicted: PredictionView,
    actual: RoutingView,
    ctx: RoutingContextView,
)
    requires
        ctx.recent_experts == actual.experts.flatten(),
    ensures
        NgramBranchPredictor::prediction_for(
            NgramBranchPredictor::learned(state, predicted, actual),
            ctx,
        ).experts == actual.experts,
{
}

/// A predictor that has learned nothing predicts no experts.
pub proof fn lemma_unknown_context_predicts_empty(order: usize, ctx: RoutingContextView)
    ensures
        NgramBranchPredictor::prediction_for(
            NgramState { order, table: Map::empty() },
            ctx,
        ).experts == Seq::<Seq<u16>>::empty(),
{
}

} // verus!
