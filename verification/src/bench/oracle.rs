use vstd::prelude::*;
use crate::context::{RoutingContext, RoutingContextView, TokenContext};
use crate::control::{DifficultyClass, PrecisionTier};
use crate::decision::{
    ActualRouting, ComputeDecision, DecisionView, PredictionView, RoutingPrediction, RoutingView,
};
use crate::traits::{names_precision, BranchPredictor, CognitiveProfiler};

verus! {

/// Full-depth FP16 on every token: no early exit, no precision adaptation. The
/// baseline the adaptive scheduler is measured against.
pub struct OracleProfiler {
    pub n_layers: u16,
}

impl OracleProfiler {
    pub fn new(n_layers: u16) -> (p: Self)
        ensures
            p.n_layers == n_layers,
    {
        OracleProfiler { n_layers }
    }
}

impl CognitiveProfiler for OracleProfiler {
    open spec fn decision_for(&self, ctx: TokenContext) -> DecisionView {
        DecisionView {
            difficulty: DifficultyClass::ReasoningCritical,
            target_depth: self.n_layers,
            precision_per_group: seq![PrecisionTier::FP16],
            head_budget: 64,
            burst: false,
            chain_phase: ctx.chain_phase,
        }
    }

    fn predict(&self, ctx: &TokenContext) -> (d: ComputeDecision) {
        let d = ComputeDecision {
            difficulty: DifficultyClass::ReasoningCritical,
            target_depth: self.n_layers,
            precision_per_group: vec![PrecisionTier::FP16],
            head_budget: 64,
            burst: false,
            chain_phase: ctx.chain_phase,
        };
        assert(d@.precision_per_group =~= seq![PrecisionTier::FP16]);
        d
    }
}

/// The oracle profiler names a precision (FP16) for every token.
pub proof fn lemma_oracle_names_precision(profiler: OracleProfiler)
    ensures
        names_precision(profiler),
{
}

/// Always predicts no experts, so execution starts cold on every token. This
/// isolates the plan's contribution from the prefetch's contribution.
pub struct OraclePredictor;

impl View for OraclePredictor {
    type V = ();

    open spec fn view(&self) -> () {
        ()
    }
}

impl BranchPredictor for OraclePredictor {
    open spec fn prediction_for(state: (), ctx: RoutingContextView) -> PredictionView {
        PredictionView { experts: Seq::empty(), likely_exit_layer: 0 }
    }

    open spec fn learned(state: (), predicted: PredictionView, actual: RoutingView) -> () {
        ()
    }

    fn predict(&self, ctx: &RoutingContext) -> (p: RoutingPrediction) {
        RoutingPrediction::default()
    }

    fn update(&mut self, predicted: &RoutingPrediction, actual: &ActualRouting) {
    }
}

} // verus!
