use vstd::prelude::*;
use crate::context::{ExecOutcome, OutcomeView, RoutingContext, RoutingContextView, TokenContext};
use crate::decision::{
    ActualRouting, ComputeDecision, DecisionView, PredictionView, RoutingPrediction, RoutingView,
};
use crate::plan::{ExecPlan, ModelShape, PlanView};

verus! {

/// Decides how much compute a token gets.
pub trait CognitiveProfiler {
    /// The decision this profiler makes for `ctx`.
    spec fn decision_for(&self, ctx: TokenContext) -> DecisionView;

    fn predict(&self, ctx: &TokenContext) -> (d: ComputeDecision)
        ensures
            d@ == self.decision_for(*ctx),
    ;
}

/// Whether `profiler` names at least one precision for every token.
pub open spec fn names_precision<P: CognitiveProfiler>(profiler: P) -> bool {
    forall|ctx: TokenContext| #[trigger] profiler.decision_for(ctx).precision_per_group.len() > 0
}

/// Predicts which experts the next token routes to, and learns from what happened.
pub trait BranchPredictor: View {
    /// The prediction made in state `state` for `ctx`.
    spec fn prediction_for(state: Self::V, ctx: RoutingContextView) -> PredictionView;

    /// The state after learning that `actual` followed `predicted`.
    spec fn learned(state: Self::V, predicted: PredictionView, actual: RoutingView) -> Self::V;

    fn predict(&self, ctx: &RoutingContext) -> (p: RoutingPrediction)
        ensures
            p@ == Self::prediction_for(self@, ctx@),
    ;

    fn update(&mut self, predicted: &RoutingPrediction, actual: &ActualRouting)
        ensures
            final(self)@ == Self::learned(old(self)@, predicted@, actual@),
    ;
}

/// Runs an execution plan.
pub trait ExecutionBackend: View {
    /// Whether the backend, in state `state`, runs `plan` without failing.
    spec fn runs(state: Self::V, plan: PlanView, shape: ModelShape) -> bool;

    /// What running `plan` in state `state` reports.
    spec fn outcome(state: Self::V, plan: PlanView, shape: ModelShape) -> OutcomeView;

    /// The state after running `plan` in state `state`.
    spec fn after(state: Self::V, plan: PlanView, shape: ModelShape) -> Self::V;

    fn execute(&mut self, plan: &ExecPlan, shape: &ModelShape) -> (o: ExecOutcome)
        requires
            Self::runs(old(self)@, plan@, *shape),
        ensures
            o@ == Self::outcome(old(self)@, plan@, *shape),
            final(self)@ == Self::after(old(self)@, plan@, *shape),
    ;
}

} // verus!
