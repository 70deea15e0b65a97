use vstd::prelude::*;
use crate::context::TokenContext;
use crate::control::{ChainPhase, DifficultyClass, MarginBand, PrecisionTier, TokenKind};
use crate::decision::{ComputeDecision, DecisionView};
use crate::traits::{names_precision, CognitiveProfiler};

verus! {

/// A trivial token: punctuation or formatting with a high logit margin.
pub open spec fn is_trivial(ctx: TokenContext) -> bool {
    (ctx.token_kind == TokenKind::Punctuation || ctx.token_kind == TokenKind::Formatting)
        && ctx.margin_band == MarginBand::High
}

/// A reasoning token: a reasoning marker, the middle of a chain, or a low margin.
pub open spec fn is_reasoning(ctx: TokenContext) -> bool {
    ctx.token_kind == TokenKind::ReasoningMarker || ctx.chain_phase == ChainPhase::Middle
        || ctx.margin_band == MarginBand::Low
}

/// The heuristic decision: trivial tokens run a third of the layers (at least one)
/// at Q2; reasoning tokens run every layer at FP16 in burst mode; the rest run every
/// layer at Q4.
pub open spec fn heuristic_decision(n_layers: u16, ctx: TokenContext) -> DecisionView {
    let (difficulty, depth, tier, burst) = if is_trivial(ctx) {
        (DifficultyClass::Trivial, n_layers / 3, PrecisionTier::Q2, false)
    } else if is_reasoning(ctx) {
        (DifficultyClass::ReasoningCritical, n_layers, PrecisionTier::FP16, true)
    } else {
        (DifficultyClass::Normal, n_layers, PrecisionTier::Q4, false)
    };
    DecisionView {
        difficulty,
        target_depth: if depth >= 1 { depth } else { 1 },
        precision_per_group: seq![tier],
        head_budget: 32,
        burst,
        chain_phase: ctx.chain_phase,
    }
}

/// Phase 1 hand-tuned profiler.
pub struct HeuristicProfiler {
    pub n_layers: u16,
}

impl HeuristicProfiler {
    pub fn new(n_layers: u16) -> (p: Self)
        ensures
            p.n_layers == n_layers,
    {
        HeuristicProfiler { n_layers }
    }
}

impl CognitiveProfiler for HeuristicProfiler {
    open spec fn decision_for(&self, ctx: TokenContext) -> DecisionView {
        heuristic_decision(self.n_layers, ctx)
    }

    fn predict(&self, ctx: &TokenContext) -> (d: ComputeDecision) {
        let trivial = (match ctx.token_kind {
            TokenKind::Punctuation | TokenKind::Formatting => true,
            _ => false,
        }) && ctx.margin_band == MarginBand::High;
        let reasoning = (match ctx.token_kind {
            TokenKind::ReasoningMarker => true,
            _ => false,
        }) || ctx.chain_phase == ChainPhase::Middle || ctx.margin_band == MarginBand::Low;

        let (difficulty, depth, tier, burst) = if trivial {
            (DifficultyClass::Trivial, self.n_layers / 3, PrecisionTier::Q2, false)
        } else if reasoning {
            (DifficultyClass::ReasoningCritical, self.n_layers, PrecisionTier::FP16, true)
        } else {
            (DifficultyClass::Normal, self.n_layers, PrecisionTier::Q4, false)
        };

        let d = ComputeDecision {
            difficulty,
            target_depth: if depth >= 1 { depth } else { 1 },
            precision_per_group: vec![tier],
            head_budget: 32,
            burst,
            chain_phase: ctx.chain_phase,
        };
        assert(d@.precision_per_group =~= seq![tier]);
        d
    }
}

/// The heuristic always plans at least one layer and never more than the model has
/// (when it has any), always names exactly one precision, and runs reasoning tokens
/// at full depth and FP16 unless they are trivial.
pub proof fn lemma_heuristic_shape(n_layers: u16, ctx: TokenContext)
    ensures
        heuristic_decision(n_layers, ctx).target_depth >= 1,
        n_layers >= 1 ==> heuristic_decision(n_layers, ctx).target_depth <= n_layers,
        heuristic_decision(n_layers, ctx).precision_per_group.len() == 1,
        is_trivial(ctx) ==> heuristic_decision(n_layers, ctx).target_depth < n_layers || n_layers
            <= 1,
        !is_trivial(ctx) && is_reasoning(ctx) && n_layers >= 1 ==> heuristic_decision(
            n_layers,
            ctx,
        ).target_depth == n_layers && heuristic_decision(n_layers, ctx).precision_per_group[0]
            == PrecisionTier::FP16,
{
}

/// The heuristic profiler names a precision for every token.
pub proof fn lemma_heuristic_names_precision(profiler: HeuristicProfiler)
    ensures
        names_precision(profiler),
{
    assert forall|ctx: TokenContext| #[trigger] profiler.decision_for(ctx).precision_per_group.len() > 0 by {
        lemma_heuristic_shape(profiler.n_layers, ctx);
    }
}

/// Heuristic classes: a trivial token runs a third of the layers (at least one) at
/// Q2 without burst; a non-trivial reasoning token runs every layer at FP16 in
/// burst mode; any other token runs every layer at Q4 without burst. Every decision
/// has a head budget of 32 and keeps the token's chain phase.
pub proof fn lemma_heuristic_classes(n_layers: u16, ctx: TokenContext)
    ensures
        ({
            let d = heuristic_decision(n_layers, ctx);
            let trivial = (ctx.token_kind == TokenKind::Punctuation || ctx.token_kind
                == TokenKind::Formatting) && ctx.margin_band == MarginBand::High;
            let reasoning = ctx.token_kind == TokenKind::ReasoningMarker || ctx.chain_phase
                == ChainPhase::Middle || ctx.margin_band == MarginBand::Low;
            &&& d.head_budget == 32 && d.chain_phase == ctx.chain_phase
            &&& d.precision_per_group.len() == 1
            &&& trivial ==> d.difficulty == DifficultyClass::Trivial && d.target_depth == (if n_layers
                >= 3 { n_layers / 3 } else { 1 }) && d.precision_per_group[0] == PrecisionTier::Q2
                && !d.burst
            &&& !trivial && reasoning ==> d.difficulty == DifficultyClass::ReasoningCritical
                && d.target_depth == (if n_layers >= 1 { n_layers } else { 1 })
                && d.precision_per_group[0] == PrecisionTier::FP16 && d.burst
            &&& !trivial && !reasoning ==> d.difficulty == DifficultyClass::Normal && d.target_depth
                == (if n_layers >= 1 { n_layers } else { 1 }) && d.precision_per_group[0]
                == PrecisionTier::Q4 && !d.burst
        }),
{
}

} // verus!
