use mirage::context::RoutingContext;
use mirage::context::TokenContext;
use mirage::control::{ChainPhase, DifficultyClass, HeadMask, MarginBand, PrecisionTier, TokenKind};
use mirage::decision::{ActualRouting, ComputeDecision, DecisionView, RoutingPrediction};
use mirage::kvcache::{KvBlock, KvCachePolicy};
use mirage::plan::ModelShape;
use mirage::predictor::NgramBranchPredictor;
use mirage::traits::{BranchPredictor, CognitiveProfiler};

#[test]
fn head_mask_all_counts_correctly() {
    assert_eq!(HeadMask::all(32).count(), 32);
    assert_eq!(HeadMask::all(64).count(), 64);
    assert!(HeadMask::all(8).is_set(7));
    assert!(!HeadMask::all(8).is_set(8));
}

#[test]
fn head_mask_edges() {
    assert_eq!(HeadMask::all(0).count(), 0);
    assert_eq!(HeadMask::all(0).0, 0);
    assert_eq!(HeadMask::all(64).0, u64::MAX);
    assert_eq!(HeadMask::all(3).0, 0b111);
    assert!(HeadMask::all(64).is_set(63));
    assert_eq!(HeadMask(0b1010).count(), 2);
}

#[test]
fn qwen_shape_is_moe_with_128_experts() {
    let s = ModelShape::qwen3_30b_a3b();
    assert!(s.is_moe());
    assert_eq!(s.n_experts, 128);
    assert_eq!(s.top_k, 8);
    assert_eq!(s.n_layers, 48);
}

#[test]
fn dense_shape_is_not_moe() {
    let mut s = ModelShape::qwen3_30b_a3b();
    s.n_experts = 0;
    assert!(!s.is_moe());
}

struct NullProfiler;
impl CognitiveProfiler for NullProfiler {
    fn decision_for(&self, _: TokenContext) -> DecisionView {
        unreachable!()
    }

    fn predict(&self, _: &TokenContext) -> ComputeDecision {
        ComputeDecision {
            difficulty: DifficultyClass::Normal,
            target_depth: 1,
            precision_per_group: vec![PrecisionTier::Q4],
            head_budget: 32,
            burst: false,
            chain_phase: ChainPhase::NotReasoning,
        }
    }
}

#[test]
fn trait_object_is_usable() {
    let p: Box<dyn CognitiveProfiler> = Box::new(NullProfiler);
    let ctx = TokenContext {
        token_id: 1,
        position: 0,
        margin_band: MarginBand::Mid,
        recent_logit_margin_bits: 1.0f32.to_bits(),
        recent_entropy_bits: 0.1f32.to_bits(),
        token_kind: TokenKind::Content,
        chain_phase: ChainPhase::NotReasoning,
    };
    assert_eq!(p.predict(&ctx).target_depth, 1);
}

#[test]
fn recent_block_is_not_demoted() {
    let pol = KvCachePolicy::new(64);
    let b = KvBlock { position: 100, precision: PrecisionTier::FP16, generation: 0 };
    assert_eq!(pol.demote(b, 120), b);
}

#[test]
fn old_block_steps_down_and_bumps_generation() {
    let pol = KvCachePolicy::new(64);
    let b = KvBlock { position: 0, precision: PrecisionTier::FP16, generation: 0 };
    let d = pol.demote(b, 1000);
    assert_eq!(d.precision, PrecisionTier::Q6);
    assert_eq!(d.generation, 1);
}

#[test]
fn q2_is_the_floor() {
    let pol = KvCachePolicy::new(0);
    let b = KvBlock { position: 0, precision: PrecisionTier::Q2, generation: 5 };
    assert_eq!(pol.demote(b, 1000).precision, PrecisionTier::Q2);
}

#[test]
fn demotion_ladder_and_boundaries() {
    let pol = KvCachePolicy::new(10);
    let at = |p| KvBlock { position: 5, precision: p, generation: 2 };
    // exactly at the age limit: kept
    assert_eq!(pol.demote(at(PrecisionTier::FP8), 15), at(PrecisionTier::FP8));
    // a position before the block's start counts as age 0
    assert_eq!(pol.demote(at(PrecisionTier::FP8), 0), at(PrecisionTier::FP8));
    // one past the limit: demoted
    assert_eq!(pol.demote(at(PrecisionTier::FP8), 16).precision, PrecisionTier::Q4);
    assert_eq!(pol.demote(at(PrecisionTier::Q6), 16).precision, PrecisionTier::Q4);
    assert_eq!(pol.demote(at(PrecisionTier::Q4), 16).precision, PrecisionTier::Q2);
    let d = pol.demote(at(PrecisionTier::Q2), 100);
    assert_eq!(d.precision, PrecisionTier::Q2);
    assert_eq!(d.generation, 3);
    assert_eq!(d.position, 5);
}

#[test]
fn learns_a_repeated_routing_pattern() {
    let mut p = NgramBranchPredictor::new(4);
    let actual = ActualRouting { experts_per_moe_layer: vec![vec![3, 7, 9, 1]], exit_layer: 1 };
    p.update(&RoutingPrediction::default(), &actual);
    let flat = vec![3u16, 7, 9, 1];
    let pred = p.predict(&RoutingContext { position: 1, recent_experts: flat });
    assert_eq!(pred.experts_per_moe_layer, vec![vec![3, 7, 9, 1]]);
}

#[test]
fn unknown_context_predicts_empty_not_panic() {
    let p = NgramBranchPredictor::new(4);
    let pred = p.predict(&RoutingContext { position: 0, recent_experts: vec![] });
    assert!(pred.experts_per_moe_layer.is_empty());
}

#[test]
fn predictor_keys_on_the_last_order_experts() {
    let mut p = NgramBranchPredictor::new(2);
    let actual = ActualRouting { experts_per_moe_layer: vec![vec![5, 6], vec![7, 8]], exit_layer: 2 };
    p.update(&RoutingPrediction::default(), &actual);
    // only the last two experts (7, 8) make the signature
    let pred = p.predict(&RoutingContext { position: 9, recent_experts: vec![1, 2, 7, 8] });
    assert_eq!(pred.experts_per_moe_layer, vec![vec![5, 6], vec![7, 8]]);
    assert_eq!(pred.likely_exit_layer, 0);
    let miss = p.predict(&RoutingContext { position: 9, recent_experts: vec![8, 7] });
    assert!(miss.experts_per_moe_layer.is_empty());
}
