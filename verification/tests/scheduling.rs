use mirage::bench::oracle::{OraclePredictor, OracleProfiler};
use mirage::context::{RoutingContext, TokenContext};
use mirage::control::{ChainPhase, DifficultyClass, MarginBand, PrecisionTier, TokenKind};
use mirage::frame::{decode_frames, encode_frame};
use mirage::plan::ModelShape;
use mirage::predictor::NgramBranchPredictor;
use mirage::profiler::HeuristicProfiler;
use mirage::scheduler::{Anomaly, FallbackController, Scheduler};
use mirage::sim::backend::SimBackend;
use mirage::sim::hw::LatencyModel;
use mirage::telemetry::{validate, TokenTrace};
use mirage::traits::{BranchPredictor, CognitiveProfiler};

fn band(margin: f32) -> MarginBand {
    if margin < 0.5 {
        MarginBand::Low
    } else if margin > 3.0 {
        MarginBand::High
    } else {
        MarginBand::Mid
    }
}

fn token(id: u32, position: u32, margin: f32, entropy: f32, kind: TokenKind, phase: ChainPhase) -> TokenContext {
    TokenContext {
        token_id: id,
        position,
        margin_band: band(margin),
        recent_logit_margin_bits: margin.to_bits(),
        recent_entropy_bits: entropy.to_bits(),
        token_kind: kind,
        chain_phase: phase,
    }
}

fn tctx(id: u32) -> TokenContext {
    token(id, id, 1.0, 0.2, TokenKind::Content, ChainPhase::NotReasoning)
}

#[test]
fn anomalies_escalate_monotonically_and_cap_at_3() {
    let mut f = FallbackController::new();
    f.on_anomaly(Anomaly::ReasoningCollapse);
    assert_eq!(f.level(), 1);
    f.on_anomaly(Anomaly::NbpFloorBreach);
    assert_eq!(f.level(), 2);
    f.on_anomaly(Anomaly::ReasoningCollapse);
    assert_eq!(f.level(), 2);
    f.on_anomaly(Anomaly::KernelNaN);
    assert_eq!(f.level(), 3);
    f.on_anomaly(Anomaly::KernelNaN);
    assert_eq!(f.level(), 3);
    assert!(f.baseline_reachable());
}

#[test]
fn i5_fallback_capped_and_baseline_reachable() {
    // a fixed pseudo-random sequence of anomaly codes
    let mut fb = FallbackController::default();
    let mut x: u32 = 12345;
    let mut last = 0;
    for _ in 0..200 {
        x = x.wrapping_mul(1103515245).wrapping_add(12345);
        let a = match (x >> 16) % 5 {
            0 => Anomaly::ReasoningCollapse,
            1 => Anomaly::NbpFloorBreach,
            2 => Anomaly::KvIntegrity,
            3 => Anomaly::VramPressure,
            _ => Anomaly::KernelNaN,
        };
        fb.on_anomaly(a);
        assert!(fb.level() <= 3);
        assert!(fb.level() >= last);
        last = fb.level();
        assert!(fb.baseline_reachable());
    }
    let mut g = FallbackController::new();
    g.on_anomaly(Anomaly::VramPressure);
    g.on_anomaly(Anomaly::KvIntegrity);
    assert_eq!(g.level(), 1);
}

#[test]
fn trivial_token_runs_shallow_and_low_precision() {
    let p = HeuristicProfiler::new(48);
    let d = p.predict(&token(1, 0, 5.0, 0.2, TokenKind::Punctuation, ChainPhase::NotReasoning));
    assert_eq!(d.difficulty, DifficultyClass::Trivial);
    assert!(d.target_depth < 48);
    assert_eq!(d.precision_per_group, vec![PrecisionTier::Q2]);
}

#[test]
fn reasoning_token_runs_full_depth_fp16_burst() {
    let p = HeuristicProfiler::new(48);
    let d = p.predict(&token(1, 0, 2.0, 0.2, TokenKind::ReasoningMarker, ChainPhase::Middle));
    assert_eq!(d.difficulty, DifficultyClass::ReasoningCritical);
    assert_eq!(d.target_depth, 48);
    assert!(d.burst);
}

#[test]
fn heuristic_profiler_edges() {
    let p = HeuristicProfiler::new(48);
    let normal = p.predict(&token(1, 0, 1.0, 0.2, TokenKind::Content, ChainPhase::Early));
    assert_eq!(normal.difficulty, DifficultyClass::Normal);
    assert_eq!(normal.target_depth, 48);
    assert_eq!(normal.precision_per_group, vec![PrecisionTier::Q4]);
    assert_eq!(normal.head_budget, 32);
    assert_eq!(normal.chain_phase, ChainPhase::Early);
    // a low margin makes any token a reasoning token
    let low = p.predict(&token(1, 0, 0.2, 0.2, TokenKind::CommonWord, ChainPhase::NotReasoning));
    assert_eq!(low.difficulty, DifficultyClass::ReasoningCritical);
    // high-margin formatting inside a chain's middle is still trivial
    let fmt = p.predict(&token(1, 0, 4.0, 0.2, TokenKind::Formatting, ChainPhase::Middle));
    assert_eq!(fmt.difficulty, DifficultyClass::Trivial);
    assert_eq!(fmt.target_depth, 16);
    // depth never drops below one layer
    let tiny = HeuristicProfiler::new(2).predict(&token(1, 0, 9.0, 0.2, TokenKind::Punctuation, ChainPhase::Early));
    assert_eq!(tiny.target_depth, 1);
}

#[test]
fn oracle_profiler_returns_full_depth_fp16() {
    let p = OracleProfiler::new(48);
    let d = p.predict(&token(0, 0, 1.0, 0.2, TokenKind::Content, ChainPhase::Middle));
    assert_eq!(d.target_depth, 48);
    assert_eq!(d.precision_per_group, vec![PrecisionTier::FP16]);
}

#[test]
fn oracle_predictor_is_empty() {
    let p = OraclePredictor;
    let pred = p.predict(&RoutingContext { position: 5, recent_experts: vec![1, 2, 3] });
    assert!(pred.experts_per_moe_layer.is_empty());
    assert_eq!(pred.likely_exit_layer, 0);
}

fn scheduler() -> Scheduler<HeuristicProfiler, NgramBranchPredictor> {
    let shape = ModelShape::qwen3_30b_a3b();
    Scheduler::new(HeuristicProfiler::new(shape.n_layers), NgramBranchPredictor::new(8), 1, 42)
}

#[test]
fn step_emits_a_valid_trace() {
    let shape = ModelShape::qwen3_30b_a3b();
    let mut sched = scheduler();
    let mut backend = SimBackend::new(12_000);
    let fb = FallbackController::new();
    let tr = sched.step(&tctx(5), &RoutingContext { position: 5, recent_experts: vec![] }, &shape, &mut backend, &fb);
    assert!(validate(&tr).is_ok());
    assert_eq!(tr.fallback_level, 0);
    assert_eq!(tr.model_id, 42);
    assert_eq!(tr.run_id, 1);
    assert_eq!(tr.latency.sample_us, 1);
    assert_eq!(
        tr.latency.total_us,
        tr.latency.prefetch_us + tr.latency.compute_us + tr.latency.stall_us + tr.latency.cpu_us + 1
    );
    assert_eq!(tr.logit_margin_bits, 1.0f32.to_bits());
    assert_eq!(tr.actual_experts.len(), 48 * 8);
}

#[test]
fn level_3_forces_full_depth_q4() {
    let shape = ModelShape::qwen3_30b_a3b();
    let mut sched = scheduler();
    let mut backend = SimBackend::new(12_000);
    let mut fb = FallbackController::new();
    fb.on_anomaly(Anomaly::KernelNaN);
    let c = token(9, 9, 9.0, 0.2, TokenKind::Punctuation, ChainPhase::NotReasoning);
    let tr = sched.step(&c, &RoutingContext { position: 9, recent_experts: vec![] }, &shape, &mut backend, &fb);
    assert_eq!(tr.precision_plan, vec![PrecisionTier::Q4]);
    assert_eq!(tr.profiler_decision.difficulty, DifficultyClass::Trivial);
    assert_eq!(tr.latency.compute_us, LatencyModel::compute_us(shape.n_layers));
}

#[test]
fn level_1_forces_q4_but_keeps_early_exit() {
    let shape = ModelShape::qwen3_30b_a3b();
    let mut sched = scheduler();
    let mut backend = SimBackend::new(12_000);
    let mut fb = FallbackController::new();
    fb.on_anomaly(Anomaly::ReasoningCollapse);
    let c = token(9, 9, 9.0, 0.2, TokenKind::Punctuation, ChainPhase::NotReasoning);
    let tr = sched.step(&c, &RoutingContext { position: 9, recent_experts: vec![] }, &shape, &mut backend, &fb);
    assert_eq!(tr.precision_plan, vec![PrecisionTier::Q4]);
    assert_eq!(tr.latency.compute_us, LatencyModel::compute_us(16));
    assert_eq!(tr.fallback_level, 1);
}

fn run_once() -> Vec<TokenTrace> {
    let shape = ModelShape::qwen3_30b_a3b();
    let mut sched = Scheduler::new(HeuristicProfiler::new(shape.n_layers), NgramBranchPredictor::new(8), 7, 42);
    let mut backend = SimBackend::new(12_000);
    let fb = FallbackController::new();
    let mut out = Vec::new();
    for i in 0..200u32 {
        let rctx = RoutingContext { position: i, recent_experts: vec![] };
        out.push(sched.step(&tctx(i), &rctx, &shape, &mut backend, &fb));
    }
    out
}

#[test]
fn two_runs_are_byte_identical() {
    let a = run_once();
    let b = run_once();
    assert_eq!(a, b);
    // and their framed byte streams are identical too
    let frame = |ts: &Vec<TokenTrace>| -> Vec<u8> {
        let mut buf = Vec::new();
        for t in ts {
            let mut payload = t.token_id.to_le_bytes().to_vec();
            payload.extend(t.actual_experts.iter().flat_map(|e| e.to_le_bytes()));
            payload.extend(t.latency.total_us.to_le_bytes());
            buf.extend(encode_frame(&payload));
        }
        buf
    };
    assert_eq!(frame(&a), frame(&b));
    assert_eq!(decode_frames(&frame(&a)).unwrap().len(), 200);
}

#[test]
fn phase0_full_moat_runs_and_predictor_warms() {
    let shape = ModelShape::qwen3_30b_a3b();
    let mut sched = Scheduler::new(HeuristicProfiler::new(shape.n_layers), NgramBranchPredictor::new(8), 99, 42);
    let mut backend = SimBackend::new(12_000);
    let fb = FallbackController::new();
    let mut recent: Vec<u16> = Vec::new();
    let mut early_stall = 0u64;
    let mut late_stall = 0u64;
    for i in 0..512u32 {
        let t = token(i, i, 1.0, 0.2, TokenKind::Content, ChainPhase::Middle);
        let rctx = RoutingContext { position: i, recent_experts: recent.clone() };
        let tr = sched.step(&t, &rctx, &shape, &mut backend, &fb);
        assert!(validate(&tr).is_ok(), "I8: trace must validate");
        assert!(tr.vram_usage_mb <= 12_000, "I7: budget");
        assert_eq!(tr.fallback_level, 0, "no anomalies injected");
        recent = tr.actual_experts.clone();
        if i < 64 {
            early_stall += tr.latency.stall_us as u64;
        }
        if i >= 448 {
            late_stall += tr.latency.stall_us as u64;
        }
    }
    assert!(late_stall < early_stall, "expected stalls to fall: early={early_stall} late={late_stall}");
}

#[test]
fn i7_i8_traces_valid_and_budget_respected() {
    // a spread of positions and margins
    let shape = ModelShape::qwen3_30b_a3b();
    for (k, margin) in [0.0f32, 0.4, 1.0, 3.5, 5.9].iter().enumerate() {
        let mut sched = scheduler();
        let mut backend = SimBackend::new(12_000);
        let fb = FallbackController::new();
        for i in 0..60u32 {
            let pos = (i * 977 + k as u32 * 131) % 5000;
            let t = token(i, pos, *margin, 0.2, TokenKind::Content, ChainPhase::Middle);
            let rctx = RoutingContext { position: pos, recent_experts: vec![] };
            let tr = sched.step(&t, &rctx, &shape, &mut backend, &fb);
            assert!(validate(&tr).is_ok());
            assert!(tr.vram_usage_mb <= 12_000);
        }
    }
}

#[test]
fn small_budget_still_respected() {
    let shape = ModelShape::qwen3_30b_a3b();
    let mut sched = scheduler();
    let mut backend = SimBackend::new(10); // room for 6 experts only
    let fb = FallbackController::new();
    for i in 0..20u32 {
        let tr = sched.step(&tctx(i * 16), &RoutingContext { position: i * 16, recent_experts: vec![] }, &shape, &mut backend, &fb);
        assert!(tr.vram_usage_mb <= 10);
        assert!(validate(&tr).is_ok());
    }
}
