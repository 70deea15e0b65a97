use mirage::bench::gsm_toy::GsmToy;
use mirage::bench::oracle::{OraclePredictor, OracleProfiler};
use mirage::bench::report::aggregate;
use mirage::bench::runner::{BenchRunner, BenchSample, SampleStep};
use mirage::bench::scorer::PlanDivergence;
use mirage::context::TokenContext;
use mirage::control::{ChainPhase, DifficultyClass, MarginBand, PrecisionTier, TokenKind};
use mirage::decision::{ComputeDecision, DecisionView};
use mirage::plan::ModelShape;
use mirage::predictor::NgramBranchPredictor;
use mirage::profiler::HeuristicProfiler;
use mirage::replay::replay;
use mirage::telemetry::{validate, LatencyBreakdown, TokenTrace, SCHEMA_VERSION};
use mirage::traits::CognitiveProfiler;

fn band(margin: f32) -> MarginBand {
    if margin < 0.5 {
        MarginBand::Low
    } else if margin > 3.0 {
        MarginBand::High
    } else {
        MarginBand::Mid
    }
}

/// A toy step with its float margin and entropy.
fn toy_step(seed: u32, p: u32, len: u32) -> SampleStep {
    let o = GsmToy.step_outline(seed, p, len);
    let osc = o.osc_milli as f32 / 1000.0;
    let margin = if matches!(o.token_kind, TokenKind::ReasoningMarker) {
        0.3 + osc
    } else if matches!(o.chain_phase, ChainPhase::Early | ChainPhase::Ending) {
        0.1 + osc * 0.3
    } else {
        1.5 + osc * 1.0
    };
    let entropy = if matches!(o.token_kind, TokenKind::ReasoningMarker) { 0.6 + osc * 0.3 } else { 0.1 + osc * 0.1 };
    SampleStep {
        token_id: o.token_id,
        token_kind: o.token_kind,
        chain_phase: o.chain_phase,
        margin_band: band(margin),
        recent_logit_margin_bits: margin.to_bits(),
        recent_entropy_bits: entropy.to_bits(),
    }
}

fn gsm_samples() -> Vec<BenchSample> {
    let g = GsmToy;
    (0..g.sample_count())
        .map(|i| BenchSample {
            name: g.sample_name(i),
            steps: (0..g.sample_len()).map(|p| toy_step(i, p, g.sample_len())).collect(),
        })
        .collect()
}

fn sample_trace(i: u32) -> TokenTrace {
    TokenTrace {
        schema_version: SCHEMA_VERSION,
        model_id: 7,
        run_id: 1,
        token_id: 10 + i,
        position: i,
        chain_phase: ChainPhase::Early,
        predicted_experts: vec![1, 2],
        actual_experts: vec![1, 2],
        precision_plan: vec![PrecisionTier::Q4],
        profiler_decision: ComputeDecision {
            difficulty: DifficultyClass::Normal,
            target_depth: 48,
            precision_per_group: vec![PrecisionTier::Q4],
            head_budget: 32,
            burst: false,
            chain_phase: ChainPhase::Early,
        },
        latency: LatencyBreakdown { total_us: 100, prefetch_us: 10, compute_us: 70, stall_us: 5, cpu_us: 5, sample_us: 2 },
        vram_usage_mb: 11000,
        pcie_bytes: 1024,
        kv_cache_bytes: 2048,
        energy_mj: 50,
        logits_entropy_bits: 0.4f32.to_bits(),
        logit_margin_bits: 1.2f32.to_bits(),
        fallback_level: 0,
        deterministic: true,
    }
}

#[test]
fn gsm_toy_emits_five_samples_of_sixty_four_tokens() {
    let s = gsm_samples();
    assert_eq!(s.len(), 5);
    assert!(s.iter().all(|x| x.steps.len() == 64));
    assert_eq!(GsmToy.name(), "gsm-toy");
    assert_eq!(s[0].name, "gsm-toy-01");
    assert_eq!(s[4].name, "gsm-toy-05");
}

#[test]
fn samples_contain_reasoning_markers() {
    for sample in gsm_samples() {
        let n = sample.steps.iter().filter(|s| matches!(s.token_kind, TokenKind::ReasoningMarker)).count();
        assert!(n > 0, "every sample must exercise the reasoning path");
    }
}

#[test]
fn samples_are_deterministic() {
    assert_eq!(gsm_samples(), gsm_samples());
}

#[test]
fn step_outline_values() {
    let o = GsmToy.step_outline(2, 0, 64);
    assert_eq!(o.token_id, 2000);
    assert_eq!(o.token_kind, TokenKind::Content);
    assert_eq!(o.chain_phase, ChainPhase::Early);
    assert_eq!(o.osc_milli, 2u32.wrapping_mul(2654435761) % 1000);
    assert_eq!(GsmToy.step_outline(0, 3, 64).token_kind, TokenKind::ReasoningMarker);
    assert_eq!(GsmToy.step_outline(0, 5, 64).token_kind, TokenKind::Formatting);
    assert_eq!(GsmToy.step_outline(0, 6, 64).token_kind, TokenKind::Punctuation);
    assert_eq!(GsmToy.step_outline(0, 10, 64).token_kind, TokenKind::CommonWord);
    assert_eq!(GsmToy.step_outline(0, 61, 64).chain_phase, ChainPhase::Middle);
    assert_eq!(GsmToy.step_outline(0, 62, 64).chain_phase, ChainPhase::Ending);
}

#[test]
fn runner_emits_one_trace_per_step() {
    let shape = ModelShape::qwen3_30b_a3b();
    let runner = BenchRunner::new(shape, 12_000, 1, 42);
    let samples = gsm_samples();
    let expected: usize = samples.iter().map(|s| s.steps.len()).sum();
    let traces = runner.run(HeuristicProfiler::new(shape.n_layers), NgramBranchPredictor::new(8), &samples);
    assert_eq!(traces.len(), expected);
    for (i, t) in traces.iter().enumerate() {
        assert!(validate(t).is_ok());
        assert_eq!(t.position, i as u32);
    }
}

#[test]
fn m1_1_exit_criterion() {
    let shape = ModelShape::qwen3_30b_a3b();
    let runner = BenchRunner::new(shape, 12_000, 1, 42);
    let samples = gsm_samples();
    let oracle = runner.run(OracleProfiler::new(shape.n_layers), OraclePredictor, &samples);
    let adaptive = runner.run(HeuristicProfiler::new(shape.n_layers), NgramBranchPredictor::new(8), &samples);
    assert!(!oracle.is_empty(), "oracle produced traces");
    assert_eq!(oracle.len(), adaptive.len(), "same input → same trace count");
    for t in oracle.iter().chain(adaptive.iter()) {
        assert!(validate(t).is_ok(), "I8: every emitted trace must validate");
        assert!(t.vram_usage_mb <= 12_000, "I7: budget respected");
    }
    let c = PlanDivergence.count(&oracle, &adaptive);
    let value = c.mismatches as f64 / c.samples as f64;
    assert!(value <= 0.02, "M1.1 gate: divergence {} > 2%", value);
    let totals = aggregate(&adaptive);
    assert_eq!(totals.tokens, adaptive.len());
}

struct BadProfiler;
impl CognitiveProfiler for BadProfiler {
    fn decision_for(&self, _: TokenContext) -> DecisionView {
        unreachable!()
    }

    fn predict(&self, _: &TokenContext) -> ComputeDecision {
        ComputeDecision {
            difficulty: DifficultyClass::Trivial,
            target_depth: 1,
            precision_per_group: vec![PrecisionTier::Q2],
            head_budget: 4,
            burst: false,
            chain_phase: ChainPhase::NotReasoning,
        }
    }
}

#[test]
fn manufactured_drift_blows_the_gate() {
    let shape = ModelShape::qwen3_30b_a3b();
    let runner = BenchRunner::new(shape, 12_000, 7, 42);
    let samples = gsm_samples();
    let oracle = runner.run(OracleProfiler::new(shape.n_layers), OraclePredictor, &samples);
    let bad = runner.run(BadProfiler, NgramBranchPredictor::new(8), &samples);
    let c = PlanDivergence.count(&oracle, &bad);
    let value = c.mismatches as f64 / c.samples as f64;
    assert!(value > 0.02, "expected drift > 2% gate, got {} (this gate would silently let regressions ship)", value);
    assert_eq!(c.mismatches, c.samples);
}

#[test]
fn identical_traces_score_zero() {
    let xs: Vec<_> = (0..10).map(sample_trace).collect();
    let s = PlanDivergence.count(&xs, &xs);
    assert_eq!(s.mismatches, 0);
    assert_eq!(s.samples, 10);
}

#[test]
fn fully_diverged_scores_one() {
    let oracle: Vec<_> = (0..4).map(sample_trace).collect();
    let mut adaptive = oracle.clone();
    for t in &mut adaptive {
        t.profiler_decision.target_depth = 1;
    }
    let s = PlanDivergence.count(&oracle, &adaptive);
    assert_eq!(s.mismatches as f64 / s.samples as f64, 1.0);
}

#[test]
fn empty_inputs_score_zero_samples() {
    let s = PlanDivergence.count(&[], &[]);
    assert_eq!(s.samples, 0);
    assert_eq!(s.mismatches, 0);
    assert_eq!(PlanDivergence.name(), "plan-divergence");
}

#[test]
fn divergence_counts_the_shorter_run_and_each_kind_of_difference() {
    let a: Vec<_> = (0..5).map(sample_trace).collect();
    let mut b: Vec<_> = (0..3).map(sample_trace).collect();
    b[0].profiler_decision.difficulty = DifficultyClass::Trivial;
    b[2].precision_plan = vec![PrecisionTier::Q4, PrecisionTier::Q2];
    b[1].profiler_decision.burst = true; // informational only
    let s = PlanDivergence.count(&a, &b);
    assert_eq!(s.samples, 3);
    assert_eq!(s.mismatches, 2);
}

#[test]
fn empty_traces_produce_zero_report() {
    let r = aggregate(&[]);
    assert_eq!(r.tokens, 0);
    assert_eq!(r.sim_us_total, 0);
    assert!(r.sorted_totals.is_empty());
    assert_eq!(r.peak_vram_mb, 0);
}

#[test]
fn report_aggregates_total_us_correctly() {
    let xs: Vec<_> = (0..10).map(sample_trace).collect();
    let r = aggregate(&xs);
    assert_eq!(r.tokens, 10);
    assert_eq!(r.sim_us_total, 10 * 100);
}

#[test]
fn aggregate_sorts_and_takes_maxima() {
    let mut xs: Vec<_> = (0..4).map(sample_trace).collect();
    xs[0].latency.total_us = 300;
    xs[1].latency.total_us = 50;
    xs[2].latency.stall_us = 40;
    xs[3].vram_usage_mb = 11500;
    xs[1].fallback_level = 2;
    let r = aggregate(&xs);
    assert_eq!(r.sorted_totals, vec![50, 100, 100, 300]);
    assert_eq!(r.sim_us_total, 550);
    assert_eq!(r.stall_us_total, 5 + 5 + 40 + 5);
    assert_eq!(r.peak_vram_mb, 11500);
    assert_eq!(r.fallback_level_max, 2);
}

#[test]
fn replay_counts_all_tokens() {
    let traces: Vec<TokenTrace> = (0..10).map(sample_trace).collect();
    let mut p = NgramBranchPredictor::new(4);
    let r = replay(&traces, &mut p);
    assert_eq!(r.tokens, 10);
    assert!(r.hits <= r.tokens);
}

#[test]
fn replay_hits_once_a_pattern_is_learned() {
    // every trace predicted [1, 2] and saw [1, 2]: the first replay token misses
    // (nothing learned yet), every later one hits
    let traces: Vec<TokenTrace> = (0..6).map(sample_trace).collect();
    let mut p = NgramBranchPredictor::new(4);
    let r = replay(&traces, &mut p);
    assert_eq!(r.tokens, 6);
    assert_eq!(r.hits, 5);
    let mut o = OraclePredictor;
    assert_eq!(replay(&traces, &mut o).hits, 0);
}
