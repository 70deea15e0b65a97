use vstd::prelude::*;
use crate::context::{RoutingContext, RoutingContextView, TokenContext};
use crate::control::{ChainPhase, MarginBand, TokenKind};
use crate::decision::copy_experts;
use crate::plan::ModelShape;
use crate::scheduler::{
    lemma_step_trace_validates, planned, step_ok, step_trace, FallbackController, Scheduler,
};
use crate::sim::backend::{
    lemma_execute_respects_budget, lemma_sim_step_ok, simulable, valid_state, SimBackend, VramState,
};
use crate::telemetry::{trace_verdict, TokenTrace, TraceError, TraceView};
use crate::traits::{names_precision, BranchPredictor, CognitiveProfiler, ExecutionBackend};

verus! {

/// One step of a bench sample: what a real decoder would see for a token, without a
/// model. The margin is read through its band; margin and entropy are carried as the
/// bit patterns of their 32-bit floats.
#[derive(Clone, Copy, Debug, PartialEq, Eq, Structural)]
pub struct SampleStep {
    pub token_id: u32,
    pub token_kind: TokenKind,
    pub chain_phase: ChainPhase,
    pub margin_band: MarginBand,
    pub recent_logit_margin_bits: u32,
    pub recent_entropy_bits: u32,
}

/// A bench input: a named sequence of steps fed to the scheduler.
#[derive(Clone, Debug, PartialEq, Eq)]
pub struct BenchSample {
    pub name: &'static str,
    pub steps: Vec<SampleStep>,
}

/// Runs samples through a fresh scheduler on a fresh simulated backend.
pub struct BenchRunner {
    pub shape: ModelShape,
    pub vram_budget_mb: u32,
    pub run_id: u128,
    pub model_id: u64,
}

/// Every step of every sample, in order.
pub open spec fn all_steps(samples: Seq<BenchSample>) -> Seq<SampleStep> {
    samples.map_values(|s: BenchSample| s.steps@).flatten()
}

/// The token context of a step at a position of the run.
pub open spec fn step_context(step: SampleStep, position: u32) -> TokenContext {
    TokenContext {
        token_id: step.token_id,
        position,
        margin_band: step.margin_band,
        recent_logit_margin_bits: step.recent_logit_margin_bits,
        recent_entropy_bits: step.recent_entropy_bits,
        token_kind: step.token_kind,
        chain_phase: step.chain_phase,
    }
}

/// Where a bench run has got to: whether every step so far could run, the
/// predictor's and the backend's states, the actual experts of the last token, and
/// the traces so far.
pub struct BenchState<V> {
    pub ok: bool,
    pub predictor: V,
    pub vram: VramState,
    pub recent: Seq<u16>,
    pub traces: Seq<TraceView>,
}

/// The bench run of `steps`: step `i` runs at position `i`, with the previous
/// token's actual experts as its routing context, at fallback level 0.
pub open spec fn bench_run<P: CognitiveProfiler, B: BranchPredictor>(
    runner: BenchRunner,
    profiler: P,
    predictor: B::V,
    steps: Seq<SampleStep>,
) -> BenchState<B::V>
    decreases steps.len(),
{
    if steps.len() == 0 {
        BenchState {
            ok: true,
            predictor,
            vram: VramState {
                resident: Seq::empty(),
                budget: (runner.vram_budget_mb as u64 * 1_000_000) as u64,
            },
            recent: Seq::empty(),
            traces: Seq::empty(),
        }
    } else {
        let prev = bench_run::<P, B>(runner, profiler, predictor, steps.drop_last());
        let position = (steps.len() - 1) as u32;
        let tctx = step_context(steps.last(), position);
        let rctx = RoutingContextView { position, recent_experts: prev.recent };
        let decision = profiler.decision_for(tctx);
        let prediction = B::prediction_for(prev.predictor, rctx);
        let plan = planned(tctx, decision, prediction, runner.shape, 0);
        let outcome = SimBackend::outcome(prev.vram, plan, runner.shape);
        BenchState {
            ok: prev.ok && step_ok::<P, B, SimBackend>(
                profiler,
                prev.predictor,
                tctx,
                rctx,
                runner.shape,
                prev.vram,
                0,
            ),
            predictor: B::learned(prev.predictor, prediction, outcome.actual),
            vram: SimBackend::after(prev.vram, plan, runner.shape),
            recent: outcome.actual.experts.flatten(),
            traces: prev.traces.push(
                step_trace(runner.model_id, runner.run_id, tctx, decision, prediction, outcome, 0),
            ),
        }
    }
}

/// Run law: on a model the simulator can run, with any predictor and a profiler
/// that names a precision for every token, every step of a bench run runs.
pub proof fn lemma_bench_run_ok<P: CognitiveProfiler, B: BranchPredictor>(
    runner: BenchRunner,
    profiler: P,
    predictor: B::V,
    steps: Seq<SampleStep>,
)
    requires
        simulable(runner.shape),
        names_precision(profiler),
    ensures
        bench_run::<P, B>(runner, profiler, predictor, steps).ok,
    decreases steps.len(),
{
    if steps.len() > 0 {
        lemma_bench_run_ok::<P, B>(runner, profiler, predictor, steps.drop_last());
        let prev = bench_run::<P, B>(runner, profiler, predictor, steps.drop_last());
        let position = (steps.len() - 1) as u32;
        let tctx = step_context(steps.last(), position);
        let rctx = RoutingContextView { position, recent_experts: prev.recent };
        assert(profiler.decision_for(tctx).precision_per_group.len() > 0);
        lemma_sim_step_ok::<P, B>(profiler, prev.predictor, tctx, rctx, runner.shape, prev.vram, 0);
    }
}

proof fn lemma_bench_ok_prefix<P: CognitiveProfiler, B: BranchPredictor>(
    runner: BenchRunner,
    profiler: P,
    predictor: B::V,
    steps: Seq<SampleStep>,
    i: int,
)
    requires
        0 <= i <= steps.len(),
        bench_run::<P, B>(runner, profiler, predictor, steps).ok,
    ensures
        bench_run::<P, B>(runner, profiler, predictor, steps.take(i)).ok,
    decreases steps.len() - i,
{
    if i < steps.len() {
        lemma_bench_ok_prefix::<P, B>(runner, profiler, predictor, steps, i + 1);
        assert(steps.take(i + 1).drop_last() =~= steps.take(i));
    } else {
        assert(steps.take(i) =~= steps);
    }
}

/// Every step of every sample, copied out in order.
fn collect_steps(samples: &[BenchSample]) -> (out: Vec<SampleStep>)
    ensures
        out@ == all_steps(samples@),
{
    let mut out: Vec<SampleStep> = Vec::new();
    let mut i: usize = 0;
    while i < samples.len()
        invariant
            i <= samples.len(),
            out@ == samples@.take(i as int).map_values(|s: BenchSample| s.steps@).flatten(),
        decreases samples.len() - i,
    {
        let steps = &samples[i].steps;
        let ghost before = out@;
        let mut j: usize = 0;
        while j < steps.len()
            invariant
                j <= steps.len(),
                out@ == before + steps@.take(j as int),
            decreases steps.len() - j,
        {
            out.push(steps[j]);
            j = j + 1;
            assert(out@ =~= before + steps@.take(j as int));
        }
        proof {
            let sv = samples@.map_values(|s: BenchSample| s.steps@);
            assert(steps@.take(steps.len() as int) =~= steps@);
            assert(samples@.take(i as int + 1).map_values(|s: BenchSample| s.steps@) =~= samples@.take(
                i as int,
            ).map_values(|s: BenchSample| s.steps@).push(steps@));
            samples@.take(i as int).map_values(|s: BenchSample| s.steps@).lemma_flatten_push(steps@);
        }
        i = i + 1;
    }
    assert(samples@.take(samples.len() as int) =~= samples@);
    out
}

impl BenchRunner {
    pub fn new(shape: ModelShape, vram_budget_mb: u32, run_id: u128, model_id: u64) -> (r: Self)
        ensures
            r.shape == shape,
            r.vram_budget_mb == vram_budget_mb,
            r.run_id == run_id,
            r.model_id == model_id,
    {
        BenchRunner { shape, vram_budget_mb, run_id, model_id }
    }

    /// Run every step of every sample, in order, through a scheduler built from
    /// `profiler` and `predictor` on a fresh simulated backend with no fallback; one
    /// trace per step. Each token's routing context is the previous token's actual
    /// experts, and positions count up from 0 across samples.
    pub fn run<P: CognitiveProfiler, B: BranchPredictor>(
        &self,
        profiler: P,
        predictor: B,
        samples: &[BenchSample],
    ) -> (out: Vec<TokenTrace>)
        requires
            all_steps(samples@).len() <= u32::MAX,
            bench_run::<P, B>(*self, profiler, predictor@, all_steps(samples@)).ok,
        ensures
            out@.map_values(|t: TokenTrace| t@) == bench_run::<P, B>(
                *self,
                profiler,
                predictor@,
                all_steps(samples@),
            ).traces,
    {
        let ghost pv0 = predictor@;
        let ghost prof = profiler;
        let steps = collect_steps(samples);
        let ghost all = steps@;
        let mut sched = Scheduler::new(profiler, predictor, self.run_id, self.model_id);
        let mut backend = SimBackend::new(self.vram_budget_mb);
        let fb = FallbackController::new();
        let mut out: Vec<TokenTrace> = Vec::new();
        let mut recent: Vec<u16> = Vec::new();
        let mut position: u32 = 0;
        let mut i: usize = 0;
        assert(out@.map_values(|t: TokenTrace| t@) =~= Seq::<TraceView>::empty());
        assert(all.take(0) =~= Seq::<SampleStep>::empty());
        while i < steps.len()
            invariant
                i <= steps.len(),
                steps@ == all,
                all.len() <= u32::MAX,
                position == i,
                fb.spec_level() == 0,
                sched.profiler == prof,
                sched.run_id == self.run_id,
                sched.model_id == self.model_id,
                bench_run::<P, B>(*self, prof, pv0, all).ok,
                ({
                    let st = bench_run::<P, B>(*self, prof, pv0, all.take(i as int));
                    &&& sched.predictor@ == st.predictor
                    &&& backend@ == st.vram
                    &&& recent@ == st.recent
                    &&& out@.map_values(|t: TokenTrace| t@) == st.traces
                }),
            decreases steps.len() - i,
        {
            let step = steps[i];
            let tctx = TokenContext {
                token_id: step.token_id,
                position,
                margin_band: step.margin_band,
                recent_logit_margin_bits: step.recent_logit_margin_bits,
                recent_entropy_bits: step.recent_entropy_bits,
                token_kind: step.token_kind,
                chain_phase: step.chain_phase,
            };
            let rctx = RoutingContext { position, recent_experts: copy_experts(&recent) };
            proof {
                lemma_bench_ok_prefix::<P, B>(*self, prof, pv0, all, i + 1);
                assert(all.take(i + 1).drop_last() =~= all.take(i as int));
                assert(all.take(i + 1).last() == step);
                assert(tctx == step_context(step, position));
            }
            let tr = sched.step(&tctx, &rctx, &self.shape, &mut backend, &fb);
            recent = copy_experts(&tr.actual_experts);
            let ghost prev_out = out@;
            out.push(tr);
            proof {
                assert(out@.map_values(|t: TokenTrace| t@) =~= prev_out.map_values(|t: TokenTrace| t@).push(tr@));
            }
            i = i + 1;
            position = position + 1;
        }
        assert(all.take(steps.len() as int) =~= all);
        out
    }
}

/// Run law: a bench run yields one trace per step; the trace of step `i` is at
/// position `i`, carries the step's token id and fallback level 0; and when every
/// step could run, every trace validates against its schema and reports no more
/// VRAM than the budget.
pub proof fn lemma_bench_run_traces<P: CognitiveProfiler, B: BranchPredictor>(
    runner: BenchRunner,
    profiler: P,
    predictor: B::V,
    steps: Seq<SampleStep>,
)
    requires
        steps.len() <= u32::MAX,
    ensures
        ({
            let st = bench_run::<P, B>(runner, profiler, predictor, steps);
            &&& st.traces.len() == steps.len()
            &&& valid_state(st.vram)
            &&& st.vram.budget == runner.vram_budget_mb as u64 * 1_000_000
            &&& forall|i: int|
                0 <= i < steps.len() ==> {
                    &&& (#[trigger] st.traces[i]).position == i
                    &&& st.traces[i].token_id == steps[i].token_id
                    &&& st.traces[i].fallback_level == 0
                    &&& st.traces[i].vram_usage_mb as int * 1_000_000 <= runner.vram_budget_mb as int
                        * 1_000_000
                }
            &&& st.ok ==> forall|i: int|
                0 <= i < steps.len() ==> trace_verdict(
                    (#[trigger] st.traces[i]).schema_version,
                    st.traces[i].latency,
                ) == Ok::<(), TraceError>(())
        }),
    decreases steps.len(),
{
    if steps.len() > 0 {
        let init = steps.drop_last();
        lemma_bench_run_traces::<P, B>(runner, profiler, predictor, init);
        let prev = bench_run::<P, B>(runner, profiler, predictor, init);
        let position = (steps.len() - 1) as u32;
        let tctx = step_context(steps.last(), position);
        let rctx = RoutingContextView { position, recent_experts: prev.recent };
        let decision = profiler.decision_for(tctx);
        let prediction = B::prediction_for(prev.predictor, rctx);
        let plan = planned(tctx, decision, prediction, runner.shape, 0);
        lemma_execute_respects_budget(prev.vram, plan, runner.shape);
        let outcome = SimBackend::outcome(prev.vram, plan, runner.shape);
        let st = bench_run::<P, B>(runner, profiler, predictor, steps);
        if st.ok {
            lemma_step_trace_validates(
                runner.model_id,
                runner.run_id,
                tctx,
                decision,
                prediction,
                outcome,
                0,
            );
        }
        assert forall|i: int| 0 <= i < steps.len() - 1 implies st.traces[i] == prev.traces[i]
            && steps[i] == init[i] by {}
    } else {
        assert(valid_state(bench_run::<P, B>(runner, profiler, predictor, steps).vram));
    }
}

/// Context law: in a bench run, step `i` is predicted at position `i` from the
/// predictor's state after the earlier steps, with the routing context of the
/// previous token's actual experts (as its trace records them), or no experts for
/// the first token; the trace records that prediction.
pub proof fn lemma_bench_context<P: CognitiveProfiler, B: BranchPredictor>(
    runner: BenchRunner,
    profiler: P,
    predictor: B::V,
    steps: Seq<SampleStep>,
)
    requires
        0 < steps.len() <= u32::MAX,
    ensures
        ({
            let i = steps.len() - 1;
            let prev = bench_run::<P, B>(runner, profiler, predictor, steps.drop_last());
            let st = bench_run::<P, B>(runner, profiler, predictor, steps);
            let recent = if i == 0 {
                Seq::<u16>::empty()
            } else {
                prev.traces[i - 1].actual_experts
            };
            &&& st.traces[i].position == i
            &&& st.traces[i].predicted_experts == B::prediction_for(
                prev.predictor,
                RoutingContextView { position: i as u32, recent_experts: recent },
            ).experts.flatten()
        }),
{
    let init = steps.drop_last();
    lemma_bench_run_traces::<P, B>(runner, profiler, predictor, init);
    if init.len() > 0 {
        let prev = bench_run::<P, B>(runner, profiler, predictor, init);
        let pprev = bench_run::<P, B>(runner, profiler, predictor, init.drop_last());
        assert(prev.traces[init.len() - 1] == prev.traces.last());
    }
}

} // verus!
