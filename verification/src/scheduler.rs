use vstd::prelude::*;
use crate::context::{ExecTelemetry, OutcomeView, RoutingContext, RoutingContextView, TokenContext};
use crate::control::{bit_of, lemma_all_heads, low_mask, Device, HeadMask, PrecisionTier};
use crate::decision::{flatten_experts, copy_experts, DecisionView, PredictionView};
use crate::plan::{BindingView, ExecPlan, ExpertBinding, LayerOp, LayerOpView, ModelShape, PlanView};
use crate::telemetry::{trace_verdict, LatencyBreakdown, TokenTrace, TraceError, TraceView, SCHEMA_VERSION};
use crate::traits::{BranchPredictor, CognitiveProfiler, ExecutionBackend};

verus! {

/// An anomaly that makes the scheduler fall back towards the baseline.
#[derive(Clone, Copy, Debug, PartialEq, Eq, Structural)]
pub enum Anomaly {
    ReasoningCollapse,
    NbpFloorBreach,
    KvIntegrity,
    VramPressure,
    KernelNaN,
}

/// The fallback level an anomaly asks for.
pub open spec fn anomaly_step(a: Anomaly) -> u8 {
    match a {
        Anomaly::NbpFloorBreach => 2,
        Anomaly::ReasoningCollapse => 1,
        Anomaly::KvIntegrity => 1,
        Anomaly::VramPressure => 1,
        Anomaly::KernelNaN => 3,
    }
}

/// The level after an anomaly: the higher of the current level and the one the
/// anomaly asks for, capped at 3.
pub open spec fn next_level(level: u8, a: Anomaly) -> u8 {
    let m = if level >= anomaly_step(a) { level } else { anomaly_step(a) };
    if m <= 3 { m } else { 3 }
}

/// The level after a sequence of anomalies.
pub open spec fn level_after(level: u8, anomalies: Seq<Anomaly>) -> u8
    decreases anomalies.len(),
{
    if anomalies.len() == 0 {
        level
    } else {
        next_level(level_after(level, anomalies.drop_last()), anomalies.last())
    }
}

/// Graded fallback. Levels go from 0 (full adaptive) to 3 (pure baseline).
pub struct FallbackController {
    level: u8,
}

impl FallbackController {
    #[verifier::type_invariant]
    spec fn level_in_range(self) -> bool {
        self.level <= 3
    }

    /// The current level, as a spec value.
    pub closed spec fn spec_level(self) -> u8 {
        self.level
    }

    /// A controller at level 0.
    pub fn new() -> (f: Self)
        ensures
            f.spec_level() == 0,
    {
        FallbackController { level: 0 }
    }

    /// The current level.
    pub fn level(&self) -> (l: u8)
        ensures
            l == self.spec_level(),
            l <= 3,
    {
        proof {
            use_type_invariant(self);
        }
        self.level
    }

    /// Escalate for an anomaly; the level never goes down and never passes 3.
    pub fn on_anomaly(&mut self, a: Anomaly)
        ensures
            final(self).spec_level() == next_level(old(self).spec_level(), a),
            old(self).spec_level() <= final(self).spec_level() <= 3,
    {
        proof {
            use_type_invariant(&*self);
        }
        let step: u8 = match a {
            Anomaly::NbpFloorBreach => 2,
            Anomaly::ReasoningCollapse => 1,
            Anomaly::KvIntegrity | Anomaly::VramPressure => 1,
            Anomaly::KernelNaN => 3,
        };
        let m = if self.level >= step { self.level } else { step };
        self.level = if m <= 3 { m } else { 3 };
    }

    /// Whether the baseline (level 3) can still be reached; it always can.
    pub fn baseline_reachable(&self) -> (r: bool)
        ensures
            r,
            next_level(self.spec_level(), Anomaly::KernelNaN) == 3,
    {
        proof {
            use_type_invariant(self);
        }
        true
    }
}

impl Default for FallbackController {
    fn default() -> (f: Self)
        ensures
            f.spec_level() == 0,
    {
        Self::new()
    }
}

/// Whatever anomalies come, starting from level 0 the level stays within 0 ..= 3,
/// never goes down from one anomaly to the next, and a `KernelNaN` always brings it
/// to the baseline.
pub proof fn lemma_fallback_capped_monotone(anomalies: Seq<Anomaly>, i: int)
    requires
        0 <= i < anomalies.len(),
    ensures
        level_after(0, anomalies.take(i)) <= level_after(0, anomalies.take(i + 1)) <= 3,
        anomalies[i] == Anomaly::KernelNaN ==> level_after(0, anomalies.take(i + 1)) == 3,
{
    lemma_levels_capped(anomalies.take(i));
    assert(anomalies.take(i + 1).drop_last() =~= anomalies.take(i));
}

proof fn lemma_levels_capped(anomalies: Seq<Anomaly>)
    ensures
        level_after(0, anomalies) <= 3,
    decreases anomalies.len(),
{
    if anomalies.len() > 0 {
        lemma_levels_capped(anomalies.drop_last());
    }
}

/// The precision every layer runs at: Q4 from fallback level 1 on (dynamic
/// precision off), else the profiler's first group.
pub open spec fn plan_tier(decision: DecisionView, level: u8) -> PrecisionTier {
    if level >= 1 {
        PrecisionTier::Q4
    } else {
        decision.precision_per_group[0]
    }
}

/// The depth the plan runs to: the full model from fallback level 3 on (early exit
/// off), else the profiler's target; never more than the model has.
pub open spec fn plan_depth(decision: DecisionView, level: u8, shape: ModelShape) -> u16 {
    let d = if level >= 3 { shape.n_layers } else { decision.target_depth };
    if d <= shape.n_layers { d } else { shape.n_layers }
}

/// Layer `l` of a plan: all heads, the predicted experts resident, on the GPU.
pub open spec fn planned_op(l: int, tier: PrecisionTier, shape: ModelShape, predicted: Seq<u16>) -> LayerOpView {
    LayerOpView {
        layer_idx: l as u16,
        precision: tier,
        head_mask: HeadMask(low_mask(shape.n_heads)),
        experts: BindingView::Resident(predicted),
        device: Device::Gpu,
    }
}

/// The plan the scheduler builds for one token.
pub open spec fn planned(
    tctx: TokenContext,
    decision: DecisionView,
    prediction: PredictionView,
    shape: ModelShape,
    level: u8,
) -> PlanView {
    let depth = plan_depth(decision, level, shape);
    let tier = plan_tier(decision, level);
    let predicted = prediction.experts.flatten();
    PlanView {
        token_id: tctx.token_id,
        position: tctx.position,
        ops: Seq::new(depth as nat, |l: int| planned_op(l, tier, shape, predicted)),
        exit_after: depth,
        fallback_level: level,
    }
}

/// Sum of the timed parts a backend reports.
pub open spec fn reported_us(t: ExecTelemetry) -> int {
    t.prefetch_us + t.compute_us + t.stall_us + t.cpu_us
}

/// The trace of one scheduled token: what it was, what was decided and predicted,
/// what the backend reported (with a 1 µs sampling cost added to the total), and
/// the fallback level.
pub open spec fn step_trace(
    model_id: u64,
    run_id: u128,
    tctx: TokenContext,
    decision: DecisionView,
    prediction: PredictionView,
    outcome: OutcomeView,
    level: u8,
) -> TraceView {
    let tel = outcome.telemetry;
    TraceView {
        schema_version: SCHEMA_VERSION,
        model_id,
        run_id,
        token_id: tctx.token_id,
        position: tctx.position,
        chain_phase: decision.chain_phase,
        predicted_experts: prediction.experts.flatten(),
        actual_experts: outcome.actual.experts.flatten(),
        precision_plan: seq![plan_tier(decision, level)],
        profiler_decision: decision,
        latency: LatencyBreakdown {
            total_us: (reported_us(tel) + 1) as u32,
            prefetch_us: tel.prefetch_us,
            compute_us: tel.compute_us,
            stall_us: tel.stall_us,
            cpu_us: tel.cpu_us,
            sample_us: 1,
        },
        vram_usage_mb: tel.vram_mb,
        pcie_bytes: tel.pcie_bytes,
        kv_cache_bytes: tel.kv_bytes,
        energy_mj: tel.energy_mj,
        logits_entropy_bits: tctx.recent_entropy_bits,
        logit_margin_bits: tctx.recent_logit_margin_bits,
        fallback_level: level,
        deterministic: true,
    }
}

/// The condition under which one scheduler step runs without failing: the profiler
/// names a precision when fallback leaves it in charge, the heads fit in a mask when
/// a layer runs, the backend runs the plan, and its timings add up within 32 bits.
pub open spec fn step_ok<P: CognitiveProfiler, B: BranchPredictor, E: ExecutionBackend>(
    profiler: P,
    predictor: B::V,
    tctx: TokenContext,
    rctx: RoutingContextView,
    shape: ModelShape,
    backend: E::V,
    level: u8,
) -> bool {
    let decision = profiler.decision_for(tctx);
    let prediction = B::prediction_for(predictor, rctx);
    let plan = planned(tctx, decision, prediction, shape, level);
    &&& (level == 0 ==> decision.precision_per_group.len() > 0)
    &&& (plan_depth(decision, level, shape) == 0 || shape.n_heads <= 64)
    &&& E::runs(backend, plan, shape)
    &&& reported_us(E::outcome(backend, plan, shape).telemetry) + 1 <= u32::MAX
}

/// The adaptive scheduler: a profiler, a branch predictor, and the identifiers
/// written into every trace.
pub struct Scheduler<P, B> {
    pub profiler: P,
    pub predictor: B,
    pub run_id: u128,
    pub model_id: u64,
}

impl<P: CognitiveProfiler, B: BranchPredictor> Scheduler<P, B> {
    pub fn new(profiler: P, predictor: B, run_id: u128, model_id: u64) -> (s: Self)
        ensures
            s.profiler == profiler,
            s.predictor == predictor,
            s.run_id == run_id,
            s.model_id == model_id,
    {
        Scheduler { profiler, predictor, run_id, model_id }
    }

    /// One token through the whole pipeline: profile, predict, plan (with the
    /// fallback level gating precision and early exit), execute, learn, and trace.
    /// Deterministic given its inputs and the backend's state.
    pub fn step<E: ExecutionBackend>(
        &mut self,
        tctx: &TokenContext,
        rctx: &RoutingContext,
        shape: &ModelShape,
        backend: &mut E,
        fallback: &FallbackController,
    ) -> (t: TokenTrace)
        requires
            step_ok::<P, B, E>(
                old(self).profiler,
                old(self).predictor@,
                *tctx,
                rctx@,
                *shape,
                old(backend)@,
                fallback.spec_level(),
            ),
        ensures
            ({
                let decision = old(self).profiler.decision_for(*tctx);
                let prediction = B::prediction_for(old(self).predictor@, rctx@);
                let plan = planned(*tctx, decision, prediction, *shape, fallback.spec_level());
                let outcome = E::outcome(old(backend)@, plan, *shape);
                &&& t@ == step_trace(
                    old(self).model_id,
                    old(self).run_id,
                    *tctx,
                    decision,
                    prediction,
                    outcome,
                    fallback.spec_level(),
                )
                &&& final(backend)@ == E::after(old(backend)@, plan, *shape)
                &&& final(self).predictor@ == B::learned(
                    old(self).predictor@,
                    prediction,
                    outcome.actual,
                )
            }),
            final(self).profiler == old(self).profiler,
            final(self).run_id == old(self).run_id,
            final(self).model_id == old(self).model_id,
    {
        let decision = self.profiler.predict(tctx);
        let prediction = self.predictor.predict(rctx);
        let level = fallback.level();

        let tier = if level >= 1 { PrecisionTier::Q4 } else { decision.precision_per_group[0] };
        let full = if level >= 3 { shape.n_layers } else { decision.target_depth };
        let depth = if full <= shape.n_layers { full } else { shape.n_layers };

        let predicted_flat = flatten_experts(&prediction.experts_per_moe_layer);
        let ghost pv = planned(*tctx, decision@, prediction@, *shape, level);

        let mut ops: Vec<LayerOp> = Vec::new();
        let mut l: u16 = 0;
        while l < depth
            invariant
                l <= depth,
                depth == plan_depth(decision@, level, *shape),
                tier == plan_tier(decision@, level),
                depth == 0 || shape.n_heads <= 64,
                predicted_flat@ == prediction@.experts.flatten(),
                pv == planned(*tctx, decision@, prediction@, *shape, level),
                ops@.map_values(|o: LayerOp| o@) == pv.ops.take(l as int),
            decreases depth - l,
        {
            let op = LayerOp {
                layer_idx: l,
                precision: tier,
                head_mask: HeadMask::all(shape.n_heads),
                experts: ExpertBinding::Resident(copy_experts(&predicted_flat)),
                device: Device::Gpu,
            };
            let ghost prev = ops@;
            let ghost opv = op;
            ops.push(op);
            proof {
                assert(ops@ == prev.push(opv));
                assert(prev.map_values(|o: LayerOp| o@).len() == l);
                assert(prev.len() == l);
                assert(opv@ == planned_op(l as int, tier, *shape, predicted_flat@));
                assert(pv.ops.len() == depth);
                assert(pv.ops[l as int] == opv@);
                let mv = ops@.map_values(|o: LayerOp| o@);
                assert forall|k: int| 0 <= k < l + 1 implies mv[k] == pv.ops.take(l as int + 1)[k] by {
                    if k < l {
                        assert(mv[k] == prev.map_values(|o: LayerOp| o@)[k]);
                    }
                }
                assert(mv =~= pv.ops.take(l as int + 1));
            }
            l = l + 1;
        }

        let plan = ExecPlan {
            token_id: tctx.token_id,
            position: tctx.position,
            ops,
            exit_after: depth,
            fallback_level: level,
        };
        assert(plan@.ops =~= pv.ops);
        assert(plan@ == pv);

        let outcome = backend.execute(&plan, shape);
        self.predictor.update(&prediction, &outcome.actual);

        let actual_flat = flatten_experts(&outcome.actual.experts_per_moe_layer);
        let tel = outcome.telemetry;
        let total = tel.prefetch_us + tel.compute_us + tel.stall_us + tel.cpu_us + 1;
        let precision_plan = vec![tier];
        assert(precision_plan@ =~= seq![tier]);

        let t = TokenTrace {
            schema_version: SCHEMA_VERSION,
            model_id: self.model_id,
            run_id: self.run_id,
            token_id: tctx.token_id,
            position: tctx.position,
            chain_phase: decision.chain_phase,
            predicted_experts: predicted_flat,
            actual_experts: actual_flat,
            precision_plan,
            profiler_decision: decision,
            latency: LatencyBreakdown {
                total_us: total,
                prefetch_us: tel.prefetch_us,
                compute_us: tel.compute_us,
                stall_us: tel.stall_us,
                cpu_us: tel.cpu_us,
                sample_us: 1,
            },
            vram_usage_mb: tel.vram_mb,
            pcie_bytes: tel.pcie_bytes,
            kv_cache_bytes: tel.kv_bytes,
            energy_mj: tel.energy_mj,
            logits_entropy_bits: tctx.recent_entropy_bits,
            logit_margin_bits: tctx.recent_logit_margin_bits,
            fallback_level: level,
            deterministic: true,
        };
        assert(t@ =~= step_trace(
            self.model_id,
            self.run_id,
            *tctx,
            decision@,
            prediction@,
            outcome@,
            level,
        ));
        t
    }
}

/// Every trace a step emits validates against its declared schema version.
pub proof fn lemma_step_trace_validates(
    model_id: u64,
    run_id: u128,
    tctx: TokenContext,
    decision: DecisionView,
    prediction: PredictionView,
    outcome: OutcomeView,
    level: u8,
)
    requires
        reported_us(outcome.telemetry) + 1 <= u32::MAX,
    ensures
        ({
            let t = step_trace(model_id, run_id, tctx, decision, prediction, outcome, level);
            trace_verdict(t.schema_version, t.latency) == Ok::<(), TraceError>(())
        }),
{
}

/// Fallback gating: from level 1 on every layer runs at Q4 whatever the profiler
/// said; from level 3 on the plan runs the full model (no early exit); at level 0
/// the profiler's precision and depth (capped at the model) are used.
pub proof fn lemma_fallback_gating(
    tctx: TokenContext,
    decision: DecisionView,
    prediction: PredictionView,
    shape: ModelShape,
    level: u8,
)
    ensures
        ({
            let plan = planned(tctx, decision, prediction, shape, level);
            &&& level >= 1 ==> forall|i: int|
                0 <= i < plan.ops.len() ==> #[trigger] plan.ops[i].precision == PrecisionTier::Q4
            &&& level >= 3 ==> plan.exit_after == shape.n_layers && plan.ops.len() == shape.n_layers
            &&& level == 0 ==> forall|i: int|
                0 <= i < plan.ops.len() ==> #[trigger] plan.ops[i].precision
                    == decision.precision_per_group[0]
            &&& level < 3 ==> plan.exit_after == (if decision.target_depth <= shape.n_layers {
                decision.target_depth
            } else {
                shape.n_layers
            })
            &&& plan.ops.len() == plan.exit_after
            &&& plan.fallback_level == level
        }),
{
}

/// Plan law: the plan of a token carries its identity and fallback level, and its
/// layer `i` is layer `i` of the model, on the GPU, with exactly the model's heads
/// active, and bound to the experts the branch predictor named (all layers of the
/// prediction, flattened) so the backend can prefetch them.
pub proof fn lemma_plan_layers(
    tctx: TokenContext,
    decision: DecisionView,
    prediction: PredictionView,
    shape: ModelShape,
    level: u8,
)
    ensures
        ({
            let plan = planned(tctx, decision, prediction, shape, level);
            &&& plan.token_id == tctx.token_id
            &&& plan.position == tctx.position
            &&& plan.ops.len() <= shape.n_layers
            &&& forall|i: int|
                0 <= i < plan.ops.len() ==> {
                    &&& (#[trigger] plan.ops[i]).layer_idx == i
                    &&& plan.ops[i].experts == BindingView::Resident(prediction.experts.flatten())
                    &&& plan.ops[i].device == Device::Gpu
                }
            &&& shape.n_heads <= 64 ==> forall|i: int, h: nat|
                0 <= i < plan.ops.len() ==> (#[trigger] bit_of(plan.ops[i].head_mask.0, h) == 1
                    <==> h < shape.n_heads)
        }),
{
    let plan = planned(tctx, decision, prediction, shape, level);
    if shape.n_heads <= 64 {
        assert forall|i: int, h: nat|
            0 <= i < plan.ops.len() implies (#[trigger] bit_of(plan.ops[i].head_mask.0, h) == 1
                <==> h < shape.n_heads) by {
            lemma_all_heads(shape.n_heads, h);
        }
    }
}

/// Trace law: the trace of a step records the token, the profiler's decision and
/// its chain phase, the prediction and the actual routing (each flattened over
/// layers), the one precision every layer ran at, the backend's timings with their
/// sum plus the 1 µs sampling cost as the total, the backend's resource figures,
/// the token's entropy and margin, and the fallback level.
pub proof fn lemma_step_trace_records(
    model_id: u64,
    run_id: u128,
    tctx: TokenContext,
    decision: DecisionView,
    prediction: PredictionView,
    outcome: OutcomeView,
    level: u8,
)
    requires
        reported_us(outcome.telemetry) + 1 <= u32::MAX,
    ensures
        ({
            let t = step_trace(model_id, run_id, tctx, decision, prediction, outcome, level);
            let tel = outcome.telemetry;
            &&& t.model_id == model_id && t.run_id == run_id
            &&& t.token_id == tctx.token_id && t.position == tctx.position
            &&& t.chain_phase == decision.chain_phase && t.profiler_decision == decision
            &&& t.predicted_experts == prediction.experts.flatten()
            &&& t.actual_experts == outcome.actual.experts.flatten()
            &&& t.precision_plan.len() == 1
            &&& t.precision_plan[0] == (if level >= 1 {
                PrecisionTier::Q4
            } else {
                decision.precision_per_group[0]
            })
            &&& t.latency.total_us == tel.prefetch_us + tel.compute_us + tel.stall_us + tel.cpu_us + 1
            &&& t.latency.prefetch_us == tel.prefetch_us && t.latency.compute_us == tel.compute_us
            &&& t.latency.stall_us == tel.stall_us && t.latency.cpu_us == tel.cpu_us
            &&& t.latency.sample_us == 1
            &&& t.vram_usage_mb == tel.vram_mb && t.pcie_bytes == tel.pcie_bytes
            &&& t.kv_cache_bytes == tel.kv_bytes && t.energy_mj == tel.energy_mj
            &&& t.logits_entropy_bits == tctx.recent_entropy_bits
            &&& t.logit_margin_bits == tctx.recent_logit_margin_bits
            &&& t.fallback_level == level
            &&& t.deterministic
        }),
{
}

} // verus!
