use vstd::prelude::*;
use crate::context::{ExecOutcome, ExecTelemetry, OutcomeView};
use crate::decision::{nested_view, ActualRouting, RoutingView};
use crate::plan::{BindingView, ExecPlan, ExpertBinding, LayerOp, LayerOpView, ModelShape, PlanView};
use crate::sim::hw::{
    missing_count, residency_after, transfer_cost, FakeVram, LatencyModel, EXPERT_BYTES,
    LAYER_COMPUTE_US, STALL_US_PER_MISS,
};
use crate::sim::model::{routing, true_experts};
use crate::context::{RoutingContextView, TokenContext};
use crate::scheduler::{plan_depth, planned, reported_us, step_ok};
use crate::traits::{BranchPredictor, CognitiveProfiler, ExecutionBackend};

verus! {

/// What the simulator remembers between plans: the resident experts and the budget.
pub struct VramState {
    pub resident: Seq<u16>,
    pub budget: u64,
}

/// Where a simulated run has got to: the residency, the misses so far, and the
/// experts each executed MoE layer really routed to.
pub struct SimRun {
    pub resident: Seq<u16>,
    pub misses: nat,
    pub layers: Seq<Seq<u16>>,
}

/// The experts a binding asks to have resident, if any.
pub open spec fn prefetch_hint(b: BindingView) -> Option<Seq<u16>> {
    match b {
        BindingView::Dense => None,
        BindingView::Resident(es) => Some(es),
        BindingView::Stream { experts, .. } => Some(experts),
    }
}

/// One executed layer: honour the plan's prefetch hint, then make the layer's true
/// experts resident, counting their misses.
pub open spec fn run_layer(
    acc: SimRun,
    op: LayerOpView,
    position: u32,
    shape: ModelShape,
    budget: u64,
) -> SimRun {
    let r1 = match prefetch_hint(op.experts) {
        Some(es) => residency_after(acc.resident, es, budget),
        None => acc.resident,
    };
    let actual = routing(shape, op.layer_idx, position);
    if actual.len() > 0 {
        SimRun {
            resident: residency_after(r1, actual, budget),
            misses: acc.misses + missing_count(actual, r1),
            layers: acc.layers.push(actual),
        }
    } else {
        SimRun { resident: r1, misses: acc.misses, layers: acc.layers }
    }
}

/// Running the layers `ops` in order from `state`.
pub open spec fn run_layers(
    state: VramState,
    ops: Seq<LayerOpView>,
    position: u32,
    shape: ModelShape,
) -> SimRun
    decreases ops.len(),
{
    if ops.len() == 0 {
        SimRun { resident: state.resident, misses: 0, layers: Seq::empty() }
    } else {
        run_layer(run_layers(state, ops.drop_last(), position, shape), ops.last(), position, shape, state.budget)
    }
}

/// How many layers of a plan run: up to its exit layer, and no more than it has
/// (its count of layers taken modulo 2^16).
pub open spec fn executed_layers(plan: PlanView) -> u16 {
    let n = (plan.ops.len() % 65536) as u16;
    if plan.exit_after <= n {
        plan.exit_after
    } else {
        n
    }
}

/// The simulated run of a plan.
pub open spec fn sim_run(state: VramState, plan: PlanView, shape: ModelShape) -> SimRun {
    run_layers(state, plan.ops.take(executed_layers(plan) as int), plan.position, shape)
}

/// The telemetry of a simulated run of `layers` layers with `misses` misses, ending
/// with `resident` experts resident.
pub open spec fn sim_telemetry(layers: u16, misses: nat, resident: nat) -> ExecTelemetry {
    let compute = layers * LAYER_COMPUTE_US;
    let stall = misses * STALL_US_PER_MISS;
    ExecTelemetry {
        prefetch_us: transfer_cost(misses as u32) as u32,
        compute_us: compute as u32,
        stall_us: stall as u32,
        cpu_us: 0,
        vram_mb: (resident * EXPERT_BYTES / 1_000_000) as u32,
        pcie_bytes: (misses * EXPERT_BYTES) as u64,
        kv_bytes: 0,
        energy_mj: ((compute + stall) / 10) as u32,
    }
}

/// A simulated backend: fake VRAM with residency, and a fixed cost model.
pub struct SimBackend {
    vram: FakeVram,
}

impl View for SimBackend {
    type V = VramState;

    closed spec fn view(&self) -> VramState {
        VramState { resident: self.vram.resident_experts(), budget: self.vram.budget() }
    }
}

impl SimBackend {
    /// A backend with an empty VRAM of `budget_mb` megabytes.
    pub fn new(budget_mb: u32) -> (b: Self)
        ensures
            b@.resident == Seq::<u16>::empty(),
            b@.budget == budget_mb as u64 * 1_000_000,
    {
        SimBackend { vram: FakeVram::new(budget_mb) }
    }
}

impl ExecutionBackend for SimBackend {
    /// The run needs a feasible routing (no more experts per layer than there are)
    /// whenever a MoE layer runs, and its costs must fit in 32 bits.
    open spec fn runs(state: VramState, plan: PlanView, shape: ModelShape) -> bool {
        let m = sim_run(state, plan, shape).misses;
        let layers = executed_layers(plan);
        &&& (layers == 0 || shape.n_experts == 0 || shape.top_k <= shape.n_experts)
        &&& transfer_cost(m as u32) <= u32::MAX
        &&& m * STALL_US_PER_MISS <= u32::MAX
        &&& layers * LAYER_COMPUTE_US + m * STALL_US_PER_MISS <= u32::MAX
    }

    open spec fn outcome(state: VramState, plan: PlanView, shape: ModelShape) -> OutcomeView {
        let run = sim_run(state, plan, shape);
        let layers = executed_layers(plan);
        OutcomeView {
            actual: RoutingView { experts: run.layers, exit_layer: layers },
            telemetry: sim_telemetry(layers, run.misses, run.resident.len()),
        }
    }

    open spec fn after(state: VramState, plan: PlanView, shape: ModelShape) -> VramState {
        VramState { resident: sim_run(state, plan, shape).resident, budget: state.budget }
    }

    /// Runs the first `exit_after` layers (at most all of them): each layer's prefetch
    /// hint is made resident, then the experts the layer truly routes to, whose misses
    /// are counted and priced by the cost model.
    fn execute(&mut self, plan: &ExecPlan, shape: &ModelShape) -> (o: ExecOutcome) {
        let ghost st0 = self@;
        let ghost pv = plan@;
        let n16 = (plan.ops.len() % 65536) as u16;
        let executed: u16 = if plan.exit_after <= n16 { plan.exit_after } else { n16 };
        assert(executed == executed_layers(pv));
        let ghost ops = pv.ops.take(executed as int);
        let mut total_misses: u32 = 0;
        let mut experts_per_layer: Vec<Vec<u16>> = Vec::new();
        let mut i: usize = 0;
        while i < executed as usize
            invariant
                i <= executed,
                executed <= plan.ops@.len(),
                pv == plan@,
                ops == pv.ops.take(executed as int),
                executed == 0 || shape.n_experts == 0 || shape.top_k <= shape.n_experts,
                self.vram.budget() == st0.budget,
                self.vram.resident_experts() == run_layers(st0, ops.take(i as int), pv.position, *shape).resident,
                total_misses == run_layers(st0, ops.take(i as int), pv.position, *shape).misses,
                nested_view(experts_per_layer) == run_layers(st0, ops.take(i as int), pv.position, *shape).layers,
                total_misses <= i * shape.top_k,
            decreases executed - i,
        {
            let op = &plan.ops[i];
            assert(op@ == ops[i as int]);
            let (m, actual) = run_one_layer(&mut self.vram, op, plan.position, shape);
            assert(total_misses + m <= (i + 1) * shape.top_k) by (nonlinear_arith)
                requires
                    total_misses <= i * shape.top_k,
                    m <= shape.top_k,
            ;
            assert((i + 1) * shape.top_k <= 65535 * 65535) by (nonlinear_arith)
                requires
                    i + 1 <= 65535,
                    shape.top_k <= 65535,
            ;
            total_misses = total_misses + m;
            if actual.len() > 0 {
                let ghost prev = experts_per_layer@;
                experts_per_layer.push(actual);
                assert(nested_view(experts_per_layer) =~= prev.map_values(|x: Vec<u16>| x@).push(
                    actual@,
                ));
            }
            proof {
                assert(ops.take(i as int + 1).drop_last() =~= ops.take(i as int));
                assert(ops.take(i as int + 1).last() == ops[i as int]);
            }
            i = i + 1;
        }
        assert(ops.take(executed as int) =~= ops);
        let compute = LatencyModel::compute_us(executed);
        let prefetch = LatencyModel::transfer_us(total_misses);
        let stall = LatencyModel::stall_us(total_misses);
        let vram_mb = self.vram.used_mb();
        ExecOutcome {
            actual: ActualRouting { experts_per_moe_layer: experts_per_layer, exit_layer: executed },
            telemetry: ExecTelemetry {
                prefetch_us: prefetch,
                compute_us: compute,
                stall_us: stall,
                cpu_us: 0,
                vram_mb,
                pcie_bytes: total_misses as u64 * EXPERT_BYTES,
                kv_bytes: 0,
                energy_mj: (compute + stall) / 10,
            },
        }
    }
}

/// One layer on the simulated VRAM: its prefetch hint, then its true experts.
/// Returns the misses of the true experts and the true experts.
fn run_one_layer(vram: &mut FakeVram, op: &LayerOp, position: u32, shape: &ModelShape) -> (r: (u32, Vec<u16>))
    requires
        shape.n_experts == 0 || shape.top_k <= shape.n_experts,
    ensures
        ({
            let acc = SimRun { resident: old(vram).resident_experts(), misses: 0, layers: Seq::empty() };
            let next = run_layer(acc, op@, position, *shape, old(vram).budget());
            &&& final(vram).resident_experts() == next.resident
            &&& r.0 == next.misses
            &&& r.1@ == routing(*shape, op.layer_idx, position)
            &&& (r.1@.len() > 0 ==> next.layers == seq![r.1@])
            &&& (r.1@.len() == 0 ==> next.layers == Seq::<Seq<u16>>::empty())
        }),
        final(vram).budget() == old(vram).budget(),
        r.0 <= shape.top_k,
{
    match &op.experts {
        ExpertBinding::Resident(es) => {
            vram.ensure_resident(es.as_slice());
        },
        ExpertBinding::Stream { experts: es, .. } => {
            vram.ensure_resident(es.as_slice());
        },
        ExpertBinding::Dense => {},
    }
    let ghost r1 = vram.resident_experts();
    proof {
        let hint = prefetch_hint(op@.experts);
        match op.experts {
            ExpertBinding::Dense => {
                assert(r1 == old(vram).resident_experts());
            },
            _ => {},
        }
        assert(r1 == match hint {
            Some(es) => residency_after(old(vram).resident_experts(), es, old(vram).budget()),
            None => old(vram).resident_experts(),
        });
    }
    let actual = true_experts(shape, op.layer_idx, position);
    if actual.len() > 0 {
        let m = vram.ensure_resident(actual.as_slice());
        proof {
            crate::sim::hw::lemma_missing_count_le(actual@, r1);
            assert(Seq::<Seq<u16>>::empty().push(actual@) =~= seq![actual@]);
        }
        (m, actual)
    } else {
        (0, actual)
    }
}

/// Ids below `n` only.
pub open spec fn all_below(s: Seq<u16>, n: u16) -> bool {
    forall|i: int| 0 <= i < s.len() ==> s[i] < n
}

/// Every prefetch hint of `ops` names ids below `n` only.
pub open spec fn hints_below(ops: Seq<LayerOpView>, n: u16) -> bool {
    forall|i: int|
        0 <= i < ops.len() ==> match #[trigger] prefetch_hint(ops[i].experts) {
            Some(es) => all_below(es, n),
            None => true,
        }
}

/// A residency this backend can be in: sorted and within its budget.
pub open spec fn valid_state(state: VramState) -> bool {
    crate::sim::hw::strictly_sorted(state.resident) && state.resident.len() * EXPERT_BYTES
        <= state.budget
}

proof fn lemma_run_layers_valid(state: VramState, ops: Seq<LayerOpView>, position: u32, shape: ModelShape)
    requires
        valid_state(state),
    ensures
        valid_state(VramState { resident: run_layers(state, ops, position, shape).resident, budget: state.budget }),
    decreases ops.len(),
{
    if ops.len() > 0 {
        lemma_run_layers_valid(state, ops.drop_last(), position, shape);
        let acc = run_layers(state, ops.drop_last(), position, shape);
        let op = ops.last();
        match prefetch_hint(op.experts) {
            Some(es) => {
                crate::sim::hw::lemma_residency(acc.resident, es, state.budget);
                let r1 = residency_after(acc.resident, es, state.budget);
                crate::sim::hw::lemma_residency(r1, routing(shape, op.layer_idx, position), state.budget);
            },
            None => {
                crate::sim::hw::lemma_residency(acc.resident, routing(shape, op.layer_idx, position), state.budget);
            },
        }
    }
}

/// Budget law: from a valid residency, running any plan leaves a valid residency,
/// so the VRAM the backend reports never exceeds its budget.
pub proof fn lemma_execute_respects_budget(state: VramState, plan: PlanView, shape: ModelShape)
    requires
        valid_state(state),
    ensures
        valid_state(SimBackend::after(state, plan, shape)),
        SimBackend::outcome(state, plan, shape).telemetry.vram_mb as int * 1_000_000 <= state.budget,
{
    let ops = plan.ops.take(executed_layers(plan) as int);
    lemma_run_layers_valid(state, ops, plan.position, shape);
    let n = sim_run(state, plan, shape).resident.len();
    assert((n * EXPERT_BYTES / 1_000_000) * 1_000_000 <= n * EXPERT_BYTES) by (nonlinear_arith);
}

proof fn lemma_sorted_below_len(s: Seq<u16>, n: u16)
    requires
        crate::sim::hw::strictly_sorted(s),
        all_below(s, n),
    ensures
        s.len() <= n,
{
    if s.len() > 0 {
        crate::sim::hw::lemma_sorted_len(s);
        lemma_sorted_index_bound(s, s.len() - 1);
    }
}

proof fn lemma_sorted_index_bound(s: Seq<u16>, i: int)
    requires
        crate::sim::hw::strictly_sorted(s),
        0 <= i < s.len(),
    ensures
        s[i] >= i,
    decreases i,
{
    if i > 0 {
        lemma_sorted_index_bound(s, i - 1);
    }
}

/// When every id involved is below `n` and `n` experts fit in the budget, making
/// experts resident evicts nothing: it only adds them.
proof fn lemma_no_eviction(s: Seq<u16>, es: Seq<u16>, budget: u64, n: u16)
    requires
        crate::sim::hw::strictly_sorted(s),
        all_below(s, n),
        all_below(es, n),
        n * EXPERT_BYTES <= budget,
    ensures
        crate::sim::hw::strictly_sorted(residency_after(s, es, budget)),
        all_below(residency_after(s, es, budget), n),
        forall|x: u16| residency_after(s, es, budget).contains(x) <==> (s.contains(x) || es.contains(x)),
{
    crate::sim::hw::lemma_insert_all(s, es);
    let u = crate::sim::hw::insert_all(s, es);
    assert(all_below(u, n)) by {
        assert forall|i: int| 0 <= i < u.len() implies u[i] < n by {
            assert(u.contains(u[i]));
            if s.contains(u[i]) {
                let k = choose|k: int| 0 <= k < s.len() && s[k] == u[i];
            } else {
                let k = choose|k: int| 0 <= k < es.len() && es[k] == u[i];
            }
        }
    }
    lemma_sorted_below_len(u, n);
    assert(u.len() * EXPERT_BYTES <= n * EXPERT_BYTES) by (nonlinear_arith)
        requires
            u.len() <= n,
    ;
    crate::sim::hw::lemma_evict_fits(u, es, budget);
}

proof fn lemma_warm_run(state: VramState, ops: Seq<LayerOpView>, position: u32, shape: ModelShape)
    requires
        shape.n_experts > 0,
        shape.n_experts * EXPERT_BYTES <= state.budget,
        crate::sim::hw::strictly_sorted(state.resident),
        all_below(state.resident, shape.n_experts),
        hints_below(ops, shape.n_experts),
    ensures
        ({
            let r = run_layers(state, ops, position, shape);
            &&& crate::sim::hw::strictly_sorted(r.resident)
            &&& all_below(r.resident, shape.n_experts)
            &&& forall|x: u16| state.resident.contains(x) ==> r.resident.contains(x)
            &&& forall|i: int, j: int|
                0 <= i < ops.len() && 0 <= j < routing(shape, ops[i].layer_idx, position).len()
                    ==> r.resident.contains(routing(shape, ops[i].layer_idx, position)[j])
            &&& ((forall|i: int, j: int|
                0 <= i < ops.len() && 0 <= j < routing(shape, ops[i].layer_idx, position).len()
                    ==> state.resident.contains(routing(shape, ops[i].layer_idx, position)[j]))
                ==> r.misses == 0)
        }),
    decreases ops.len(),
{
    if ops.len() > 0 {
        let init = ops.drop_last();
        assert(hints_below(init, shape.n_experts)) by {
            assert forall|i: int| 0 <= i < init.len() implies match #[trigger] prefetch_hint(init[i].experts) {
                Some(es) => all_below(es, shape.n_experts),
                None => true,
            } by {
                assert(init[i] == ops[i]);
            }
        }
        lemma_warm_run(state, init, position, shape);
        let acc = run_layers(state, init, position, shape);
        let op = ops.last();
        assert(match prefetch_hint(ops[ops.len() - 1].experts) {
            Some(es) => all_below(es, shape.n_experts),
            None => true,
        });
        let r1 = match prefetch_hint(op.experts) {
            Some(es) => residency_after(acc.resident, es, state.budget),
            None => acc.resident,
        };
        match prefetch_hint(op.experts) {
            Some(es) => {
                lemma_no_eviction(acc.resident, es, state.budget, shape.n_experts);
            },
            None => {},
        }
        let actual = routing(shape, op.layer_idx, position);
        crate::sim::model::lemma_routing_bounded(shape, op.layer_idx, position);
        lemma_no_eviction(r1, actual, state.budget, shape.n_experts);
        let r = run_layers(state, ops, position, shape);
        assert forall|i: int, j: int|
            0 <= i < ops.len() && 0 <= j < routing(shape, ops[i].layer_idx, position).len()
                implies r.resident.contains(routing(shape, ops[i].layer_idx, position)[j]) by {
            if i < ops.len() - 1 {
                assert(init[i] == ops[i]);
            } else {
                assert(actual.contains(actual[j]));
            }
        }
        if forall|i: int, j: int|
            0 <= i < ops.len() && 0 <= j < routing(shape, ops[i].layer_idx, position).len()
                ==> state.resident.contains(routing(shape, ops[i].layer_idx, position)[j]) {
            assert forall|i: int, j: int|
                0 <= i < init.len() && 0 <= j < routing(shape, init[i].layer_idx, position).len()
                    implies state.resident.contains(routing(shape, init[i].layer_idx, position)[j]) by {
                assert(init[i] == ops[i]);
            }
            assert forall|j: int| 0 <= j < actual.len() implies r1.contains(actual[j]) by {
                assert(ops[ops.len() - 1] == op);
                assert(state.resident.contains(actual[j]));
                assert(acc.resident.contains(actual[j]));
            }
            crate::sim::hw::lemma_all_present_no_misses(actual, r1);
        }
    }
}

/// Warm-cache law: when every expert id fits in the budget at once, running a plan
/// a second time, from where the first run left the VRAM, misses nothing, so it
/// neither stalls nor transfers.
pub proof fn lemma_warm_cache_no_misses(state: VramState, plan: PlanView, shape: ModelShape)
    requires
        shape.n_experts > 0,
        shape.n_experts * EXPERT_BYTES <= state.budget,
        crate::sim::hw::strictly_sorted(state.resident),
        all_below(state.resident, shape.n_experts),
        hints_below(plan.ops, shape.n_experts),
    ensures
        sim_run(SimBackend::after(state, plan, shape), plan, shape).misses == 0,
        SimBackend::outcome(SimBackend::after(state, plan, shape), plan, shape).telemetry.stall_us == 0,
        SimBackend::outcome(SimBackend::after(state, plan, shape), plan, shape).telemetry.prefetch_us == 0,
{
    let ops = plan.ops.take(executed_layers(plan) as int);
    assert(hints_below(ops, shape.n_experts)) by {
        assert forall|i: int| 0 <= i < ops.len() implies match #[trigger] prefetch_hint(ops[i].experts) {
            Some(es) => all_below(es, shape.n_experts),
            None => true,
        } by {
            assert(ops[i] == plan.ops[i]);
        }
    }
    lemma_warm_run(state, ops, plan.position, shape);
    let after = SimBackend::after(state, plan, shape);
    lemma_warm_run(after, ops, plan.position, shape);
    assert(transfer_cost(0u32) == 0);
}

/// Each layer misses at most `top_k` experts, so a run of `ops` misses at most
/// `ops.len() * top_k`.
proof fn lemma_run_layers_misses(state: VramState, ops: Seq<LayerOpView>, position: u32, shape: ModelShape)
    ensures
        run_layers(state, ops, position, shape).misses <= ops.len() * shape.top_k,
    decreases ops.len(),
{
    if ops.len() > 0 {
        lemma_run_layers_misses(state, ops.drop_last(), position, shape);
        let acc = run_layers(state, ops.drop_last(), position, shape);
        let op = ops.last();
        let r1 = match prefetch_hint(op.experts) {
            Some(es) => residency_after(acc.resident, es, state.budget),
            None => acc.resident,
        };
        let actual = routing(shape, op.layer_idx, position);
        crate::sim::model::lemma_routing_bounded(shape, op.layer_idx, position);
        crate::sim::hw::lemma_missing_count_le(actual, r1);
        assert((ops.len() - 1) * shape.top_k + shape.top_k == ops.len() * shape.top_k)
            by (nonlinear_arith);
    }
}

/// A model the simulator can run any plan of: its routing is feasible, its heads
/// fit in a mask, and a token's worst-case costs (every layer run, every expert
/// missed) fit in 32-bit microseconds.
pub open spec fn simulable(shape: ModelShape) -> bool {
    &&& shape.n_experts == 0 || shape.top_k <= shape.n_experts
    &&& shape.n_heads <= 64
    &&& shape.n_layers * (shape.top_k + 1) <= 2_000_000
}

/// Whether the simulator can run any plan of `shape`.
pub fn fits_simulation(shape: &ModelShape) -> (b: bool)
    ensures
        b == simulable(*shape),
{
    let layers = shape.n_layers as u64;
    let per_layer = shape.top_k as u64 + 1;
    assert(layers * per_layer <= 0xFFFF * 0x1_0000) by (nonlinear_arith)
        requires
            layers <= 0xFFFF,
            per_layer <= 0x1_0000,
    ;
    (shape.n_experts == 0 || shape.top_k <= shape.n_experts) && shape.n_heads <= 64 && layers
        * per_layer <= 2_000_000
}

/// Step law for the simulated backend: on a model it can simulate, a scheduler
/// step runs from any residency, with any predictor, at any fallback level, for
/// any profiler that names a precision whenever the fallback level leaves
/// precision to it.
pub proof fn lemma_sim_step_ok<P: CognitiveProfiler, B: BranchPredictor>(
    profiler: P,
    predictor: B::V,
    tctx: TokenContext,
    rctx: RoutingContextView,
    shape: ModelShape,
    state: VramState,
    level: u8,
)
    requires
        simulable(shape),
        level == 0 ==> profiler.decision_for(tctx).precision_per_group.len() > 0,
    ensures
        step_ok::<P, B, SimBackend>(profiler, predictor, tctx, rctx, shape, state, level),
{
    let decision = profiler.decision_for(tctx);
    let prediction = B::prediction_for(predictor, rctx);
    let plan = planned(tctx, decision, prediction, shape, level);
    let depth = plan_depth(decision, level, shape);
    assert(plan.ops.len() == depth);
    assert(executed_layers(plan) == depth);
    let ops = plan.ops.take(depth as int);
    lemma_run_layers_misses(state, ops, plan.position, shape);
    let run = sim_run(state, plan, shape);
    let m = run.misses;
    let l = depth as int;
    let k = shape.top_k as int;
    assert(m + l <= 2_000_000) by (nonlinear_arith)
        requires
            m <= l * k,
            0 <= l <= shape.n_layers,
            0 <= k,
            shape.n_layers * (k + 1) <= 2_000_000,
    ;
    assert(transfer_cost(m as u32) <= 3_000_000 * 31);
    let tel = SimBackend::outcome(state, plan, shape).telemetry;
    assert(reported_us(tel) + 1 <= u32::MAX);
}

/// Stream law: a streamed binding is a prefetch hint exactly as a resident one is:
/// running a layer bound to `Stream { experts: es, .. }` leaves the same residency,
/// misses and routing as running it bound to `Resident(es)`.
pub proof fn lemma_stream_prefetches_like_resident(
    acc: SimRun,
    op: LayerOpView,
    handle: u32,
    es: Seq<u16>,
    position: u32,
    shape: ModelShape,
    budget: u64,
)
    ensures
        run_layer(
            acc,
            LayerOpView { experts: BindingView::Stream { handle, experts: es }, ..op },
            position,
            shape,
            budget,
        ) == run_layer(
            acc,
            LayerOpView { experts: BindingView::Resident(es), ..op },
            position,
            shape,
            budget,
        ),
{
}

/// The experts a binding names to be made resident before its layer runs: those of
/// a `Resident` or a `Stream` binding; a dense layer names none.
pub open spec fn named_experts(b: BindingView) -> Seq<u16> {
    match b {
        BindingView::Dense => Seq::empty(),
        BindingView::Resident(es) => es,
        BindingView::Stream { experts, .. } => experts,
    }
}

/// Every layer of `ops` names, below `n`, every expert it truly routes to.
pub open spec fn names_routing(ops: Seq<LayerOpView>, position: u32, shape: ModelShape) -> bool {
    forall|i: int|
        0 <= i < ops.len() ==> {
            &&& all_below(named_experts(#[trigger] ops[i].experts), shape.n_experts)
            &&& forall|j: int|
                0 <= j < routing(shape, ops[i].layer_idx, position).len() ==> named_experts(
                    ops[i].experts,
                ).contains(routing(shape, ops[i].layer_idx, position)[j])
        }
}

proof fn lemma_prefetched_run(state: VramState, ops: Seq<LayerOpView>, position: u32, shape: ModelShape)
    requires
        shape.n_experts > 0,
        shape.n_experts * EXPERT_BYTES <= state.budget,
        crate::sim::hw::strictly_sorted(state.resident),
        all_below(state.resident, shape.n_experts),
        names_routing(ops, position, shape),
    ensures
        ({
            let r = run_layers(state, ops, position, shape);
            &&& crate::sim::hw::strictly_sorted(r.resident)
            &&& all_below(r.resident, shape.n_experts)
            &&& r.misses == 0
        }),
    decreases ops.len(),
{
    if ops.len() > 0 {
        let init = ops.drop_last();
        assert(names_routing(init, position, shape)) by {
            assert forall|i: int| 0 <= i < init.len() implies {
                &&& all_below(named_experts(#[trigger] init[i].experts), shape.n_experts)
                &&& forall|j: int|
                    0 <= j < routing(shape, init[i].layer_idx, position).len() ==> named_experts(
                        init[i].experts,
                    ).contains(routing(shape, init[i].layer_idx, position)[j])
            } by {
                assert(init[i] == ops[i]);
            }
        }
        lemma_prefetched_run(state, init, position, shape);
        let acc = run_layers(state, init, position, shape);
        let op = ops.last();
        assert(op == ops[ops.len() - 1]);
        let named = named_experts(op.experts);
        assert(all_below(named, shape.n_experts));
        let actual = routing(shape, op.layer_idx, position);
        crate::sim::model::lemma_routing_bounded(shape, op.layer_idx, position);
        match op.experts {
            BindingView::Dense => {
                assert(forall|j: int| 0 <= j < actual.len() ==> named.contains(actual[j]));
                if actual.len() > 0 {
                    assert(named.contains(actual[0]));
                }
                lemma_no_eviction(acc.resident, actual, state.budget, shape.n_experts);
            },
            _ => {
                lemma_no_eviction(acc.resident, named, state.budget, shape.n_experts);
                let r1 = residency_after(acc.resident, named, state.budget);
                assert(prefetch_hint(op.experts) == Some(named));
                assert forall|j: int| 0 <= j < actual.len() implies r1.contains(actual[j]) by {
                    assert(named.contains(actual[j]));
                }
                crate::sim::hw::lemma_all_present_no_misses(actual, r1);
                lemma_no_eviction(r1, actual, state.budget, shape.n_experts);
            },
        }
    }
}

/// Prefetch law: when every executed layer of a plan names (below `n_experts`)
/// every expert it truly routes to, and all experts fit in the budget at once, the
/// prefetch makes the true experts resident before each layer runs: the run misses
/// nothing, so it neither stalls nor transfers.
pub proof fn lemma_prefetch_covers_routing(state: VramState, plan: PlanView, shape: ModelShape)
    requires
        shape.n_experts > 0,
        shape.n_experts * EXPERT_BYTES <= state.budget,
        crate::sim::hw::strictly_sorted(state.resident),
        all_below(state.resident, shape.n_experts),
        names_routing(plan.ops, plan.position, shape),
    ensures
        sim_run(state, plan, shape).misses == 0,
        SimBackend::outcome(state, plan, shape).telemetry.stall_us == 0,
        SimBackend::outcome(state, plan, shape).telemetry.prefetch_us == 0,
        SimBackend::outcome(state, plan, shape).telemetry.pcie_bytes == 0,
{
    let ops = plan.ops.take(executed_layers(plan) as int);
    assert(names_routing(ops, plan.position, shape)) by {
        assert forall|i: int| 0 <= i < ops.len() implies {
            &&& all_below(named_experts(#[trigger] ops[i].experts), shape.n_experts)
            &&& forall|j: int|
                0 <= j < routing(shape, ops[i].layer_idx, plan.position).len() ==> named_experts(
                    ops[i].experts,
                ).contains(routing(shape, ops[i].layer_idx, plan.position)[j])
        } by {
            assert(ops[i] == plan.ops[i]);
        }
    }
    lemma_prefetched_run(state, ops, plan.position, shape);
    assert(transfer_cost(0u32) == 0);
}

/// Cost law: a run of `l` layers with `m` expert misses computes for 120 µs a layer,
/// stalls 1900 µs a miss, transfers 1.5 MB a miss at 31 µs per whole megabyte,
/// spends no CPU time or KV bytes, reports a tenth of compute plus stall as energy
/// and 1.5 MB per resident expert (whole megabytes) as VRAM, and exits after `l`.
pub proof fn lemma_sim_costs(state: VramState, plan: PlanView, shape: ModelShape)
    requires
        valid_state(state),
        SimBackend::runs(state, plan, shape),
    ensures
        ({
            let run = sim_run(state, plan, shape);
            let m = run.misses;
            let l = executed_layers(plan) as int;
            let o = SimBackend::outcome(state, plan, shape);
            &&& o.actual.exit_layer == l
            &&& o.telemetry.compute_us == l * 120
            &&& o.telemetry.stall_us == m * 1900
            &&& o.telemetry.prefetch_us == (m * 3 / 2) * 31
            &&& o.telemetry.pcie_bytes == m * 1_500_000
            &&& o.telemetry.cpu_us == 0
            &&& o.telemetry.kv_bytes == 0
            &&& o.telemetry.energy_mj == (l * 120 + m * 1900) / 10
            &&& o.telemetry.vram_mb == run.resident.len() * 3 / 2
        }),
{
    let run = sim_run(state, plan, shape);
    let m = run.misses;
    assert(m <= 2_260_529);
    assert(m * 1_500_000 / 1_000_000 == m * 3 / 2);
    lemma_execute_respects_budget(state, plan, shape);
    crate::sim::hw::lemma_sorted_len(run.resident);
    let n = run.resident.len();
    assert(n * 1_500_000 / 1_000_000 == n * 3 / 2);
}

/// Prefetch law for a scheduler step on the simulated backend: when the branch
/// predictor's experts (flattened) name, below `n_experts`, every expert each layer
/// of the model truly routes to at the token's position, and all experts fit in
/// the budget at once, the step's plan prefetches them and its trace shows no
/// stall and no transfer.
pub proof fn lemma_predicted_step_no_stall<P: CognitiveProfiler, B: BranchPredictor>(
    profiler: P,
    predictor: B::V,
    tctx: TokenContext,
    rctx: RoutingContextView,
    shape: ModelShape,
    state: VramState,
    level: u8,
    model_id: u64,
    run_id: u128,
)
    requires
        shape.n_experts > 0,
        shape.n_experts * EXPERT_BYTES <= state.budget,
        crate::sim::hw::strictly_sorted(state.resident),
        all_below(state.resident, shape.n_experts),
        all_below(B::prediction_for(predictor, rctx).experts.flatten(), shape.n_experts),
        forall|l: u16, j: int|
            l < shape.n_layers && 0 <= j < routing(shape, l, tctx.position).len()
                ==> B::prediction_for(predictor, rctx).experts.flatten().contains(
                #[trigger] routing(shape, l, tctx.position)[j],
            ),
    ensures
        ({
            let decision = profiler.decision_for(tctx);
            let prediction = B::prediction_for(predictor, rctx);
            let plan = crate::scheduler::planned(tctx, decision, prediction, shape, level);
            let outcome = SimBackend::outcome(state, plan, shape);
            let t = crate::scheduler::step_trace(model_id, run_id, tctx, decision, prediction, outcome, level);
            &&& t.latency.stall_us == 0
            &&& t.latency.prefetch_us == 0
            &&& t.pcie_bytes == 0
        }),
{
    let decision = profiler.decision_for(tctx);
    let prediction = B::prediction_for(predictor, rctx);
    let plan = crate::scheduler::planned(tctx, decision, prediction, shape, level);
    crate::scheduler::lemma_plan_layers(tctx, decision, prediction, shape, level);
    let flat = prediction.experts.flatten();
    assert(names_routing(plan.ops, plan.position, shape)) by {
        assert forall|i: int| 0 <= i < plan.ops.len() implies {
            &&& all_below(named_experts(#[trigger] plan.ops[i].experts), shape.n_experts)
            &&& forall|j: int|
                0 <= j < routing(shape, plan.ops[i].layer_idx, plan.position).len() ==> named_experts(
                    plan.ops[i].experts,
                ).contains(routing(shape, plan.ops[i].layer_idx, plan.position)[j])
        } by {
            let l = plan.ops[i].layer_idx;
            assert(l < shape.n_layers);
            assert forall|j: int| 0 <= j < routing(shape, l, plan.position).len() implies named_experts(
                plan.ops[i].experts,
            ).contains(routing(shape, l, plan.position)[j]) by {
                assert(flat.contains(routing(shape, l, tctx.position)[j]));
            }
        }
    }
    lemma_prefetch_covers_routing(state, plan, shape);
}

} // verus!
