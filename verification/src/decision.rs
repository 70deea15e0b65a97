use vstd::prelude::*;
use crate::control::{ChainPhase, DifficultyClass, PrecisionTier};

verus! {

/// The per-layer expert lists of a routing, as mathematical sequences.
pub open spec fn nested_view(v: Vec<Vec<u16>>) -> Seq<Seq<u16>> {
    v@.map_values(|x: Vec<u16>| x@)
}

/// What the profiler decides for one token.
#[derive(Clone, Debug, PartialEq, Eq)]
pub struct ComputeDecision {
    pub difficulty: DifficultyClass,
    pub target_depth: u16,
    pub precision_per_group: Vec<PrecisionTier>,
    pub head_budget: u16,
    pub burst: bool,
    pub chain_phase: ChainPhase,
}

/// A `ComputeDecision` with its precision plan as a sequence.
pub struct DecisionView {
    pub difficulty: DifficultyClass,
    pub target_depth: u16,
    pub precision_per_group: Seq<PrecisionTier>,
    pub head_budget: u16,
    pub burst: bool,
    pub chain_phase: ChainPhase,
}

impl View for ComputeDecision {
    type V = DecisionView;

    open spec fn view(&self) -> DecisionView {
        DecisionView {
            difficulty: self.difficulty,
            target_depth: self.target_depth,
            precision_per_group: self.precision_per_group@,
            head_budget: self.head_budget,
            burst: self.burst,
            chain_phase: self.chain_phase,
        }
    }
}

/// The experts a branch predictor expects the next token to route to.
#[derive(Clone, Debug, PartialEq, Eq)]
pub struct RoutingPrediction {
    pub experts_per_moe_layer: Vec<Vec<u16>>,
    pub likely_exit_layer: u16,
}

/// A `RoutingPrediction` with its expert lists as sequences.
pub struct PredictionView {
    pub experts: Seq<Seq<u16>>,
    pub likely_exit_layer: u16,
}

impl View for RoutingPrediction {
    type V = PredictionView;

    open spec fn view(&self) -> PredictionView {
        PredictionView {
            experts: nested_view(self.experts_per_moe_layer),
            likely_exit_layer: self.likely_exit_layer,
        }
    }
}

impl Default for RoutingPrediction {
    fn default() -> (p: Self)
        ensures
            p@.experts == Seq::<Seq<u16>>::empty(),
            p.likely_exit_layer == 0,
    {
        let p = RoutingPrediction { experts_per_moe_layer: Vec::new(), likely_exit_layer: 0 };
        assert(p@.experts =~= Seq::<Seq<u16>>::empty());
        p
    }
}

/// The experts a token really routed to, and the layer it left the model at.
#[derive(Clone, Debug, PartialEq, Eq)]
pub struct ActualRouting {
    pub experts_per_moe_layer: Vec<Vec<u16>>,
    pub exit_layer: u16,
}

/// An `ActualRouting` with its expert lists as sequences.
pub struct RoutingView {
    pub experts: Seq<Seq<u16>>,
    pub exit_layer: u16,
}

impl View for ActualRouting {
    type V = RoutingView;

    open spec fn view(&self) -> RoutingView {
        RoutingView { experts: nested_view(self.experts_per_moe_layer), exit_layer: self.exit_layer }
    }
}

impl Default for ActualRouting {
    fn default() -> (r: Self)
        ensures
            r@.experts == Seq::<Seq<u16>>::empty(),
            r.exit_layer == 0,
    {
        let r = ActualRouting { experts_per_moe_layer: Vec::new(), exit_layer: 0 };
        assert(r@.experts =~= Seq::<Seq<u16>>::empty());
        r
    }
}

/// A copy of a list of expert ids.
pub fn copy_experts(v: &Vec<u16>) -> (r: Vec<u16>)
    ensures
        r@ == v@,
{
    let mut r: Vec<u16> = Vec::new();
    let mut i: usize = 0;
    while i < v.len()
        invariant
            i <= v.len(),
            r@ == v@.take(i as int),
        decreases v.len() - i,
    {
        r.push(v[i]);
        i = i + 1;
        assert(r@ =~= v@.take(i as int));
    }
    assert(v@.take(v.len() as int) =~= v@);
    r
}

/// A copy of per-layer expert lists.
pub fn copy_layers(v: &Vec<Vec<u16>>) -> (r: Vec<Vec<u16>>)
    ensures
        nested_view(r) == nested_view(*v),
{
    let mut r: Vec<Vec<u16>> = Vec::new();
    let mut i: usize = 0;
    while i < v.len()
        invariant
            i <= v.len(),
            r@.len() == i,
            forall|k: int| 0 <= k < i ==> (#[trigger] r@[k])@ == v@[k]@,
        decreases v.len() - i,
    {
        let layer = copy_experts(&v[i]);
        r.push(layer);
        i = i + 1;
    }
    assert(nested_view(r) =~= nested_view(*v));
    r
}

/// All the experts of per-layer lists, layer after layer.
pub fn flatten_experts(layers: &Vec<Vec<u16>>) -> (flat: Vec<u16>)
    ensures
        flat@ == nested_view(*layers).flatten(),
{
    let mut flat: Vec<u16> = Vec::new();
    let mut i: usize = 0;
    while i < layers.len()
        invariant
            i <= layers.len(),
            flat@ == nested_view(*layers).take(i as int).flatten(),
        decreases layers.len() - i,
    {
        let inner = &layers[i];
        let ghost before = flat@;
        let mut j: usize = 0;
        while j < inner.len()
            invariant
                j <= inner.len(),
                flat@ == before + inner@.take(j as int),
            decreases inner.len() - j,
        {
            flat.push(inner[j]);
            j = j + 1;
            assert(flat@ =~= before + inner@.take(j as int));
        }
        proof {
            let nv = nested_view(*layers);
            assert(inner@.take(inner.len() as int) =~= inner@);
            assert(nv.take(i as int + 1) =~= nv.take(i as int).push(nv[i as int]));
            nv.take(i as int).lemma_flatten_push(nv[i as int]);
        }
        i = i + 1;
    }
    assert(nested_view(*layers).take(layers.len() as int) =~= nested_view(*layers));
    flat
}

/// Whether two expert lists are the same list.
pub fn experts_equal(a: &Vec<u16>, b: &Vec<u16>) -> (r: bool)
    ensures
        r == (a@ == b@),
{
    if a.len() != b.len() {
        return false;
    }
    let mut i: usize = 0;
    while i < a.len()
        invariant
            i <= a.len(),
            a.len() == b.len(),
            forall|k: int| 0 <= k < i ==> a@[k] == b@[k],
        decreases a.len() - i,
    {
        if a[i] != b[i] {
            return false;
        }
        i = i + 1;
    }
    assert(a@ =~= b@);
    true
}

} // verus!
