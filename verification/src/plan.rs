use vstd::prelude::*;
use crate::control::{Device, HeadMask, PrecisionTier};

verus! {

/// Which experts a layer runs with.
#[derive(Clone, Debug, PartialEq, Eq)]
pub enum ExpertBinding {
    Dense,
    Resident(Vec<u16>),
    Stream { handle: u32, experts: Vec<u16> },
}

/// An `ExpertBinding` with its expert list as a sequence.
pub enum BindingView {
    Dense,
    Resident(Seq<u16>),
    Stream { handle: u32, experts: Seq<u16> },
}

impl View for ExpertBinding {
    type V = BindingView;

    open spec fn view(&self) -> BindingView {
        match self {
            ExpertBinding::Dense => BindingView::Dense,
            ExpertBinding::Resident(es) => BindingView::Resident(es@),
            ExpertBinding::Stream { handle, experts } => BindingView::Stream {
                handle: *handle,
                experts: experts@,
            },
        }
    }
}

/// One layer of an execution plan.
#[derive(Clone, Debug, PartialEq, Eq)]
pub struct LayerOp {
    pub layer_idx: u16,
    pub precision: PrecisionTier,
    pub head_mask: HeadMask,
    pub experts: ExpertBinding,
    pub device: Device,
}

/// A `LayerOp` with its binding as a view.
pub struct LayerOpView {
    pub layer_idx: u16,
    pub precision: PrecisionTier,
    pub head_mask: HeadMask,
    pub experts: BindingView,
    pub device: Device,
}

impl View for LayerOp {
    type V = LayerOpView;

    open spec fn view(&self) -> LayerOpView {
        LayerOpView {
            layer_idx: self.layer_idx,
            precision: self.precision,
            head_mask: self.head_mask,
            experts: self.experts@,
            device: self.device,
        }
    }
}

/// The plan the scheduler hands to a backend for one token.
#[derive(Clone, Debug, PartialEq, Eq)]
pub struct ExecPlan {
    pub token_id: u32,
    pub position: u32,
    pub ops: Vec<LayerOp>,
    pub exit_after: u16,
    pub fallback_level: u8,
}

/// An `ExecPlan` with its layers as a sequence of views.
pub struct PlanView {
    pub token_id: u32,
    pub position: u32,
    pub ops: Seq<LayerOpView>,
    pub exit_after: u16,
    pub fallback_level: u8,
}

impl View for ExecPlan {
    type V = PlanView;

    open spec fn view(&self) -> PlanView {
        PlanView {
            token_id: self.token_id,
            position: self.position,
            ops: self.ops@.map_values(|o: LayerOp| o@),
            exit_after: self.exit_after,
            fallback_level: self.fallback_level,
        }
    }
}

/// The shape of a model; `n_experts == 0` means a dense model.
#[derive(Clone, Copy, Debug, PartialEq, Eq, Structural)]
pub struct ModelShape {
    pub n_layers: u16,
    pub n_heads: u16,
    pub n_experts: u16,
    pub top_k: u16,
    pub hidden: u32,
    pub vocab: u32,
}

impl ModelShape {
    /// Synthetic shape approximating Qwen3-30B-A3B (mixture of experts).
    pub fn qwen3_30b_a3b() -> (s: Self)
        ensures
            s == (ModelShape {
                n_layers: 48,
                n_heads: 32,
                n_experts: 128,
                top_k: 8,
                hidden: 2048,
                vocab: 151_936,
            }),
    {
        ModelShape { n_layers: 48, n_heads: 32, n_experts: 128, top_k: 8, hidden: 2048, vocab: 151_936 }
    }

    /// Whether the model routes through experts.
    pub fn is_moe(&self) -> (r: bool)
        ensures
            r == (self.n_experts > 0),
    {
        self.n_experts > 0
    }
}

} // verus!
