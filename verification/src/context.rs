use vstd::prelude::*;
use crate::control::{ChainPhase, MarginBand, TokenKind};
use crate::decision::{ActualRouting, RoutingView};

verus! {

/// What the profiler knows of the token being decoded. The logit margin and the
/// entropy are carried as the bit patterns of their 32-bit floats, so that they reach
/// the trace unchanged; the profilers read the margin only through its band.
#[derive(Clone, Copy, Debug, PartialEq, Eq, Structural)]
pub struct TokenContext {
    pub token_id: u32,
    pub position: u32,
    pub margin_band: MarginBand,
    pub recent_logit_margin_bits: u32,
    pub recent_entropy_bits: u32,
    pub token_kind: TokenKind,
    pub chain_phase: ChainPhase,
}

/// What the branch predictor knows of the token being decoded.
#[derive(Clone, Debug, PartialEq, Eq)]
pub struct RoutingContext {
    pub position: u32,
    pub recent_experts: Vec<u16>,
}

/// A `RoutingContext` with its expert list as a sequence.
pub struct RoutingContextView {
    pub position: u32,
    pub recent_experts: Seq<u16>,
}

impl View for RoutingContext {
    type V = RoutingContextView;

    open spec fn view(&self) -> RoutingContextView {
        RoutingContextView { position: self.position, recent_experts: self.recent_experts@ }
    }
}

/// Costs that a backend reports for one executed plan.
#[derive(Clone, Copy, Debug, PartialEq, Eq, Structural)]
pub struct ExecTelemetry {
    pub prefetch_us: u32,
    pub compute_us: u32,
    pub stall_us: u32,
    pub cpu_us: u32,
    pub vram_mb: u32,
    pub pcie_bytes: u64,
    pub kv_bytes: u64,
    pub energy_mj: u32,
}

impl Default for ExecTelemetry {
    fn default() -> (t: Self)
        ensures
            t == (ExecTelemetry {
                prefetch_us: 0,
                compute_us: 0,
                stall_us: 0,
                cpu_us: 0,
                vram_mb: 0,
                pcie_bytes: 0,
                kv_bytes: 0,
                energy_mj: 0,
            }),
    {
        ExecTelemetry {
            prefetch_us: 0,
            compute_us: 0,
            stall_us: 0,
            cpu_us: 0,
            vram_mb: 0,
            pcie_bytes: 0,
            kv_bytes: 0,
            energy_mj: 0,
        }
    }
}

/// What a backend reports back for one executed plan.
#[derive(Clone, Debug, PartialEq, Eq)]
pub struct ExecOutcome {
    pub actual: ActualRouting,
    pub telemetry: ExecTelemetry,
}

/// An `ExecOutcome` with its routing as sequences.
pub struct OutcomeView {
    pub actual: RoutingView,
    pub telemetry: ExecTelemetry,
}

impl View for ExecOutcome {
    type V = OutcomeView;

    open spec fn view(&self) -> OutcomeView {
        OutcomeView { actual: self.actual@, telemetry: self.telemetry }
    }
}

} // verus!
