use vstd::prelude::*;
use crate::control::{ChainPhase, PrecisionTier};
use crate::decision::{ComputeDecision, DecisionView};

verus! {

/// The trace schema this library writes and accepts.
pub const SCHEMA_VERSION: u16 = 1;

/// Where a token's simulated time went, in microseconds.
#[derive(Clone, Copy, Debug, PartialEq, Eq, Structural)]
pub struct LatencyBreakdown {
    pub total_us: u32,
    pub prefetch_us: u32,
    pub compute_us: u32,
    pub stall_us: u32,
    pub cpu_us: u32,
    pub sample_us: u32,
}

/// The sum of the parts of a latency breakdown.
pub open spec fn latency_parts(l: LatencyBreakdown) -> int {
    l.prefetch_us + l.compute_us + l.stall_us + l.cpu_us + l.sample_us
}

/// The record of one decoded token. The entropy and the logit margin are the bit
/// patterns of their 32-bit floats.
#[derive(Clone, Debug, PartialEq, Eq)]
pub struct TokenTrace {
    pub schema_version: u16,
    pub model_id: u64,
    pub run_id: u128,
    pub token_id: u32,
    pub position: u32,
    pub chain_phase: ChainPhase,
    pub predicted_experts: Vec<u16>,
    pub actual_experts: Vec<u16>,
    pub precision_plan: Vec<PrecisionTier>,
    pub profiler_decision: ComputeDecision,
    pub latency: LatencyBreakdown,
    pub vram_usage_mb: u32,
    pub pcie_bytes: u64,
    pub kv_cache_bytes: u64,
    pub energy_mj: u32,
    pub logits_entropy_bits: u32,
    pub logit_margin_bits: u32,
    pub fallback_level: u8,
    pub deterministic: bool,
}

/// A `TokenTrace` with its lists as sequences.
pub struct TraceView {
    pub schema_version: u16,
    pub model_id: u64,
    pub run_id: u128,
    pub token_id: u32,
    pub position: u32,
    pub chain_phase: ChainPhase,
    pub predicted_experts: Seq<u16>,
    pub actual_experts: Seq<u16>,
    pub precision_plan: Seq<PrecisionTier>,
    pub profiler_decision: DecisionView,
    pub latency: LatencyBreakdown,
    pub vram_usage_mb: u32,
    pub pcie_bytes: u64,
    pub kv_cache_bytes: u64,
    pub energy_mj: u32,
    pub logits_entropy_bits: u32,
    pub logit_margin_bits: u32,
    pub fallback_level: u8,
    pub deterministic: bool,
}

impl View for TokenTrace {
    type V = TraceView;

    open spec fn view(&self) -> TraceView {
        TraceView {
            schema_version: self.schema_version,
            model_id: self.model_id,
            run_id: self.run_id,
            token_id: self.token_id,
            position: self.position,
            chain_phase: self.chain_phase,
            predicted_experts: self.predicted_experts@,
            actual_experts: self.actual_experts@,
            precision_plan: self.precision_plan@,
            profiler_decision: self.profiler_decision@,
            latency: self.latency,
            vram_usage_mb: self.vram_usage_mb,
            pcie_bytes: self.pcie_bytes,
            kv_cache_bytes: self.kv_cache_bytes,
            energy_mj: self.energy_mj,
            logits_entropy_bits: self.logits_entropy_bits,
            logit_margin_bits: self.logit_margin_bits,
            fallback_level: self.fallback_level,
            deterministic: self.deterministic,
        }
    }
}

/// Why a trace does not validate.
#[derive(Clone, Copy, Debug, PartialEq, Eq, Structural)]
pub enum TraceError {
    WrongSchema(u16),
    LatencyInconsistent,
}

/// The verdict on a trace: the schema version must be this library's, and the
/// latency parts must not add up to more than the total.
pub open spec fn trace_verdict(schema_version: u16, latency: LatencyBreakdown) -> Result<(), TraceError> {
    if schema_version != SCHEMA_VERSION {
        Err(TraceError::WrongSchema(schema_version))
    } else if latency_parts(latency) > latency.total_us {
        Err(TraceError::LatencyInconsistent)
    } else {
        Ok(())
    }
}

/// A trace must validate against its declared schema version.
pub fn validate(t: &TokenTrace) -> (r: Result<(), TraceError>)
    requires
        t.schema_version == SCHEMA_VERSION ==> latency_parts(t.latency) <= u32::MAX,
    ensures
        r == trace_verdict(t.schema_version, t.latency),
{
    if t.schema_version != SCHEMA_VERSION {
        return Err(TraceError::WrongSchema(t.schema_version));
    }
    let parts = t.latency.prefetch_us + t.latency.compute_us + t.latency.stall_us + t.latency.cpu_us
        + t.latency.sample_us;
    if parts > t.latency.total_us {
        return Err(TraceError::LatencyInconsistent);
    }
    Ok(())
}

} // verus!
