use mirage::control::{ChainPhase, DifficultyClass, PrecisionTier};
use mirage::decision::ComputeDecision;
use mirage::frame::{decode_frames, encode_frame, FrameError};
use mirage::telemetry::{validate, LatencyBreakdown, TokenTrace, TraceError, SCHEMA_VERSION};

fn sample() -> TokenTrace {
    TokenTrace {
        schema_version: SCHEMA_VERSION,
        model_id: 7,
        run_id: 1,
        token_id: 10,
        position: 3,
        chain_phase: ChainPhase::Early,
        predicted_experts: vec![1, 2],
        actual_experts: vec![1, 2],
        precision_plan: vec![PrecisionTier::Q4],
        profiler_decision: ComputeDecision {
            difficulty: DifficultyClass::Normal,
            target_depth: 48,
            precision_per_group: vec![PrecisionTier::Q4],
            head_budget: 32,
            burst: false,
            chain_phase: ChainPhase::Early,
        },
        latency: LatencyBreakdown { total_us: 100, prefetch_us: 10, compute_us: 70, stall_us: 5, cpu_us: 5, sample_us: 2 },
        vram_usage_mb: 11000,
        pcie_bytes: 1024,
        kv_cache_bytes: 2048,
        energy_mj: 50,
        logits_entropy_bits: 0.4f32.to_bits(),
        logit_margin_bits: 1.2f32.to_bits(),
        fallback_level: 0,
        deterministic: true,
    }
}

#[test]
fn valid_trace_passes() {
    assert!(validate(&sample()).is_ok());
}

#[test]
fn wrong_schema_rejected() {
    let mut t = sample();
    t.schema_version = 99;
    assert_eq!(validate(&t), Err(TraceError::WrongSchema(99)));
}

#[test]
fn inconsistent_latency_rejected() {
    let mut t = sample();
    t.latency.compute_us = 10_000;
    assert_eq!(validate(&t), Err(TraceError::LatencyInconsistent));
}

#[test]
fn latency_exactly_at_total_passes() {
    let mut t = sample();
    t.latency.total_us = 92;
    assert!(validate(&t).is_ok());
    t.latency.total_us = 91;
    assert_eq!(validate(&t), Err(TraceError::LatencyInconsistent));
    // the schema is checked first
    t.schema_version = 0;
    assert_eq!(validate(&t), Err(TraceError::WrongSchema(0)));
}

#[test]
fn round_trips_multiple_records() {
    let a: Vec<u8> = vec![1, 2, 3];
    let b: Vec<u8> = (0..300u32).map(|x| x as u8).collect();
    let mut buf = Vec::new();
    buf.extend(encode_frame(&a));
    buf.extend(encode_frame(&b));
    let back = decode_frames(&buf).unwrap();
    assert_eq!(back, vec![a, b]);
}

#[test]
fn frame_layout_is_little_endian_length_then_bytes() {
    let b: Vec<u8> = vec![7; 258];
    let f = encode_frame(&b);
    assert_eq!(&f[..4], &[2, 1, 0, 0]);
    assert_eq!(f.len(), 262);
    assert_eq!(encode_frame(&[]), vec![0, 0, 0, 0]);
}

#[test]
fn truncated_record_is_an_error_and_a_short_tail_is_ignored() {
    let mut buf = encode_frame(&[9, 9, 9]);
    buf.extend([1, 2]); // fewer than four bytes left: the stream ends
    assert_eq!(decode_frames(&buf).unwrap(), vec![vec![9, 9, 9]]);
    let mut cut = encode_frame(&[1, 2, 3, 4]);
    cut.pop();
    assert_eq!(decode_frames(&cut), Err(FrameError::Truncated));
    assert_eq!(decode_frames(&[]).unwrap(), Vec::<Vec<u8>>::new());
}
