use mirage::control::{Device, HeadMask, PrecisionTier};
use mirage::plan::{ExecPlan, ExpertBinding, LayerOp, ModelShape};
use mirage::sim::backend::{fits_simulation, SimBackend};
use mirage::sim::hw::{FakeVram, LatencyModel};
use mirage::sim::model::{topic_of, true_experts};
use mirage::traits::ExecutionBackend;

fn plan_for(position: u32, layers: u16) -> ExecPlan {
    let ops = (0..layers)
        .map(|l| LayerOp {
            layer_idx: l,
            precision: PrecisionTier::Q4,
            head_mask: HeadMask::all(32),
            experts: ExpertBinding::Resident(vec![]),
            device: Device::Gpu,
        })
        .collect();
    ExecPlan { token_id: position, position, ops, exit_after: layers, fallback_level: 0 }
}

#[test]
fn warm_cache_eliminates_misses_on_repeat() {
    let s = ModelShape::qwen3_30b_a3b();
    let mut b = SimBackend::new(12_000);
    let cold = b.execute(&plan_for(100, 4), &s);
    let warm = b.execute(&plan_for(100, 4), &s);
    assert!(warm.telemetry.stall_us < cold.telemetry.stall_us);
    assert_eq!(warm.telemetry.prefetch_us, 0);
}

#[test]
fn execute_is_deterministic() {
    let s = ModelShape::qwen3_30b_a3b();
    let mut b1 = SimBackend::new(12_000);
    let mut b2 = SimBackend::new(12_000);
    assert_eq!(b1.execute(&plan_for(50, 8), &s), b2.execute(&plan_for(50, 8), &s));
}

#[test]
fn execute_costs_follow_the_model() {
    let s = ModelShape::qwen3_30b_a3b();
    let mut b = SimBackend::new(12_000);
    let o = b.execute(&plan_for(0, 2), &s);
    // two MoE layers, eight experts each, everything cold
    assert_eq!(o.actual.experts_per_moe_layer.len(), 2);
    assert_eq!(o.actual.exit_layer, 2);
    let misses: u32 = o.telemetry.stall_us / 1_900;
    assert!(misses >= 8 && misses <= 16);
    assert_eq!(o.telemetry.compute_us, 240);
    assert_eq!(o.telemetry.pcie_bytes, misses as u64 * 1_500_000);
    assert_eq!(o.telemetry.prefetch_us, LatencyModel::transfer_us(misses));
    assert_eq!(o.telemetry.energy_mj, (240 + misses * 1_900) / 10);
    assert_eq!(o.telemetry.cpu_us, 0);
    assert_eq!(o.telemetry.kv_bytes, 0);
}

#[test]
fn exit_after_caps_executed_layers() {
    let s = ModelShape::qwen3_30b_a3b();
    let mut b = SimBackend::new(12_000);
    let mut p = plan_for(7, 6);
    p.exit_after = 3;
    let o = b.execute(&p, &s);
    assert_eq!(o.actual.exit_layer, 3);
    assert_eq!(o.actual.experts_per_moe_layer.len(), 3);
    let mut q = plan_for(7, 2);
    q.exit_after = 40;
    assert_eq!(b.execute(&q, &s).actual.exit_layer, 2);
}

#[test]
fn dense_model_routes_nothing() {
    let mut s = ModelShape::qwen3_30b_a3b();
    s.n_experts = 0;
    let mut b = SimBackend::new(12_000);
    let o = b.execute(&plan_for(3, 4), &s);
    assert!(o.actual.experts_per_moe_layer.is_empty());
    assert_eq!(o.telemetry.stall_us, 0);
    assert_eq!(o.telemetry.compute_us, 480);
}

#[test]
fn second_residency_has_no_misses() {
    let mut v = FakeVram::new(12_000);
    assert_eq!(v.ensure_resident(&[1, 2, 3]), 3);
    assert_eq!(v.ensure_resident(&[1, 2, 3]), 0);
}

#[test]
fn budget_is_never_exceeded() {
    let mut v = FakeVram::new(3); // 3 MB => only 2 experts fit
    v.ensure_resident(&[1, 2, 3, 4, 5, 6, 7, 8]);
    assert!(v.used_bytes() <= 3_000_000);
}

#[test]
fn eviction_prefers_experts_not_asked_for() {
    let mut v = FakeVram::new(4); // 4 MB => 2 experts fit
    assert_eq!(v.ensure_resident(&[1, 2]), 2);
    assert_eq!(v.used_bytes(), 3_000_000);
    assert_eq!(v.used_mb(), 3);
    // asking for 9 evicts 1 (the smallest not asked for), keeping 2 and 9
    assert_eq!(v.ensure_resident(&[9]), 1);
    assert_eq!(v.ensure_resident(&[2, 9]), 0);
    assert_eq!(v.ensure_resident(&[1]), 1);
    // duplicates count once per entry
    let mut w = FakeVram::new(100);
    assert_eq!(w.ensure_resident(&[5, 5, 6]), 3);
    assert_eq!(w.ensure_resident(&[5, 6, 7]), 1);
}

#[test]
fn zero_budget_holds_nothing() {
    let mut v = FakeVram::new(0);
    assert_eq!(v.ensure_resident(&[1, 2]), 2);
    assert_eq!(v.used_bytes(), 0);
    assert_eq!(v.ensure_resident(&[1]), 1);
}

#[test]
fn latency_model_values() {
    assert_eq!(LatencyModel::transfer_us(0), 0);
    assert_eq!(LatencyModel::transfer_us(1), 31);
    assert_eq!(LatencyModel::transfer_us(3), 4 * 31);
    assert_eq!(LatencyModel::stall_us(2), 3_800);
    assert_eq!(LatencyModel::compute_us(48), 5_760);
}

#[test]
fn routing_is_deterministic() {
    let s = ModelShape::qwen3_30b_a3b();
    assert_eq!(true_experts(&s, 3, 100), true_experts(&s, 3, 100));
}

#[test]
fn routing_has_temporal_locality() {
    let s = ModelShape::qwen3_30b_a3b();
    assert_eq!(true_experts(&s, 3, 96), true_experts(&s, 3, 111));
    assert_ne!(true_experts(&s, 3, 96), true_experts(&s, 3, 200));
}

#[test]
fn dense_shape_has_no_experts() {
    let mut s = ModelShape::qwen3_30b_a3b();
    s.n_experts = 0;
    assert!(true_experts(&s, 0, 0).is_empty());
}

#[test]
fn routing_draws_top_k_distinct_experts() {
    let s = ModelShape::qwen3_30b_a3b();
    let e = true_experts(&s, 5, 40);
    assert_eq!(e.len(), 8);
    for (i, a) in e.iter().enumerate() {
        assert!(*a < 128);
        for b in &e[i + 1..] {
            assert_ne!(a, b);
        }
    }
    let mut tiny = s;
    tiny.n_experts = 3;
    tiny.top_k = 3;
    let mut t = true_experts(&tiny, 0, 0);
    t.sort();
    assert_eq!(t, vec![0, 1, 2]);
    assert_eq!(topic_of(15), 0);
    assert_eq!(topic_of(16), 1);
}

#[test]
fn eviction_falls_back_to_smallest_when_all_are_asked_for() {
    let mut v = FakeVram::new(4); // 2 experts fit
    assert_eq!(v.ensure_resident(&[1, 2]), 2);
    // 1 and 2 are not asked for and go first; then 4, the smallest asked for
    assert_eq!(v.ensure_resident(&[4, 5, 6]), 3);
    assert_eq!(v.used_bytes(), 3_000_000);
    assert_eq!(v.ensure_resident(&[5, 6]), 0);
    assert_eq!(v.ensure_resident(&[4]), 1);
}

#[test]
fn simulation_fit_of_shapes() {
    let s = ModelShape::qwen3_30b_a3b();
    assert!(fits_simulation(&s));
    let mut dense = s;
    dense.n_experts = 0;
    assert!(fits_simulation(&dense));
    let mut infeasible = s;
    infeasible.top_k = 200;
    assert!(!fits_simulation(&infeasible));
    let mut wide = s;
    wide.n_heads = 65;
    assert!(!fits_simulation(&wide));
    let mut deep = s;
    deep.n_layers = 60_000;
    deep.top_k = 100;
    deep.n_experts = 128;
    assert!(!fits_simulation(&deep));
    deep.top_k = 32;
    assert!(fits_simulation(&deep));
}

#[test]
fn routing_names_every_expert_when_top_k_is_all() {
    let mut s = ModelShape::qwen3_30b_a3b();
    s.n_experts = 64;
    s.top_k = 64;
    let mut e = true_experts(&s, 7, 1234);
    e.sort();
    let all: Vec<u16> = (0..64).collect();
    assert_eq!(e, all);
}
