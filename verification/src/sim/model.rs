use vstd::prelude::*;
use crate::plan::ModelShape;
use crate::sim::hw::slice_contains;
use crate::sim::period::lemma_every_expert_drawn;

verus! {

/// The slowly drifting "topic" of a position: it changes every 16 positions, which
/// gives routing the temporal locality an n-gram predictor can exploit.
pub open spec fn topic(position: u32) -> u32 {
    position / 16
}

/// The topic of a position.
pub fn topic_of(position: u32) -> (t: u32)
    ensures
        t == topic(position),
{
    position / 16
}

/// The generator state a (layer, topic) pair starts from.
pub open spec fn initial_seed(layer: u16, topic: u32) -> u64 {
    (layer as u64).wrapping_mul(0x9E3779B1).wrapping_add((topic as u64).wrapping_mul(0x85EBCA77))
}

/// One step of the 64-bit linear congruential generator.
pub open spec fn lcg_next(seed: u64) -> u64 {
    seed.wrapping_mul(6364136223846793005).wrapping_add(1442695040888963407)
}

/// The generator state after `t` steps.
pub open spec fn seed_after(seed0: u64, t: nat) -> u64
    decreases t,
{
    if t == 0 {
        seed0
    } else {
        lcg_next(seed_after(seed0, (t - 1) as nat))
    }
}

/// The expert a generator state draws among `n` experts.
pub open spec fn draw(seed: u64, n: u16) -> u16 {
    ((seed >> 33u64) as u16) % n
}

/// The distinct experts collected, in order of first appearance, from the first `t`
/// draws, stopping once `k` have been collected.
pub open spec fn collected(seed0: u64, k: u16, n: u16, t: nat) -> Seq<u16>
    decreases t,
{
    if t == 0 {
        Seq::empty()
    } else {
        let c = collected(seed0, k, n, (t - 1) as nat);
        let e = draw(seed_after(seed0, t), n);
        if c.len() < k && !c.contains(e) {
            c.push(e)
        } else {
            c
        }
    }
}

/// Draws the generator may take before it gives up. The generator has full period
/// modulo `2^49` (`lemma_every_expert_drawn`), so every expert is drawn within the
/// first `2^49` draws, far below this limit (`lemma_routing_full`).
pub open spec fn draw_limit() -> nat {
    u64::MAX as nat
}

/// The true routing of `layer` at `position`: `top_k` distinct experts drawn by the
/// generator seeded from the layer and the position's topic; none for a dense model.
pub open spec fn routing(shape: ModelShape, layer: u16, position: u32) -> Seq<u16> {
    if shape.n_experts == 0 {
        Seq::empty()
    } else {
        collected(initial_seed(layer, topic(position)), shape.top_k, shape.n_experts, draw_limit())
    }
}

proof fn lemma_collected_bounded(seed0: u64, k: u16, n: u16, t: nat)
    requires
        n > 0,
    ensures
        collected(seed0, k, n, t).len() <= k,
        collected(seed0, k, n, t).no_duplicates(),
        forall|i: int|
            0 <= i < collected(seed0, k, n, t).len() ==> collected(seed0, k, n, t)[i] < n,
    decreases t,
{
    if t > 0 {
        lemma_collected_bounded(seed0, k, n, (t - 1) as nat);
        let c = collected(seed0, k, n, (t - 1) as nat);
        let e = draw(seed_after(seed0, t), n);
        assert(e < n);
        if c.len() < k && !c.contains(e) {
            assert forall|i: int, j: int|
                0 <= i < c.push(e).len() && 0 <= j < c.push(e).len() && i != j implies c.push(e)[i]
                != c.push(e)[j] by {
                if i == c.len() {
                    assert(c[j] != e);
                } else if j == c.len() {
                    assert(c[i] != e);
                }
            }
        }
    }
}

proof fn lemma_collected_stays_full(seed0: u64, k: u16, n: u16, t: nat, u: nat)
    requires
        t <= u,
        collected(seed0, k, n, t).len() >= k,
    ensures
        collected(seed0, k, n, u) == collected(seed0, k, n, t),
    decreases u - t,
{
    if u > t {
        lemma_collected_stays_full(seed0, k, n, t, (u - 1) as nat);
    }
}

/// Deterministic true expert routing for a (layer, position). Identical inputs give
/// identical experts; no randomness, no clock.
pub fn true_experts(shape: &ModelShape, layer: u16, position: u32) -> (out: Vec<u16>)
    requires
        shape.n_experts == 0 || shape.top_k <= shape.n_experts,
    ensures
        out@ == routing(*shape, layer, position),
        out@.len() <= shape.top_k,
        shape.n_experts > 0 ==> out@.len() == shape.top_k,
        out@.no_duplicates(),
        forall|i: int| 0 <= i < out@.len() ==> out@[i] < shape.n_experts,
{
    if !shape.is_moe() {
        return Vec::new();
    }
    let window = topic_of(position);
    let seed0 = (layer as u64).wrapping_mul(0x9E3779B1).wrapping_add(
        (window as u64).wrapping_mul(0x85EBCA77),
    );
    let ghost k = shape.top_k;
    let ghost n = shape.n_experts;
    let mut seed = seed0;
    let mut out: Vec<u16> = Vec::new();
    let mut tries: u64 = 0;
    while out.len() < shape.top_k as usize && tries < u64::MAX
        invariant
            n == shape.n_experts,
            k == shape.top_k,
            n > 0,
            seed0 == initial_seed(layer, topic(position)),
            seed == seed_after(seed0, tries as nat),
            out@ == collected(seed0, k, n, tries as nat),
        decreases u64::MAX - tries,
    {
        seed = seed.wrapping_mul(6364136223846793005).wrapping_add(1442695040888963407);
        let e = ((seed >> 33) as u16) % shape.n_experts;
        tries = tries + 1;
        proof {
            lemma_collected_bounded(seed0, k, n, (tries - 1) as nat);
        }
        if !slice_contains(out.as_slice(), e) {
            out.push(e);
        }
    }
    proof {
        lemma_collected_bounded(seed0, k, n, tries as nat);
        if tries < u64::MAX {
            lemma_collected_stays_full(seed0, k, n, tries as nat, draw_limit());
        }
        lemma_routing_full(*shape, layer, position);
    }
    out
}

/// A routing has at most `top_k` experts, all distinct and below `n_experts`.
pub proof fn lemma_routing_bounded(shape: ModelShape, layer: u16, position: u32)
    ensures
        routing(shape, layer, position).len() <= shape.top_k,
        routing(shape, layer, position).no_duplicates(),
        forall|i: int|
            0 <= i < routing(shape, layer, position).len() ==> routing(shape, layer, position)[i]
                < shape.n_experts,
{
    if shape.n_experts > 0 {
        lemma_collected_bounded(
            initial_seed(layer, topic(position)),
            shape.top_k,
            shape.n_experts,
            draw_limit(),
        );
    }
}

/// Routing depends on the position only through its topic: positions in the same
/// 16-position window route identically.
pub proof fn lemma_routing_locality(shape: ModelShape, layer: u16, p1: u32, p2: u32)
    requires
        topic(p1) == topic(p2),
    ensures
        routing(shape, layer, p1) == routing(shape, layer, p2),
{
}

/// While fewer than `k` experts are collected, every expert drawn so far is among them.
proof fn lemma_collected_has_draws(seed0: u64, k: u16, n: u16, t: nat, u: nat)
    requires
        1 <= u <= t,
        collected(seed0, k, n, t).len() < k,
    ensures
        collected(seed0, k, n, t).contains(draw(seed_after(seed0, u), n)),
    decreases t,
{
    let c = collected(seed0, k, n, (t - 1) as nat);
    let e = draw(seed_after(seed0, t), n);
    assert(c.len() < k);
    if c.contains(e) {
        assert(collected(seed0, k, n, t) == c);
    } else {
        assert(collected(seed0, k, n, t) == c.push(e));
        assert(c.push(e)[c.len() as int] == e);
    }
    if u < t {
        lemma_collected_has_draws(seed0, k, n, (t - 1) as nat, u);
        let d = draw(seed_after(seed0, u), n);
        let i = choose|i: int| 0 <= i < c.len() && c[i] == d;
        if !c.contains(e) {
            assert(c.push(e)[i] == d);
        }
    }
}

/// A sequence without duplicates that holds every value below `m` has at least `m`
/// items.
proof fn lemma_covering_len(s: Seq<u16>, m: nat)
    requires
        m <= 0x1_0000,
        s.no_duplicates(),
        forall|v: u16| (v as nat) < m ==> s.contains(v),
    ensures
        s.len() >= m,
    decreases m,
{
    if m > 0 {
        let top = (m - 1) as u16;
        assert(s.contains(top));
        let i = choose|i: int| 0 <= i < s.len() && s[i] == top;
        let rest = s.remove(i);
        assert(rest.len() == s.len() - 1);
        assert forall|a: int, b: int|
            0 <= a < rest.len() && 0 <= b < rest.len() && a != b implies rest[a] != rest[b] by {
            let sa = if a < i { a } else { a + 1 };
            let sb = if b < i { b } else { b + 1 };
            assert(rest[a] == s[sa]);
            assert(rest[b] == s[sb]);
        }
        assert forall|v: u16| (v as nat) < (m - 1) as nat implies rest.contains(v) by {
            assert(s.contains(v));
            let j = choose|j: int| 0 <= j < s.len() && s[j] == v;
            assert(j != i);
            if j < i {
                assert(rest[j] == v);
            } else {
                assert(rest[j - 1] == v);
            }
        }
        lemma_covering_len(rest, (m - 1) as nat);
    }
}

/// The routing of a mixture-of-experts layer always names exactly `top_k` experts
/// when there are at least that many experts: the generator has full period, so
/// the draws run through every expert long before the draw limit.
pub proof fn lemma_routing_full(shape: ModelShape, layer: u16, position: u32)
    requires
        shape.n_experts > 0,
        shape.top_k <= shape.n_experts,
    ensures
        routing(shape, layer, position).len() == shape.top_k,
{
    let seed0 = initial_seed(layer, topic(position));
    let k = shape.top_k;
    let n = shape.n_experts;
    let c = collected(seed0, k, n, draw_limit());
    lemma_collected_bounded(seed0, k, n, draw_limit());
    if c.len() < k {
        assert forall|v: u16| (v as nat) < (n as nat) implies c.contains(v) by {
            let t = lemma_every_expert_drawn(seed0, n, v);
            lemma_collected_has_draws(seed0, k, n, draw_limit(), t);
        }
        lemma_covering_len(c, n as nat);
    }
}

} // verus!
