// The routing generator `x -> a*x + c (mod 2^64)` has `a = 1 (mod 4)` and `c` odd,
// so it runs through every residue modulo `2^j` within `2^j` steps.
use vstd::prelude::*;
use vstd::arithmetic::div_mod::{
    lemma_add_mod_noop,
    lemma_fundamental_div_mod,
    lemma_fundamental_div_mod_converse_mod,
    lemma_mod_bound,
    lemma_mod_mod,
    lemma_mul_mod_noop_right,
    lemma_small_mod,
};
use vstd::arithmetic::power2::{
    lemma2_to64, lemma2_to64_rest, lemma_pow2_adds, lemma_pow2_pos, lemma_pow2_unfold, pow2,
};
use crate::sim::model::{draw, lcg_next, seed_after};

verus! {

/// The generator's multiplier.
spec fn mult() -> int {
    6364136223846793005
}

/// The generator's increment.
spec fn incr() -> int {
    1442695040888963407
}

/// The modulus of 64-bit arithmetic.
spec fn word() -> int {
    0x1_0000_0000_0000_0000
}

/// The multiplier raised to the `s`-th power.
spec fn mult_pow(s: nat) -> int
    decreases s,
{
    if s == 0 {
        1
    } else {
        mult() * mult_pow((s - 1) as nat)
    }
}

/// The geometric sum `1 + a + ... + a^(s-1)` of the multiplier `a`.
spec fn mult_sum(s: nat) -> int
    decreases s,
{
    if s == 0 {
        0
    } else {
        mult() * mult_sum((s - 1) as nat) + 1
    }
}

/// One generator step is the affine map `x -> a*x + c` modulo 2^64.
proof fn lemma_step(x: u64)
    ensures
        lcg_next(x) as int == (mult() * x + incr()) % word(),
{
    let m = (x as int * mult()) % word();
    lemma_mod_bound(x as int * mult(), word());
    lemma_add_mod_noop(x as int * mult(), incr(), word());
    lemma_small_mod(incr() as nat, word() as nat);
    if m + incr() >= word() {
        lemma_fundamental_div_mod_converse_mod(m + incr(), word(), 1, m + incr() - word());
    } else {
        lemma_small_mod((m + incr()) as nat, word() as nat);
    }
}

/// `s` steps from `x` land on `a^s * x + c * (1 + a + ... + a^(s-1))` modulo 2^64.
proof fn lemma_closed_form(x: u64, s: nat)
    ensures
        seed_after(x, s) as int == (mult_pow(s) * x + incr() * mult_sum(s)) % word(),
    decreases s,
{
    if s == 0 {
        lemma_small_mod(x as nat, word() as nat);
    } else {
        let s0 = (s - 1) as nat;
        lemma_closed_form(x, s0);
        let y = seed_after(x, s0);
        lemma_step(y);
        let v = mult_pow(s0) * x + incr() * mult_sum(s0);
        lemma_mod_bound(v, word());
        lemma_mul_mod_noop_right(mult(), v, word());
        lemma_add_mod_noop(mult() * (v % word()), incr(), word());
        lemma_add_mod_noop(mult() * v, incr(), word());
        assert(mult() * v + incr() == mult_pow(s) * x + incr() * mult_sum(s)) by (nonlinear_arith)
            requires
                v == mult_pow(s0) * x + incr() * mult_sum(s0),
                mult_pow(s) == mult() * mult_pow(s0),
                mult_sum(s) == mult() * mult_sum(s0) + 1,
        ;
    }
}

/// Running `t` steps and then `s` more is running `t + s` steps.
proof fn lemma_compose(x: u64, t: nat, s: nat)
    ensures
        seed_after(x, t + s) == seed_after(seed_after(x, t), s),
    decreases s,
{
    if s > 0 {
        lemma_compose(x, t, (s - 1) as nat);
        assert(t + s - 1 == (t + (s - 1)) as nat);
    }
}

/// Every power of the multiplier is 1 modulo 4, since the multiplier is.
proof fn lemma_mult_pow_one_mod_four(s: nat) -> (q: int)
    ensures
        mult_pow(s) == 4 * q + 1,
    decreases s,
{
    if s == 0 {
        0
    } else {
        let q0 = lemma_mult_pow_one_mod_four((s - 1) as nat);
        mult() * q0 + 1591034055961698251
    }
}

/// Splitting a geometric sum: `S(s + t) == a^t * S(s) + S(t)`.
proof fn lemma_sum_split(s: nat, t: nat)
    ensures
        mult_sum(s + t) == mult_pow(t) * mult_sum(s) + mult_sum(t),
    decreases t,
{
    if t > 0 {
        let t0 = (t - 1) as nat;
        lemma_sum_split(s, t0);
        assert(s + t - 1 == (s + t0) as nat);
        assert(mult() * (mult_pow(t0) * mult_sum(s)) == (mult() * mult_pow(t0)) * mult_sum(s))
            by (nonlinear_arith);
    }
}

/// The geometric sum over `2^j` terms is `2^j` times an odd number.
proof fn lemma_sum_pow2(j: nat) -> (o: int)
    ensures
        mult_sum(pow2(j)) == pow2(j) * (2 * o + 1),
    decreases j,
{
    if j == 0 {
        lemma2_to64();
        assert(mult_sum(0) == 0);
        assert(mult_sum(1) == 1);
        0
    } else {
        let j0 = (j - 1) as nat;
        let o0 = lemma_sum_pow2(j0);
        let h = pow2(j0);
        lemma_pow2_unfold(j);
        lemma_sum_split(h, h);
        assert(h + h == pow2(j));
        let q = lemma_mult_pow_one_mod_four(h);
        let o = 2 * o0 * q + o0 + q;
        assert(mult_sum(pow2(j)) == pow2(j) * (2 * o + 1)) by (nonlinear_arith)
            requires
                mult_sum(pow2(j)) == mult_pow(h) * mult_sum(h) + mult_sum(h),
                mult_sum(h) == h * (2 * o0 + 1),
                mult_pow(h) == 4 * q + 1,
                pow2(j) == 2 * h,
                o == 2 * o0 * q + o0 + q,
        ;
        o
    }
}

/// `a^s - 1 == (a - 1) * S(s)`.
proof fn lemma_pow_minus_one(s: nat)
    ensures
        mult_pow(s) - 1 == (mult() - 1) * mult_sum(s),
    decreases s,
{
    if s > 0 {
        let s0 = (s - 1) as nat;
        lemma_pow_minus_one(s0);
        assert(mult_pow(s) - 1 == (mult() - 1) * mult_sum(s)) by (nonlinear_arith)
            requires
                mult_pow(s0) - 1 == (mult() - 1) * mult_sum(s0),
                mult_pow(s) == mult() * mult_pow(s0),
                mult_sum(s) == mult() * mult_sum(s0) + 1,
        ;
    }
}

/// Running `2^j` steps moves the state by `2^j` modulo `2^(j+1)`: the difference
/// is `2^j` times an odd number.
proof fn lemma_shift_pow2(x: u64, j: nat)
    requires
        j < 64,
    ensures
        (seed_after(x, pow2(j)) as int - x) % (pow2(j + 1) as int) == pow2(j),
{
    let s: int = pow2(j) as int;
    let r: int = pow2(j + 1) as int;
    let big: int = pow2((63 - j) as nat) as int;
    lemma_pow2_pos(j);
    lemma_pow2_pos((63 - j) as nat);
    lemma_pow2_unfold(j + 1);
    assert(r == 2 * s);
    lemma_pow2_adds(j + 1, (63 - j) as nat);
    assert(j + 1 + (63 - j) == 64);
    lemma2_to64();
    assert(word() == r * big);
    lemma_closed_form(x, pow2(j));
    lemma_pow_minus_one(pow2(j));
    let o = lemma_sum_pow2(j);
    let p = mult_pow(pow2(j));
    let g = mult_sum(pow2(j));
    let v = p * x + incr() * g;
    let y = seed_after(x, pow2(j)) as int;
    lemma_fundamental_div_mod(v, word());
    let fl = v / word();
    assert(y == v - word() * fl);
    let e = 2 * 1591034055961698251 * (x as int) + 721347520444481703;
    assert((mult() - 1) * x + incr() == 2 * e + 1) by (nonlinear_arith)
        requires
            mult() == 6364136223846793005,
            incr() == 1442695040888963407,
            e == 2 * 1591034055961698251 * (x as int) + 721347520444481703,
    ;
    let w = 2 * o * e + o + e;
    assert(v - x == s * (2 * w + 1)) by (nonlinear_arith)
        requires
            v == p * x + incr() * g,
            p - 1 == (mult() - 1) * g,
            g == s * (2 * o + 1),
            (mult() - 1) * x + incr() == 2 * e + 1,
            w == 2 * o * e + o + e,
    ;
    let q = w - big * fl;
    assert(y - x == q * r + s) by (nonlinear_arith)
        requires
            y == v - word() * fl,
            v - x == s * (2 * w + 1),
            word() == r * big,
            r == 2 * s,
            q == w - big * fl,
    ;
    lemma_fundamental_div_mod_converse_mod(y - x, r, q, s);
}

/// Residues in `[0, 2q)` that agree modulo `q` but differ are `q` apart; so a state
/// that agrees with `y` modulo `q` but not modulo `2q`, moved by `q` modulo `2q`,
/// agrees with `y` modulo `2q`.
proof fn lemma_lift(z: int, y: int, w: int, q: int)
    requires
        q > 0,
        z % q == y % q,
        (w - z) % (2 * q) == q,
        z % (2 * q) != y % (2 * q),
    ensures
        w % (2 * q) == y % (2 * q),
{
    let r = 2 * q;
    lemma_mod_bound(z, r);
    lemma_mod_bound(y, r);
    lemma_mod_mod(z, q, 2);
    lemma_mod_mod(y, q, 2);
    assert(q * 2 == r);
    let zr = z % r;
    let yr = y % r;
    if zr < q {
        lemma_small_mod(zr as nat, q as nat);
    } else {
        lemma_fundamental_div_mod_converse_mod(zr, q, 1, zr - q);
    }
    if yr < q {
        lemma_small_mod(yr as nat, q as nat);
    } else {
        lemma_fundamental_div_mod_converse_mod(yr, q, 1, yr - q);
    }
    lemma_fundamental_div_mod(z, r);
    lemma_fundamental_div_mod(w - z, r);
    let a = z / r;
    let k = (w - z) / r;
    assert(w == r * a + zr + r * k + q);
    if zr == yr + q {
        assert(w == (a + k + 1) * r + yr) by (nonlinear_arith)
            requires
                w == r * a + zr + r * k + q,
                zr == yr + q,
                r == 2 * q,
        ;
        lemma_fundamental_div_mod_converse_mod(w, r, a + k + 1, yr);
    } else {
        assert(zr == yr - q);
        assert(w == (a + k) * r + yr) by (nonlinear_arith)
            requires
                w == r * a + zr + r * k + q,
                zr == yr - q,
        ;
        lemma_fundamental_div_mod_converse_mod(w, r, a + k, yr);
    }
}

/// Within `2^j` steps the generator reaches every residue modulo `2^j`.
proof fn lemma_reach(x: u64, y: int, j: nat) -> (t: nat)
    requires
        j <= 64,
    ensures
        t < pow2(j),
        (seed_after(x, t) as int) % (pow2(j) as int) == y % (pow2(j) as int),
    decreases j,
{
    if j == 0 {
        lemma2_to64();
        0
    } else {
        let j0 = (j - 1) as nat;
        let t0 = lemma_reach(x, y, j0);
        let z = seed_after(x, t0);
        let q: int = pow2(j0) as int;
        let r: int = pow2(j) as int;
        lemma_pow2_unfold(j);
        lemma_pow2_pos(j0);
        if (z as int) % r == y % r {
            t0
        } else {
            lemma_shift_pow2(z, j0);
            lemma_compose(x, t0, pow2(j0));
            let w = seed_after(x, t0 + pow2(j0));
            lemma_lift(z as int, y, w as int, q);
            t0 + pow2(j0)
        }
    }
}

/// A state whose low 49 bits are `e` shifted up by 33 draws expert `e` from bits 33..49.
proof fn lemma_draw_bits(x: u64, e: u16)
    requires
        x % 0x2_0000_0000_0000u64 == (e as u64) * 0x2_0000_0000u64,
    ensures
        ((x >> 33u64) as u16) == e,
{
    assert(x % 0x2_0000_0000_0000u64 == (e as u64) * 0x2_0000_0000u64 ==> ((x >> 33u64) as u16)
        == e) by (bit_vector);
}

/// The generator has full period modulo `2^49`, so within the first `2^49` draws
/// (counted from 1) every expert below `n` is drawn.
pub proof fn lemma_every_expert_drawn(seed0: u64, n: u16, e: u16) -> (t: nat)
    requires
        e < n,
    ensures
        1 <= t <= pow2(49),
        pow2(49) < u64::MAX,
        draw(seed_after(seed0, t), n) == e,
{
    let s1 = seed_after(seed0, 1);
    let y: int = e as int * 0x2_0000_0000;
    let t0 = lemma_reach(s1, y, 49);
    lemma_compose(seed0, 1, t0);
    let x = seed_after(seed0, 1 + t0);
    assert(x == seed_after(s1, t0));
    lemma2_to64_rest();
    lemma_small_mod(y as nat, 0x2_0000_0000_0000nat);
    assert((x as int) % 0x2_0000_0000_0000int == y);
    assert(x % 0x2_0000_0000_0000u64 == (e as u64) * 0x2_0000_0000u64);
    lemma_draw_bits(x, e);
    lemma_small_mod(e as nat, n as nat);
    1 + t0
}

} // verus!
