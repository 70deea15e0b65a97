use vstd::prelude::*;

verus! {

/// Numeric precision at which a layer, or a KV block, is held.
#[derive(Clone, Copy, Debug, PartialEq, Eq, Structural)]
pub enum PrecisionTier {
    Q2,
    Q4,
    Q6,
    FP8,
    FP16,
}

/// Where a token sits in a chain of reasoning.
#[derive(Clone, Copy, Debug, PartialEq, Eq, Structural)]
pub enum ChainPhase {
    NotReasoning,
    Early,
    Middle,
    Ending,
}

/// How much compute a token deserves.
#[derive(Clone, Copy, Debug, PartialEq, Eq, Structural)]
pub enum DifficultyClass {
    Trivial,
    Normal,
    ReasoningCritical,
}

/// The device a layer runs on.
#[derive(Clone, Copy, Debug, PartialEq, Eq, Structural)]
pub enum Device {
    Gpu,
    Cpu,
}

/// Lexical class of the token being decoded.
#[derive(Clone, Copy, Debug, PartialEq, Eq, Structural)]
pub enum TokenKind {
    Punctuation,
    Formatting,
    CommonWord,
    Content,
    ReasoningMarker,
}

/// Band of the most recent logit margin, which is all the profilers read of it:
/// `Low` when the margin is below 0.5, `High` when it is above 3.0, `Mid` otherwise
/// (a margin that is not a number is neither below nor above anything, so `Mid`).
#[derive(Clone, Copy, Debug, PartialEq, Eq, Structural)]
pub enum MarginBand {
    Low,
    Mid,
    High,
}

/// Bit `i` (0 = least significant) of `x`, as 0 or 1.
pub open spec fn bit_of(x: u64, i: nat) -> nat {
    if i < 64 && (x >> (i as u64)) & 1u64 == 1u64 {
        1
    } else {
        0
    }
}

/// Number of ones among the lowest `n` bits of `x`.
pub open spec fn ones_below(x: u64, n: nat) -> nat
    decreases n,
{
    if n == 0 {
        0
    } else {
        ones_below(x, (n - 1) as nat) + bit_of(x, (n - 1) as nat)
    }
}

/// Number of ones in the 64-bit word `x`.
pub open spec fn popcount(x: u64) -> nat {
    ones_below(x, 64)
}

/// The word whose lowest `n` bits are set and whose others are clear.
pub open spec fn low_mask(n: u16) -> u64 {
    if n == 64 {
        u64::MAX
    } else {
        ((1u64 << (n as u64)) - 1) as u64
    }
}

/// Bitset of active attention heads, one bit per head (at most 64 heads per layer).
#[derive(Clone, Copy, Debug, PartialEq, Eq, Structural)]
pub struct HeadMask(pub u64);

impl HeadMask {
    /// The mask with heads `0 .. n_heads` active.
    pub fn all(n_heads: u16) -> (m: HeadMask)
        requires
            n_heads <= 64,
        ensures
            m.0 == low_mask(n_heads),
    {
        if n_heads == 64 {
            HeadMask(u64::MAX)
        } else {
            assert(1u64 << (n_heads as u64) >= 1u64) by (bit_vector)
                requires
                    n_heads < 64,
            ;
            HeadMask((1u64 << n_heads) - 1)
        }
    }

    /// Number of active heads.
    pub fn count(&self) -> (c: u32)
        ensures
            c == popcount(self.0),
    {
        let x = self.0;
        let mut c: u32 = 0;
        let mut i: u64 = 0;
        while i < 64
            invariant
                i <= 64,
                c == ones_below(x, i as nat),
                c <= i,
            decreases 64 - i,
        {
            let b = (x >> i) & 1u64;
            assert(b <= 1u64) by (bit_vector)
                requires
                    b == (x >> i) & 1u64,
            ;
            assert(bit_of(x, i as nat) == b);
            c = c + (b as u32);
            i = i + 1;
        }
        c
    }

    /// Whether head `head` is active.
    pub fn is_set(&self, head: u16) -> (r: bool)
        requires
            head < 64,
        ensures
            r == (bit_of(self.0, head as nat) == 1),
    {
        let x = self.0;
        let r = x & (1u64 << head) != 0;
        assert(((x & (1u64 << (head as u64))) != 0u64) == ((x >> (head as u64)) & 1u64 == 1u64))
            by (bit_vector)
            requires
                head < 64,
        ;
        r
    }
}

/// The mask of the first `n` heads has exactly the heads below `n` set.
pub proof fn lemma_low_mask_bits(n: u16, i: nat)
    requires
        n <= 64,
    ensures
        bit_of(low_mask(n), i) == (if i < n { 1nat } else { 0nat }),
{
    if i < 64 {
        let ii = i as u64;
        if n == 64 {
            assert((u64::MAX >> ii) & 1u64 == 1u64) by (bit_vector)
                requires
                    ii < 64,
            ;
        } else {
            let nn = n as u64;
            assert(((((1u64 << nn) - 1u64) as u64 >> ii) & 1u64 == 1u64) == (ii < nn)) by (bit_vector)
                requires
                    ii < 64,
                    nn < 64,
            ;
        }
    }
}

proof fn lemma_low_mask_ones_below(n: u16, k: nat)
    requires
        n <= 64,
    ensures
        ones_below(low_mask(n), k) == (if k < n { k } else { n as nat }),
    decreases k,
{
    if k > 0 {
        lemma_low_mask_ones_below(n, (k - 1) as nat);
        lemma_low_mask_bits(n, (k - 1) as nat);
    }
}

/// `HeadMask::all(n)` activates exactly `n` heads, and head `i` is active exactly
/// when `i < n`.
pub proof fn lemma_all_heads(n: u16, i: nat)
    requires
        n <= 64,
    ensures
        popcount(low_mask(n)) == n,
        bit_of(low_mask(n), i) == 1 <==> i < n,
{
    lemma_low_mask_ones_below(n, 64);
    lemma_low_mask_bits(n, i);
}

} // verus!
