use vstd::prelude::*;
use crate::control::PrecisionTier;

verus! {

/// A block of the KV cache: where it starts, how precisely it is held, and how many
/// times it has been re-encoded.
#[derive(Clone, Copy, Debug, PartialEq, Eq, Structural)]
pub struct KvBlock {
    pub position: u32,
    pub precision: PrecisionTier,
    pub generation: u32,
}

/// The tier a block steps down to when it ages; `Q2` is the floor.
pub open spec fn demoted_tier(p: PrecisionTier) -> PrecisionTier {
    match p {
        PrecisionTier::FP16 => PrecisionTier::Q6,
        PrecisionTier::FP8 => PrecisionTier::Q4,
        PrecisionTier::Q6 => PrecisionTier::Q4,
        PrecisionTier::Q4 => PrecisionTier::Q2,
        PrecisionTier::Q2 => PrecisionTier::Q2,
    }
}

/// Tiers ranked from the coarsest (`Q2`) to the finest (`FP16`).
pub open spec fn tier_rank(p: PrecisionTier) -> nat {
    match p {
        PrecisionTier::Q2 => 0,
        PrecisionTier::Q4 => 1,
        PrecisionTier::Q6 => 2,
        PrecisionTier::FP8 => 3,
        PrecisionTier::FP16 => 4,
    }
}

/// Distance from `start` to `now`, zero when `now` is not past `start`.
pub open spec fn age(start: u32, now: u32) -> nat {
    if now >= start {
        (now - start) as nat
    } else {
        0
    }
}

/// Age-based KV compression policy.
pub struct KvCachePolicy {
    pub demote_age: u32,
}

impl KvCachePolicy {
    pub open spec fn is_stale(&self, block: KvBlock, current_pos: u32) -> bool {
        age(block.position, current_pos) > self.demote_age
    }

    /// The policy that demotes blocks older than `demote_age` positions.
    pub fn new(demote_age: u32) -> (p: Self)
        ensures
            p.demote_age == demote_age,
    {
        KvCachePolicy { demote_age }
    }

    /// Age-based demotion: a block older than `demote_age` steps down one tier and
    /// its generation counter goes up by one; a younger block is kept as it is.
    pub fn demote(&self, block: KvBlock, current_pos: u32) -> (d: KvBlock)
        requires
            self.is_stale(block, current_pos) ==> block.generation < u32::MAX,
        ensures
            !self.is_stale(block, current_pos) ==> d == block,
            self.is_stale(block, current_pos) ==> d == (KvBlock {
                position: block.position,
                precision: demoted_tier(block.precision),
                generation: (block.generation + 1) as u32,
            }),
            // never below Q2, never finer than before, generation never lost
            tier_rank(d.precision) <= tier_rank(block.precision),
            d.generation >= block.generation,
            d.position == block.position,
    {
        if current_pos.saturating_sub(block.position) <= self.demote_age {
            return block;
        }
        let precision = match block.precision {
            PrecisionTier::FP16 => PrecisionTier::Q6,
            PrecisionTier::FP8 => PrecisionTier::Q4,
            PrecisionTier::Q6 => PrecisionTier::Q4,
            PrecisionTier::Q4 => PrecisionTier::Q2,
            PrecisionTier::Q2 => PrecisionTier::Q2,
        };
        KvBlock { precision, generation: block.generation + 1, ..block }
    }
}

/// A stale block that is not yet at `Q2` always loses precision, and one at `Q2`
/// stays there.
pub proof fn lemma_demotion_progress(p: PrecisionTier)
    ensures
        p != PrecisionTier::Q2 ==> tier_rank(demoted_tier(p)) < tier_rank(p),
        p == PrecisionTier::Q2 ==> demoted_tier(p) == PrecisionTier::Q2,
{
}

} // verus!
