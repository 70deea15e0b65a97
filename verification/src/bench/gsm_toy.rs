use vstd::prelude::*;
use crate::control::{ChainPhase, TokenKind};

verus! {

/// The integer outline of one step of a GSM-style toy sample: its token id, kind and
/// chain phase, and the oscillator (in thousandths) that its logit margin and entropy
/// are derived from.
#[derive(Clone, Copy, Debug, PartialEq, Eq, Structural)]
pub struct StepOutline {
    pub token_id: u32,
    pub token_kind: TokenKind,
    pub chain_phase: ChainPhase,
    pub osc_milli: u32,
}

/// The kind of the token at position `p`: a repeating pattern of eight.
pub open spec fn toy_kind(p: u32) -> TokenKind {
    let r = p % 8;
    if r == 0 || r == 1 {
        TokenKind::Content
    } else if r == 2 {
        TokenKind::CommonWord
    } else if r == 3 || r == 4 {
        TokenKind::ReasoningMarker
    } else if r == 5 {
        TokenKind::Formatting
    } else if r == 6 {
        TokenKind::Punctuation
    } else {
        TokenKind::Content
    }
}

/// The phase at position `p` of a `len`-step chain: a short setup, a long middle and
/// a short closing of two steps each.
pub open spec fn toy_phase(p: u32, len: u32) -> ChainPhase {
    if p < 2 {
        ChainPhase::Early
    } else if p < len - 2 {
        ChainPhase::Middle
    } else {
        ChainPhase::Ending
    }
}

/// The oscillator of step `p` of sample `seed`, in thousandths.
pub open spec fn toy_osc(seed: u32, p: u32) -> u32 {
    (seed.wrapping_mul(2654435761) ^ p.wrapping_mul(40503)) % 1000
}

/// Names of the five toy samples.
pub open spec fn toy_sample_name(i: u32) -> Seq<char> {
    if i == 0 {
        "gsm-toy-01"@
    } else if i == 1 {
        "gsm-toy-02"@
    } else if i == 2 {
        "gsm-toy-03"@
    } else if i == 3 {
        "gsm-toy-04"@
    } else {
        "gsm-toy-05"@
    }
}

/// A GSM8K-shaped toy task: five samples of 64 steps whose chains are dominated by
/// their reasoning middle.
pub struct GsmToy;

impl GsmToy {
    /// The task's name.
    pub fn name(&self) -> (s: &'static str)
        ensures
            s@ == "gsm-toy"@,
    {
        "gsm-toy"
    }

    /// Number of samples the task has.
    pub fn sample_count(&self) -> (n: u32)
        ensures
            n == 5,
    {
        5
    }

    /// Number of steps each sample has.
    pub fn sample_len(&self) -> (n: u32)
        ensures
            n == 64,
    {
        64
    }

    /// The name of sample `i`.
    pub fn sample_name(&self, i: u32) -> (s: &'static str)
        requires
            i < 5,
        ensures
            s@ == toy_sample_name(i),
    {
        if i == 0 {
            "gsm-toy-01"
        } else if i == 1 {
            "gsm-toy-02"
        } else if i == 2 {
            "gsm-toy-03"
        } else if i == 3 {
            "gsm-toy-04"
        } else {
            "gsm-toy-05"
        }
    }

    /// The integer outline of step `p` of a `len`-step sample with seed `seed`.
    pub fn step_outline(&self, seed: u32, p: u32, len: u32) -> (o: StepOutline)
        requires
            seed * 1000 + p <= u32::MAX,
            p >= 2 ==> len >= 2,
        ensures
            o == (StepOutline {
                token_id: (seed * 1000 + p) as u32,
                token_kind: toy_kind(p),
                chain_phase: toy_phase(p, len),
                osc_milli: toy_osc(seed, p),
            }),
            o.osc_milli < 1000,
    {
        let kind = match p % 8 {
            0 | 1 => TokenKind::Content,
            2 => TokenKind::CommonWord,
            3 | 4 => TokenKind::ReasoningMarker,
            5 => TokenKind::Formatting,
            6 => TokenKind::Punctuation,
            _ => TokenKind::Content,
        };
        let phase = if p < 2 {
            ChainPhase::Early
        } else if p < len - 2 {
            ChainPhase::Middle
        } else {
            ChainPhase::Ending
        };
        let osc = (seed.wrapping_mul(2654435761) ^ p.wrapping_mul(40503)) % 1000;
        StepOutline { token_id: seed * 1000 + p, token_kind: kind, chain_phase: phase, osc_milli: osc }
    }
}

/// Every sample of at least four steps exercises the reasoning path: its step 3 is a
/// reasoning marker; and in a 64-step sample all but the first two and the last two
/// steps are in the middle of the chain.
pub proof fn lemma_toy_shape(p: u32)
    ensures
        toy_kind(3) == TokenKind::ReasoningMarker,
        2 <= p < 62 ==> toy_phase(p, 64) == ChainPhase::Middle,
{
}

} // verus!
