//! Frequency/duration resolver: turns one decomposed token plus the
//! current tempo into an output frequency (0 meaning silence) and a
//! playback duration in milliseconds, mutating the tempo in place.
//!
//! Tempo markers are applied — with clamping after every mutation — before
//! the duration is computed, so markers on a token affect that token's own
//! delay. The duration is `(60000 / bpm) * beats` in integer arithmetic,
//! saturating at `u32::MAX`.

use vstd::prelude::*;

use crate::lexer::{sat_u32, token_wf, Core, Token};
use crate::pitch::{
    lemma_shifted_bounds, natural_base, natural_base_at, sharp_base, sharp_base_at, shift_octave,
    shifted, MAX_FREQUENCY,
};

verus! {

/// Lower end of the legal BPM range.
pub const MIN_BPM: u32 = 60;

/// Upper end of the legal BPM range.
pub const MAX_BPM: u32 = 240;

/// BPM a fresh engine starts with.
pub const DEFAULT_BPM: u32 = 120;

/// Milliseconds per minute: one beat lasts `60000 / bpm` milliseconds.
pub const MS_PER_MINUTE: u32 = 60000;

/// One playback step: what the tone driver is handed for one token.
#[derive(Clone, Copy, PartialEq, Eq, Structural, Debug)]
pub struct Step {
    pub frequency: u32,
    pub duration_ms: u32,
}

/// A BPM forced into the legal range.
pub open spec fn clamped_bpm(b: int) -> int {
    if b < MIN_BPM {
        MIN_BPM as int
    } else if b > MAX_BPM {
        MAX_BPM as int
    } else {
        b
    }
}

/// BPM after `n` leading `(` markers: each one doubles it, clamped.
pub open spec fn bpm_after_opens(b: int, n: nat) -> int
    decreases n,
{
    if n == 0 {
        b
    } else {
        clamped_bpm(2 * bpm_after_opens(b, (n - 1) as nat))
    }
}

/// BPM after `n` trailing `)` markers: each one halves it, clamped.
pub open spec fn bpm_after_closes(b: int, n: nat) -> int
    decreases n,
{
    if n == 0 {
        b
    } else {
        clamped_bpm(bpm_after_closes(b, (n - 1) as nat) / 2)
    }
}

/// BPM after all of a token's tempo markers: the `(` run first, then the
/// `)` run.
pub open spec fn resolve_bpm(t: Token, b: int) -> int {
    bpm_after_closes(bpm_after_opens(b, t.opens as nat), t.closes as nat)
}

/// Milliseconds of one beat at the given BPM.
pub open spec fn beat_ms(b: int) -> int {
    (MS_PER_MINUTE as int) / b
}

/// Duration of a step: beats times the one-beat duration, saturating at
/// `u32::MAX`.
pub open spec fn duration_ms(b: int, beats: int) -> int {
    sat_u32(beat_ms(b) * beats)
}

/// Output frequency of a core symbol: 0 for a rest, an invalid symbol, or
/// a table gap; otherwise the table entry transposed to the written octave.
pub open spec fn frequency_of(c: Core) -> int {
    match c {
        Core::Rest => 0,
        Core::Invalid => 0,
        Core::Note { sharp, index, octave } => {
            let base = if sharp {
                sharp_base(index as int)
            } else {
                natural_base(index as int)
            };
            shifted(base as int, octave as int)
        },
    }
}

/// Output frequency of a whole token.
pub open spec fn resolve_frequency(t: Token) -> int {
    frequency_of(t.core)
}

/// The step a token resolves to at a starting BPM: the duration is taken
/// at the BPM that the token's own markers produce.
pub open spec fn step_of(t: Token, b: int) -> Step {
    Step {
        frequency: resolve_frequency(t) as u32,
        duration_ms: duration_ms(resolve_bpm(t, b), t.beats as int) as u32,
    }
}

pub proof fn lemma_bpm_after_opens_range(b: int, n: nat)
    requires
        MIN_BPM <= b <= MAX_BPM,
    ensures
        MIN_BPM <= bpm_after_opens(b, n) <= MAX_BPM,
    decreases n,
{
    if n > 0 {
        lemma_bpm_after_opens_range(b, (n - 1) as nat);
    }
}

pub proof fn lemma_bpm_after_closes_range(b: int, n: nat)
    requires
        MIN_BPM <= b <= MAX_BPM,
    ensures
        MIN_BPM <= bpm_after_closes(b, n) <= MAX_BPM,
    decreases n,
{
    if n > 0 {
        lemma_bpm_after_closes_range(b, (n - 1) as nat);
    }
}

pub proof fn lemma_resolve_bpm_range(t: Token, b: int)
    requires
        MIN_BPM <= b <= MAX_BPM,
    ensures
        MIN_BPM <= resolve_bpm(t, b) <= MAX_BPM,
{
    lemma_bpm_after_opens_range(b, t.opens as nat);
    lemma_bpm_after_closes_range(bpm_after_opens(b, t.opens as nat), t.closes as nat);
}

/// The frequency of a well-formed core fits the engine's range.
pub proof fn lemma_frequency_bounds(c: Core)
    requires
        crate::lexer::core_wf(c),
    ensures
        0 <= frequency_of(c) <= MAX_FREQUENCY,
{
    match c {
        Core::Note { sharp, index, octave } => {
            let base = if sharp {
                sharp_base(index as int)
            } else {
                natural_base(index as int)
            };
            lemma_shifted_bounds(base as int, octave as int);
        },
        _ => {},
    }
}

/// Forces a BPM into the legal range.
pub fn clamp_bpm(b: u32) -> (r: u32)
    ensures
        r == clamped_bpm(b as int),
{
    if b < MIN_BPM {
        MIN_BPM
    } else if b > MAX_BPM {
        MAX_BPM
    } else {
        b
    }
}

/// Resolves one token against the current tempo: applies its tempo
/// markers to `bpm` in place, then yields the frequency to play and how
/// long to play it.
pub fn resolve(t: &Token, bpm: &mut u32) -> (r: Step)
    requires
        token_wf(*t),
        MIN_BPM <= *old(bpm) <= MAX_BPM,
    ensures
        *final(bpm) == resolve_bpm(*t, *old(bpm) as int),
        MIN_BPM <= *final(bpm) <= MAX_BPM,
        r == step_of(*t, *old(bpm) as int),
{
    let ghost b0: int = *bpm as int;
    let mut i: usize = 0;
    while i < t.opens
        invariant
            0 <= i <= t.opens,
            MIN_BPM <= *bpm <= MAX_BPM,
            *bpm == bpm_after_opens(b0, i as nat),
        decreases t.opens - i,
    {
        *bpm = clamp_bpm(*bpm * 2);
        i = i + 1;
    }
    let mut j: usize = 0;
    while j < t.closes
        invariant
            0 <= j <= t.closes,
            MIN_BPM <= *bpm <= MAX_BPM,
            *bpm == bpm_after_closes(bpm_after_opens(b0, t.opens as nat), j as nat),
        decreases t.closes - j,
    {
        *bpm = clamp_bpm(*bpm / 2);
        j = j + 1;
    }
    let beat: u32 = MS_PER_MINUTE / *bpm;
    proof {
        assert(beat <= 1000) by (nonlinear_arith)
            requires
                beat == MS_PER_MINUTE as int / (*bpm as int),
                MIN_BPM <= *bpm <= MAX_BPM,
        ;
    }
    proof {
        assert((beat as int) * (t.beats as int) <= 1000 * (u32::MAX as int)) by (nonlinear_arith)
            requires
                0 <= beat <= 1000,
                0 <= t.beats <= u32::MAX,
        ;
    }
    let prod: u64 = (beat as u64) * (t.beats as u64);
    let duration: u32 = if prod > u32::MAX as u64 {
        u32::MAX
    } else {
        prod as u32
    };
    let frequency: u32 = match t.core {
        Core::Rest => 0,
        Core::Invalid => 0,
        Core::Note { sharp, index, octave } => {
            let base = if sharp {
                sharp_base_at(index)
            } else {
                natural_base_at(index)
            };
            shift_octave(base, octave)
        },
    };
    proof {
        lemma_frequency_bounds(t.core);
    }
    Step { frequency, duration_ms: duration }
}

} // verus!
