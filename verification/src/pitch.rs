//! Pitch table: the base frequency of each pitch class at the reference
//! octave, and the power-of-two octave scaling applied to it.
//!
//! Two fixed tables of seven entries each, indexed A..G = 0..6: one for
//! naturals, one for sharps. Two sharp slots (B and E) hold 0, the sentinel
//! for "no such note": a token resolving there plays silence. Raising the
//! octave by one doubles the frequency; lowering it by one halves it
//! (integer division).

use vstd::prelude::*;

verus! {

/// Index of the reference octave: a note written at this octave sounds the
/// table entry unscaled.
pub const REFERENCE_OCTAVE: i8 = 4;

/// Largest entry of either table (the natural B).
pub const MAX_BASE_FREQUENCY: u32 = 494;

/// Largest frequency the engine can produce: the largest table entry
/// scaled up from the reference octave to octave 9.
pub const MAX_FREQUENCY: u32 = 15808;

/// Base frequency of the natural pitch at table index `i` (A..G = 0..6),
/// at the reference octave.
pub open spec fn natural_base(i: int) -> u32 {
    if i == 0 {
        440
    } else if i == 1 {
        494
    } else if i == 2 {
        262
    } else if i == 3 {
        294
    } else if i == 4 {
        330
    } else if i == 5 {
        349
    } else if i == 6 {
        392
    } else {
        0
    }
}

/// Base frequency of the sharp pitch at table index `i` (A#..G# = 0..6),
/// at the reference octave. Indices 1 (B#) and 4 (E#) are the table's
/// intentional gaps and hold 0.
pub open spec fn sharp_base(i: int) -> u32 {
    if i == 0 {
        466
    } else if i == 2 {
        277
    } else if i == 3 {
        311
    } else if i == 5 {
        370
    } else if i == 6 {
        415
    } else {
        0
    }
}

/// `base` doubled `k` times.
pub open spec fn scale_up(base: int, k: nat) -> int
    decreases k,
{
    if k == 0 {
        base
    } else {
        2 * scale_up(base, (k - 1) as nat)
    }
}

/// `base` halved `k` times (integer division at each step).
pub open spec fn scale_down(base: int, k: nat) -> int
    decreases k,
{
    if k == 0 {
        base
    } else {
        scale_down(base, (k - 1) as nat) / 2
    }
}

/// The frequency of a base-table entry transposed to `octave`: one doubling
/// per octave above the reference, one halving per octave below it.
pub open spec fn shifted(base: int, octave: int) -> int {
    if octave >= REFERENCE_OCTAVE {
        scale_up(base, (octave - REFERENCE_OCTAVE) as nat)
    } else {
        scale_down(base, (REFERENCE_OCTAVE - octave) as nat)
    }
}

pub proof fn lemma_scale_up_monotone(a: int, b: int, k: nat)
    requires
        0 <= a <= b,
    ensures
        0 <= scale_up(a, k) <= scale_up(b, k),
    decreases k,
{
    if k > 0 {
        lemma_scale_up_monotone(a, b, (k - 1) as nat);
    }
}

pub proof fn lemma_scale_down_bounds(base: int, k: nat)
    requires
        0 <= base,
    ensures
        0 <= scale_down(base, k) <= base,
    decreases k,
{
    if k > 0 {
        lemma_scale_down_bounds(base, (k - 1) as nat);
    }
}

/// Every shifted table value stays within `MAX_FREQUENCY`: the largest base
/// entry doubled at most five times (octave 9 from the reference octave 4).
pub proof fn lemma_shifted_bounds(base: int, octave: int)
    requires
        0 <= base <= MAX_BASE_FREQUENCY,
        -1 <= octave <= 9,
    ensures
        0 <= shifted(base, octave) <= MAX_FREQUENCY,
{
    if octave >= REFERENCE_OCTAVE {
        lemma_scale_up_monotone(base, MAX_BASE_FREQUENCY as int, (octave - REFERENCE_OCTAVE) as nat);
        lemma_scale_up_within_five(MAX_BASE_FREQUENCY as int, (octave - REFERENCE_OCTAVE) as nat);
        assert(scale_up(MAX_BASE_FREQUENCY as int, 5) == 15808) by {
            reveal_with_fuel(scale_up, 6);
        }
    } else {
        lemma_scale_down_bounds(base, (REFERENCE_OCTAVE - octave) as nat);
    }
}

proof fn lemma_scale_up_within_five(base: int, k: nat)
    requires
        0 <= base,
        k <= 5,
    ensures
        scale_up(base, k) <= scale_up(base, 5),
    decreases 5 - k,
{
    if k < 5 {
        lemma_scale_up_within_five(base, (k + 1) as nat);
        lemma_scale_up_monotone(base, base, k);
    }
}

/// Table lookup for a natural pitch.
pub fn natural_base_at(i: u8) -> (r: u32)
    requires
        i < 7,
    ensures
        r == natural_base(i as int),
        r <= MAX_BASE_FREQUENCY,
{
    match i {
        0 => 440,
        1 => 494,
        2 => 262,
        3 => 294,
        4 => 330,
        5 => 349,
        _ => 392,
    }
}

/// Table lookup for a sharp pitch; 0 marks the two intentional gaps.
pub fn sharp_base_at(i: u8) -> (r: u32)
    requires
        i < 7,
    ensures
        r == sharp_base(i as int),
        r <= MAX_BASE_FREQUENCY,
{
    match i {
        0 => 466,
        1 => 0,
        2 => 277,
        3 => 311,
        4 => 0,
        5 => 370,
        _ => 415,
    }
}

/// Transposes a base-table frequency to the given octave by repeated
/// doubling or halving.
pub fn shift_octave(base: u32, octave: i8) -> (r: u32)
    requires
        base <= MAX_BASE_FREQUENCY,
        -1 <= octave <= 9,
    ensures
        r == shifted(base as int, octave as int),
        r <= MAX_FREQUENCY,
{
    proof {
        lemma_shifted_bounds(base as int, octave as int);
    }
    let mut f: u32 = base;
    if octave >= REFERENCE_OCTAVE {
        let k: u8 = (octave - REFERENCE_OCTAVE) as u8;
        let mut j: u8 = 0;
        while j < k
            invariant
                j <= k,
                k <= 5,
                base <= MAX_BASE_FREQUENCY,
                f == scale_up(base as int, j as nat),
            decreases k - j,
        {
            proof {
                lemma_scale_up_monotone(base as int, MAX_BASE_FREQUENCY as int, j as nat);
                lemma_scale_up_within_five(MAX_BASE_FREQUENCY as int, j as nat);
                assert(scale_up(MAX_BASE_FREQUENCY as int, 5) == 15808) by {
                    reveal_with_fuel(scale_up, 6);
                }
            }
            f = f * 2;
            j = j + 1;
        }
    } else {
        let k: u8 = (REFERENCE_OCTAVE - octave) as u8;
        let mut j: u8 = 0;
        while j < k
            invariant
                j <= k,
                f == scale_down(base as int, j as nat),
            decreases k - j,
        {
            f = f / 2;
            j = j + 1;
        }
    }
    f
}

} // verus!
