//! Tone driver model: what one playback step programs into the oscillator.
//!
//! A frequency of 0 disables the output entirely (silence). Otherwise the
//! oscillator is set to the frequency with a duty cycle proportional to the
//! volume, where full volume (100) corresponds to a 50% duty cycle — the
//! loudest setting for a square-wave-driven speaker. The command is always
//! to be applied with the output disabled first, so a step never plays a
//! half-reprogrammed tone.

use vstd::prelude::*;

use vstd::arithmetic::div_mod::lemma_div_is_ordered;
use vstd::arithmetic::mul::lemma_mul_inequality;

verus! {

/// What the hardware oscillator is told for one step.
#[derive(Clone, Copy, PartialEq, Eq, Structural, Debug)]
pub enum ToneCommand {
    /// Disable the output: play nothing.
    Silence,
    /// Program the period from `frequency`, set `duty`, enable the output.
    Tone { frequency: u32, duty: u16 },
}

/// Duty-cycle counts for a volume: `max_duty * volume / 200`, so that
/// volume 100 yields half of `max_duty`.
pub open spec fn duty_of(max_duty: int, volume: int) -> int {
    max_duty * volume / 200
}

/// A volume's duty cycle never exceeds half the duty range.
pub proof fn lemma_duty_at_most_half(max_duty: int, volume: int)
    requires
        0 <= max_duty,
        0 <= volume <= 100,
    ensures
        0 <= duty_of(max_duty, volume) <= max_duty / 2,
{
    lemma_mul_inequality(volume, 100, max_duty);
    assert(max_duty * volume <= max_duty * 100) by (nonlinear_arith)
        requires
            0 <= max_duty,
            0 <= volume <= 100,
    ;
    lemma_div_is_ordered(max_duty * volume, max_duty * 100, 200);
    assert(max_duty * 100 / 200 == max_duty / 2) by (nonlinear_arith);
    assert(0 <= max_duty * volume) by (nonlinear_arith)
        requires
            0 <= max_duty,
            0 <= volume,
    ;
    assert(0 <= max_duty * volume / 200);
}

/// Computes the duty cycle for a volume against the oscillator's duty
/// range.
pub fn duty_cycle(max_duty: u16, volume: u32) -> (d: u16)
    requires
        volume <= 100,
    ensures
        d == duty_of(max_duty as int, volume as int),
        d <= max_duty / 2,
{
    proof {
        lemma_duty_at_most_half(max_duty as int, volume as int);
    }
    let wide: u32 = (max_duty as u32) * volume;
    (wide / 200) as u16
}

/// Resolves one step's frequency and the current volume into a tone
/// command: frequency 0 silences the output, anything else programs a
/// tone at the volume's duty cycle.
pub fn apply(frequency: u32, volume: u32, max_duty: u16) -> (c: ToneCommand)
    requires
        volume <= 100,
    ensures
        c == (if frequency == 0 {
            ToneCommand::Silence
        } else {
            ToneCommand::Tone { frequency, duty: duty_of(max_duty as int, volume as int) as u16 }
        }),
{
    if frequency == 0 {
        ToneCommand::Silence
    } else {
        ToneCommand::Tone { frequency, duty: duty_cycle(max_duty, volume) }
    }
}

} // verus!
