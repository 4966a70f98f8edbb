//! The engine's laws: properties that span several functions, stated over
//! the same specification functions the contracts use, and proved here.

use vstd::prelude::*;

use crate::engine::{tick_action, tick_state, EngineState, TickAction};
use crate::lexer::{
    closes_count, closes_rest, digits_value, find_from, is_pitch_letter, letter_index,
    opens_count, opens_rest, token_of, Core,
};
use crate::pitch::{natural_base, shifted};
use crate::resolver::{
    beat_ms, bpm_after_closes, bpm_after_opens, clamped_bpm, frequency_of, resolve_bpm,
    resolve_frequency, step_of, MAX_BPM, MIN_BPM,
};

verus! {

/// A natural-note token — a pitch letter followed by the reference octave
/// digit `4`, with no accidental — resolves to exactly its pitch-table
/// entry.
pub proof fn lemma_natural_note_at_reference_octave(letter: u8)
    requires
        is_pitch_letter(letter),
    ensures
        resolve_frequency(token_of(seq![letter, 52u8])) == natural_base(letter_index(letter)),
{
    let t = seq![letter, 52u8];
    assert(find_from(t, 2, 58) == 2);
    assert(find_from(t, 1, 58) == 2);
    assert(find_from(t, 0, 58) == 2);
    let body = t.subrange(0, 2);
    assert(body =~= t);
    assert(opens_count(t) == 0);
    assert(opens_rest(t) == t);
    assert(closes_count(t) == 0);
    assert(closes_rest(t) == t);
    let rest = t.subrange(0, 1);
    assert(rest =~= seq![letter]);
    let mid = rest.subrange(0, 0);
    assert(mid =~= Seq::<u8>::empty());
    assert(token_of(t).core == (Core::Note {
        sharp: false,
        index: letter_index(letter) as u8,
        octave: 4,
    }));
    assert(shifted(natural_base(letter_index(letter)) as int, 4) == natural_base(
        letter_index(letter),
    ));
}

/// Octave transposition is a pure power-of-two scaling: one octave up
/// exactly doubles the frequency while doubling stays above the reference
/// octave, and one octave down is exactly the integer half.
pub proof fn lemma_octave_scaling(sharp: bool, index: u8, octave: i8)
    requires
        index < 7,
        -1 <= octave <= 8,
    ensures
        ({
            let lo = frequency_of(Core::Note { sharp, index, octave });
            let hi = frequency_of(Core::Note { sharp, index, octave: (octave + 1) as i8 });
            &&& lo == hi / 2
            &&& octave >= 4 ==> hi == 2 * lo
        }),
{
    let base = if sharp {
        crate::pitch::sharp_base(index as int)
    } else {
        natural_base(index as int)
    } as int;
    if octave >= 4 {
        let k = (octave - 4) as nat;
        assert(shifted(base, octave + 1) == crate::pitch::scale_up(base, (k + 1) as nat));
        assert(crate::pitch::scale_up(base, (k + 1) as nat) == 2 * crate::pitch::scale_up(
            base,
            k,
        ));
    } else {
        let k = (3 - octave) as nat;
        assert(shifted(base, octave as int) == crate::pitch::scale_down(base, (k + 1) as nat));
        assert(crate::pitch::scale_down(base, (k + 1) as nat) == crate::pitch::scale_down(
            base,
            k,
        ) / 2);
        if octave + 1 == 4 {
            assert(shifted(base, octave + 1) == crate::pitch::scale_up(base, 0));
            assert(crate::pitch::scale_down(base, 0) == base);
        }
    }
}

/// A `:<digits>` duration suffix scales the step duration linearly: the
/// token `c4:3` lasts exactly three one-beat durations at any legal BPM.
pub proof fn lemma_duration_suffix_scales(bpm: int)
    requires
        MIN_BPM <= bpm <= MAX_BPM,
    ensures
        ({
            let t = token_of(seq![99u8, 52u8, 58u8, 51u8]);
            &&& t.beats == 3
            &&& step_of(t, bpm).duration_ms == 3 * beat_ms(bpm)
        }),
{
    let raw = seq![99u8, 52u8, 58u8, 51u8];
    assert(find_from(raw, 2, 58) == 2);
    assert(find_from(raw, 1, 58) == 2);
    assert(find_from(raw, 0, 58) == 2);
    let digits = raw.subrange(3, 4);
    assert(digits =~= seq![51u8]);
    assert(crate::lexer::digit_run_value(digits, 1, 3) == 3);
    assert(crate::lexer::digit_run_value(digits, 0, 0) == 3);
    assert(digits_value(digits) == 3);
    let body = raw.subrange(0, 2);
    assert(opens_count(body) == 0);
    assert(opens_rest(body) == body);
    assert(closes_count(body) == 0);
    let t = token_of(raw);
    assert(t.beats == 3);
    assert(t.opens == 0 && t.closes == 0);
    assert(resolve_bpm(t, bpm) == bpm);
    assert(0 <= beat_ms(bpm) <= 1000) by (nonlinear_arith)
        requires
            MIN_BPM <= bpm <= MAX_BPM,
    ;
}

/// A tempo marker pair cancels: while doubling stays inside the legal
/// range, playing `(c4` and then `)c4` leaves the BPM where it began.
pub proof fn lemma_tempo_marker_pair_cancels(bpm: int)
    requires
        MIN_BPM <= bpm,
        2 * bpm <= MAX_BPM,
    ensures
        ({
            let up = resolve_bpm(token_of(seq![40u8, 99u8, 52u8]), bpm);
            &&& up == 2 * bpm
            &&& resolve_bpm(token_of(seq![41u8, 99u8, 52u8]), up) == bpm
        }),
{
    let t1 = seq![40u8, 99u8, 52u8];
    assert(find_from(t1, 3, 58) == 3);
    assert(find_from(t1, 2, 58) == 3);
    assert(find_from(t1, 1, 58) == 3);
    assert(find_from(t1, 0, 58) == 3);
    let body1 = t1.subrange(0, 3);
    assert(body1 =~= t1);
    let r1 = t1.subrange(1, 3);
    assert(r1 =~= seq![99u8, 52u8]);
    assert(opens_count(r1) == 0);
    assert(opens_rest(r1) == r1);
    assert(opens_count(t1) == 1);
    assert(opens_rest(t1) == r1);
    assert(closes_count(r1) == 0);
    assert(closes_rest(r1) == r1);
    let tok1 = token_of(t1);
    assert(tok1.opens == 1 && tok1.closes == 0);
    assert(bpm_after_opens(bpm, 1) == clamped_bpm(2 * bpm_after_opens(bpm, 0)));
    assert(resolve_bpm(tok1, bpm) == 2 * bpm);

    let t2 = seq![41u8, 99u8, 52u8];
    assert(find_from(t2, 3, 58) == 3);
    assert(find_from(t2, 2, 58) == 3);
    assert(find_from(t2, 1, 58) == 3);
    assert(find_from(t2, 0, 58) == 3);
    let body2 = t2.subrange(0, 3);
    assert(body2 =~= t2);
    assert(opens_count(t2) == 0);
    assert(opens_rest(t2) == t2);
    let r2 = t2.subrange(1, 3);
    assert(r2 =~= seq![99u8, 52u8]);
    assert(closes_count(r2) == 0);
    assert(closes_rest(r2) == r2);
    assert(closes_count(t2) == 1);
    let tok2 = token_of(t2);
    assert(tok2.opens == 0 && tok2.closes == 1);
    assert(bpm_after_closes(2 * bpm, 1) == clamped_bpm(bpm_after_closes(2 * bpm, 0) / 2));
    assert(resolve_bpm(tok2, 2 * bpm) == bpm);
}

/// The rest token `-` always resolves to frequency 0, leaves the tempo
/// alone, and lasts the default single beat.
pub proof fn lemma_rest_is_silent_one_beat(bpm: int)
    requires
        MIN_BPM <= bpm <= MAX_BPM,
    ensures
        ({
            let t = token_of(seq![45u8]);
            &&& resolve_frequency(t) == 0
            &&& resolve_bpm(t, bpm) == bpm
            &&& step_of(t, bpm).duration_ms == beat_ms(bpm)
        }),
{
    let raw = seq![45u8];
    assert(find_from(raw, 1, 58) == 1);
    assert(find_from(raw, 0, 58) == 1);
    let body = raw.subrange(0, 1);
    assert(body =~= raw);
    assert(opens_count(raw) == 0);
    assert(opens_rest(raw) == raw);
    assert(closes_count(raw) == 0);
    assert(closes_rest(raw) == raw);
    let t = token_of(raw);
    assert(t.core == Core::Rest);
    assert(t.beats == 1 && t.opens == 0 && t.closes == 0);
    assert(resolve_bpm(t, bpm) == bpm);
    assert(0 <= beat_ms(bpm) <= 1000) by (nonlinear_arith)
        requires
            MIN_BPM <= bpm <= MAX_BPM,
    ;
}

/// Stopping is immediate and final until the next `play`: a stopped
/// engine is idle, and a tick arriving after `stop` asks for nothing —
/// in particular it programs no tone.
pub proof fn lemma_stop_silences_next_tick(s: EngineState)
    ensures
        !s.stopped().playing,
        tick_action(s.stopped()) == TickAction::Idle,
        tick_state(s.stopped()) == s.stopped(),
{
}

/// Clamping a BPM always lands inside the legal range, whatever the
/// magnitude of the input.
pub proof fn lemma_clamped_bpm_in_range(b: int)
    ensures
        MIN_BPM <= clamped_bpm(b) <= MAX_BPM,
{
}

/// Clamping a volume always lands inside 0..=100, whatever the magnitude
/// of the input.
pub proof fn lemma_clamped_volume_in_range(v: int)
    ensures
        0 <= crate::engine::clamped_volume(v) <= 100,
{
}

} // verus!
