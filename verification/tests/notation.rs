//! Tests of the note lexer: the character readers, the integer reader,
//! token splitting, and token decomposition.

use tune_engine::lexer::{
    next_token, parse_core, parse_token, read_char, read_char_if, read_int, read_sharp_or_flat,
    Core, Token,
};

#[test]
fn read_char_from_front() {
    let r = read_char(b"abc", b'a', false);
    assert_eq!(r, Some((&b"bc"[..], b'a')));
}

#[test]
fn read_char_from_front_misses() {
    assert_eq!(read_char(b"abc", b'b', false), None);
}

#[test]
fn read_char_from_end() {
    let r = read_char(b"abc", b'c', true);
    assert_eq!(r, Some((&b"ab"[..], b'c')));
}

#[test]
fn read_char_from_end_falls_back_to_front() {
    let r = read_char(b"cba", b'c', true);
    assert_eq!(r, Some((&b"ba"[..], b'c')));
}

#[test]
fn read_char_empty() {
    assert_eq!(read_char(b"", b'a', false), None);
    assert_eq!(read_char(b"", b'a', true), None);
}

#[test]
fn read_char_if_digit_at_end() {
    let r = read_char_if(b"a4", b'0', b'9', true);
    assert_eq!(r, Some((&b"a"[..], b'4')));
}

#[test]
fn read_char_if_checks_only_chosen_end() {
    assert_eq!(read_char_if(b"a4", b'0', b'9', false), None);
    assert_eq!(read_char_if(b"", b'0', b'9', true), None);
}

#[test]
fn read_char_if_empty_range_matches_nothing() {
    assert_eq!(read_char_if(b"m", b'z', b'a', false), None);
}

#[test]
fn read_sharp_or_flat_reads_both() {
    assert_eq!(read_sharp_or_flat(b"#c", false), Some((&b"c"[..], b'#')));
    assert_eq!(read_sharp_or_flat(b"bc", false), Some((&b"c"[..], b'b')));
    assert_eq!(read_sharp_or_flat(b"c", false), None);
}

#[test]
fn read_int_plain() {
    assert_eq!(read_int("123"), Some(123));
}

#[test]
fn read_int_zero_and_empty_yield_nothing() {
    assert_eq!(read_int("0"), None);
    assert_eq!(read_int("00"), None);
    assert_eq!(read_int(""), None);
    assert_eq!(read_int("x1"), None);
}

#[test]
fn read_int_is_greedy_and_stops_at_non_digit() {
    assert_eq!(read_int("12x3"), Some(12));
    assert_eq!(read_int("007"), Some(7));
}

#[test]
fn read_int_saturates() {
    assert_eq!(read_int("99999999999999999999"), Some(u32::MAX));
}

#[test]
fn next_token_splits_on_whitespace() {
    let tune = b"c4 g4";
    assert_eq!(next_token(tune, 0), Some((0, 2)));
    assert_eq!(next_token(tune, 2), Some((3, 5)));
    assert_eq!(next_token(tune, 5), None);
}

#[test]
fn next_token_skips_leading_and_mixed_whitespace() {
    let tune = b"  c4\n\tg4  ";
    assert_eq!(next_token(tune, 0), Some((2, 4)));
    assert_eq!(next_token(tune, 4), Some((6, 8)));
    assert_eq!(next_token(tune, 8), None);
}

#[test]
fn next_token_empty_tune() {
    assert_eq!(next_token(b"", 0), None);
    assert_eq!(next_token(b"   ", 0), None);
}

#[test]
fn parse_core_natural() {
    let c = parse_core(b"c4");
    assert_eq!(c, Core::Note { sharp: false, index: 2, octave: 4 });
}

#[test]
fn parse_core_uppercase() {
    let c = parse_core(b"G7");
    assert_eq!(c, Core::Note { sharp: false, index: 6, octave: 7 });
}

#[test]
fn parse_core_sharp() {
    let c = parse_core(b"#f4");
    assert_eq!(c, Core::Note { sharp: true, index: 5, octave: 4 });
}

#[test]
fn parse_core_flat_is_sharp_of_semitone_below() {
    // B flat is A sharp.
    let c = parse_core(b"bb4");
    assert_eq!(c, Core::Note { sharp: true, index: 0, octave: 4 });
}

#[test]
fn parse_core_flat_wraps_a_to_g() {
    // A flat wraps to G sharp.
    let c = parse_core(b"ba4");
    assert_eq!(c, Core::Note { sharp: true, index: 6, octave: 4 });
}

#[test]
fn parse_core_flat_c_lands_on_silent_slot_and_drops_octave() {
    // C flat lands on the silent B slot one octave down.
    let c = parse_core(b"bc4");
    assert_eq!(c, Core::Note { sharp: true, index: 1, octave: 3 });
}

#[test]
fn parse_core_rest() {
    assert_eq!(parse_core(b"-"), Core::Rest);
}

#[test]
fn parse_core_malformed() {
    assert_eq!(parse_core(b""), Core::Invalid);
    assert_eq!(parse_core(b"c"), Core::Invalid);
    assert_eq!(parse_core(b"4"), Core::Invalid);
    assert_eq!(parse_core(b"x9z"), Core::Invalid);
}

#[test]
fn parse_core_ignores_leftover_bytes() {
    let c = parse_core(b"zzc4");
    assert_eq!(c, Core::Note { sharp: false, index: 2, octave: 4 });
}

#[test]
fn parse_token_plain_note() {
    let t = parse_token(b"c4");
    assert_eq!(
        t,
        Token { opens: 0, closes: 0, beats: 1, core: Core::Note { sharp: false, index: 2, octave: 4 } }
    );
}

#[test]
fn parse_token_duration_suffix() {
    let t = parse_token(b"c4:3");
    assert_eq!(t.beats, 3);
    assert_eq!(t.core, Core::Note { sharp: false, index: 2, octave: 4 });
}

#[test]
fn parse_token_zero_duration_defaults_to_one_beat() {
    assert_eq!(parse_token(b"c4:0").beats, 1);
    assert_eq!(parse_token(b"c4:").beats, 1);
}

#[test]
fn parse_token_tempo_markers() {
    let t = parse_token(b"((c4))");
    assert_eq!(t.opens, 2);
    assert_eq!(t.closes, 2);
    assert_eq!(t.core, Core::Note { sharp: false, index: 2, octave: 4 });
}

#[test]
fn parse_token_leading_close_marker_is_accepted() {
    let t = parse_token(b")c4");
    assert_eq!(t.opens, 0);
    assert_eq!(t.closes, 1);
    assert_eq!(t.core, Core::Note { sharp: false, index: 2, octave: 4 });
}

#[test]
fn parse_token_duration_digits_read_greedily() {
    // The `)` sits after the digits, so it belongs to the ignored tail of
    // the duration suffix, not to the marker runs.
    let t = parse_token(b"c4:2)");
    assert_eq!(t.beats, 2);
    assert_eq!(t.closes, 0);
}

#[test]
fn parse_token_rest() {
    let t = parse_token(b"-");
    assert_eq!(t, Token { opens: 0, closes: 0, beats: 1, core: Core::Rest });
}
