//! Tests of the resolver, the tone driver model, and both playback
//! drivers, including the engine's end-to-end behavior.

use tune_engine::engine::{Button, Music, TickAction};
use tune_engine::resolver::Step;
use tune_engine::tone::{apply, duty_cycle, ToneCommand};

fn blocking_steps(tune: &[u8]) -> Vec<Step> {
    let mut m = Music::new();
    m.play_blocking(tune)
}

#[test]
fn natural_notes_at_octave_four_match_the_table() {
    let steps = blocking_steps(b"a4 b4 c4 d4 e4 f4 g4");
    let freqs: Vec<u32> = steps.iter().map(|s| s.frequency).collect();
    assert_eq!(freqs, vec![440, 494, 262, 294, 330, 349, 392]);
}

#[test]
fn sharp_notes_match_the_sharp_table() {
    let steps = blocking_steps(b"#a4 #c4 #d4 #f4 #g4");
    let freqs: Vec<u32> = steps.iter().map(|s| s.frequency).collect();
    assert_eq!(freqs, vec![466, 277, 311, 370, 415]);
}

#[test]
fn sharp_table_gaps_are_silent() {
    let steps = blocking_steps(b"#b4 #e4");
    let freqs: Vec<u32> = steps.iter().map(|s| s.frequency).collect();
    assert_eq!(freqs, vec![0, 0]);
}

#[test]
fn flats_fold_onto_the_sharp_below() {
    // B flat = A sharp, A flat wraps to G sharp, C flat hits the silent
    // slot.
    let steps = blocking_steps(b"bb4 ba4 bc4");
    let freqs: Vec<u32> = steps.iter().map(|s| s.frequency).collect();
    assert_eq!(freqs, vec![466, 415, 0]);
}

#[test]
fn octave_up_doubles_and_octave_down_halves() {
    let steps = blocking_steps(b"c3 c4 c5 c6");
    let freqs: Vec<u32> = steps.iter().map(|s| s.frequency).collect();
    assert_eq!(freqs, vec![131, 262, 524, 1048]);
}

#[test]
fn extreme_octaves_stay_in_range() {
    let steps = blocking_steps(b"c0 c9 b9");
    let freqs: Vec<u32> = steps.iter().map(|s| s.frequency).collect();
    assert_eq!(freqs, vec![262 >> 4, 262 << 5, 494 << 5]);
}

#[test]
fn duration_suffix_multiplies_the_beat() {
    // One beat at 120 BPM is 500 ms.
    let steps = blocking_steps(b"c4:3");
    assert_eq!(steps, vec![Step { frequency: 262, duration_ms: 1500 }]);
}

#[test]
fn rest_is_silent_for_one_beat() {
    let steps = blocking_steps(b"-");
    assert_eq!(steps, vec![Step { frequency: 0, duration_ms: 500 }]);
}

#[test]
fn malformed_tokens_play_silence_not_errors() {
    let steps = blocking_steps(b"x c zz9q c4");
    let freqs: Vec<u32> = steps.iter().map(|s| s.frequency).collect();
    assert_eq!(freqs, vec![0, 0, 0, 262]);
    assert_eq!(steps[0].duration_ms, 500);
}

#[test]
fn leftover_bytes_in_a_core_are_ignored() {
    let steps = blocking_steps(b"zzc4");
    assert_eq!(steps, vec![Step { frequency: 262, duration_ms: 500 }]);
}

#[test]
fn tempo_marker_doubles_bpm_for_its_own_token() {
    let mut m = Music::new();
    let steps = m.play_blocking(b"(c4 c4");
    assert_eq!(
        steps,
        vec![
            Step { frequency: 262, duration_ms: 250 },
            Step { frequency: 262, duration_ms: 250 },
        ]
    );
    assert_eq!(m.bpm(), 240);
}

#[test]
fn tempo_marker_pair_cancels() {
    let mut m = Music::new();
    assert_eq!(m.bpm(), 120);
    m.play_blocking(b"(c4");
    assert_eq!(m.bpm(), 240);
    m.play_blocking(b")c4");
    assert_eq!(m.bpm(), 120);
}

#[test]
fn trailing_close_marker_halves_bpm() {
    let mut m = Music::new();
    let steps = m.play_blocking(b"c4)");
    // The marker applies before the duration of its own token.
    assert_eq!(steps, vec![Step { frequency: 262, duration_ms: 1000 }]);
    assert_eq!(m.bpm(), 60);
}

#[test]
fn bpm_clamps_under_repeated_markers() {
    let mut m = Music::new();
    m.play_blocking(b"((((c4");
    assert_eq!(m.bpm(), 240);
    m.play_blocking(b"c4))))))");
    assert_eq!(m.bpm(), 60);
}

#[test]
fn set_bpm_clamps_to_legal_range() {
    let mut m = Music::new();
    m.set_bpm(0);
    assert_eq!(m.bpm(), 60);
    m.set_bpm(1_000_000);
    assert_eq!(m.bpm(), 240);
    m.set_bpm(120);
    assert_eq!(m.bpm(), 120);
}

#[test]
fn set_volume_clamps_at_both_ends() {
    let mut m = Music::new();
    m.set_volume(150);
    assert_eq!(*m.volume(), 100);
    m.set_volume(0);
    assert_eq!(*m.volume(), 0);
}

#[test]
fn button_edges_step_volume_with_clamping() {
    let mut m = Music::new();
    assert_eq!(*m.volume(), 90);
    m.button_edge(Button::B);
    assert_eq!(*m.volume(), 100);
    m.button_edge(Button::B);
    assert_eq!(*m.volume(), 100);
    for _ in 0..11 {
        m.button_edge(Button::A);
    }
    assert_eq!(*m.volume(), 0);
}

#[test]
fn blocking_playback_end_to_end() {
    // Four applies: 262, 262, 392, 392, each 500 ms at the default 120.
    let steps = blocking_steps(b"c4 c4 g4 g4");
    assert_eq!(
        steps,
        vec![
            Step { frequency: 262, duration_ms: 500 },
            Step { frequency: 262, duration_ms: 500 },
            Step { frequency: 392, duration_ms: 500 },
            Step { frequency: 392, duration_ms: 500 },
        ]
    );
}

#[test]
fn blocking_playback_of_whitespace_is_empty() {
    assert_eq!(blocking_steps(b""), vec![]);
    assert_eq!(blocking_steps(b" \n\t "), vec![]);
}

#[test]
fn tick_driver_walks_the_tune_then_finishes() {
    let mut m = Music::new();
    m.play(b"c4 g4", 120);
    assert!(m.playing());
    assert_eq!(m.next_tick(), TickAction::Play(Step { frequency: 262, duration_ms: 500 }));
    assert_eq!(m.next_tick(), TickAction::Play(Step { frequency: 392, duration_ms: 500 }));
    assert_eq!(m.next_tick(), TickAction::Finished);
    assert!(!m.playing());
    assert_eq!(m.next_tick(), TickAction::Idle);
}

#[test]
fn play_overwrites_bpm_with_clamping() {
    let mut m = Music::new();
    m.play(b"c4", 1_000_000);
    assert_eq!(m.bpm(), 240);
    assert_eq!(m.next_tick(), TickAction::Play(Step { frequency: 262, duration_ms: 250 }));
}

#[test]
fn stop_mid_playback_goes_idle_immediately() {
    let mut m = Music::new();
    m.play(b"c4 g4 e4", 120);
    assert_eq!(m.next_tick(), TickAction::Play(Step { frequency: 262, duration_ms: 500 }));
    m.stop();
    assert!(!m.playing());
    assert_eq!(m.next_tick(), TickAction::Idle);
}

#[test]
fn play_rearms_after_stop() {
    let mut m = Music::new();
    m.play(b"c4", 120);
    m.stop();
    m.play(b"g4", 120);
    assert_eq!(m.next_tick(), TickAction::Play(Step { frequency: 392, duration_ms: 500 }));
}

#[test]
fn full_volume_is_half_duty() {
    assert_eq!(duty_cycle(1000, 100), 500);
    assert_eq!(duty_cycle(1000, 0), 0);
    assert_eq!(duty_cycle(255, 50), 63);
}

#[test]
fn apply_silences_frequency_zero() {
    assert_eq!(apply(0, 50, 1000), ToneCommand::Silence);
    assert_eq!(apply(262, 100, 1000), ToneCommand::Tone { frequency: 262, duty: 500 });
}

#[test]
fn volume_change_takes_effect_on_next_apply() {
    let mut m = Music::new();
    m.play(b"c4 c4", 120);
    let first = match m.next_tick() {
        TickAction::Play(s) => apply(s.frequency, *m.volume(), 1000),
        other => panic!("expected a step, got {:?}", other),
    };
    assert_eq!(first, ToneCommand::Tone { frequency: 262, duty: 450 });
    m.button_edge(Button::A);
    let second = match m.next_tick() {
        TickAction::Play(s) => apply(s.frequency, *m.volume(), 1000),
        other => panic!("expected a step, got {:?}", other),
    };
    assert_eq!(second, ToneCommand::Tone { frequency: 262, duty: 400 });
}

#[test]
fn stopped_engine_applies_silence() {
    // After stop, the next tone command built from the engine carries
    // frequency 0.
    let mut m = Music::new();
    m.play(b"c4", 120);
    m.stop();
    let freq = match m.next_tick() {
        TickAction::Play(s) => s.frequency,
        _ => 0,
    };
    assert_eq!(apply(freq, *m.volume(), 1000), ToneCommand::Silence);
}
