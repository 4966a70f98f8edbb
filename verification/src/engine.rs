//! Playback engine: one shared state — tune, cursor, tempo, volume — and
//! the two playback drivers over it.
//!
//! The blocking driver resolves a whole tune into the sequence of steps a
//! caller plays synchronously, delaying between notes. The tick driver is
//! a state machine advanced one token per timer event: `play` arms it,
//! each `next_tick` resolves one token and reports what to program and for
//! how long, and `stop` cancels immediately from any state. Volume
//! changes arrive as button-edge events and take effect no later than the
//! next tone command built from the state.

use vstd::prelude::*;
use vstd::slice::{slice_subrange, slice_to_vec};

use crate::lexer::{
    lemma_token_end_bounds, lemma_token_of_wf, lemma_token_start_bounds, next_token, parse_token,
    token_end, token_of, token_start,
};
use crate::resolver::{
    clamp_bpm, clamped_bpm, resolve, resolve_bpm, step_of, Step, DEFAULT_BPM, MAX_BPM, MIN_BPM,
};

verus! {

/// Volume a fresh engine starts with.
pub const DEFAULT_VOLUME: u32 = 90;

/// How far one button edge moves the volume.
pub const VOLUME_STEP: u32 = 10;

/// The two volume buttons: `A` steps the volume down, `B` up.
#[derive(Clone, Copy, PartialEq, Eq, Structural, Debug)]
pub enum Button {
    A,
    B,
}

/// What one timer tick asks the caller to do.
#[derive(Clone, Copy, PartialEq, Eq, Structural, Debug)]
pub enum TickAction {
    /// Program this step's tone and fire the next tick after its duration.
    Play(Step),
    /// The tune is exhausted: the engine just went idle; silence the
    /// output and halt the timer.
    Finished,
    /// The engine was already idle; there is nothing to play.
    Idle,
}

/// The engine's state, as the contracts see it.
pub struct EngineState {
    pub tune: Seq<u8>,
    pub cursor: int,
    pub bpm: int,
    pub volume: int,
    pub playing: bool,
}

impl EngineState {
    /// The engine's invariant: tempo and volume inside their legal
    /// ranges, the cursor inside the tune.
    pub open spec fn wf(self) -> bool {
        &&& MIN_BPM <= self.bpm <= MAX_BPM
        &&& 0 <= self.volume <= 100
        &&& 0 <= self.cursor <= self.tune.len()
    }

    /// The same state, idled.
    pub open spec fn stopped(self) -> EngineState {
        EngineState { playing: false, ..self }
    }
}

/// A volume forced into its legal range.
pub open spec fn clamped_volume(v: int) -> int {
    if v < 0 {
        0
    } else if v > 100 {
        100
    } else {
        v
    }
}

/// Volume after one button edge: one step down for `A`, up for `B`,
/// clamped.
pub open spec fn volume_after(v: int, b: Button) -> int {
    match b {
        Button::A => clamped_volume(v - VOLUME_STEP),
        Button::B => clamped_volume(v + VOLUME_STEP),
    }
}

/// State after one timer tick: idle stays idle; an exhausted tune goes
/// idle; otherwise the cursor advances past the next token and the
/// token's tempo markers are applied.
pub open spec fn tick_state(s: EngineState) -> EngineState {
    if !s.playing {
        s
    } else {
        let st = token_start(s.tune, s.cursor);
        if st >= s.tune.len() {
            EngineState { playing: false, ..s }
        } else {
            let en = token_end(s.tune, st);
            let t = token_of(s.tune.subrange(st, en));
            EngineState { cursor: en, bpm: resolve_bpm(t, s.bpm), ..s }
        }
    }
}

/// What one timer tick asks for: nothing when idle, the end of playback
/// when the tune is exhausted, otherwise the next token's resolved step.
pub open spec fn tick_action(s: EngineState) -> TickAction {
    if !s.playing {
        TickAction::Idle
    } else {
        let st = token_start(s.tune, s.cursor);
        if st >= s.tune.len() {
            TickAction::Finished
        } else {
            let en = token_end(s.tune, st);
            let t = token_of(s.tune.subrange(st, en));
            TickAction::Play(step_of(t, s.bpm))
        }
    }
}

/// The steps a blocking playback of `tune` produces from `pos` on at the
/// given BPM: one step per token, each token's tempo markers carrying
/// into every later token.
pub open spec fn render(tune: Seq<u8>, pos: int, bpm: int) -> Seq<Step>
    decreases tune.len() - pos,
    when 0 <= pos <= tune.len()
    via render_decreases
{
    let st = token_start(tune, pos);
    if st >= tune.len() {
        Seq::empty()
    } else {
        let en = token_end(tune, st);
        let t = token_of(tune.subrange(st, en));
        seq![step_of(t, bpm)] + render(tune, en, resolve_bpm(t, bpm))
    }
}

#[via_fn]
proof fn render_decreases(tune: Seq<u8>, pos: int, bpm: int) {
    lemma_token_start_bounds(tune, pos);
    if token_start(tune, pos) < tune.len() {
        lemma_token_end_bounds(tune, token_start(tune, pos));
    }
}

/// The BPM left behind after a blocking playback of `tune` from `pos` on.
pub open spec fn final_bpm(tune: Seq<u8>, pos: int, bpm: int) -> int
    decreases tune.len() - pos,
    when 0 <= pos <= tune.len()
    via final_bpm_decreases
{
    let st = token_start(tune, pos);
    if st >= tune.len() {
        bpm
    } else {
        let en = token_end(tune, st);
        let t = token_of(tune.subrange(st, en));
        final_bpm(tune, en, resolve_bpm(t, bpm))
    }
}

#[via_fn]
proof fn final_bpm_decreases(tune: Seq<u8>, pos: int, bpm: int) {
    lemma_token_start_bounds(tune, pos);
    if token_start(tune, pos) < tune.len() {
        lemma_token_end_bounds(tune, token_start(tune, pos));
    }
}

/// The playback engine. It owns the tune bytes it was last handed and the
/// shared tempo/volume state that both interrupt paths mutate; the
/// hardware peripherals themselves stay with the caller, which turns the
/// returned actions and commands into register writes.
pub struct Music {
    notes: Vec<u8>,
    pos: usize,
    bpm: u32,
    volume: u32,
    playing: bool,
}

impl View for Music {
    type V = EngineState;

    closed spec fn view(&self) -> EngineState {
        EngineState {
            tune: self.notes@,
            cursor: self.pos as int,
            bpm: self.bpm as int,
            volume: self.volume as int,
            playing: self.playing,
        }
    }
}

impl Music {
    pub open spec fn inv(&self) -> bool {
        self@.wf()
    }

    /// A fresh, idle engine with an empty tune at the default tempo and
    /// volume.
    pub fn new() -> (m: Music)
        ensures
            m.inv(),
            m@ == (EngineState {
                tune: Seq::<u8>::empty(),
                cursor: 0,
                bpm: DEFAULT_BPM as int,
                volume: DEFAULT_VOLUME as int,
                playing: false,
            }),
    {
        Music {
            notes: Vec::new(),
            pos: 0,
            bpm: DEFAULT_BPM,
            volume: DEFAULT_VOLUME,
            playing: false,
        }
    }

    /// Current volume.
    pub fn volume(&self) -> (v: &u32)
        ensures
            *v == self@.volume,
    {
        &self.volume
    }

    /// Current tempo.
    pub fn bpm(&self) -> (b: u32)
        ensures
            b == self@.bpm,
    {
        self.bpm
    }

    /// Whether the tick driver is armed.
    pub fn playing(&self) -> (p: bool)
        ensures
            p == self@.playing,
    {
        self.playing
    }

    /// Sets the volume, clamped to 0..=100.
    pub fn set_volume(&mut self, volume: u32)
        requires
            old(self).inv(),
        ensures
            final(self).inv(),
            final(self)@ == (EngineState { volume: clamped_volume(volume as int), ..old(self)@ }),
    {
        self.volume = if volume > 100 {
            100
        } else {
            volume
        };
    }

    /// Sets the tempo, clamped to the legal BPM range.
    pub fn set_bpm(&mut self, bpm: u32)
        requires
            old(self).inv(),
        ensures
            final(self).inv(),
            final(self)@ == (EngineState { bpm: clamped_bpm(bpm as int), ..old(self)@ }),
    {
        self.bpm = clamp_bpm(bpm);
    }

    /// Applies one button edge to the volume: `A` steps it down, `B` up,
    /// clamped at the ends.
    pub fn button_edge(&mut self, b: Button)
        requires
            old(self).inv(),
        ensures
            final(self).inv(),
            final(self)@ == (EngineState {
                volume: volume_after(old(self)@.volume, b),
                ..old(self)@
            }),
    {
        match b {
            Button::A => {
                self.volume = if self.volume >= VOLUME_STEP {
                    self.volume - VOLUME_STEP
                } else {
                    0
                };
            },
            Button::B => {
                self.volume = if self.volume + VOLUME_STEP > 100 {
                    100
                } else {
                    self.volume + VOLUME_STEP
                };
            },
        }
    }

    /// Arms the tick driver: binds a copy of the tune, resets the cursor,
    /// overwrites the tempo (clamped), and starts playing. The caller
    /// restarts its periodic timer alongside.
    pub fn play(&mut self, notes: &[u8], bpm: u32)
        requires
            old(self).inv(),
        ensures
            final(self).inv(),
            final(self)@ == (EngineState {
                tune: notes@,
                cursor: 0,
                bpm: clamped_bpm(bpm as int),
                volume: old(self)@.volume,
                playing: true,
            }),
    {
        self.notes = slice_to_vec(notes);
        self.bpm = clamp_bpm(bpm);
        self.pos = 0;
        self.playing = true;
    }

    /// Cancels playback immediately, from any state. The caller halts the
    /// timer and silences the output alongside; any tick that still
    /// arrives finds the engine idle and plays nothing.
    pub fn stop(&mut self)
        requires
            old(self).inv(),
        ensures
            final(self).inv(),
            final(self)@ == old(self)@.stopped(),
    {
        self.playing = false;
    }

    /// Advances playback by one timer tick: resolves the token under the
    /// cursor into a step to program, or reports that playback finished
    /// (or that the engine was idle all along).
    pub fn next_tick(&mut self) -> (r: TickAction)
        requires
            old(self).inv(),
        ensures
            final(self).inv(),
            final(self)@ == tick_state(old(self)@),
            r == tick_action(old(self)@),
    {
        if !self.playing {
            return TickAction::Idle;
        }
        match next_token(self.notes.as_slice(), self.pos) {
            None => {
                self.playing = false;
                TickAction::Finished
            },
            Some((st, en)) => {
                let tok = parse_token(slice_subrange(self.notes.as_slice(), st, en));
                proof {
                    lemma_token_of_wf(self.notes@.subrange(st as int, en as int));
                }
                let step = resolve(&tok, &mut self.bpm);
                self.pos = en;
                TickAction::Play(step)
            },
        }
    }

    /// Resolves a whole tune synchronously: the returned steps are played
    /// in order, the caller delaying for each step's duration before the
    /// next. Tempo markers persist into the engine's state; the tick
    /// driver's tune, cursor and play state are untouched.
    pub fn play_blocking(&mut self, notes: &[u8]) -> (steps: Vec<Step>)
        requires
            old(self).inv(),
        ensures
            final(self).inv(),
            steps@ == render(notes@, 0, old(self)@.bpm),
            final(self)@ == (EngineState {
                bpm: final_bpm(notes@, 0, old(self)@.bpm),
                ..old(self)@
            }),
    {
        let ghost b0: int = self.bpm as int;
        let mut steps: Vec<Step> = Vec::new();
        let mut pos: usize = 0;
        loop
            invariant
                pos <= notes@.len(),
                self.inv(),
                self@.tune == old(self)@.tune,
                self@.cursor == old(self)@.cursor,
                self@.volume == old(self)@.volume,
                self@.playing == old(self)@.playing,
                render(notes@, 0, b0) == steps@ + render(notes@, pos as int, self@.bpm),
                final_bpm(notes@, 0, b0) == final_bpm(notes@, pos as int, self@.bpm),
            ensures
                steps@ == render(notes@, 0, b0),
                self@.bpm == final_bpm(notes@, 0, b0),
                self@.tune == old(self)@.tune,
                self@.cursor == old(self)@.cursor,
                self@.volume == old(self)@.volume,
                self@.playing == old(self)@.playing,
                self.inv(),
            decreases notes@.len() - pos,
        {
            match next_token(notes, pos) {
                None => {
                    proof {
                        assert(steps@ + render(notes@, pos as int, self@.bpm) =~= steps@);
                    }
                    break ;
                },
                Some((st, en)) => {
                    let tok = parse_token(slice_subrange(notes, st, en));
                    proof {
                        lemma_token_of_wf(notes@.subrange(st as int, en as int));
                    }
                    let ghost bpm_before: int = self@.bpm;
                    let ghost steps_before: Seq<Step> = steps@;
                    let step = resolve(&tok, &mut self.bpm);
                    steps.push(step);
                    pos = en;
                    proof {
                        assert(steps_before + (seq![step] + render(
                            notes@,
                            pos as int,
                            self@.bpm,
                        )) =~= steps@ + render(notes@, pos as int, self@.bpm));
                    }
                },
            }
        }
        steps
    }
}

} // verus!
