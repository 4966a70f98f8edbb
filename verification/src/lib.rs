//! Tune playback engine: a textual music-notation grammar, a
//! frequency/duration derivation model built on that grammar, and two
//! playback drivers — a blocking one and a tick-driven incremental one —
//! sharing volume and tempo state.
//!
//! Tune notation, informally:
//!
//! ```text
//! tune       := token (whitespace token)*
//! token      := tempo_pre? core tempo_post? (':' digits)?
//! tempo_pre  := '('+        doubles BPM once per character
//! tempo_post := ')'+        halves BPM once per character
//! core       := '-' | accidental? letter octave
//! accidental := '#' | 'b'
//! letter     := [A-Ga-g]
//! octave     := [0-9]
//! ```
//!
//! A malformed core never aborts playback: it resolves to a silent step.

pub mod engine;
pub mod laws;
pub mod lexer;
pub mod pitch;
pub mod resolver;
pub mod tone;
