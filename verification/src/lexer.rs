//! Note lexer: splits a tune string into whitespace-delimited tokens and
//! decomposes each token into tempo markers, an optional duration suffix,
//! and a core symbol (a rest, a pitch with octave and optional accidental,
//! or — leniently — an invalid symbol that resolves to silence).

use vstd::prelude::*;
use vstd::slice::slice_subrange;
use vstd::string::StringSliceAdditionalSpecFns;

verus! {

/// The bytes the tokenizer treats as whitespace (ASCII whitespace:
/// space, tab, line feed, form feed, carriage return).
pub open spec fn is_tune_space(b: u8) -> bool {
    b == 32 || b == 9 || b == 10 || b == 12 || b == 13
}

/// ASCII decimal digit.
pub open spec fn is_digit(b: u8) -> bool {
    48 <= b <= 57
}

/// Pitch letter, either case: `A`..`G` or `a`..`g`.
pub open spec fn is_pitch_letter(b: u8) -> bool {
    (97 <= b <= 103) || (65 <= b <= 71)
}

/// Table index of a pitch letter: A maps to 0, G to 6, either case.
pub open spec fn letter_index(b: u8) -> int {
    if 97 <= b <= 103 {
        b - 97
    } else {
        b - 65
    }
}

/// What reading one fixed byte from a token yields: the remaining bytes and
/// the byte read, or nothing if it is absent. With `from_end` the byte is
/// taken from the back; otherwise — and also when the back does not match —
/// from the front.
pub open spec fn read_char_spec(s: Seq<u8>, c: u8, from_end: bool) -> Option<(Seq<u8>, u8)> {
    if s.len() == 0 {
        None
    } else if from_end && s[s.len() - 1] == c {
        Some((s.subrange(0, s.len() - 1), c))
    } else if s[0] == c {
        Some((s.subrange(1, s.len() as int), c))
    } else {
        None
    }
}

/// What reading one byte from an inclusive range yields: only the chosen
/// end (back with `from_end`, front otherwise) is examined.
pub open spec fn read_char_if_spec(s: Seq<u8>, lo: u8, hi: u8, from_end: bool) -> Option<
    (Seq<u8>, u8),
> {
    if s.len() == 0 {
        None
    } else {
        let i = if from_end {
            s.len() - 1
        } else {
            0int
        };
        if lo <= s[i] <= hi {
            let rest = if from_end {
                s.subrange(0, s.len() - 1)
            } else {
                s.subrange(1, s.len() as int)
            };
            Some((rest, s[i]))
        } else {
            None
        }
    }
}

/// What reading an accidental yields: a `#` if present, else a `b`.
pub open spec fn read_accidental_spec(s: Seq<u8>, from_end: bool) -> Option<(Seq<u8>, u8)> {
    if read_char_spec(s, 35, from_end) is Some {
        read_char_spec(s, 35, from_end)
    } else {
        read_char_spec(s, 98, from_end)
    }
}

/// Relates an executable read result to its specification value.
pub open spec fn reads_to(r: Option<(&[u8], u8)>, s: Option<(Seq<u8>, u8)>) -> bool {
    match (r, s) {
        (Some(p), Some(q)) => p.0@ == q.0 && p.1 == q.1,
        (None, None) => true,
        _ => false,
    }
}

/// Reads one expected byte from the front of the token, or — when
/// `from_end` is set — from the back, falling back to the front if the back
/// does not match.
pub fn read_char<'a>(src: &'a [u8], c: u8, from_end: bool) -> (r: Option<(&'a [u8], u8)>)
    ensures
        reads_to(r, read_char_spec(src@, c, from_end)),
{
    let n = src.len();
    if n == 0 {
        return None;
    }
    if from_end && src[n - 1] == c {
        Some((slice_subrange(src, 0, n - 1), c))
    } else if src[0] == c {
        Some((slice_subrange(src, 1, n), c))
    } else {
        None
    }
}

/// Reads one byte from the chosen end of the token if it falls in the
/// inclusive range `lo..=hi`.
pub fn read_char_if<'a>(src: &'a [u8], lo: u8, hi: u8, from_end: bool) -> (r: Option<
    (&'a [u8], u8),
>)
    ensures
        reads_to(r, read_char_if_spec(src@, lo, hi, from_end)),
{
    let n = src.len();
    if n == 0 {
        return None;
    }
    let idx = if from_end {
        n - 1
    } else {
        0
    };
    let s = src[idx];
    if lo <= s && s <= hi {
        let rest = if from_end {
            slice_subrange(src, 0, n - 1)
        } else {
            slice_subrange(src, 1, n)
        };
        Some((rest, s))
    } else {
        None
    }
}

/// Reads a sharp (`#`) or flat (`b`) accidental from the chosen end of the
/// token.
pub fn read_sharp_or_flat<'a>(src: &'a [u8], from_end: bool) -> (r: Option<(&'a [u8], u8)>)
    ensures
        reads_to(r, read_accidental_spec(src@, from_end)),
{
    match read_char(src, 35, from_end) {
        Some(p) => Some(p),
        None => read_char(src, 98, from_end),
    }
}

/// Position of the first non-whitespace byte at or after `i`, or the length
/// if only whitespace remains.
pub open spec fn token_start(s: Seq<u8>, i: int) -> int
    decreases s.len() - i,
    when 0 <= i <= s.len()
{
    if i >= s.len() {
        s.len() as int
    } else if is_tune_space(s[i]) {
        token_start(s, i + 1)
    } else {
        i
    }
}

/// Position of the first whitespace byte at or after `i`, or the length if
/// none follows.
pub open spec fn token_end(s: Seq<u8>, i: int) -> int
    decreases s.len() - i,
    when 0 <= i <= s.len()
{
    if i >= s.len() {
        s.len() as int
    } else if is_tune_space(s[i]) {
        i
    } else {
        token_end(s, i + 1)
    }
}

pub proof fn lemma_token_start_bounds(s: Seq<u8>, i: int)
    requires
        0 <= i <= s.len(),
    ensures
        i <= token_start(s, i) <= s.len(),
        token_start(s, i) < s.len() ==> !is_tune_space(s[token_start(s, i)]),
    decreases s.len() - i,
{
    if i < s.len() && is_tune_space(s[i]) {
        lemma_token_start_bounds(s, i + 1);
    }
}

pub proof fn lemma_token_end_bounds(s: Seq<u8>, i: int)
    requires
        0 <= i <= s.len(),
    ensures
        i <= token_end(s, i) <= s.len(),
        i < s.len() && !is_tune_space(s[i]) ==> token_end(s, i) > i,
    decreases s.len() - i,
{
    if i < s.len() && !is_tune_space(s[i]) {
        lemma_token_end_bounds(s, i + 1);
    }
}

/// Finds the next whitespace-delimited raw token at or after `pos`: its
/// start and one-past-its-end, or `None` when only whitespace remains.
/// Splitting this way yields no empty tokens.
pub fn next_token(notes: &[u8], pos: usize) -> (r: Option<(usize, usize)>)
    requires
        pos <= notes@.len(),
    ensures
        match r {
            None => token_start(notes@, pos as int) == notes@.len(),
            Some(p) => {
                &&& p.0 == token_start(notes@, pos as int)
                &&& p.1 == token_end(notes@, p.0 as int)
                &&& pos <= p.0 < p.1 <= notes@.len()
            },
        },
{
    let n = notes.len();
    let mut i = pos;
    while i < n && (notes[i] == 32 || notes[i] == 9 || notes[i] == 10 || notes[i] == 12
        || notes[i] == 13)
        invariant
            pos <= i <= n,
            n == notes@.len(),
            token_start(notes@, pos as int) == token_start(notes@, i as int),
        decreases n - i,
    {
        i = i + 1;
    }
    if i == n {
        return None;
    }
    proof {
        lemma_token_end_bounds(notes@, i as int);
    }
    let mut e = i;
    while e < n && !(notes[e] == 32 || notes[e] == 9 || notes[e] == 10 || notes[e] == 12
        || notes[e] == 13)
        invariant
            i <= e <= n,
            n == notes@.len(),
            token_end(notes@, i as int) == token_end(notes@, e as int),
        decreases n - e,
    {
        e = e + 1;
    }
    Some((i, e))
}

/// Clips an unbounded count to the widest value the engine can carry.
pub open spec fn sat_u32(v: int) -> int {
    if v > u32::MAX {
        u32::MAX as int
    } else {
        v
    }
}

/// Value accumulated by reading the digit run of `t` from `i` on, starting
/// from `acc`; reading stops at the first non-digit.
pub open spec fn digit_run_value(t: Seq<u8>, i: int, acc: int) -> int
    decreases t.len() - i,
    when 0 <= i <= t.len()
{
    if i >= t.len() || !is_digit(t[i]) {
        acc
    } else {
        digit_run_value(t, i + 1, acc * 10 + (t[i] - 48))
    }
}

/// Value of the decimal digit prefix of `t`: digits are consumed greedily
/// left to right; an empty prefix has value 0.
pub open spec fn digits_value(t: Seq<u8>) -> int {
    digit_run_value(t, 0, 0)
}

proof fn lemma_digit_run_value_grows(t: Seq<u8>, i: int, acc: int)
    requires
        0 <= i <= t.len(),
        0 <= acc,
    ensures
        digit_run_value(t, i, acc) >= acc,
    decreases t.len() - i,
{
    if i < t.len() && is_digit(t[i]) {
        lemma_digit_run_value_grows(t, i + 1, acc * 10 + (t[i] - 48));
    }
}

/// Reads the decimal digit prefix of `t`, saturating at `u32::MAX`.
fn digits_prefix_value(t: &[u8]) -> (n: u32)
    ensures
        n == sat_u32(digits_value(t@)),
{
    let len = t.len();
    let mut i: usize = 0;
    let mut n: u32 = 0;
    let ghost mut a: int = 0;
    while i < len && 48 <= t[i] && t[i] <= 57
        invariant
            0 <= i <= len,
            len == t@.len(),
            0 <= a,
            n == sat_u32(a),
            digits_value(t@) == digit_run_value(t@, i as int, a),
        decreases len - i,
    {
        let d = t[i] - 48;
        let next = match n.checked_mul(10) {
            Some(m) => match m.checked_add(d as u32) {
                Some(v) => v,
                None => u32::MAX,
            },
            None => u32::MAX,
        };
        proof {
            let a2 = a * 10 + d;
            assert(a <= a * 10) by (nonlinear_arith)
                requires 0 <= a;
            if a > u32::MAX {
                assert(a2 > u32::MAX);
            }
            a = a2;
        }
        n = next;
        i = i + 1;
    }
    proof {
        assert(digit_run_value(t@, i as int, a) == a);
    }
    n
}

/// Parses the decimal digit prefix of `str` greedily, left to right, with
/// no sign; yields the value when it is positive (saturating at
/// `u32::MAX`), and nothing when digits are missing or their value is 0.
pub fn read_int(str: &str) -> (r: Option<u32>)
    ensures
        ({
            let v = digits_value(str.spec_bytes());
            match r {
                Some(n) => v > 0 && n == sat_u32(v),
                None => v == 0,
            }
        }),
{
    let n = digits_prefix_value(str.as_bytes());
    if n > 0 {
        Some(n)
    } else {
        None
    }
}

/// The core symbol of a token, after tempo markers and the duration suffix
/// are stripped: a rest, a pitch (already folded with its accidental onto a
/// table index and an octave), or an invalid symbol that plays silence.
#[derive(Clone, Copy, PartialEq, Eq, Structural, Debug)]
pub enum Core {
    Rest,
    Note { sharp: bool, index: u8, octave: i8 },
    Invalid,
}

/// One decomposed token: runs of `(` and `)` tempo markers, a beat count
/// (default 1), and the core symbol.
#[derive(Clone, Copy, PartialEq, Eq, Structural, Debug)]
pub struct Token {
    pub opens: usize,
    pub closes: usize,
    pub beats: u32,
    pub core: Core,
}

/// How a core symbol decomposes. A lone `-` is a rest. Otherwise the core
/// must end in an octave digit preceded by a pitch letter (either case);
/// an accidental is then read from the front of what remains, and any other
/// leftover bytes are ignored. A missing digit or letter yields `Invalid`
/// rather than an error: one bad token must not halt playback. A flat is
/// folded onto the sharp of the pitch one semitone below: index 0 wraps to
/// 6, and landing on index 1 (the table's silent B slot) also lowers the
/// octave by one to keep the absolute pitch.
pub open spec fn core_of(m: Seq<u8>) -> Core {
    if m.len() == 1 && m[0] == 45 {
        Core::Rest
    } else {
        match read_char_if_spec(m, 48, 57, true) {
            None => Core::Invalid,
            Some((rest, oct_b)) => {
                let pl = if read_char_if_spec(rest, 97, 103, true) is Some {
                    read_char_if_spec(rest, 97, 103, true)
                } else {
                    read_char_if_spec(rest, 65, 71, true)
                };
                match pl {
                    None => Core::Invalid,
                    Some((mid, letter)) => {
                        let octave = (oct_b - 48) as i8;
                        let index = letter_index(letter) as u8;
                        match read_accidental_spec(mid, false) {
                            None => Core::Note { sharp: false, index, octave },
                            Some((_, c)) => {
                                if c == 35 {
                                    Core::Note { sharp: true, index, octave }
                                } else {
                                    let fi = if index == 0 {
                                        6u8
                                    } else {
                                        (index - 1) as u8
                                    };
                                    let foct = if fi == 1 {
                                        (octave - 1) as i8
                                    } else {
                                        octave
                                    };
                                    Core::Note { sharp: true, index: fi, octave: foct }
                                }
                            },
                        }
                    },
                }
            },
        }
    }
}

/// Every parsed core is in range: a table index below 7 and an octave
/// between -1 (a flat may lower octave 0) and 9.
pub open spec fn core_wf(c: Core) -> bool {
    match c {
        Core::Note { index, octave, .. } => index < 7 && -1 <= octave <= 9,
        _ => true,
    }
}

pub proof fn lemma_core_of_wf(m: Seq<u8>)
    ensures
        core_wf(core_of(m)),
{
}

/// Parses a core symbol.
pub fn parse_core(m: &[u8]) -> (r: Core)
    ensures
        r == core_of(m@),
{
    if m.len() == 1 && m[0] == 45 {
        return Core::Rest;
    }
    let oct = read_char_if(m, 48, 57, true);
    match oct {
        None => Core::Invalid,
        Some((rest, oct_b)) => {
            let pl = match read_char_if(rest, 97, 103, true) {
                Some(p) => Some(p),
                None => read_char_if(rest, 65, 71, true),
            };
            match pl {
                None => Core::Invalid,
                Some((mid, letter)) => {
                    let octave: i8 = (oct_b - 48) as i8;
                    let index: u8 = if letter >= 97 {
                        letter - 97
                    } else {
                        letter - 65
                    };
                    match read_sharp_or_flat(mid, false) {
                        None => Core::Note { sharp: false, index, octave },
                        Some((_, c)) => {
                            if c == 35 {
                                Core::Note { sharp: true, index, octave }
                            } else {
                                let fi: u8 = if index == 0 {
                                    6
                                } else {
                                    index - 1
                                };
                                let foct: i8 = if fi == 1 {
                                    octave - 1
                                } else {
                                    octave
                                };
                                Core::Note { sharp: true, index: fi, octave: foct }
                            }
                        },
                    }
                },
            }
        },
    }
}

/// First position of byte `b` at or after `i`, or the length if absent.
pub open spec fn find_from(t: Seq<u8>, i: int, b: u8) -> int
    decreases t.len() - i,
    when 0 <= i <= t.len()
{
    if i >= t.len() {
        t.len() as int
    } else if t[i] == b {
        i
    } else {
        find_from(t, i + 1, b)
    }
}

/// Number of `(` tempo markers at the front of `m`, as reading one `(`
/// at a time consumes them.
pub open spec fn opens_count(m: Seq<u8>) -> int
    decreases m.len(),
{
    if m.len() > 0 && m[0] == 40 {
        1 + opens_count(m.subrange(1, m.len() as int))
    } else {
        0
    }
}

/// What remains of `m` after its `(` markers are consumed.
pub open spec fn opens_rest(m: Seq<u8>) -> Seq<u8>
    decreases m.len(),
{
    if m.len() > 0 && m[0] == 40 {
        opens_rest(m.subrange(1, m.len() as int))
    } else {
        m
    }
}

/// Number of `)` tempo markers consumed from `m`: each read takes one
/// from the back, or — leniently, as reading a byte from the end falls
/// back to the front — a stray leading `)` instead.
pub open spec fn closes_count(m: Seq<u8>) -> int
    decreases m.len(),
{
    if m.len() > 0 && m[m.len() - 1] == 41 {
        1 + closes_count(m.subrange(0, m.len() - 1))
    } else if m.len() > 0 && m[0] == 41 {
        1 + closes_count(m.subrange(1, m.len() as int))
    } else {
        0
    }
}

/// What remains of `m` after its `)` markers are consumed.
pub open spec fn closes_rest(m: Seq<u8>) -> Seq<u8>
    decreases m.len(),
{
    if m.len() > 0 && m[m.len() - 1] == 41 {
        closes_rest(m.subrange(0, m.len() - 1))
    } else if m.len() > 0 && m[0] == 41 {
        closes_rest(m.subrange(1, m.len() as int))
    } else {
        m
    }
}

/// How a raw token decomposes, in order: an optional `:<digits>` suffix is
/// split off at the first `:` (a missing or zero-valued count defaults to
/// one beat); the `(` markers and then the `)` markers are read off; what
/// remains is the core symbol.
pub open spec fn token_of(t: Seq<u8>) -> Token {
    let cp = find_from(t, 0, 58);
    let body = t.subrange(0, cp);
    let dv = if cp < t.len() {
        digits_value(t.subrange(cp + 1, t.len() as int))
    } else {
        0
    };
    let beats = if dv == 0 {
        1int
    } else {
        sat_u32(dv)
    };
    let after = opens_rest(body);
    Token {
        opens: opens_count(body) as usize,
        closes: closes_count(after) as usize,
        beats: beats as u32,
        core: core_of(closes_rest(after)),
    }
}

/// Every decomposed token is in range: at least one beat, and a core in
/// range.
pub open spec fn token_wf(t: Token) -> bool {
    t.beats >= 1 && core_wf(t.core)
}

pub proof fn lemma_find_from_bounds(t: Seq<u8>, i: int, b: u8)
    requires
        0 <= i <= t.len(),
    ensures
        i <= find_from(t, i, b) <= t.len(),
    decreases t.len() - i,
{
    if i < t.len() && t[i] != b {
        lemma_find_from_bounds(t, i + 1, b);
    }
}

pub proof fn lemma_token_of_wf(t: Seq<u8>)
    ensures
        token_wf(token_of(t)),
{
    let cp = find_from(t, 0, 58);
    lemma_find_from_bounds(t, 0, 58);
    if cp < t.len() {
        lemma_digits_value_nonneg(t.subrange(cp + 1, t.len() as int));
    }
    let body = t.subrange(0, cp);
    lemma_core_of_wf(closes_rest(opens_rest(body)));
}

pub proof fn lemma_digits_value_nonneg(t: Seq<u8>)
    ensures
        digits_value(t) >= 0,
{
    lemma_digit_run_value_grows(t, 0, 0);
}

/// Decomposes one raw token.
pub fn parse_token(t: &[u8]) -> (r: Token)
    ensures
        r == token_of(t@),
{
    let n = t.len();
    let mut cp: usize = 0;
    while cp < n && t[cp] != 58
        invariant
            0 <= cp <= n,
            n == t@.len(),
            find_from(t@, 0, 58) == find_from(t@, cp as int, 58),
        decreases n - cp,
    {
        cp = cp + 1;
    }
    let beats: u32 = if cp < n {
        let dv = digits_prefix_value(slice_subrange(t, cp + 1, n));
        if dv == 0 {
            1
        } else {
            dv
        }
    } else {
        1
    };
    let body = slice_subrange(t, 0, cp);
    let bn: usize = body.len();
    let mut cur: &[u8] = body;
    let mut opens: usize = 0;
    loop
        invariant
            opens + cur@.len() == bn,
            opens_count(body@) == opens + opens_count(cur@),
            opens_rest(body@) == opens_rest(cur@),
        ensures
            opens == opens_count(body@),
            cur@ == opens_rest(body@),
        decreases cur@.len(),
    {
        match read_char(cur, 40, false) {
            Some(p) => {
                cur = p.0;
                opens = opens + 1;
            },
            None => { break ; },
        }
    }
    let ghost after: Seq<u8> = cur@;
    let an: usize = cur.len();
    let mut closes: usize = 0;
    loop
        invariant
            closes + cur@.len() == an,
            closes_count(after) == closes + closes_count(cur@),
            closes_rest(after) == closes_rest(cur@),
        ensures
            closes == closes_count(after),
            cur@ == closes_rest(after),
        decreases cur@.len(),
    {
        match read_char(cur, 41, true) {
            Some(p) => {
                cur = p.0;
                closes = closes + 1;
            },
            None => { break ; },
        }
    }
    let core = parse_core(cur);
    Token { opens, closes, beats, core }
}

} // verus!
