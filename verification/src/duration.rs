//! Symbolic note durations and their conversion to sample counts.
//!
//! A duration class is a fraction of one beat-cycle: a full note is one
//! beat-cycle, a half note half of one, and so on down to a sixteenth.
//! At `bpm` beats per minute one beat-cycle lasts `60 / bpm` seconds, so a
//! class with beat divisor `d` lasts `60 / (d * bpm)` seconds, and a note
//! synthesized at `rate` frames per second spans
//! `floor(rate * 60 / (d * bpm))` samples.

use vstd::prelude::*;

use crate::SongError;

verus! {

/// A note length as a named fraction of one beat-cycle.
#[derive(Clone, Copy, Debug, PartialEq, Eq, Structural)]
pub enum NoteType {
    Full,
    Half,
    Quarter,
    Eight,
    Sixteenth,
}

impl NoteType {
    /// The denominator of the fraction of a beat-cycle this class stands
    /// for: a full note is `1/1` of a beat-cycle, a sixteenth `1/16`.
    pub open spec fn spec_beat_divisor(self) -> int {
        match self {
            NoteType::Full => 1,
            NoteType::Half => 2,
            NoteType::Quarter => 4,
            NoteType::Eight => 8,
            NoteType::Sixteenth => 16,
        }
    }

    /// Executable beat divisor; agrees with the specification divisor.
    pub fn beat_divisor(&self) -> (d: u64)
        ensures
            d == self.spec_beat_divisor(),
            1 <= d <= 16,
    {
        match self {
            NoteType::Full => 1,
            NoteType::Half => 2,
            NoteType::Quarter => 4,
            NoteType::Eight => 8,
            NoteType::Sixteenth => 16,
        }
    }

    /// The duration class a one-character code stands for, or `None` for
    /// any other string.
    pub open spec fn spec_of_code(code: Seq<char>) -> Option<NoteType> {
        if code.len() == 1 {
            match code[0] {
                'f' => Some(NoteType::Full),
                'h' => Some(NoteType::Half),
                'q' => Some(NoteType::Quarter),
                'e' => Some(NoteType::Eight),
                's' => Some(NoteType::Sixteenth),
                _ => None,
            }
        } else {
            None
        }
    }

    /// Parses a symbolic duration code. Exactly the five one-character
    /// codes `f`, `h`, `q`, `e`, `s` are accepted; anything else is
    /// rejected with `InvalidDurationCode`.
    pub fn from_code(code: &str) -> (r: Result<NoteType, SongError>)
        ensures
            match r {
                Ok(t) => Self::spec_of_code(code@) == Some(t),
                Err(e) => Self::spec_of_code(code@) is None
                    && e == SongError::InvalidDurationCode,
            },
    {
        if code.unicode_len() != 1 {
            return Err(SongError::InvalidDurationCode);
        }
        let c = code.get_char(0);
        match c {
            'f' => Ok(NoteType::Full),
            'h' => Ok(NoteType::Half),
            'q' => Ok(NoteType::Quarter),
            'e' => Ok(NoteType::Eight),
            's' => Ok(NoteType::Sixteenth),
            _ => Err(SongError::InvalidDurationCode),
        }
    }
}

/// The denominator of a note's exact duration in seconds: at `bpm` beats
/// per minute, one beat-cycle lasts `60 / bpm` seconds, so a note of class
/// `nt` lasts the rational `60 / (divisor * bpm)` seconds.
pub open spec fn spec_duration_den(nt: NoteType, bpm: int) -> int {
    nt.spec_beat_divisor() * bpm
}

/// Duration law: at any positive tempo a note's duration, the rational
/// `60 / (divisor * bpm)` seconds, is positive, and it is inversely
/// proportional to the tempo — the product of duration and tempo is the
/// same at any two tempos. Both claims are stated by cross-multiplication,
/// comparing the rationals through their integer parts.
pub proof fn lemma_duration_positive_and_inverse_in_tempo(nt: NoteType, bpm1: int, bpm2: int)
    requires
        1 <= bpm1,
        1 <= bpm2,
    ensures
        spec_duration_den(nt, bpm1) >= 1,
        60 * bpm1 * spec_duration_den(nt, bpm2) == 60 * bpm2 * spec_duration_den(nt, bpm1),
{
    let d: int = nt.spec_beat_divisor();
    assert(d >= 1);
    assert(d * bpm1 >= 1) by (nonlinear_arith)
        requires
            d >= 1,
            bpm1 >= 1,
    ;
    assert(60 * bpm1 * (d * bpm2) == 60 * bpm2 * (d * bpm1)) by (nonlinear_arith);
}

/// The number of whole samples a note of class `nt` spans at `bpm` beats
/// per minute and `rate` frames per second: the floor of `rate` times the
/// duration `60 / (divisor * bpm)` in seconds.
pub open spec fn spec_sample_count(nt: NoteType, bpm: int, rate: int) -> int {
    (rate * 60) / spec_duration_den(nt, bpm)
}

/// Number of samples a note of class `nt` spans at tempo `bpm` and sample
/// rate `rate`.
pub fn sample_count(nt: NoteType, bpm: u32, rate: u32) -> (c: u64)
    requires
        bpm >= 1,
    ensures
        c == spec_sample_count(nt, bpm as int, rate as int),
        c <= rate * 60,
{
    let total: u64 = (rate as u64) * 60;
    let div: u64 = nt.beat_divisor() * (bpm as u64);
    let c: u64 = total / div;
    proof {
        vstd::arithmetic::div_mod::lemma_div_basics_5(total as int, div as int);
    }
    c
}

} // verus!
