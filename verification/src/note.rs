//! Notes and songs: symbolic input for the synthesis pipeline.

use vstd::prelude::*;

use crate::SongError;
use crate::duration::NoteType;
use crate::duration::sample_count;
use crate::duration::spec_sample_count;

verus! {

/// A single note: a pitch as a signed semitone offset from the reference
/// pitch, and a symbolic duration class.
#[derive(Clone, Copy, Debug, PartialEq, Eq, Structural)]
pub struct Note {
    /// Signed equal-tempered half-steps from the reference pitch (440 Hz).
    pub semitones: i32,
    /// Fraction of one beat-cycle the note sustains.
    pub note_type: NoteType,
}

impl Note {
    pub fn new(semitones: i32, which_type: NoteType) -> (n: Note)
        ensures
            n.semitones == semitones,
            n.note_type == which_type,
    {
        Note { semitones, note_type: which_type }
    }

    /// Number of whole samples this note spans at `bpm` beats per minute
    /// and `rate` frames per second.
    pub fn sample_count(&self, bpm: u32, rate: u32) -> (c: u64)
        requires
            bpm >= 1,
        ensures
            c == spec_sample_count(self.note_type, bpm as int, rate as int),
    {
        sample_count(self.note_type, bpm, rate)
    }
}

/// The note a (semitone offset, duration code) pair stands for, or `None`
/// when the code is not a recognized duration code.
pub open spec fn spec_pair_note(p: (i32, &str)) -> Option<Note> {
    match NoteType::spec_of_code(p.1@) {
        Some(t) => Some(Note { semitones: p.0, note_type: t }),
        None => None,
    }
}

/// An ordered sequence of notes, played back to back: no overlap, no gap,
/// total length the sum of the per-note lengths.
#[derive(Debug, PartialEq, Eq)]
pub struct Song {
    pub notes: Vec<Note>,
}

impl Song {
    /// Builds a song from (semitone offset, duration code) pairs, keeping
    /// their order. Succeeds exactly when every code is recognized;
    /// otherwise nothing is built and the bad code is reported.
    pub fn from_pairs(pairs: &Vec<(i32, &str)>) -> (r: Result<Song, SongError>)
        ensures
            match r {
                Ok(song) => {
                    &&& song.notes@.len() == pairs@.len()
                    &&& forall|i: int|
                        0 <= i < pairs@.len() ==> Some(#[trigger] song.notes@[i])
                            == spec_pair_note(pairs@[i])
                },
                Err(e) => {
                    &&& e == SongError::InvalidDurationCode
                    &&& exists|i: int|
                        0 <= i < pairs@.len() && spec_pair_note(#[trigger] pairs@[i]) is None
                },
            },
    {
        let mut notes: Vec<Note> = Vec::new();
        let mut idx: usize = 0;
        while idx < pairs.len()
            invariant
                idx <= pairs@.len(),
                notes@.len() == idx,
                forall|i: int|
                    0 <= i < idx ==> Some(#[trigger] notes@[i]) == spec_pair_note(pairs@[i]),
            decreases pairs@.len() - idx,
        {
            let (semitones, code): (i32, &str) = pairs[idx];
            match NoteType::from_code(code) {
                Ok(t) => {
                    notes.push(Note { semitones, note_type: t });
                },
                Err(e) => {
                    return Err(e);
                },
            }
            idx = idx + 1;
        }
        Ok(Song { notes })
    }

    /// Per-note sample counts at tempo `bpm` and sample rate `rate`, in
    /// playback order: entry `i` is the length of the buffer note `i`
    /// synthesizes.
    pub fn sample_counts(&self, bpm: u32, rate: u32) -> (counts: Vec<u64>)
        requires
            bpm >= 1,
        ensures
            counts@.len() == self.notes@.len(),
            forall|i: int|
                0 <= i < counts@.len() ==> #[trigger] counts@[i] == spec_sample_count(
                    self.notes@[i].note_type,
                    bpm as int,
                    rate as int,
                ),
    {
        let mut counts: Vec<u64> = Vec::new();
        let mut idx: usize = 0;
        while idx < self.notes.len()
            invariant
                idx <= self.notes@.len(),
                counts@.len() == idx,
                forall|i: int|
                    0 <= i < idx ==> #[trigger] counts@[i] == spec_sample_count(
                        self.notes@[i].note_type,
                        bpm as int,
                        rate as int,
                    ),
                bpm >= 1,
            decreases self.notes@.len() - idx,
        {
            let c: u64 = self.notes[idx].sample_count(bpm, rate);
            counts.push(c);
            idx = idx + 1;
        }
        counts
    }
}

} // verus!
