//! Monophonic melody synthesis support: equal-tempered notes, symbolic
//! durations, sample-count layout, and big-endian sample encoding.
//!
//! The library covers the discrete side of the pipeline — parsing duration
//! codes, sizing each note's sample buffer from the tempo, concatenating
//! per-note buffers, and serializing 32-bit sample words to bytes. The
//! floating-point waveform evaluation itself (sine and envelope) lives with
//! the caller, which hands each sample's bit pattern back as a `u32`.

use vstd::prelude::*;

pub mod codec;
pub mod duration;
pub mod note;

verus! {

/// Audio frames per second written by the synthesizer.
pub const SAMPLE_RATE: u32 = 48000;

/// Errors produced while turning symbolic input into a song. Filesystem
/// failures are the caller's own and are kept apart from these, so that
/// bad input data stays distinguishable from a failure to persist output.
#[derive(Clone, Copy, Debug, PartialEq, Eq, Structural)]
pub enum SongError {
    /// A symbolic duration code outside the recognized set was supplied.
    InvalidDurationCode,
}

} // verus!
