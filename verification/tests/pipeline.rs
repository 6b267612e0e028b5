use waverly::SAMPLE_RATE;
use waverly::SongError;
use waverly::codec::assemble;
use waverly::codec::decode;
use waverly::codec::encode;
use waverly::codec::encode_song;
use waverly::duration::NoteType;
use waverly::duration::sample_count;
use waverly::note::Note;
use waverly::note::Song;

#[test]
fn from_code_accepts_the_five_codes() {
    assert_eq!(NoteType::from_code("f"), Ok(NoteType::Full));
    assert_eq!(NoteType::from_code("h"), Ok(NoteType::Half));
    assert_eq!(NoteType::from_code("q"), Ok(NoteType::Quarter));
    assert_eq!(NoteType::from_code("e"), Ok(NoteType::Eight));
    assert_eq!(NoteType::from_code("s"), Ok(NoteType::Sixteenth));
}

#[test]
fn from_code_rejects_anything_else() {
    assert_eq!(NoteType::from_code("z"), Err(SongError::InvalidDurationCode));
    assert_eq!(NoteType::from_code(""), Err(SongError::InvalidDurationCode));
    assert_eq!(NoteType::from_code("qq"), Err(SongError::InvalidDurationCode));
    assert_eq!(NoteType::from_code("Q"), Err(SongError::InvalidDurationCode));
}

#[test]
fn beat_divisors() {
    assert_eq!(NoteType::Full.beat_divisor(), 1);
    assert_eq!(NoteType::Half.beat_divisor(), 2);
    assert_eq!(NoteType::Quarter.beat_divisor(), 4);
    assert_eq!(NoteType::Eight.beat_divisor(), 8);
    assert_eq!(NoteType::Sixteenth.beat_divisor(), 16);
}

#[test]
fn quarter_note_at_136_bpm_spans_5294_samples() {
    // 60 / 136 * 1/4 of a second at 48000 Hz, floored.
    assert_eq!(sample_count(NoteType::Quarter, 136, SAMPLE_RATE), 5294);
}

#[test]
fn sample_counts_at_other_tempos() {
    // A full note at 60 bpm is exactly one second.
    assert_eq!(sample_count(NoteType::Full, 60, 48000), 48000);
    assert_eq!(sample_count(NoteType::Sixteenth, 60, 48000), 3000);
    assert_eq!(sample_count(NoteType::Half, 120, 48000), 12000);
    // Doubling the tempo halves the duration.
    assert_eq!(sample_count(NoteType::Full, 120, 48000), 24000);
}

#[test]
fn encode_writes_big_endian_words() {
    let one: u32 = 1.0f32.to_bits();
    assert_eq!(one, 0x3F80_0000);
    let bytes = encode(&vec![one]);
    assert_eq!(bytes, vec![0x3F, 0x80, 0x00, 0x00]);

    let bytes = encode(&vec![0x0102_0304, 0xAABB_CCDD]);
    assert_eq!(bytes, vec![0x01, 0x02, 0x03, 0x04, 0xAA, 0xBB, 0xCC, 0xDD]);
}

#[test]
fn encode_of_nothing_is_nothing() {
    assert_eq!(encode(&vec![]), Vec::<u8>::new());
}

#[test]
fn encode_then_decode_round_trips_float_samples() {
    let samples: Vec<f32> = vec![0.0, 0.25, -0.3, 1.0e-7, 123.456, -0.0, f32::MIN_POSITIVE];
    let words: Vec<u32> = samples.iter().map(|s| s.to_bits()).collect();
    let bytes = encode(&words);
    assert_eq!(bytes.len(), 4 * words.len());
    let back = decode(&bytes).expect("length is a multiple of four");
    assert_eq!(back, words);
    let floats: Vec<f32> = back.iter().map(|w| f32::from_bits(*w)).collect();
    assert_eq!(floats.len(), samples.len());
    for (a, b) in floats.iter().zip(samples.iter()) {
        assert_eq!(a.to_bits(), b.to_bits());
    }
}

#[test]
fn decode_rejects_ragged_streams() {
    assert_eq!(decode(&vec![0x3F, 0x80, 0x00]), None);
    assert_eq!(decode(&vec![0x3F, 0x80, 0x00, 0x00, 0x01]), None);
    assert_eq!(decode(&vec![]), Some(vec![]));
}

#[test]
fn assemble_concatenates_in_order() {
    let buffers: Vec<Vec<u32>> = vec![vec![1, 2], vec![3], vec![], vec![4, 5, 6]];
    let total: usize = buffers.iter().map(|b| b.len()).sum();
    let out = assemble(&buffers);
    assert_eq!(out, vec![1, 2, 3, 4, 5, 6]);
    assert_eq!(out.len(), total);
}

#[test]
fn assemble_of_no_buffers_is_empty() {
    assert_eq!(assemble(&vec![]), Vec::<u32>::new());
}

#[test]
fn encode_song_is_encode_of_the_concatenation() {
    let buffers: Vec<Vec<u32>> = vec![vec![0x0102_0304], vec![], vec![0xAABB_CCDD, 0x0000_0001]];
    let bytes = encode_song(&buffers);
    assert_eq!(bytes, encode(&assemble(&buffers)));
    assert_eq!(bytes.len(), 12);
}

#[test]
fn note_new_keeps_its_fields() {
    let n = Note::new(-7, NoteType::Half);
    assert_eq!(n.semitones, -7);
    assert_eq!(n.note_type, NoteType::Half);
}

#[test]
fn song_from_pairs_keeps_order_and_pitches() {
    let pairs: Vec<(i32, &str)> = vec![
        (0, "q"),
        (2, "q"),
        (4, "e"),
        (5, "e"),
        (7, "e"),
        (9, "s"),
        (10, "q"),
        (11, "q"),
        (12, "s"),
    ];
    let song = Song::from_pairs(&pairs).expect("all codes are valid");
    assert_eq!(song.notes.len(), 9);
    assert_eq!(song.notes[0], Note::new(0, NoteType::Quarter));
    assert_eq!(song.notes[4], Note::new(7, NoteType::Eight));
    assert_eq!(song.notes[8], Note::new(12, NoteType::Sixteenth));
}

#[test]
fn song_from_pairs_rejects_a_bad_code() {
    let pairs: Vec<(i32, &str)> = vec![(0, "q"), (3, "z"), (5, "e")];
    assert_eq!(Song::from_pairs(&pairs), Err(SongError::InvalidDurationCode));
}

#[test]
fn empty_song_encodes_to_no_bytes() {
    let song = Song::from_pairs(&vec![]).expect("no codes, no errors");
    assert_eq!(song.notes.len(), 0);
    let counts = song.sample_counts(136, SAMPLE_RATE);
    assert_eq!(counts, Vec::<u64>::new());
    let samples = assemble(&vec![]);
    let bytes = encode(&samples);
    assert_eq!(bytes, Vec::<u8>::new());
}

#[test]
fn per_note_counts_follow_the_duration_classes() {
    let pairs: Vec<(i32, &str)> = vec![(0, "q"), (4, "e")];
    let song = Song::from_pairs(&pairs).expect("valid codes");
    let counts = song.sample_counts(136, 48000);
    assert_eq!(counts, vec![5294, 2647]);
}
