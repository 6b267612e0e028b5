//! Assembling per-note sample buffers and serializing samples to bytes.
//!
//! A sample is carried as the 32-bit pattern of an IEEE-754 single
//! precision value. Serialization writes each sample as four big-endian
//! bytes, in sample order, with no header and no padding, so decoding the
//! byte stream word by word gives back exactly the samples that were
//! encoded.

use vstd::prelude::*;

verus! {

/// The four big-endian bytes of one 32-bit sample word, most significant
/// first.
pub open spec fn spec_word_to_be_bytes(x: u32) -> Seq<u8> {
    seq![
        ((x >> 24) & 0xff) as u8,
        ((x >> 16) & 0xff) as u8,
        ((x >> 8) & 0xff) as u8,
        (x & 0xff) as u8,
    ]
}

/// The 32-bit sample word four big-endian bytes stand for.
pub open spec fn spec_word_from_be_bytes(s: Seq<u8>) -> u32
    recommends
        s.len() == 4,
{
    ((s[0] as u32) << 24) | ((s[1] as u32) << 16) | ((s[2] as u32) << 8) | (s[3] as u32)
}

/// The big-endian byte stream of a sample sequence: four bytes per sample,
/// in sample order.
pub open spec fn spec_encode(samples: Seq<u32>) -> Seq<u8>
    decreases samples.len(),
{
    if samples.len() == 0 {
        Seq::empty()
    } else {
        spec_word_to_be_bytes(samples[0]) + spec_encode(samples.drop_first())
    }
}

/// The sample sequence a big-endian byte stream stands for, read four
/// bytes at a time from the front.
pub open spec fn spec_decode(bytes: Seq<u8>) -> Seq<u32>
    decreases bytes.len(),
{
    if bytes.len() < 4 {
        Seq::empty()
    } else {
        seq![spec_word_from_be_bytes(bytes.take(4))] + spec_decode(bytes.skip(4))
    }
}

/// Reassembling the four big-endian bytes of a word gives the word back.
proof fn lemma_word_round_trip(x: u32)
    ensures
        spec_word_from_be_bytes(spec_word_to_be_bytes(x)) == x,
{
    assert((((((x >> 24) & 0xff) as u8) as u32) << 24) | (((((x >> 16) & 0xff) as u8) as u32)
        << 16) | (((((x >> 8) & 0xff) as u8) as u32) << 8) | (((x & 0xff) as u8) as u32) == x)
        by (bit_vector);
}

/// Encoding one more sample appends its four bytes to the stream.
proof fn lemma_encode_push(samples: Seq<u32>, x: u32)
    ensures
        spec_encode(samples.push(x)) == spec_encode(samples) + spec_word_to_be_bytes(x),
    decreases samples.len(),
{
    if samples.len() == 0 {
        reveal_with_fuel(spec_encode, 2);
        assert(samples.push(x).drop_first() =~= Seq::<u32>::empty());
        assert(spec_encode(samples.push(x)) =~= spec_encode(samples) + spec_word_to_be_bytes(x));
    } else {
        assert(samples.push(x).drop_first() =~= samples.drop_first().push(x));
        lemma_encode_push(samples.drop_first(), x);
        assert(spec_encode(samples.push(x)) =~= spec_encode(samples) + spec_word_to_be_bytes(x));
    }
}

/// An encoded stream holds exactly four bytes per sample.
pub proof fn lemma_encode_len(samples: Seq<u32>)
    ensures
        spec_encode(samples).len() == 4 * samples.len(),
    decreases samples.len(),
{
    if samples.len() > 0 {
        lemma_encode_len(samples.drop_first());
    }
}

/// Decoding a well-formed stream extended by one word appends that word.
proof fn lemma_decode_append_word(bytes: Seq<u8>, word: Seq<u8>)
    requires
        bytes.len() % 4 == 0,
        word.len() == 4,
    ensures
        spec_decode(bytes + word) == spec_decode(bytes) + seq![spec_word_from_be_bytes(word)],
    decreases bytes.len(),
{
    if bytes.len() == 0 {
        reveal_with_fuel(spec_decode, 2);
        assert(bytes + word =~= word);
        assert(word.take(4) =~= word);
        assert(word.skip(4) =~= Seq::<u8>::empty());
        assert(spec_decode(bytes + word) =~= spec_decode(bytes) + seq![
            spec_word_from_be_bytes(word),
        ]);
    } else {
        assert((bytes + word).take(4) =~= bytes.take(4));
        assert((bytes + word).skip(4) =~= bytes.skip(4) + word);
        assert(bytes.skip(4).len() % 4 == 0);
        lemma_decode_append_word(bytes.skip(4), word);
        assert(spec_decode(bytes + word) =~= spec_decode(bytes) + seq![
            spec_word_from_be_bytes(word),
        ]);
    }
}

/// Round-trip law: decoding the big-endian encoding of any sample sequence
/// gives back exactly that sequence.
pub proof fn lemma_decode_encode(samples: Seq<u32>)
    ensures
        spec_encode(samples).len() % 4 == 0,
        spec_decode(spec_encode(samples)) == samples,
    decreases samples.len(),
{
    lemma_encode_len(samples);
    if samples.len() == 0 {
        assert(spec_decode(spec_encode(samples)) =~= samples);
    } else {
        let rest = samples.drop_first();
        let head = spec_word_to_be_bytes(samples[0]);
        lemma_encode_len(rest);
        lemma_decode_encode(rest);
        lemma_word_round_trip(samples[0]);
        assert(spec_encode(samples).take(4) =~= head);
        assert(spec_encode(samples).skip(4) =~= spec_encode(rest));
        assert(spec_decode(spec_encode(samples)) =~= samples);
    }
}

/// Serializes each 32-bit sample word as four big-endian bytes, in order.
pub fn encode(samples: &Vec<u32>) -> (bytes: Vec<u8>)
    ensures
        bytes@ == spec_encode(samples@),
        bytes@.len() == 4 * samples@.len(),
{
    let mut bytes: Vec<u8> = Vec::new();
    let mut idx: usize = 0;
    while idx < samples.len()
        invariant
            idx <= samples@.len(),
            bytes@.len() == 4 * idx,
            bytes@ == spec_encode(samples@.take(idx as int)),
        decreases samples@.len() - idx,
    {
        let x: u32 = samples[idx];
        proof {
            assert((x >> 24) & 0xff < 256 && (x >> 16) & 0xff < 256 && (x >> 8) & 0xff < 256 && x
                & 0xff < 256) by (bit_vector);
            lemma_encode_push(samples@.take(idx as int), x);
            assert(samples@.take(idx as int).push(x) =~= samples@.take(idx as int + 1));
        }
        bytes.push(((x >> 24) & 0xff) as u8);
        bytes.push(((x >> 16) & 0xff) as u8);
        bytes.push(((x >> 8) & 0xff) as u8);
        bytes.push((x & 0xff) as u8);
        proof {
            assert(bytes@ =~= spec_encode(samples@.take(idx as int + 1)));
        }
        idx = idx + 1;
    }
    proof {
        assert(samples@.take(samples@.len() as int) =~= samples@);
    }
    bytes
}

/// Deserializes a big-endian byte stream back into 32-bit sample words.
/// Succeeds exactly when the stream's length is a multiple of four.
pub fn decode(bytes: &Vec<u8>) -> (r: Option<Vec<u32>>)
    ensures
        match r {
            Some(samples) => bytes@.len() % 4 == 0 && samples@ == spec_decode(bytes@),
            None => bytes@.len() % 4 != 0,
        },
{
    if bytes.len() % 4 != 0 {
        return None;
    }
    let n_words: usize = bytes.len() / 4;
    proof {
        vstd::arithmetic::div_mod::lemma_fundamental_div_mod(bytes@.len() as int, 4);
    }
    let mut samples: Vec<u32> = Vec::new();
    let mut w: usize = 0;
    while w < n_words
        invariant
            bytes@.len() == 4 * n_words,
            bytes@.len() <= usize::MAX,
            w <= n_words,
            samples@.len() == w,
            samples@ == spec_decode(bytes@.take(4 * w as int)),
        decreases n_words - w,
    {
        proof {
            assert(4 * (w as int) + 4 <= bytes@.len());
        }
        let idx: usize = 4 * w;
        let b0: u8 = bytes[idx];
        let b1: u8 = bytes[idx + 1];
        let b2: u8 = bytes[idx + 2];
        let b3: u8 = bytes[idx + 3];
        let word: u32 = ((b0 as u32) << 24) | ((b1 as u32) << 16) | ((b2 as u32) << 8) | (
        b3 as u32);
        proof {
            let prefix = bytes@.take(4 * w as int);
            let chunk = bytes@.subrange(4 * w as int, 4 * w as int + 4);
            assert(prefix.len() % 4 == 0);
            assert(chunk[0] == b0 && chunk[1] == b1 && chunk[2] == b2 && chunk[3] == b3);
            assert(word == spec_word_from_be_bytes(chunk));
            lemma_decode_append_word(prefix, chunk);
            assert(prefix + chunk =~= bytes@.take(4 * (w as int + 1)));
            assert(samples@.push(word) =~= spec_decode(bytes@.take(4 * (w as int + 1))));
        }
        samples.push(word);
        w = w + 1;
    }
    proof {
        assert(bytes@.take(4 * n_words as int) =~= bytes@);
    }
    Some(samples)
}

/// The total number of samples across an ordered sequence of buffers.
pub open spec fn spec_total_samples(buffers: Seq<Vec<u32>>) -> int
    decreases buffers.len(),
{
    if buffers.len() == 0 {
        0
    } else {
        buffers[0]@.len() + spec_total_samples(buffers.drop_first())
    }
}

/// The concatenation of an ordered sequence of sample buffers: buffer
/// boundaries disappear, order is kept, nothing overlaps.
pub open spec fn spec_concat(buffers: Seq<Vec<u32>>) -> Seq<u32>
    decreases buffers.len(),
{
    if buffers.len() == 0 {
        Seq::empty()
    } else {
        buffers[0]@ + spec_concat(buffers.drop_first())
    }
}

/// Concatenating one more buffer appends exactly its samples.
proof fn lemma_concat_push(buffers: Seq<Vec<u32>>, buf: Vec<u32>)
    ensures
        spec_concat(buffers.push(buf)) == spec_concat(buffers) + buf@,
        spec_total_samples(buffers.push(buf)) == spec_total_samples(buffers) + buf@.len(),
    decreases buffers.len(),
{
    if buffers.len() == 0 {
        reveal_with_fuel(spec_concat, 2);
        reveal_with_fuel(spec_total_samples, 2);
        assert(buffers.push(buf).drop_first() =~= Seq::<Vec<u32>>::empty());
        assert(spec_concat(buffers.push(buf)) =~= spec_concat(buffers) + buf@);
    } else {
        assert(buffers.push(buf).drop_first() =~= buffers.drop_first().push(buf));
        lemma_concat_push(buffers.drop_first(), buf);
        assert(spec_concat(buffers.push(buf)) =~= spec_concat(buffers) + buf@);
        assert(spec_total_samples(buffers.push(buf)) == spec_total_samples(buffers)
            + buf@.len());
    }
}

/// A concatenation is exactly as long as the sum of its parts: notes play
/// back to back, with no overlap and no inserted silence.
pub proof fn lemma_concat_len(buffers: Seq<Vec<u32>>)
    ensures
        spec_concat(buffers).len() == spec_total_samples(buffers),
    decreases buffers.len(),
{
    if buffers.len() > 0 {
        lemma_concat_len(buffers.drop_first());
    }
}

/// Concatenates per-note sample buffers and serializes the result: the
/// byte stream of a whole song. Exactly the big-endian encoding of the
/// buffers' samples in playback order — four bytes per sample, so the
/// file's size is four times the summed buffer lengths.
pub fn encode_song(buffers: &Vec<Vec<u32>>) -> (bytes: Vec<u8>)
    ensures
        bytes@ == spec_encode(spec_concat(buffers@)),
        bytes@.len() == 4 * spec_total_samples(buffers@),
{
    let samples = assemble(buffers);
    encode(&samples)
}

/// Concatenates per-note sample buffers into one continuous stream, in
/// playback order. The result is exactly the sum of the inputs: its length
/// is the sum of the buffer lengths, and sample `k` of buffer `i` ends up
/// after all samples of buffers `0..i`.
pub fn assemble(buffers: &Vec<Vec<u32>>) -> (out: Vec<u32>)
    ensures
        out@ == spec_concat(buffers@),
        out@.len() == spec_total_samples(buffers@),
{
    let mut out: Vec<u32> = Vec::new();
    let mut i: usize = 0;
    while i < buffers.len()
        invariant
            i <= buffers@.len(),
            out@ == spec_concat(buffers@.take(i as int)),
        decreases buffers@.len() - i,
    {
        let buf: &Vec<u32> = &buffers[i];
        let mut j: usize = 0;
        while j < buf.len()
            invariant
                i < buffers@.len(),
                buf@ == buffers@[i as int]@,
                j <= buf@.len(),
                out@ == spec_concat(buffers@.take(i as int)) + buf@.take(j as int),
            decreases buf@.len() - j,
        {
            out.push(buf[j]);
            proof {
                assert(buf@.take(j as int).push(buf@[j as int]) =~= buf@.take(j as int + 1));
                assert(out@ =~= spec_concat(buffers@.take(i as int)) + buf@.take(j as int + 1));
            }
            j = j + 1;
        }
        proof {
            assert(buf@.take(buf@.len() as int) =~= buf@);
            lemma_concat_push(buffers@.take(i as int), buffers@[i as int]);
            assert(buffers@.take(i as int).push(buffers@[i as int]) =~= buffers@.take(
                i as int + 1,
            ));
        }
        i = i + 1;
    }
    proof {
        assert(buffers@.take(buffers@.len() as int) =~= buffers@);
        lemma_concat_len(buffers@);
    }
    out
}

} // verus!
