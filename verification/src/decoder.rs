//! Frame decoder: 16-bit little-endian signed PCM to samples.
//!
//! A payload is read two bytes at a time. Every complete pair gives one
//! sample; a trailing odd byte is dropped. Nothing is rejected: a short or
//! odd payload only yields fewer samples.
//!
//! Samples are kept as the integers that were on the wire. The amplitude a
//! sample stands for is `sample / FULL_SCALE`, which lies in the closed range
//! from `-1 - 1/FULL_SCALE` to `1`.

use byteorder::ByteOrder;
use byteorder::LittleEndian;
use vstd::prelude::*;
use vstd::slice::slice_subrange;

verus! {

/// Number of interleaved channels of every decoded buffer.
pub const CHANNELS: u16 = 1;

/// Samples per second of every decoded buffer.
pub const SAMPLE_RATE: u32 = 24000;

/// The integer that stands for amplitude `1.0`.
pub const FULL_SCALE: i16 = 32767;

/// The signed 16-bit integer whose little-endian encoding is `lo`, `hi`.
pub open spec fn le_i16(lo: u8, hi: u8) -> i16 {
    if hi < 128 {
        (lo + 256 * hi) as i16
    } else {
        (lo + 256 * hi - 65536) as i16
    }
}

/// The samples held by `bytes`: one for each complete pair of bytes, in order.
pub open spec fn decode_spec(bytes: Seq<u8>) -> Seq<i16> {
    Seq::new((bytes.len() / 2) as nat, |i: int| le_i16(bytes[2 * i], bytes[2 * i + 1]))
}

/// Calls `byteorder::ByteOrder::read_i16` of `byteorder::LittleEndian`.
///
/// Trusted: the result is the signed 16-bit integer stored in the first two
/// bytes of `buf`, least significant byte first. The outside function panics
/// on a shorter buffer, which `requires` rules out.
#[verifier::external_body]
fn read_i16_le(buf: &[u8]) -> (value: i16)
    requires
        buf@.len() >= 2,
    ensures
        value == le_i16(buf@[0], buf@[1]),
{
    LittleEndian::read_i16(buf)
}

/// Decodes a payload of 16-bit little-endian signed samples.
///
/// One sample comes out for each complete pair of bytes, so an even payload
/// gives exactly half as many samples as it has bytes, an odd one loses its
/// last byte, and an empty one gives no samples.
pub fn decode(bytes: &[u8]) -> (samples: Vec<i16>)
    ensures
        samples@ == decode_spec(bytes@),
        samples@.len() == bytes@.len() / 2,
{
    let mut samples: Vec<i16> = Vec::with_capacity(bytes.len() / 2);
    let mut pos: usize = 0;
    while bytes.len() - pos >= 2
        invariant
            pos <= bytes@.len(),
            pos % 2 == 0,
            samples@.len() == pos / 2,
            forall|i: int|
                0 <= i < samples@.len() ==> samples@[i] == le_i16(
                    #[trigger] bytes@[2 * i],
                    bytes@[2 * i + 1],
                ),
        decreases bytes@.len() - pos,
    {
        let pair = slice_subrange(bytes, pos, pos + 2);
        let value = read_i16_le(pair);
        samples.push(value);
        pos += 2;
    }
    assert(samples@ =~= decode_spec(bytes@));
    samples
}

/// The two bytes, least significant first, that encode `sample`.
pub open spec fn le_bytes(sample: i16) -> (u8, u8) {
    let word: int = if sample < 0 {
        sample + 65536
    } else {
        sample as int
    };
    ((word % 256) as u8, (word / 256) as u8)
}

/// The payload that holds exactly `samples`, two bytes for each.
pub open spec fn encode_spec(samples: Seq<i16>) -> Seq<u8> {
    Seq::new(
        2 * samples.len(),
        |j: int|
            if j % 2 == 0 {
                le_bytes(samples[j / 2]).0
            } else {
                le_bytes(samples[j / 2]).1
            },
    )
}

/// A payload of even length decodes to exactly half as many samples as it has
/// bytes, and one more byte at its end changes nothing.
pub proof fn lemma_decode_length(bytes: Seq<u8>, extra: u8)
    requires
        bytes.len() % 2 == 0,
    ensures
        2 * decode_spec(bytes).len() == bytes.len(),
        decode_spec(bytes.push(extra)) == decode_spec(bytes),
{
    assert(decode_spec(bytes.push(extra)) =~= decode_spec(bytes));
}

/// Every sample lies between `-FULL_SCALE - 1` and `FULL_SCALE`, so the
/// amplitude it stands for lies between `-1 - 1/FULL_SCALE` and `1`.
pub proof fn lemma_samples_within_full_scale(bytes: Seq<u8>, i: int)
    requires
        0 <= i < decode_spec(bytes).len(),
    ensures
        -FULL_SCALE - 1 <= decode_spec(bytes)[i] <= FULL_SCALE,
{
}

/// An empty payload decodes to no samples.
pub proof fn lemma_decode_empty()
    ensures
        decode_spec(Seq::<u8>::empty()) == Seq::<i16>::empty(),
{
    assert(decode_spec(Seq::<u8>::empty()) =~= Seq::<i16>::empty());
}

/// Decoding the encoding of a sample gives the sample back.
pub proof fn lemma_sample_round_trip(sample: i16)
    ensures
        le_i16(le_bytes(sample).0, le_bytes(sample).1) == sample,
{
}

/// Decoding the encoding of any run of samples gives the samples back,
/// unchanged and in order.
pub proof fn lemma_decode_encode(samples: Seq<i16>)
    ensures
        encode_spec(samples).len() == 2 * samples.len(),
        decode_spec(encode_spec(samples)) == samples,
{
    let bytes = encode_spec(samples);
    assert forall|i: int| 0 <= i < samples.len() implies #[trigger] decode_spec(bytes)[i]
        == samples[i] by {
        lemma_sample_round_trip(samples[i]);
        assert(bytes[2 * i] == le_bytes(samples[i]).0);
        assert(bytes[2 * i + 1] == le_bytes(samples[(2 * i + 1) / 2]).1);
    }
    assert(decode_spec(bytes) =~= samples);
}

/// What a [`SampleBuffer`] holds.
pub ghost struct SampleBufferView {
    pub channels: u16,
    pub sample_rate: u32,
    pub samples: Seq<i16>,
}

/// Decoded audio, ready to be queued for playback: the samples in playing
/// order, with the channel count and the sample rate they were recorded at.
///
/// A buffer cannot be changed once it has been made.
#[derive(Debug, PartialEq, Eq)]
pub struct SampleBuffer {
    channels: u16,
    sample_rate: u32,
    samples: Vec<i16>,
}

impl View for SampleBuffer {
    type V = SampleBufferView;

    closed spec fn view(&self) -> SampleBufferView {
        SampleBufferView {
            channels: self.channels,
            sample_rate: self.sample_rate,
            samples: self.samples@,
        }
    }
}

impl SampleBuffer {
    /// Every buffer is one channel at 24000 Hz.
    #[verifier::type_invariant]
    spec fn well_formed(self) -> bool {
        self.channels == CHANNELS && self.sample_rate == SAMPLE_RATE
    }
}

/// The buffer that a payload decodes to: one channel at 24000 Hz.
pub open spec fn source_spec(pcm_bytes: Seq<u8>) -> SampleBufferView {
    SampleBufferView {
        channels: CHANNELS,
        sample_rate: SAMPLE_RATE,
        samples: decode_spec(pcm_bytes),
    }
}

/// Turns a raw PCM payload into a sample buffer of one channel at 24000 Hz.
pub fn pcm_bytes_to_source(pcm_bytes: &[u8]) -> (source: SampleBuffer)
    ensures
        source@ == source_spec(pcm_bytes@),
{
    SampleBuffer { channels: CHANNELS, sample_rate: SAMPLE_RATE, samples: decode(pcm_bytes) }
}

impl SampleBuffer {
    /// Number of interleaved channels.
    pub fn channels(&self) -> (n: u16)
        ensures
            n == self@.channels,
            n == CHANNELS,
    {
        proof {
            use_type_invariant(self);
        }
        self.channels
    }

    /// Samples per second.
    pub fn sample_rate(&self) -> (rate: u32)
        ensures
            rate == self@.sample_rate,
            rate == SAMPLE_RATE,
    {
        proof {
            use_type_invariant(self);
        }
        self.sample_rate
    }

    /// The samples, in playing order.
    pub fn samples(&self) -> (samples: &[i16])
        ensures
            samples@ == self@.samples,
    {
        self.samples.as_slice()
    }

    /// Number of samples.
    pub fn len(&self) -> (n: usize)
        ensures
            n == self@.samples.len(),
    {
        self.samples.len()
    }

    /// Whether the buffer holds no sample at all, that is, plays as silence of
    /// no length.
    pub fn is_empty(&self) -> (empty: bool)
        ensures
            empty == (self@.samples.len() == 0),
    {
        self.samples.len() == 0
    }
}

} // verus!
