//! The chunk encoder: linear PCM in a RIFF/WAVE container, written and read
//! in memory. Writing the bytes to disk is left to the caller.

use vstd::prelude::*;
use crate::error::CaptureError;
use crate::sample::{quantize, quantized, Sample};

verus! {

/// Whether the samples of a file are integers or floats.
#[derive(Debug, Clone, Copy, PartialEq, Eq, Structural)]
pub enum SampleEncoding {
    Int,
    Float,
}

/// The sample format of a file: channel count, sample rate and bit depth,
/// and the kind of number that a sample is.
#[derive(Debug, Clone, Copy, PartialEq, Eq, Structural)]
pub struct WavFormat {
    pub channels: u16,
    pub sample_rate: u32,
    pub bits_per_sample: u16,
    pub sample_format: SampleEncoding,
}

/// A decoded file: its format and its samples, channels interleaved.
#[derive(Debug)]
pub struct DecodedWav {
    pub format: WavFormat,
    pub samples: Vec<i16>,
}

/// The format of every chunk: one channel of 16-bit integers.
pub open spec fn chunk_format(sample_rate: u32) -> WavFormat {
    WavFormat {
        channels: 1,
        sample_rate: sample_rate,
        bits_per_sample: 16,
        sample_format: SampleEncoding::Int,
    }
}

impl WavFormat {
    /// The number of bytes that hold one sample.
    pub open spec fn bytes_per_sample(self) -> int {
        (self.bits_per_sample + 7) / 8
    }

    /// Whether `count` samples can be written in this format: the bit depth
    /// is one of 8, 16, 24 and 32, floats have 32 bits, there is a channel
    /// and a rate, and the byte rate and the size of the file fit the 32-bit
    /// fields of the container.
    pub open spec fn writable(self, count: nat) -> bool {
        &&& self.channels >= 1
        &&& self.sample_rate >= 1
        &&& (self.bits_per_sample == 8 || self.bits_per_sample == 16 || self.bits_per_sample == 24
            || self.bits_per_sample == 32)
        &&& (self.sample_format == SampleEncoding::Float ==> self.bits_per_sample == 32)
        &&& self.sample_rate * self.bytes_per_sample() * self.channels <= u32::MAX
        &&& count * self.bytes_per_sample() + 60 <= u32::MAX
    }

    /// Tests `writable`.
    pub fn can_write(&self, count: usize) -> (r: bool)
        ensures
            r == self.writable(count as nat),
    {
        if self.channels == 0 || self.sample_rate == 0 {
            return false;
        }
        if !(self.bits_per_sample == 8 || self.bits_per_sample == 16 || self.bits_per_sample == 24
            || self.bits_per_sample == 32) {
            return false;
        }
        if self.sample_format == SampleEncoding::Float && self.bits_per_sample != 32 {
            return false;
        }
        let width: u64 = ((self.bits_per_sample + 7) / 8) as u64;
        assert(1 <= width <= 4);
        assert(width == self.bytes_per_sample());
        assert(self.sample_rate * width <= 0x4_0000_0000) by (nonlinear_arith)
            requires
                self.sample_rate <= 0xffff_ffff,
                0 <= width <= 4,
        ;
        let byte_rate: u64 = (self.sample_rate as u64) * width;
        assert(byte_rate * self.channels <= 0x4_0000_0000 * 0x1_0000) by (nonlinear_arith)
            requires
                byte_rate <= 0x4_0000_0000,
                self.channels <= 0x1_0000,
        ;
        if byte_rate * (self.channels as u64) > 0xffff_ffff {
            return false;
        }
        if count as u64 > 0xffff_ffff {
            assert(count * self.bytes_per_sample() + 60 > u32::MAX) by (nonlinear_arith)
                requires
                    count > 0xffff_ffff,
                    self.bytes_per_sample() >= 1,
            ;
            return false;
        }
        assert((count as u64) * width <= 0xffff_ffff * 4) by (nonlinear_arith)
            requires
                count <= 0xffff_ffff,
                width <= 4,
        ;
        (count as u64) * width + 60 <= 0xffff_ffff
    }
}

/// The two bytes of `x`, low byte first.
pub open spec fn le16(x: int) -> Seq<u8> {
    seq![(x % 256) as u8, ((x / 256) % 256) as u8]
}

/// The four bytes of `x`, low byte first.
pub open spec fn le32(x: int) -> Seq<u8> {
    seq![
        (x % 256) as u8,
        ((x / 256) % 256) as u8,
        ((x / 65536) % 256) as u8,
        ((x / 16777216) % 256) as u8,
    ]
}

/// The two bytes of a sample: its two's complement, low byte first.
pub open spec fn sample_bytes(s: i16) -> Seq<u8> {
    le16(
        if s >= 0 {
            s as int
        } else {
            s + 65536
        },
    )
}

/// The bytes of a run of samples.
pub open spec fn data_bytes(samples: Seq<i16>) -> Seq<u8>
    decreases samples.len(),
{
    if samples.len() == 0 {
        Seq::<u8>::empty()
    } else {
        data_bytes(samples.drop_last()) + sample_bytes(samples.last())
    }
}

/// The 44 bytes that precede the samples of a chunk of `count` samples: the
/// RIFF tag and the size of what follows it, the WAVE tag, the format
/// section, which states integer PCM, one channel, the sample rate, the byte
/// rate, two bytes per frame and 16 bits per sample, and the tag and size of
/// the data section.
pub open spec fn chunk_header(sample_rate: u32, count: nat) -> Seq<u8> {
    seq![0x52u8, 0x49u8, 0x46u8, 0x46u8] + le32((36 + 2 * count) as int) + seq![
        0x57u8,
        0x41u8,
        0x56u8,
        0x45u8,
    ] + seq![0x66u8, 0x6du8, 0x74u8, 0x20u8] + le32(16) + le16(1) + le16(1) + le32(
        sample_rate as int,
    ) + le32(sample_rate * 2) + le16(2) + le16(16) + seq![0x64u8, 0x61u8, 0x74u8, 0x61u8] + le32(
        (2 * count) as int,
    )
}

/// The bytes of a chunk file: the header, then the samples.
pub open spec fn chunk_image(sample_rate: u32, samples: Seq<i16>) -> Seq<u8> {
    chunk_header(sample_rate, samples.len()) + data_bytes(samples)
}

/// A run of `n` samples takes `2 n` bytes.
pub proof fn lemma_data_bytes_len(samples: Seq<i16>)
    ensures
        data_bytes(samples).len() == 2 * samples.len(),
    decreases samples.len(),
{
    if samples.len() > 0 {
        lemma_data_bytes_len(samples.drop_last());
    }
}

/// A chunk file of `n` samples has `44 + 2 n` bytes.
pub proof fn lemma_chunk_image_len(sample_rate: u32, samples: Seq<i16>)
    ensures
        chunk_image(sample_rate, samples).len() == 44 + 2 * samples.len(),
{
    lemma_data_bytes_len(samples);
}

/// The bytes of the file that holds `samples` in the given format, or
/// `None` where the samples cannot be written in it.
pub uninterp spec fn wav_image(
    channels: u16,
    sample_rate: u32,
    bits_per_sample: u16,
    float: bool,
    samples: Seq<i16>,
) -> Option<Seq<u8>>;

/// What a file holds, read as 16-bit samples: channel count, sample rate,
/// bit depth, whether the samples are floats, and the samples; or `None`
/// where the bytes are no such file.
pub uninterp spec fn wav_content(bytes: Seq<u8>) -> Option<(u16, u32, u16, bool, Seq<i16>)>;

/// The image of `samples` in `format`.
pub open spec fn image_of(format: WavFormat, samples: Seq<i16>) -> Option<Seq<u8>> {
    wav_image(
        format.channels,
        format.sample_rate,
        format.bits_per_sample,
        format.sample_format == SampleEncoding::Float,
        samples,
    )
}

/// The content of `bytes` with its format as one value.
pub open spec fn content_of(bytes: Seq<u8>) -> Option<(WavFormat, Seq<i16>)> {
    match wav_content(bytes) {
        Some((channels, sample_rate, bits_per_sample, float, samples)) => Some(
            (
                WavFormat {
                    channels: channels,
                    sample_rate: sample_rate,
                    bits_per_sample: bits_per_sample,
                    sample_format: if float {
                        SampleEncoding::Float
                    } else {
                        SampleEncoding::Int
                    },
                },
                samples,
            ),
        ),
        None => None,
    }
}

/// `hound::Error`, the error of the WAVE reader and writer. It is carried
/// from the two calls below to the place where it is turned into an error
/// of this crate; nothing is read from it.
#[verifier::external_type_specification]
#[verifier::external_body]
pub struct ExWavError(hound::Error);

/// `hound::WavWriter::new` on a cursor over a fresh vector, then
/// `write_sample` for each sample and `finalize`; the vector is the result.
///
/// The writer's outcome depends on the format and the samples alone, so it
/// is named. For one channel of 16-bit integers more is stated. The writer
/// then succeeds: it refuses a bit depth it cannot write, a sample wider
/// than the depth and an unfinished frame, none of which one channel of
/// 16-bit samples can be, and a write to a vector in memory does not fail.
/// And it emits the 44-byte PCM header followed by each sample as two
/// bytes, low byte first. The inputs on which the writer divides by zero or
/// overflows its 32-bit counters are left out.
#[verifier::external_body]
fn write_wav(format: WavFormat, samples: &Vec<i16>) -> (r: Result<Vec<u8>, hound::Error>)
    requires
        format.writable(samples@.len()),
    ensures
        r is Ok <==> wav_image(
            format.channels,
            format.sample_rate,
            format.bits_per_sample,
            format.sample_format == SampleEncoding::Float,
            samples@,
        ) is Some,
        r matches Ok(b) ==> Some(b@) == wav_image(
            format.channels,
            format.sample_rate,
            format.bits_per_sample,
            format.sample_format == SampleEncoding::Float,
            samples@,
        ),
        r matches Ok(b) ==> (format == chunk_format(format.sample_rate) ==> b@ == chunk_image(
            format.sample_rate,
            samples@,
        )),
        format == chunk_format(format.sample_rate) ==> r is Ok,
{
    let sample_format = match format.sample_format {
        SampleEncoding::Int => hound::SampleFormat::Int,
        SampleEncoding::Float => hound::SampleFormat::Float,
    };
    let (channels, sample_rate, bits_per_sample) = (format.channels, format.sample_rate, format.bits_per_sample);
    let spec = hound::WavSpec { channels, sample_rate, bits_per_sample, sample_format };
    let mut cursor = std::io::Cursor::new(Vec::new());
    let mut writer = hound::WavWriter::new(&mut cursor, spec)?;
    for s in samples.iter() {
        writer.write_sample(*s)?;
    }
    writer.finalize()?;
    Ok(cursor.into_inner())
}

/// `hound::WavReader::new` on a cursor over `bytes`, then `spec` and all of
/// `samples::<i16>()`. The reader fails on bytes that are no WAVE file, on
/// samples wider than 16 bits and on float samples; what it yields depends
/// on the bytes alone, so it is named.
#[verifier::external_body]
fn read_wav(bytes: &[u8]) -> (r: Result<DecodedWav, hound::Error>)
    ensures
        r is Ok <==> wav_content(bytes@) is Some,
        r matches Ok(d) ==> wav_content(bytes@) == Some(
            (
                d.format.channels,
                d.format.sample_rate,
                d.format.bits_per_sample,
                d.format.sample_format == SampleEncoding::Float,
                d.samples@,
            ),
        ),
{
    let mut reader = hound::WavReader::new(std::io::Cursor::new(bytes))?;
    let spec = reader.spec();
    let samples = reader.samples::<i16>().collect::<Result<Vec<i16>, hound::Error>>()?;
    let sample_format = match spec.sample_format {
        hound::SampleFormat::Int => SampleEncoding::Int,
        hound::SampleFormat::Float => SampleEncoding::Float,
    };
    let (channels, sample_rate, bits_per_sample) = (spec.channels, spec.sample_rate, spec.bits_per_sample);
    Ok(DecodedWav { format: WavFormat { channels, sample_rate, bits_per_sample, sample_format }, samples })
}

/// What `encode` returns for a format, a run of samples, and the outcome of
/// the writer where the format is writable.
pub open spec fn encoded(format: WavFormat, samples: Seq<i16>) -> Result<Seq<u8>, CaptureError> {
    if !format.writable(samples.len()) {
        Err(CaptureError::EncodeFailed)
    } else {
        match image_of(format, samples) {
            Some(b) => Ok(b),
            None => Err(CaptureError::EncodeFailed),
        }
    }
}

/// Encodes 16-bit samples in the given format. Fails with `EncodeFailed`
/// where the format is not writable for that many samples, and where the
/// writer refuses the samples. One channel of 16-bit integers that is
/// writable is always encoded, as the header followed by the samples.
pub fn encode(format: WavFormat, samples: &Vec<i16>) -> (r: Result<Vec<u8>, CaptureError>)
    ensures
        match r {
            Ok(b) => encoded(format, samples@) == Ok::<Seq<u8>, CaptureError>(b@),
            Err(e) => encoded(format, samples@) == Err::<Seq<u8>, CaptureError>(e),
        },
        format == chunk_format(format.sample_rate) && format.writable(samples@.len()) ==> r is Ok
            && r->Ok_0@ == chunk_image(format.sample_rate, samples@),
{
    if !format.can_write(samples.len()) {
        return Err(CaptureError::EncodeFailed);
    }
    match write_wav(format, samples) {
        Ok(b) => Ok(b),
        Err(_) => Err(CaptureError::EncodeFailed),
    }
}

/// Decodes a file into its format and its samples as 16-bit integers.
/// Fails with `DecodeFailed` exactly where the bytes hold no such file.
pub fn decode(bytes: &[u8]) -> (r: Result<DecodedWav, CaptureError>)
    ensures
        r matches Ok(d) ==> content_of(bytes@) == Some((d.format, d.samples@)),
        r matches Err(e) ==> e == CaptureError::DecodeFailed && content_of(bytes@) is None,
{
    match read_wav(bytes) {
        Ok(d) => Ok(d),
        Err(_) => Err(CaptureError::DecodeFailed),
    }
}

/// Whether a chunk of `count` samples at `sample_rate` can be encoded: the
/// rate is not zero, and byte rate and file size fit in 32 bits.
pub open spec fn chunk_encodable(sample_rate: u32, count: nat) -> bool {
    chunk_format(sample_rate).writable(count)
}

/// Encodes one chunk: each sample is limited to full scale, narrowed to 16
/// bits and written after the header of a one-channel file.
///
/// A chunk is encoded exactly where it is encodable: its rate is not zero
/// and its byte rate and size fit in 32 bits. The file then holds the
/// header and the clamped samples, `44 + 2 n` bytes for `n` samples. Every
/// other chunk gives `EncodeFailed`.
pub fn encode_chunk(sample_rate: u32, samples: &Vec<Sample>) -> (r: Result<Vec<u8>, CaptureError>)
    ensures
        chunk_encodable(sample_rate, samples@.len()) ==> r is Ok && r->Ok_0@ == chunk_image(
            sample_rate,
            quantized(samples@),
        ) && r->Ok_0.len() == 44 + 2 * samples.len(),
        !chunk_encodable(sample_rate, samples@.len()) ==> r == Err::<Vec<u8>, CaptureError>(
            CaptureError::EncodeFailed,
        ),
{
    let pcm = quantize(samples);
    let format = WavFormat {
        channels: 1,
        sample_rate,
        bits_per_sample: 16,
        sample_format: SampleEncoding::Int,
    };
    proof {
        lemma_chunk_image_len(sample_rate, quantized(samples@));
    }
    encode(format, &pcm)
}

} // verus!
