use dgmeets::error::CaptureError;
use dgmeets::sample::{
    clamp_to_pcm16, convert_i16, convert_u16, quantize, sample_from_i16, sample_from_u16,
    FULL_SCALE,
};
use dgmeets::wav::{decode, encode, encode_chunk, SampleEncoding, WavFormat};

fn le16(x: u16) -> Vec<u8> {
    x.to_le_bytes().to_vec()
}

fn le32(x: u32) -> Vec<u8> {
    x.to_le_bytes().to_vec()
}

fn expected_chunk(rate: u32, pcm: &[i16]) -> Vec<u8> {
    let mut out = Vec::new();
    out.extend_from_slice(b"RIFF");
    out.extend(le32(36 + 2 * pcm.len() as u32));
    out.extend_from_slice(b"WAVE");
    out.extend_from_slice(b"fmt ");
    out.extend(le32(16));
    out.extend(le16(1));
    out.extend(le16(1));
    out.extend(le32(rate));
    out.extend(le32(rate * 2));
    out.extend(le16(2));
    out.extend(le16(16));
    out.extend_from_slice(b"data");
    out.extend(le32(2 * pcm.len() as u32));
    for s in pcm {
        out.extend(le16(*s as u16));
    }
    out
}

fn mono16(rate: u32) -> WavFormat {
    WavFormat {
        channels: 1,
        sample_rate: rate,
        bits_per_sample: 16,
        sample_format: SampleEncoding::Int,
    }
}

#[test]
fn clamp_limits_to_full_scale() {
    assert_eq!(FULL_SCALE, 32767);
    assert_eq!(clamp_to_pcm16(40000), 32767);
    assert_eq!(clamp_to_pcm16(-40000), -32767);
    assert_eq!(clamp_to_pcm16(-32768), -32767);
    assert_eq!(clamp_to_pcm16(32767), 32767);
    assert_eq!(clamp_to_pcm16(-32767), -32767);
    assert_eq!(clamp_to_pcm16(123), 123);
    assert_eq!(clamp_to_pcm16(i32::MAX), 32767);
    assert_eq!(clamp_to_pcm16(i32::MIN), -32767);
}

#[test]
fn quantize_clamps_every_sample() {
    assert_eq!(quantize(&vec![0, 70000, -70000, 5]), vec![0i16, 32767, -32767, 5]);
}

#[test]
fn float_scale_matches_the_sixteen_bit_scale() {
    let x: f32 = 0.5;
    let direct = (x.max(-1.0).min(1.0) * i16::MAX as f32) as i16;
    let through = clamp_to_pcm16((x * 32767.0) as i32);
    assert_eq!(direct, through);
    let loud: f32 = 1.7;
    let direct = (loud.max(-1.0).min(1.0) * i16::MAX as f32) as i16;
    let through = clamp_to_pcm16((loud * 32767.0) as i32);
    assert_eq!(direct, through);
}

#[test]
fn signed_device_samples_are_taken_as_they_are() {
    assert_eq!(sample_from_i16(0), 0);
    assert_eq!(sample_from_i16(i16::MAX), 32767);
    assert_eq!(sample_from_i16(i16::MIN), -32768);
    assert_eq!(convert_i16(&[1, -2, 3]), vec![1, -2, 3]);
}

#[test]
fn unsigned_device_samples_are_centred() {
    assert_eq!(sample_from_u16(0), -32767);
    assert_eq!(sample_from_u16(u16::MAX), 32767);
    assert_eq!(sample_from_u16(32768), 0);
    assert_eq!(sample_from_u16(32767), 0);
    assert_eq!(sample_from_u16(49151), 16383);
    assert_eq!(convert_u16(&[0, 65535]), vec![-32767, 32767]);
}

#[test]
fn a_chunk_is_the_pcm_header_and_the_samples() {
    let bytes = encode_chunk(8000, &vec![0, 1, -1, 32767, -32767]).unwrap();
    assert_eq!(bytes, expected_chunk(8000, &[0, 1, -1, 32767, -32767]));
    assert_eq!(bytes.len(), 44 + 10);
}

#[test]
fn an_empty_chunk_is_a_header_alone() {
    let bytes = encode_chunk(48000, &vec![]).unwrap();
    assert_eq!(bytes, expected_chunk(48000, &[]));
    assert_eq!(bytes.len(), 44);
}

#[test]
fn loud_samples_are_clamped_in_the_file() {
    let bytes = encode_chunk(16000, &vec![100000, -100000]).unwrap();
    assert_eq!(bytes, expected_chunk(16000, &[32767, -32767]));
}

#[test]
fn a_chunk_without_a_rate_cannot_be_encoded() {
    assert_eq!(encode_chunk(0, &vec![1, 2]), Err(CaptureError::EncodeFailed));
}

#[test]
fn a_byte_rate_beyond_32_bits_cannot_be_encoded() {
    assert_eq!(encode_chunk(u32::MAX, &vec![1, 2]), Err(CaptureError::EncodeFailed));
    assert!(encode_chunk(u32::MAX / 2, &vec![1, 2]).is_ok());
}

#[test]
fn what_was_encoded_decodes_to_the_same() {
    let bytes = encode_chunk(44100, &vec![5, -6, 70000]).unwrap();
    let d = decode(&bytes).unwrap();
    assert_eq!(d.format, mono16(44100));
    assert_eq!(d.samples, vec![5i16, -6, 32767]);
}

#[test]
fn writable_formats() {
    assert!(mono16(8000).can_write(10));
    assert!(!mono16(0).can_write(10));
    let mut f = mono16(8000);
    f.channels = 0;
    assert!(!f.can_write(0));
    f = mono16(8000);
    f.bits_per_sample = 12;
    assert!(!f.can_write(0));
    f = mono16(8000);
    f.sample_format = SampleEncoding::Float;
    assert!(!f.can_write(0));
    f.bits_per_sample = 32;
    assert!(f.can_write(0));
    assert!(mono16(8000).can_write(2147483617));
    assert!(!mono16(8000).can_write(2147483618));
}

#[test]
fn stereo_files_round_trip() {
    let f = WavFormat {
        channels: 2,
        sample_rate: 22050,
        bits_per_sample: 16,
        sample_format: SampleEncoding::Int,
    };
    let bytes = encode(f, &vec![1, 2, 3, 4]).unwrap();
    let d = decode(&bytes).unwrap();
    assert_eq!(d.format, f);
    assert_eq!(d.samples, vec![1i16, 2, 3, 4]);
}

#[test]
fn an_unfinished_frame_is_refused() {
    let f = WavFormat {
        channels: 2,
        sample_rate: 22050,
        bits_per_sample: 16,
        sample_format: SampleEncoding::Int,
    };
    assert_eq!(encode(f, &vec![1, 2, 3]), Err(CaptureError::EncodeFailed));
}

#[test]
fn eight_bit_files_refuse_wide_samples() {
    let f = WavFormat {
        channels: 1,
        sample_rate: 8000,
        bits_per_sample: 8,
        sample_format: SampleEncoding::Int,
    };
    assert!(encode(f, &vec![1, -128, 127]).is_ok());
    assert_eq!(encode(f, &vec![300]), Err(CaptureError::EncodeFailed));
}

#[test]
fn bytes_that_are_no_file_do_not_decode() {
    assert_eq!(decode(&[]).err(), Some(CaptureError::DecodeFailed));
    assert_eq!(decode(b"not a wave file at all").err(), Some(CaptureError::DecodeFailed));
    let mut bytes = encode_chunk(8000, &vec![1, 2, 3]).unwrap();
    bytes.truncate(47);
    assert_eq!(decode(&bytes).err(), Some(CaptureError::DecodeFailed));
}

#[test]
fn an_encodable_chunk_is_always_encoded() {
    for rate in [1u32, 8000, 44100, 48000, u32::MAX / 2] {
        for n in [0usize, 1, 2, 1000] {
            let samples: Vec<i32> = (0..n as i32).map(|k| k * 977 - 40000).collect();
            let pcm: Vec<i16> = quantize(&samples);
            let bytes = encode_chunk(rate, &samples).unwrap();
            assert_eq!(bytes, expected_chunk_at(rate, &pcm));
        }
    }
}

fn expected_chunk_at(rate: u32, pcm: &[i16]) -> Vec<u8> {
    let mut out = Vec::new();
    out.extend_from_slice(b"RIFF");
    out.extend(le32(36 + 2 * pcm.len() as u32));
    out.extend_from_slice(b"WAVEfmt ");
    out.extend(le32(16));
    out.extend(le16(1));
    out.extend(le16(1));
    out.extend(le32(rate));
    out.extend(le32(rate.wrapping_mul(2)));
    out.extend(le16(2));
    out.extend(le16(16));
    out.extend_from_slice(b"data");
    out.extend(le32(2 * pcm.len() as u32));
    for s in pcm {
        out.extend(le16(*s as u16));
    }
    out
}
