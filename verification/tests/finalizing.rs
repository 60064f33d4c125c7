use dgmeets::error::CaptureError;
use dgmeets::finalizer::{concatenate, finalize, next_chunk_index, order_chunks};
use dgmeets::wav::{decode, encode, encode_chunk, DecodedWav, SampleEncoding, WavFormat};

fn mono16(rate: u32) -> WavFormat {
    WavFormat {
        channels: 1,
        sample_rate: rate,
        bits_per_sample: 16,
        sample_format: SampleEncoding::Int,
    }
}

#[test]
fn two_chunks_are_joined_in_order() {
    let one = encode_chunk(8000, &vec![1, 2, 3]).unwrap();
    let two = encode_chunk(8000, &vec![4, 5]).unwrap();
    let out = finalize(&vec![one, two]).unwrap();
    let d = decode(&out).unwrap();
    assert_eq!(d.format, mono16(8000));
    assert_eq!(d.samples.len(), 3 + 2);
    assert_eq!(d.samples, vec![1i16, 2, 3, 4, 5]);
    assert_eq!(out, encode_chunk(8000, &vec![1, 2, 3, 4, 5]).unwrap());
}

#[test]
fn a_single_chunk_finalizes_to_itself() {
    let one = encode_chunk(8000, &vec![9, 8, 7]).unwrap();
    assert_eq!(finalize(&vec![one.clone()]).unwrap(), one);
}

#[test]
fn no_chunks_is_an_empty_session() {
    assert_eq!(finalize(&vec![]), Err(CaptureError::EmptySession));
    assert_eq!(concatenate(&vec![]).err(), Some(CaptureError::EmptySession));
}

#[test]
fn chunks_of_different_rates_do_not_join() {
    let one = encode_chunk(8000, &vec![1, 2, 3]).unwrap();
    let two = encode_chunk(16000, &vec![4, 5]).unwrap();
    assert_eq!(finalize(&vec![one, two]), Err(CaptureError::FormatMismatch));
}

#[test]
fn chunks_of_different_channel_counts_do_not_join() {
    let stereo = WavFormat { channels: 2, ..mono16(8000) };
    let one = encode_chunk(8000, &vec![1, 2]).unwrap();
    let two = encode(stereo, &vec![4, 5]).unwrap();
    assert_eq!(finalize(&vec![one, two]), Err(CaptureError::FormatMismatch));
}

#[test]
fn chunks_of_different_depths_do_not_join() {
    let eight = WavFormat { bits_per_sample: 8, ..mono16(8000) };
    let chunks = vec![
        DecodedWav { format: mono16(8000), samples: vec![1] },
        DecodedWav { format: eight, samples: vec![2] },
    ];
    assert_eq!(concatenate(&chunks).err(), Some(CaptureError::FormatMismatch));
}

#[test]
fn a_broken_chunk_stops_the_finalizer() {
    let one = encode_chunk(8000, &vec![1, 2, 3]).unwrap();
    let mut broken = encode_chunk(8000, &vec![4, 5]).unwrap();
    broken.truncate(20);
    assert_eq!(finalize(&vec![one, broken]), Err(CaptureError::DecodeFailed));
}

#[test]
fn a_recording_without_rate_cannot_be_written() {
    let chunks = vec![DecodedWav { format: mono16(0), samples: vec![1] }];
    let joined = concatenate(&chunks).unwrap();
    assert_eq!(encode(joined.format, &joined.samples), Err(CaptureError::EncodeFailed));
}

#[test]
fn concatenate_keeps_format_and_samples() {
    let chunks = vec![
        DecodedWav { format: mono16(48000), samples: vec![1, 2] },
        DecodedWav { format: mono16(48000), samples: vec![] },
        DecodedWav { format: mono16(48000), samples: vec![3] },
    ];
    let d = concatenate(&chunks).unwrap();
    assert_eq!(d.format, mono16(48000));
    assert_eq!(d.samples, vec![1i16, 2, 3]);
}

#[test]
fn chunk_files_are_ordered_by_index() {
    let names: Vec<String> = [
        "chunk_0010.wav",
        "final.wav",
        "chunk_0002.wav",
        "transcript.jsonl",
        "chunk_10000.wav",
        "chunk_0001.wav",
        "chunk_0001_mic.wav",
        "chunk_2000.wav",
    ]
    .iter()
    .map(|s| s.to_string())
    .collect();
    assert_eq!(order_chunks(&names), vec![1, 2, 10, 2000, 10000]);
}

#[test]
fn a_listing_without_chunks_gives_no_indices() {
    let names: Vec<String> = ["live.txt", "final.wav"].iter().map(|s| s.to_string()).collect();
    assert_eq!(order_chunks(&names), Vec::<u64>::new());
    assert_eq!(order_chunks(&vec![]), Vec::<u64>::new());
}

#[test]
fn the_next_chunk_follows_the_largest() {
    let names: Vec<String> =
        ["chunk_0003.wav", "chunk_0001.wav", "notes.txt"].iter().map(|s| s.to_string()).collect();
    assert_eq!(next_chunk_index(&names), Some(4));
    assert_eq!(next_chunk_index(&vec![]), Some(1));
    assert_eq!(next_chunk_index(&vec!["chunk_18446744073709551615.wav".to_string()]), None);
}
