use typefree::audio::convert_i16_to_16k_mono;
use typefree::audio::downmix_to_mono;
use typefree::audio::samples_to_le_bytes;
use typefree::audio::AudioCapturer;
use typefree::audio::ChunkAccumulator;

#[test]
fn downmix_averages_each_frame() {
    let data: Vec<i16> = vec![10, 20, 30, 40];
    assert_eq!(downmix_to_mono(&data, 2), vec![15, 35]);
}

#[test]
fn downmix_frame_count_matches_input() {
    let data: Vec<i16> = vec![1, 2, 3, 4, 5, 6, 7, 8, 9];
    assert_eq!(downmix_to_mono(&data, 3).len(), 3);
    assert_eq!(downmix_to_mono(&data, 3), vec![2, 5, 8]);
}

#[test]
fn downmix_truncates_toward_zero() {
    assert_eq!(downmix_to_mono(&vec![1, 2], 2), vec![1]);
    assert_eq!(downmix_to_mono(&vec![-1, -2], 2), vec![-1]);
}

#[test]
fn downmix_mono_passes_through() {
    let data: Vec<i16> = vec![7, -8, 9];
    assert_eq!(downmix_to_mono(&data, 1), data);
}

#[test]
fn le_bytes_encode_low_byte_first() {
    let samples: Vec<i16> = vec![1, -2, 258];
    assert_eq!(samples_to_le_bytes(&samples), vec![1, 0, 254, 255, 2, 1]);
}

#[test]
fn accumulator_emits_only_full_chunks() {
    let mut acc = ChunkAccumulator::new(4);
    let chunks = acc.push(&vec![1, 2, 3, 4, 5, 6, 7, 8, 9, 10]);
    assert_eq!(chunks, vec![vec![1, 2, 3, 4], vec![5, 6, 7, 8]]);
    let more = acc.push(&vec![11]);
    assert_eq!(more, Vec::<Vec<i16>>::new());
    let rest = acc.flush();
    assert_eq!(rest, Some(vec![9, 10, 11]));
    assert_eq!(acc.flush(), None);
}

#[test]
fn capturer_chunks_and_flushes_once() {
    // Mono device already at the target rate: conversion passes samples
    // through, so chunk boundaries are easy to see.
    let mut cap = AudioCapturer::new(16000, 1, 4);
    let chunks = cap.ingest(&vec![1, 2, 3, 4, 5, 6]);
    assert_eq!(chunks, vec![vec![1, 2, 3, 4]]);
    let chunks2 = cap.ingest(&vec![7, 8]);
    assert_eq!(chunks2, vec![vec![5, 6, 7, 8]]);
    let rest = cap.finish();
    assert_eq!(rest, None);
}

#[test]
fn capturer_flush_is_shorter_than_a_chunk() {
    let mut cap = AudioCapturer::new(16000, 1, 4);
    let chunks = cap.ingest(&vec![1, 2, 3, 4, 5]);
    assert_eq!(chunks, vec![vec![1, 2, 3, 4]]);
    let rest = cap.finish();
    assert_eq!(rest, Some(vec![5]));
}

#[test]
fn capturer_downmixes_and_resamples() {
    // Stereo device at twice the target rate: frames average, then every
    // other mono sample survives.
    let mut cap = AudioCapturer::new(32000, 2, 2);
    let chunks = cap.ingest(&vec![10, 20, 30, 40, 50, 60, 70, 80]);
    // Mono: [15, 35, 55, 75]; resampled 32000 -> 16000: [15, 55].
    assert_eq!(chunks, vec![vec![15, 55]]);
}

#[test]
fn convert_passes_through_at_target_rate() {
    let data: Vec<i16> = vec![3, -3, 5];
    assert_eq!(convert_i16_to_16k_mono(&data, 16000, 1), data);
}

#[test]
fn convert_downsamples_to_target_rate() {
    let data: Vec<i16> = (0..4800).map(|i| (i % 1000) as i16).collect();
    assert_eq!(convert_i16_to_16k_mono(&data, 48000, 1).len(), 1600);
}
