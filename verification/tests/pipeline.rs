//! The numeric pipeline: down-mix, chunking policies, resampling policy.

use audio_courier::chunking::{ChunkBuffer, ReplayBuffer};
use audio_courier::resample::{prepare_chunk, resample, ResampleError};
use audio_courier::samples::{cast_up, domain_cast, pcm_chunk_to_bytes, stereo_to_mono_i16, stereo_to_mono_norm};

#[test]
fn mono_mix_even_length_halves() {
    let out = stereo_to_mono_i16(&[100, 200, 300, 400, -50, 50]);
    assert_eq!(out, vec![150, 350, 0]);
    assert_eq!(out.len(), 3);
}

#[test]
fn mono_mix_short_input_passes_through() {
    assert_eq!(stereo_to_mono_i16(&[]), Vec::<i16>::new());
    assert_eq!(stereo_to_mono_i16(&[7]), vec![7]);
    assert_eq!(stereo_to_mono_norm(&[5]), vec![5]);
}

#[test]
fn mono_mix_rounds_toward_zero() {
    // (-3 + -4) / 2 truncates toward zero.
    assert_eq!(stereo_to_mono_i16(&[-3, -4]), vec![-3]);
    assert_eq!(stereo_to_mono_i16(&[3, 4]), vec![3]);
}

#[test]
fn mono_mix_widens_against_overflow() {
    assert_eq!(stereo_to_mono_i16(&[32767, 32767]), vec![32767]);
    assert_eq!(stereo_to_mono_i16(&[-32768, -32768]), vec![-32768]);
}

#[test]
fn mono_mix_norm_matches_integer_mix() {
    assert_eq!(stereo_to_mono_norm(&[100, 200, -7, -8]), vec![150, -7]);
}

#[test]
fn mono_mix_odd_length_passes_through() {
    assert_eq!(stereo_to_mono_i16(&[10, 20, 30]), vec![10, 20, 30]);
    assert_eq!(stereo_to_mono_norm(&[1, 2, 3, 4, 5]), vec![1, 2, 3, 4, 5]);
}

#[test]
fn drain_on_threshold_yields_whole_chunks_in_order() {
    let mut buffer = ChunkBuffer::new(4);
    buffer.push(&[1, 2, 3, 4, 5, 6, 7, 8, 9, 10]);
    let chunks = buffer.drain_ready();
    assert_eq!(chunks.len(), 2);
    assert_eq!(chunks[0], vec![1, 2, 3, 4]);
    assert_eq!(chunks[1], vec![5, 6, 7, 8]);
    assert_eq!(buffer.len(), 2);
    // The remainder stays for the next round; nothing repeats.
    buffer.push(&[11, 12]);
    let more = buffer.drain_ready();
    assert_eq!(more.len(), 1);
    assert_eq!(more[0], vec![9, 10, 11, 12]);
    assert_eq!(buffer.len(), 0);
}

#[test]
fn drain_below_threshold_yields_nothing() {
    let mut buffer = ChunkBuffer::new(8);
    buffer.push(&[1, 2, 3]);
    let chunks = buffer.drain_ready();
    assert!(chunks.is_empty());
    assert_eq!(buffer.len(), 3);
}

#[test]
fn accumulate_and_replace_replays_full_history() {
    let mut buffer = ReplayBuffer::new(3);
    buffer.push(&[1, 2]);
    assert!(buffer.take_batch().is_none());
    buffer.push(&[3, 4]);
    let batch = buffer.take_batch().expect("one window of new samples arrived");
    assert_eq!(batch, vec![1, 2, 3, 4]);
    // Nothing new yet: no replay, and the history stays.
    assert!(buffer.take_batch().is_none());
    buffer.push(&[5, 6]);
    assert!(buffer.take_batch().is_none());
    buffer.push(&[7]);
    let second = buffer.take_batch().expect("another window arrived");
    assert_eq!(second, vec![1, 2, 3, 4, 5, 6, 7]);
}

#[test]
fn replay_buffer_clear_resets_everything() {
    let mut buffer = ReplayBuffer::new(2);
    buffer.push(&[1, 2, 3]);
    let _ = buffer.take_batch();
    buffer.clear();
    assert_eq!(buffer.len(), 0);
    buffer.push(&[9, 9]);
    assert_eq!(buffer.take_batch().expect("fresh window"), vec![9, 9]);
}

#[test]
fn domain_cast_clamps_out_of_range() {
    assert_eq!(domain_cast(&[0, 40000, -40000, 123]), vec![0, 32767, -32768, 123]);
    assert_eq!(cast_up(&[-5, 7]), vec![-5, 7]);
}

#[test]
fn same_rate_resample_is_domain_cast() {
    let input: Vec<i32> = vec![10, -40000, 32768];
    let out = resample(&input, 44100, 44100, 1, None).expect("same rate never fails");
    assert_eq!(out, vec![10, -32768, 32767]);
}

#[test]
fn resample_rejects_invalid_parameters() {
    assert!(matches!(resample(&[], 44100, 44100, 1, None), Err(ResampleError::EmptyInput)));
    assert!(matches!(resample(&[1, 2, 3], 44100, 44100, 2, None), Err(ResampleError::ChannelMismatch)));
    assert!(matches!(resample(&[1], 44100, 44100, 0, None), Err(ResampleError::ChannelMismatch)));
}

#[test]
fn converter_failure_falls_back_to_domain_cast() {
    let input: Vec<i32> = vec![5, 60000, -2];
    let failed = Some(Err(ResampleError::Converter(String::from("sinc stage failed"))));
    let out = prepare_chunk(&input, true, 44100, 16000, failed);
    assert_eq!(out, vec![5, 32767, -2]);
}

#[test]
fn converter_success_passes_through() {
    let input: Vec<i32> = vec![1, 2, 3, 4];
    let converted = Some(Ok(vec![9i16, 8]));
    let out = prepare_chunk(&input, true, 44100, 16000, converted);
    assert_eq!(out, vec![9, 8]);
}

#[test]
fn unresampled_chunk_is_domain_cast() {
    let out = prepare_chunk(&[3, -70000], false, 44100, 16000, None);
    assert_eq!(out, vec![3, -32768]);
}

#[test]
fn pcm_bytes_are_little_endian_pairs() {
    let bytes = pcm_chunk_to_bytes(&[-2, 258, 0]);
    assert_eq!(bytes, vec![0xfe, 0xff, 0x02, 0x01, 0x00, 0x00]);
}
