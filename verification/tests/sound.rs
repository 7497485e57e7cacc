use echobind::audio::{
    channel_label, encoded_channels, frame_len, interpolated_source_pair, is_opus_rate,
    nearest_range, opus_bitrate, output_rate, select_opus_rate, session_audio, AudioFramer,
    AudioOrder, FormatRange, PlaybackBuffer, MAX_BUFFER_MS, OPUS_FRAME_MS, PLAYBACK_BUFFER_MS,
    RECORD_FRAME_MS,
};
use echobind::config::{BufferSize, SampleFormat};
use echobind::protocol::Packet;
use std::collections::VecDeque;

fn mean(a: f32, b: f32) -> f32 {
    (a + b) * 0.5
}

#[test]
fn converts_stereo_to_mono() {
    let samples = VecDeque::from([1.0, -1.0, 0.5, 0.5]);
    assert_eq!(
        interpolated_source_pair(&samples, 2, 1, 0, 0.0, mean),
        (0.0, 0.5)
    );
}

#[test]
fn maps_mono_to_each_output_channel() {
    let samples = VecDeque::from([0.25, 0.75]);
    assert_eq!(
        interpolated_source_pair(&samples, 1, 2, 1, 0.0, mean),
        (0.25, 0.75)
    );
}

#[test]
fn further_channels_stay_silent() {
    let samples = VecDeque::from([1, 2, 3, 4]);
    let first = |a: i32, _: i32| a;
    assert_eq!(interpolated_source_pair(&samples, 2, 6, 0, 0, first), (1, 3));
    assert_eq!(interpolated_source_pair(&samples, 2, 6, 1, 0, first), (2, 4));
    assert_eq!(interpolated_source_pair(&samples, 2, 6, 2, 0, first), (0, 0));
}

fn range(channels: u16, sample_format: SampleFormat, min_rate: u32, max_rate: u32) -> FormatRange {
    FormatRange {
        channels,
        sample_format,
        min_rate,
        max_rate,
    }
}

#[test]
fn the_highest_rate_that_opus_knows_is_recorded() {
    let f32s = SampleFormat::F32;
    let ranges = vec![
        range(1, f32s, 8_000, 96_000),
        range(2, SampleFormat::I16, 8_000, 96_000),
        range(2, f32s, 8_000, 20_000),
        range(2, f32s, 16_000, 44_100),
    ];
    assert_eq!(select_opus_rate(&ranges, 2, f32s), Some((3, 24_000)));
    assert_eq!(select_opus_rate(&ranges, 1, f32s), Some((0, 48_000)));
    assert_eq!(select_opus_rate(&ranges[..3].to_vec(), 2, f32s), Some((2, 16_000)));
    assert_eq!(select_opus_rate(&ranges, 6, f32s), None);
    assert!(is_opus_rate(12_000));
    assert!(!is_opus_rate(44_100));
}

#[test]
fn the_nearest_rate_is_played() {
    let f32s = SampleFormat::F32;
    let ranges = vec![
        range(1, f32s, 48_000, 48_000),
        range(2, f32s, 96_000, 192_000),
        range(2, f32s, 44_100, 44_100),
        range(2, f32s, 51_900, 60_000),
    ];
    assert_eq!(nearest_range(&ranges, 2, 48_000), Some(2));
    assert_eq!(nearest_range(&ranges, 2, 100_000), Some(1));
    assert_eq!(nearest_range(&ranges, 3, 48_000), None);
    assert_eq!(output_rate(ranges[2], 48_000), 44_100);
    assert_eq!(output_rate(ranges[1], 100_000), 100_000);
}

#[test]
fn a_session_says_how_it_sounds() {
    let config = session_audio(48_000, 6, BufferSize { min: 1, max: 9 });
    assert_eq!(config.sample_format, "opus_f32");
    assert_eq!(config.channels, 2);
    assert_eq!(encoded_channels(1), 1);
    assert_eq!(channel_label(1), "mono");
    assert_eq!(channel_label(2), "stereo");
    assert_eq!(opus_bitrate(1), 64_000);
    assert_eq!(opus_bitrate(2), 128_000);
    assert_eq!(frame_len(48_000, 2, OPUS_FRAME_MS), 960);
    assert_eq!(frame_len(44_100, 2, RECORD_FRAME_MS), 1764);
    assert_eq!(frame_len(11_025, 1, OPUS_FRAME_MS), 110);
    assert_eq!(frame_len(48_000, 2, PLAYBACK_BUFFER_MS), 9_600);
    assert_eq!(frame_len(48_000, 1, MAX_BUFFER_MS as usize), 12_000);
}

#[test]
fn recorded_sound_is_cut_into_numbered_frames() {
    let mut framer = AudioFramer::<i32>::new();
    framer.record(&[1, 2, 3], true);
    assert_eq!(framer.take_frame(4), None);
    framer.record(&[4, 5], true);
    assert_eq!(framer.take_frame(4), Some(vec![1, 2, 3, 4]));
    assert_eq!(framer.take_frame(1), Some(vec![5]));
    framer.record(&[6, 7, 8], true);
    framer.record(&[9], false);
    assert_eq!(framer.take_frame(1), None);

    framer.packet(&[7]);
    let datagram = framer.packet(&[8, 9]);
    let Packet::Audio(frame) = Packet::try_from(datagram.as_slice()).unwrap() else {
        panic!("sound is sent as sound");
    };
    assert_eq!(frame.sequence, 1);
    assert_eq!(frame.timestamp_us, 10_000);
    assert_eq!(frame.payload, &[8, 9]);
}

#[test]
fn old_sound_is_not_played_again() {
    let mut order = AudioOrder::new();
    assert!(order.admits(77));
    order.decoded(77);
    assert!(order.admits(78));
    assert!(order.admits(90));
    assert!(!order.admits(77));
    assert!(!order.admits(60));
    order.decoded(u32::MAX);
    assert!(order.admits(0));
    assert!(!order.admits(u32::MAX));
}

#[test]
fn the_oldest_sound_makes_room() {
    let mut buffer = PlaybackBuffer::new();
    buffer.push(&[1, 2, 3, 4, 5, 6], 8, 2);
    assert_eq!(buffer.len(), 6);
    buffer.push(&[7, 8, 9], 8, 2);
    assert_eq!(buffer.samples(), &VecDeque::from([3, 4, 5, 6, 7, 8, 9]));
    buffer.push(&[10, 11, 12, 13, 14, 15, 16, 17], 8, 2);
    assert_eq!(buffer.len(), 8);
    assert_eq!(buffer.samples()[0], 10);
    buffer.push(&[18], 8, 1);
    assert_eq!(buffer.samples()[0], 11);
    assert_eq!(buffer.len(), 8);
}

#[test]
fn playing_starts_late_and_stops_when_sound_runs_out() {
    let mut buffer = PlaybackBuffer::new();
    buffer.push(&[1, 2, 3], 100, 2);
    assert_eq!(buffer.ready(2, 2), (false, false));
    buffer.push(&[4, 5, 6], 100, 2);
    assert_eq!(buffer.ready(2, 2), (true, true));
    assert_eq!(buffer.ready(9, 2), (true, false));
    assert!(buffer.continues(2));
    buffer.consume(2, 2);
    assert_eq!(buffer.samples(), &VecDeque::from([5, 6]));
    assert!(!buffer.continues(2));
    assert_eq!(buffer.ready(2, 2), (false, false));
    buffer.consume(9, 2);
    assert_eq!(buffer.len(), 0);
    buffer.push(&[1], 100, 2);
    buffer.clear();
    assert_eq!(buffer.len(), 0);
}
