use echobind::clock::Clock;
use echobind::decode_queue::{DecodeQueue, DecodeQueuePush, ReceivedVideoFrame, VIDEO_STALE_AGE};
use echobind::decoder::{
    DecodeReply, DecoderState, HardwareDecoding, HardwareStep, SoftwareDecoder,
};
use echobind::h264::{
    annex_b_nals, annex_b_to_avcc, avcc_contains_idr, avcc_frame_to_annex_b, find_start_code,
    h264_parameter_sets, read_avcc_length, H264Error,
};
use echobind::video::VideoFrame;

const NOW: u64 = 1_000_000_000;

fn received(frame_id: u64, is_keyframe: bool, age: u64) -> ReceivedVideoFrame {
    ReceivedVideoFrame {
        frame: VideoFrame {
            frame_id,
            timestamp_us: frame_id,
            is_keyframe,
            payload: vec![1],
        },
        received_at: NOW - age,
    }
}

#[test]
fn decode_queue_discards_backlog_until_a_fresh_keyframe() {
    let mut queue = DecodeQueue::new();
    assert_eq!(
        queue.push(received(0, true, 0), NOW),
        DecodeQueuePush::Queued
    );
    assert_eq!(
        queue.push(received(1, false, 0), NOW),
        DecodeQueuePush::Queued
    );
    assert_eq!(
        queue.push(received(2, false, 0), NOW),
        DecodeQueuePush::Overflowed
    );
    assert_eq!(
        queue.push(received(3, false, 0), NOW),
        DecodeQueuePush::WaitingForKeyframe
    );
    assert_eq!(
        queue.push(received(4, true, 0), NOW),
        DecodeQueuePush::Queued
    );
}

#[test]
fn decode_queue_rejects_stale_frames() {
    let mut queue = DecodeQueue::new();
    assert_eq!(
        queue.push(received(0, true, VIDEO_STALE_AGE + 1_000_000), NOW),
        DecodeQueuePush::Stale
    );
}

#[test]
fn decode_queue_hands_frames_out_in_order() {
    let mut queue = DecodeQueue::new();
    assert!(queue.is_empty());
    assert_eq!(
        queue.push(received(5, true, VIDEO_STALE_AGE), NOW),
        DecodeQueuePush::Queued
    );
    queue.push(received(6, false, 0), NOW);
    assert_eq!(queue.pop().unwrap().frame.frame_id, 5);
    assert_eq!(queue.pop().unwrap().frame.frame_id, 6);
    assert!(queue.pop().is_none());

    let generation = queue.generation();
    queue.require_keyframe();
    assert_eq!(queue.generation(), generation + 1);
    assert_eq!(
        queue.push(received(7, false, 0), NOW),
        DecodeQueuePush::WaitingForKeyframe
    );
}

#[test]
fn parses_annex_b_and_builds_avcc() {
    let data = [
        0, 0, 0, 1, 0x67, 1, 2, 0, 0, 1, 0x68, 3, 0, 0, 0, 1, 0x65, 4, 5,
    ];
    let nals = annex_b_nals(&data).unwrap();
    assert_eq!(nals.len(), 3);
    assert_eq!(
        h264_parameter_sets(&nals).unwrap(),
        (vec![0x67, 1, 2], vec![0x68, 3])
    );
    assert_eq!(
        annex_b_to_avcc(&nals).unwrap(),
        vec![0, 0, 0, 3, 0x65, 4, 5]
    );
}

#[test]
fn converts_avcc_nals_to_annex_b_shape() {
    let data = [
        0, 0, 0, 3, 0x65, 1, 2, //
        0, 0, 0, 2, 0x41, 3,
    ];
    assert!(avcc_contains_idr(&data).unwrap());
    assert!(read_avcc_length(&data, 0).is_ok());
    assert!(avcc_contains_idr(&data[..6]).is_err());
}

#[test]
fn keyframes_take_their_parameter_sets_along() {
    let sets = Some((vec![0x67, 9], vec![0x68, 8]));
    let key = [0, 0, 0, 2, 0x65, 1];
    assert_eq!(
        avcc_frame_to_annex_b(&key, &sets).unwrap(),
        (
            vec![0, 0, 0, 1, 0x67, 9, 0, 0, 0, 1, 0x68, 8, 0, 0, 0, 1, 0x65, 1],
            true
        )
    );
    assert_eq!(
        avcc_frame_to_annex_b(&key, &None).unwrap(),
        (vec![0, 0, 0, 1, 0x65, 1], true)
    );
    let other = [0, 0, 0, 1, 0x41, 0, 0, 0, 2, 0x41, 7];
    assert_eq!(
        avcc_frame_to_annex_b(&other, &sets).unwrap(),
        (vec![0, 0, 0, 1, 0x41, 0, 0, 0, 1, 0x41, 7], false)
    );
    let (wire, _) = avcc_frame_to_annex_b(&other, &sets).unwrap();
    assert_eq!(annex_b_nals(&wire).unwrap(), vec![&[0x41][..], &[0x41, 7][..]]);
}

#[test]
fn broken_pictures_are_refused() {
    assert_eq!(annex_b_nals(&[1, 2, 3]), Err(H264Error::NotAnnexB));
    assert_eq!(annex_b_nals(&[]), Err(H264Error::NotAnnexB));
    assert_eq!(annex_b_nals(&[0, 0, 1]), Err(H264Error::NoNals));
    assert_eq!(find_start_code(&[9, 0, 0, 0, 1, 7], 0), Some((1, 4)));
    assert_eq!(find_start_code(&[9, 0, 0, 0, 1, 7], 2), Some((2, 3)));
    assert_eq!(find_start_code(&[9, 0, 0, 0, 1, 7], 3), None);

    let nals = annex_b_nals(&[0, 0, 1, 0x67, 1, 0, 0, 1, 0x09]).unwrap();
    assert_eq!(h264_parameter_sets(&nals), None);
    assert_eq!(annex_b_to_avcc(&nals), Err(H264Error::NothingDecodable));

    assert_eq!(
        read_avcc_length(&[0, 0, 0], 0),
        Err(H264Error::TruncatedLength)
    );
    assert_eq!(
        read_avcc_length(&[0, 0, 0, 0], 0),
        Err(H264Error::InvalidNal)
    );
    assert_eq!(
        read_avcc_length(&[0, 0, 0, 2, 1], 0),
        Err(H264Error::InvalidNal)
    );
    assert_eq!(
        H264Error::NotAnnexB.message(),
        "H.264 frame is not Annex B"
    );
    assert_eq!(
        H264Error::NalTooLong.message(),
        "H.264 NAL unit exceeds AVCC limits"
    );
}

#[test]
fn decoders_start_with_a_keyframe_and_its_sets() {
    let key = [
        0, 0, 0, 1, 0x67, 1, 0, 0, 0, 1, 0x68, 2, 0, 0, 0, 1, 0x65, 3,
    ];
    let other = [0, 0, 0, 1, 0x41, 4];
    let mut decoding = HardwareDecoding::new();
    assert_eq!(decoding.step(&other, false), HardwareStep::AwaitKeyframe);
    assert_eq!(decoding.step(&key, false), HardwareStep::AwaitKeyframe);
    assert_eq!(
        decoding.step(&[1, 2], true),
        HardwareStep::Discard(H264Error::NotAnnexB)
    );
    let HardwareStep::Start(sps, pps, picture) = decoding.step(&key, true) else {
        panic!("a keyframe starts the decoder");
    };
    assert_eq!((sps.as_slice(), pps.as_slice()), (&[0x67, 1][..], &[0x68, 2][..]));
    assert_eq!(picture, Ok(vec![0, 0, 0, 2, 0x65, 3]));
    decoding.started(sps, pps);
    assert_eq!(
        decoding.step(&other, false),
        HardwareStep::Continue(Ok(vec![0, 0, 0, 2, 0x41, 4]))
    );
    assert_eq!(
        decoding.step(&key, false),
        HardwareStep::Continue(Ok(vec![0, 0, 0, 2, 0x65, 3]))
    );
    let changed = [
        0, 0, 0, 1, 0x67, 9, 0, 0, 0, 1, 0x68, 2, 0, 0, 0, 1, 0x65, 3,
    ];
    assert_eq!(decoding.step(&changed, false), HardwareStep::AwaitKeyframe);
    decoding.rejected();
    assert_eq!(decoding.step(&other, false), HardwareStep::AwaitKeyframe);
}

#[test]
fn decoders_keep_account() {
    let mut state = DecoderState::new(3);
    assert!(state.judge_arrival(NOW - 5_000_000, NOW));
    assert_eq!(state.metrics.decode_queue_us, 5_000);
    assert_eq!(state.metrics.decode_queue_samples, 1);
    state.count_shown(NOW, NOW + 2_000_000);
    assert_eq!(state.metrics.decode_us, 2_000);
    assert_eq!(state.metrics.decoded_frames, 1);
    assert!(!state.keyframe_needed);

    assert!(!state.judge_arrival(NOW - VIDEO_STALE_AGE - 1, NOW));
    assert_eq!(state.metrics.dropped_frames, 1);
    assert!(state.take_keyframe_demand());
    assert!(!state.take_keyframe_demand());
    assert_eq!(state.take_metrics().dropped_frames, 1);
    assert_eq!(state.metrics.dropped_frames, 0);
    assert_eq!(state.generation, 3);
    assert_ne!(DecodeReply::Picture, DecodeReply::Failed);
}

#[test]
fn what_is_no_video_is_dropped_by_the_decoder() {
    let clock = Clock::start();
    let mut decoder = SoftwareDecoder::new(0).unwrap();
    let frame = ReceivedVideoFrame {
        frame: VideoFrame {
            frame_id: 1,
            timestamp_us: 0,
            is_keyframe: true,
            payload: vec![0, 0, 0, 1, 0x65, 1, 2, 3],
        },
        received_at: clock.now(),
    };
    assert!(decoder.decode(&frame, &clock).is_none());
    assert!(decoder.follow(0).is_ok());
    assert!(decoder.follow(7).is_ok());
    assert_eq!(decoder.bookkeeping().generation, 7);
    assert_eq!(decoder.bookkeeping().metrics.decoded_frames, 0);
}

#[test]
fn positions_past_the_end_find_nothing() {
    let data = [0, 0, 0, 1, 0x65];
    assert_eq!(find_start_code(&data, 0), Some((0, 4)));
    assert_eq!(find_start_code(&data, 1), Some((1, 3)));
    assert_eq!(find_start_code(&data, 2), None);
    assert_eq!(find_start_code(&data, 6), None);
    assert_eq!(find_start_code(&data, usize::MAX), None);
    assert_eq!(read_avcc_length(&data, 0), Ok(1));
    assert_eq!(
        read_avcc_length(&data, 2),
        Err(H264Error::TruncatedLength)
    );
    assert_eq!(
        read_avcc_length(&data, usize::MAX),
        Err(H264Error::TruncatedLength)
    );
}
