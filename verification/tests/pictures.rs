use echobind::clock::Clock;
use echobind::decode_queue::ReceivedVideoFrame;
use echobind::decoder::SoftwareDecoder;
use echobind::encoder::{
    screen_settings, CapturedFrame, Effort, EncodeOutcome, EncodedKind, EncoderSettings,
    EncoderState, FrameTimes, RateControl, SoftwareEncoder, Usage,
};
use echobind::i420::{BgraFrame, I420Frame, Nv12Frame, PictureError};
use echobind::protocol::{Packet, MAX_DATAGRAM_SIZE, STANDARD_DATAGRAM_SIZE};
use echobind::reassembly::VideoReassembler;
use echobind::resolution::VideoResolution;
use echobind::sender::VIDEO_SEND_STALE_AGE;
use echobind::video::{fragment_video_frame, VideoFragmentationError};
use openh264::decoder::Decoder;
use openh264::encoder::Encoder;
use openh264::formats::{YUVSlices, YUVSource};
use std::time::Duration;

#[test]
fn converts_padded_nv12_to_i420() {
    let frame = Nv12Frame {
        width: 4,
        height: 2,
        luminance_bytes: vec![1, 2, 3, 4, 99, 99, 5, 6, 7, 8, 99, 99],
        luminance_stride: 6,
        chrominance_bytes: vec![10, 20, 11, 21, 99, 99],
        chrominance_stride: 6,
    };

    let mut converted = I420Frame::default();
    converted.update_from_nv12(&frame).unwrap();
    assert_eq!(converted.y(), &[1, 2, 3, 4, 5, 6, 7, 8]);
    assert_eq!(converted.u(), &[10, 11]);
    assert_eq!(converted.v(), &[20, 21]);
}

#[test]
fn converts_bgra_to_i420() {
    let frame = BgraFrame {
        width: 2,
        height: 2,
        data: vec![
            0, 0, 255, 255, 0, 0, 255, 255, //
            0, 0, 255, 255, 0, 0, 255, 255,
        ],
    };

    let mut converted = I420Frame::default();
    converted
        .update_from_bgra_scaled(&frame, 2, 2, (2, 2))
        .unwrap();
    assert_eq!(converted.y(), &[82, 82, 82, 82]);
    assert_eq!(converted.u(), &[90]);
    assert_eq!(converted.v(), &[240]);
}

#[test]
fn rejects_truncated_bgra_frames() {
    let frame = BgraFrame {
        width: 2,
        height: 2,
        data: vec![0; 15],
    };

    let error = I420Frame::default()
        .update_from_bgra_scaled(&frame, 2, 2, (2, 2))
        .unwrap_err();
    assert!(error.message().contains("smaller"));
}

#[test]
fn scales_bgra_while_converting() {
    let frame = BgraFrame {
        width: 4,
        height: 4,
        data: vec![
            0, 0, 255, 255, 0, 0, 255, 255, 0, 0, 255, 255, 0, 0, 255, 255, //
            0, 0, 255, 255, 0, 0, 255, 255, 0, 0, 255, 255, 0, 0, 255, 255, //
            0, 0, 255, 255, 0, 0, 255, 255, 0, 0, 255, 255, 0, 0, 255, 255, //
            0, 0, 255, 255, 0, 0, 255, 255, 0, 0, 255, 255, 0, 0, 255, 255,
        ],
    };

    let mut converted = I420Frame::default();
    converted
        .update_from_bgra_scaled(&frame, 2, 2, (2, 2))
        .unwrap();
    assert_eq!(converted.dimensions(), (2, 2));
    assert_eq!(converted.y(), &[82, 82, 82, 82]);
    assert_eq!(converted.u(), &[90]);
    assert_eq!(converted.v(), &[240]);
}

#[test]
fn every_pixel_finds_its_place() {
    let width = 70_usize;
    let height = 38_usize;
    let data: Vec<u8> = (0..width * height * 4)
        .map(|index| (index * 37 % 256) as u8)
        .collect();
    let frame = BgraFrame {
        width: width as i32,
        height: height as i32,
        data: data.clone(),
    };
    let mut converted = I420Frame::default();
    converted
        .update_from_bgra_scaled(&frame, 35, 19, (35, 19))
        .unwrap();
    assert_eq!(converted.dimensions(), (34, 18));
    let component = |row: usize, column: usize, byte: usize| {
        let pixel = (row * height / 18) * width + column * width / 34;
        i32::from(data[pixel * 4 + byte])
    };
    for row in 0..18 {
        for column in 0..34 {
            let (r, g, b) = (
                component(row, column, 2),
                component(row, column, 1),
                component(row, column, 0),
            );
            let expected = ((66 * r + 129 * g + 25 * b + 128) >> 8) + 16;
            assert_eq!(i32::from(converted.y()[row * 34 + column]), expected);
        }
    }
    for row in 0..9 {
        for column in 0..17 {
            let sum = |byte: usize| {
                component(2 * row, 2 * column, byte)
                    + component(2 * row, 2 * column + 1, byte)
                    + component(2 * row + 1, 2 * column, byte)
                    + component(2 * row + 1, 2 * column + 1, byte)
            };
            let (r, g, b) = (sum(2), sum(1), sum(0));
            let u = ((-38 * r - 74 * g + 112 * b + 512) >> 10) + 128;
            let v = ((112 * r - 94 * g - 18 * b + 512) >> 10) + 128;
            assert_eq!(i32::from(converted.u()[row * 17 + column]), u);
            assert_eq!(i32::from(converted.v()[row * 17 + column]), v);
        }
    }
}

#[test]
fn unusable_pictures_are_refused() {
    let mut picture = I420Frame::default();
    let nv12 = |width: i32, height: i32, y_stride: i32, uv_stride: i32| Nv12Frame {
        width,
        height,
        luminance_bytes: vec![0; 16],
        luminance_stride: y_stride,
        chrominance_bytes: vec![0; 8],
        chrominance_stride: uv_stride,
    };
    let cases = [
        (nv12(-1, 2, 4, 4), PictureError::NegativeWidth),
        (nv12(4, -1, 4, 4), PictureError::NegativeHeight),
        (nv12(4, 2, -4, 4), PictureError::NegativeLuminanceStride),
        (nv12(4, 2, 4, -4), PictureError::NegativeChrominanceStride),
        (
            nv12(3, 2, 4, 4),
            PictureError::OddDimensions { width: 3, height: 2 },
        ),
        (
            nv12(0, 2, 4, 4),
            PictureError::OddDimensions { width: 0, height: 2 },
        ),
        (nv12(4, 2, 2, 4), PictureError::StrideTooSmall),
        (nv12(4, 6, 4, 4), PictureError::PlanesTooSmall),
        (nv12(4, 4, 4, 6), PictureError::PlanesTooSmall),
    ];
    for (frame, error) in cases {
        assert_eq!(picture.update_from_nv12(&frame), Err(error));
    }
    assert_eq!(picture.dimensions(), (0, 0));
    assert_eq!(picture.strides(), (0, 0, 0));

    let bgra = |width: i32, height: i32| BgraFrame {
        width,
        height,
        data: vec![0; 16],
    };
    assert_eq!(
        picture.update_from_bgra_scaled(&bgra(-1, 1), 2, 2, (0, 0)),
        Err(PictureError::NegativeWidth)
    );
    assert_eq!(
        picture.update_from_bgra_scaled(&bgra(1, -1), 2, 2, (0, 0)),
        Err(PictureError::NegativeHeight)
    );
    assert_eq!(
        picture.update_from_bgra_scaled(&bgra(0, 2), 2, 2, (0, 0)),
        Err(PictureError::NoPixels {
            width: 0,
            height: 2
        })
    );
    assert_eq!(
        picture.update_from_bgra_scaled(&bgra(2, 2), 1, 2, (2, 2)),
        Err(PictureError::MaximumTooSmall)
    );
    assert_eq!(
        PictureError::MaximumTooSmall.message(),
        "maximum video dimensions must be at least 2x2"
    );
    assert_eq!(
        PictureError::OddDimensions {
            width: 1366,
            height: 7
        }
        .message(),
        "capture dimensions must be positive and even, got 1366x7"
    );
    assert_eq!(
        PictureError::NoPixels {
            width: 0,
            height: 20
        }
        .message(),
        "capture dimensions must be positive, got 0x20"
    );
    assert_eq!(
        PictureError::TooLarge.message(),
        "capture dimensions overflow the address space"
    );
}

#[test]
fn single_pixels_are_made_large_enough() {
    let mut picture = I420Frame::default();
    let frame = BgraFrame {
        width: 1,
        height: 1,
        data: vec![128, 128, 128, 255],
    };
    picture
        .update_from_bgra_scaled(&frame, 2, 2, (1, 1))
        .unwrap();
    assert_eq!(picture.dimensions(), (2, 2));
    assert_eq!(picture.y(), &[126; 4]);
    assert_eq!(picture.u(), &[128]);
    assert_eq!(picture.v(), &[128]);
}

#[test]
fn video_survives_encode_packetize_reassemble_decode() {
    let width = 128;
    let height = 72;
    let frame = Nv12Frame {
        width,
        height,
        luminance_bytes: vec![96; (width * height) as usize],
        luminance_stride: width,
        chrominance_bytes: vec![128; (width * height / 2) as usize],
        chrominance_stride: width,
    };
    let mut source = I420Frame::default();
    source.update_from_nv12(&frame).unwrap();
    let mut encoder = Encoder::new().unwrap();
    let slices = YUVSlices::new(
        (source.y(), source.u(), source.v()),
        source.dimensions(),
        source.strides(),
    );
    let encoded = encoder.encode(&slices).unwrap().to_vec();
    assert!(!encoded.is_empty());

    let fragments = fragment_video_frame(7, 12_345, true, &encoded).unwrap();
    let mut reassembler = VideoReassembler::new(3, Duration::from_secs(1));
    let mut packet = Vec::with_capacity(MAX_DATAGRAM_SIZE);
    let mut reassembled = None;

    for fragment in fragments.into_iter().rev() {
        Packet::Video(fragment).encode(&mut packet);
        let parsed = Packet::try_from(packet.as_slice()).unwrap();
        let Packet::Video(parsed) = parsed else {
            panic!("encoded packet changed type");
        };
        if let Some(frame) = reassembler.push(parsed).unwrap() {
            reassembled = Some(frame);
        }
    }

    let mut decoder = Decoder::new().unwrap();
    let decoded = decoder
        .decode(&reassembled.unwrap().payload)
        .unwrap()
        .expect("decoder should return the intra frame");
    assert_eq!(decoded.dimensions(), (width as usize, height as usize));
}

fn reassemble(datagrams: &[Vec<u8>]) -> echobind::video::VideoFrame {
    let mut reassembler = VideoReassembler::new(3, Duration::from_secs(1));
    let mut complete = None;
    for datagram in datagrams {
        assert!(datagram.len() <= STANDARD_DATAGRAM_SIZE);
        let Packet::Video(fragment) = Packet::try_from(datagram.as_slice()).unwrap() else {
            panic!("video is sent as video");
        };
        if let Some(frame) = reassembler.push(fragment).unwrap() {
            complete = Some(frame);
        }
    }
    complete.unwrap()
}

#[test]
fn a_captured_screen_is_seen_on_the_other_side() {
    let clock = Clock::start();
    let mut encoder = SoftwareEncoder::new(30, 4_000_000, clock.now()).unwrap();
    let mut decoder = SoftwareDecoder::new(0).unwrap();
    let screen = CapturedFrame::Bgra(BgraFrame {
        width: 64,
        height: 32,
        data: [255, 255, 255, 255].repeat(64 * 32),
    });
    let outcome = encoder.process(
        &screen,
        VideoResolution::Native,
        (64, 32),
        clock.now(),
        true,
        STANDARD_DATAGRAM_SIZE,
        &clock,
    );
    let EncodeOutcome::Send(datagrams, times) = outcome else {
        panic!("the first picture is sent");
    };
    let frame = reassemble(&datagrams);
    assert_eq!(frame.frame_id, 0);
    assert!(frame.is_keyframe);
    let received = ReceivedVideoFrame {
        frame,
        received_at: clock.now(),
    };
    let picture = decoder.decode(&received, &clock).unwrap();
    assert_eq!((picture.width, picture.height), (64, 32));
    assert_eq!(picture.rgba.len(), 64 * 32 * 4);
    assert!(picture.rgba[0] > 240 && picture.rgba[3] == 255);
    assert_eq!(decoder.bookkeeping().metrics.decoded_frames, 1);

    let state = encoder.bookkeeping();
    assert_eq!(state.next_frame, 1);
    assert!(state.encoded_any && !state.keyframe_wanted);
    state.count_frame(times, 5);
    state.count_datagram(100);
    assert_eq!(state.stats.frames, 1);
    state.demand_keyframe();

    let outcome = encoder.process(
        &screen,
        VideoResolution::P720,
        (64, 32),
        clock.now(),
        true,
        STANDARD_DATAGRAM_SIZE,
        &clock,
    );
    let EncodeOutcome::Send(datagrams, _) = outcome else {
        panic!("a keyframe that was asked for is sent");
    };
    let frame = reassemble(&datagrams);
    assert_eq!(frame.frame_id, 1);
    assert!(frame.is_keyframe);
}

#[test]
fn nothing_is_encoded_for_nobody_or_too_late() {
    let clock = Clock::start();
    while clock.now() < 40_000_000 {}
    let mut encoder = SoftwareEncoder::new(30, 1_000_000, 0).unwrap();
    let screen = CapturedFrame::Nv12(Nv12Frame {
        width: 16,
        height: 16,
        luminance_bytes: vec![16; 256],
        luminance_stride: 16,
        chrominance_bytes: vec![128; 128],
        chrominance_stride: 16,
    });
    let resolution = VideoResolution::Native;
    let outcome = encoder.process(&screen, resolution, (0, 0), clock.now(), false, 1400, &clock);
    assert_eq!(outcome, EncodeOutcome::Nothing);
    let outcome = encoder.process(&screen, resolution, (0, 0), 0, true, 1400, &clock);
    assert_eq!(outcome, EncodeOutcome::Nothing);
    assert!(encoder.bookkeeping().keyframe_wanted);
    assert_eq!(encoder.bookkeeping().next_frame, 0);
    let outcome = encoder.process(&screen, resolution, (0, 0), clock.now(), true, 1399, &clock);
    assert_eq!(
        outcome,
        EncodeOutcome::NotSendable(VideoFragmentationError::InvalidDatagramSize)
    );
    let broken = CapturedFrame::Bgra(BgraFrame {
        width: -1,
        height: 2,
        data: Vec::new(),
    });
    let outcome = encoder.process(&broken, resolution, (0, 0), clock.now(), true, 1400, &clock);
    assert_eq!(
        outcome,
        EncodeOutcome::NotConverted(PictureError::NegativeWidth)
    );
    let huge = CapturedFrame::Nv12(Nv12Frame {
        width: 4096,
        height: 2304,
        luminance_bytes: vec![16; 4096 * 2304],
        luminance_stride: 4096,
        chrominance_bytes: vec![128; 4096 * 1152],
        chrominance_stride: 4096,
    });
    let outcome = encoder.process(&huge, resolution, (0, 0), u64::MAX, true, 1400, &clock);
    assert!(matches!(outcome, EncodeOutcome::NotEncoded(_)));
}

#[test]
fn encoders_keep_account() {
    let mut state = EncoderState::new(1_000_000);
    assert!(!state.grant_keyframe());
    assert!(state.judge_capture(5_000_000, true, 6_000_000));
    let datagrams = state
        .judge_picture(EncodedKind::Idr, &[1, 2, 3], 5_000_000, 1400, 9_000_000)
        .unwrap()
        .unwrap();
    let frame = reassemble(&datagrams);
    assert_eq!(frame.timestamp_us, 8_000);
    assert_eq!(frame.payload, vec![1, 2, 3]);
    assert!(!state.keyframe_wanted);
    assert_eq!(
        state.judge_picture(EncodedKind::Skipped, &[1], 0, 1400, 0),
        Ok(None)
    );
    assert_eq!(
        state.judge_picture(EncodedKind::Predicted, &[], 0, 1400, 0),
        Ok(None)
    );
    assert_eq!(
        state.judge_picture(
            EncodedKind::Predicted,
            &[1],
            0,
            1400,
            VIDEO_SEND_STALE_AGE + 1
        ),
        Ok(None)
    );
    assert!(state.keyframe_wanted);
    assert!(state.grant_keyframe());
    assert!(!state.grant_keyframe());
    state.count_frame(
        FrameTimes {
            capture_us: 1,
            encode_us: 2,
            encode_queue_us: 3,
        },
        4,
    );
    assert_eq!(state.report(1_000_500_000), None);
    let report = state.report(1_001_000_000).unwrap();
    assert_eq!(report.elapsed, 1_000_000_000);
    assert_eq!(report.stats.frames, 1);
    assert_eq!(report.stats.send_us, 4);
    assert_eq!(state.stats.frames, 0);
    assert!(EncodedKind::Intra.is_keyframe() && !EncodedKind::Mixed.is_keyframe());
}

#[test]
fn screens_are_encoded_without_keyframes_of_their_own() {
    assert_eq!(
        screen_settings(60, 8_000_000),
        EncoderSettings {
            bits_per_second: 8_000_000,
            frames_per_second: 60,
            rate_control: RateControl::Bitrate,
            usage: Usage::ScreenRealTime,
            effort: Effort::Low,
            adaptive_quantization: false,
            background_detection: false,
            skip_frames: true,
            intra_period: u32::MAX,
        }
    );
}

#[test]
fn keyframes_are_not_made_unasked() {
    let mut state = EncoderState::new(0);
    state.keyframe_wanted = false;
    state.encoded_any = true;
    assert!(!state.grant_keyframe());
    assert!(state.judge_capture(1_000_000, true, 2_000_000));
    let sent = state.judge_picture(EncodedKind::Predicted, &[1], 1_000_000, 1400, 3_000_000);
    assert!(matches!(sent, Ok(Some(_))));
    assert!(!state.keyframe_wanted && !state.grant_keyframe());
}

#[test]
fn replies_of_openh264_are_passed_on() {
    let encoder = SoftwareEncoder::of_reply(Encoder::new(), 7);
    assert_eq!(*encoder.ok().unwrap().bookkeeping(), EncoderState::new(7));
    let refused = SoftwareEncoder::of_reply(Err(openh264::Error::msg("no encoder")), 7);
    assert!(refused.err().unwrap().contains("no encoder"));

    let decoder = SoftwareDecoder::of_reply(Decoder::new(), 3);
    assert_eq!(decoder.ok().unwrap().bookkeeping().generation, 3);
    let refused = SoftwareDecoder::of_reply(Err(openh264::Error::msg("no decoder")), 3);
    assert!(refused.err().unwrap().contains("no decoder"));
}
