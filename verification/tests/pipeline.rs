use echobind::capture::{
    classify_capture_error, contains_bytes, scale_cursor_coordinate, AccessLossBackoff,
    CaptureFailure, CaptureMetrics, CaptureStall, CaptureWatchdog, CursorTracker, FramePacer,
    PointerInfo, SessionEnd,
};
use echobind::hardware::{
    after_capture, after_completion, driver_supports, frame_budget, gpu_wait, needs_rebuild,
    submission_fate, CompletionStep, GpuWait, HandOver, SlotRing, SubmissionFate,
};
use echobind::pacer::{waits_before, DatagramPacer, PacingWait};
use echobind::peer::{IpAddress, PeerAddr};
use echobind::protocol::{CursorPosition, Packet};
use echobind::sender::{EncodedFrame, FrameSender, SendDecision, VIDEO_SEND_STALE_AGE};
use echobind::video::VideoFragmentationError;

const SECOND: u64 = 1_000_000_000;

fn frame(frame_id: u64, is_keyframe: bool, captured_at: u64) -> EncodedFrame {
    EncodedFrame {
        frame_id,
        timestamp_us: 7,
        is_keyframe,
        data: vec![1, 2, 3],
        capture_us: 1,
        gpu_wait_us: 2,
        gpu_lock_us: 3,
        encode_us: 4,
        encoded_at: 0,
        captured_at,
    }
}

#[test]
fn pictures_that_cannot_be_used_are_not_sent() {
    let mut sender = FrameSender::new(0);
    assert_eq!(
        sender.judge(&frame(0, false, 0), true, 1400, 0),
        SendDecision::Skip
    );
    assert!(sender.take_keyframe_demand());
    assert!(!sender.take_keyframe_demand());
    let key = frame(1, true, 0);
    let SendDecision::Send(datagrams) = sender.judge(&key, true, 1400, 5) else {
        panic!("a keyframe is sent");
    };
    assert_eq!(datagrams.len(), 1);
    let Packet::Video(fragment) = Packet::try_from(datagrams[0].as_slice()).unwrap() else {
        panic!("video is sent as video");
    };
    assert_eq!(fragment.frame_id, 1);
    sender.count_datagram(datagrams[0].len());
    sender.conclude(&key, true, 10, 20);
    assert!(matches!(
        sender.judge(&frame(2, false, 0), true, 1400, 5),
        SendDecision::Send(_)
    ));
    sender.conclude(&frame(2, false, 0), true, 10, 20);
    assert_eq!(
        sender.judge(&frame(4, false, 0), true, 1400, 5),
        SendDecision::Skip
    );
    assert!(sender.take_keyframe_demand());
    assert_eq!(
        sender.judge(&frame(5, true, 0), true, 1400, VIDEO_SEND_STALE_AGE + 1),
        SendDecision::Skip
    );
    assert_eq!(sender.stats.stale_frames, 1);
    assert_eq!(
        sender.judge(&frame(6, true, 0), false, 1400, 5),
        SendDecision::Skip
    );
    assert_eq!(
        sender.judge(&frame(7, true, 0), true, 9, 5),
        SendDecision::Failed(VideoFragmentationError::InvalidDatagramSize)
    );
    assert_eq!(sender.report(SECOND - 1), None);
    let report = sender.report(SECOND).unwrap();
    assert_eq!(report.stats.frames, 2);
    assert_eq!(report.stats.encode_us, 8);
    assert_eq!(report.stats.send_us, 20);
    assert_eq!(report.stats.bytes, datagrams[0].len() as u64);
    assert_eq!(sender.stats.frames, 0);
    sender.conclude(&frame(8, true, 0), false, 0, 0);
    assert!(sender.waiting_for_keyframe && sender.keyframe_needed);
}

#[test]
fn datagrams_are_spread_over_time() {
    let mut pacer = DatagramPacer::new(1_000_000, 100);
    assert_eq!(pacer.bits_per_second, 4_000_000);
    pacer.account(1000);
    assert_eq!(pacer.next_batch_at, 100 + 2_000_000);
    assert_eq!(pacer.wait(100), PacingWait::Sleep(1_500_000));
    assert_eq!(pacer.wait(1_900_000), PacingWait::Yield);
    assert_eq!(pacer.wait(2_000_000), PacingWait::SpinUntil(2_000_100));
    assert_eq!(pacer.wait(2_000_101), PacingWait::Done);
    pacer.begin_frame(50);
    assert_eq!(pacer.next_batch_at, 2_000_100);
    pacer.begin_frame(9_000_000);
    assert_eq!(pacer.next_batch_at, 9_000_000);
    assert!(!waits_before(0));
    assert!(waits_before(16));
    assert!(!waits_before(17));
    assert_eq!(DatagramPacer::new(0, 0).bits_per_second, 4);
}

#[test]
fn a_stuck_capture_is_noticed() {
    let mut watchdog = CaptureWatchdog::new(0, 0);
    assert_eq!(watchdog.observe(false, false, 0, 5 * SECOND), None);
    assert_eq!(watchdog.observe(false, true, 0, 6 * SECOND), None);
    assert_eq!(
        watchdog.observe(false, true, 0, 8 * SECOND),
        Some(CaptureStall::NoFirstFrame)
    );

    let mut watchdog = CaptureWatchdog::new(0, 0);
    for i in 0..4 {
        assert_eq!(watchdog.observe(true, true, i, i), None);
    }
    assert_eq!(
        watchdog.observe(false, true, 3, 3 + 2 * SECOND),
        Some(CaptureStall::CaptureStopped)
    );

    let mut watchdog = CaptureWatchdog::new(7, 0);
    for i in 0..5 {
        let stall = watchdog.observe(true, true, 7, i * SECOND / 2);
        assert_eq!(
            stall,
            if i < 4 {
                None
            } else {
                Some(CaptureStall::EncoderStopped)
            }
        );
    }
    assert_eq!(
        CaptureStall::EncoderStopped.failure(),
        CaptureFailure::EncoderStalled
    );
    assert!(CaptureStall::NoFirstFrame.message().contains("2000 ms"));
}

#[test]
fn lost_displays_are_tried_again() {
    let mut backoff = AccessLossBackoff::new();
    let lost = CaptureFailure::AccessLost;
    let delays: Vec<u64> = (0..5)
        .map(|_| match backoff.session_ended(lost, false) {
            SessionEnd::Retry { delay_ms, .. } => delay_ms,
            SessionEnd::GiveUp => 0,
        })
        .collect();
    assert_eq!(delays, vec![25, 50, 100, 200, 200]);
    assert_eq!(
        backoff.session_ended(lost, true),
        SessionEnd::Retry {
            delay_ms: 25,
            tell_user: true,
            warn: true
        }
    );
    assert_eq!(
        backoff.session_ended(CaptureFailure::DeviceLost, false),
        SessionEnd::GiveUp
    );
    assert_eq!(
        classify_capture_error("failed: dxgi_error_access_lost"),
        CaptureFailure::AccessLost
    );
    assert_eq!(
        classify_capture_error("code 0x887a0026"),
        CaptureFailure::AccessLost
    );
    assert_eq!(
        classify_capture_error("code 0x887A0005"),
        CaptureFailure::DeviceLost
    );
    assert_eq!(classify_capture_error("anything"), CaptureFailure::Fatal);
    assert!(contains_bytes(b"abcabd", b"abd"));
    assert!(!contains_bytes(b"ab", b"abd"));
}

#[test]
fn pictures_are_taken_at_their_rate() {
    let mut pacer = FramePacer::new(10_000_000, 0);
    assert!(pacer.take(0));
    assert!(!pacer.take(8_000_000));
    assert!(pacer.take(9_000_000));
    assert!(pacer.take(50_000_000));
    assert_eq!(pacer.next_frame_at, 60_000_000);
    pacer.idle(55_000_000);
    assert!(pacer.take(55_000_000));

    let mut metrics = CaptureMetrics::new();
    assert!(metrics.count_acquired(true, 3));
    assert!(!metrics.count_acquired(false, 0));
    assert_eq!(metrics.source_frames, 1);
    assert_eq!(metrics.backlog, 2);
    assert_eq!(metrics.cursor_only_frames, 1);
}

#[test]
fn the_cursor_is_sent_scaled() {
    assert_eq!(scale_cursor_coordinate(960, 1280, 1920), 640);
    assert_eq!(scale_cursor_coordinate(-3, 1, 2), -1);
    assert_eq!(scale_cursor_coordinate(7, 5, 0), 7);
    assert_eq!(scale_cursor_coordinate(i32::MAX, u32::MAX, 1), i32::MAX);
    let viewer = PeerAddr {
        ip: IpAddress::V6(1),
        port: 9,
        flow_info: 0,
        scope_id: 0,
    };
    let moved = PointerInfo {
        updated: true,
        x: 100,
        y: 50,
        visible: true,
    };
    let still = PointerInfo {
        updated: false,
        ..moved
    };
    let mut tracker = CursorTracker::new();
    assert_eq!(tracker.update(moved, 640, 360, 1280, 720, None, 0), None);
    let position = CursorPosition {
        x: 50,
        y: 25,
        visible: true,
    };
    assert_eq!(
        tracker.update(still, 640, 360, 1280, 720, Some(viewer), 0),
        Some((viewer, position))
    );
    tracker.sent(0);
    assert_eq!(
        tracker.update(still, 640, 360, 1280, 720, Some(viewer), 99_999_999),
        None
    );
    assert_eq!(
        tracker.update(still, 640, 360, 1280, 720, Some(viewer), 100_000_000),
        Some((viewer, position))
    );
    let hidden = PointerInfo {
        visible: false,
        ..moved
    };
    let nothing = CursorPosition {
        x: 0,
        y: 0,
        visible: false,
    };
    assert_eq!(
        tracker.update(hidden, 640, 360, 1280, 720, Some(viewer), 100_000_001),
        Some((viewer, nothing))
    );
}

#[test]
fn slots_go_round() {
    let mut ring = SlotRing::new();
    assert_eq!(ring.take(), Some(0));
    assert_eq!(ring.take(), Some(1));
    ring.give_back(0);
    assert_eq!(ring.take(), Some(2));
    assert_eq!(ring.take(), Some(3));
    assert_eq!(ring.take(), Some(0));
    assert_eq!(ring.take(), None);

    assert_eq!(submission_fate(false, 0, 0), SubmissionFate::Abandon);
    assert_eq!(
        submission_fate(true, 0, VIDEO_SEND_STALE_AGE + 1),
        SubmissionFate::Stale
    );
    assert_eq!(
        submission_fate(true, 0, VIDEO_SEND_STALE_AGE),
        SubmissionFate::Proceed
    );
    let full = after_capture(HandOver::Full);
    assert!(full.free_slot && full.force_keyframe && full.count_busy && !full.fail);
    let gone = after_capture(HandOver::Disconnected);
    assert!(gone.free_slot && gone.fail && !gone.count_busy);
    assert!(!after_capture(HandOver::Accepted).free_slot);
    assert_eq!(
        after_completion(HandOver::Full, true, 3),
        CompletionStep::Retry
    );
    assert_eq!(
        after_completion(HandOver::Accepted, true, 0),
        CompletionStep::Done { first: true }
    );
}

#[test]
fn the_graphics_processor_is_waited_for() {
    assert_eq!(gpu_wait(false, true, 0, 0, 0), GpuWait::Cancelled);
    assert_eq!(gpu_wait(true, true, 0, 0, 0), GpuWait::Finished);
    assert_eq!(gpu_wait(true, false, 0, 0, SECOND), GpuWait::TimedOut);
    assert_eq!(gpu_wait(true, false, 0, 127, 1), GpuWait::Spin);
    assert_eq!(gpu_wait(true, false, 0, 128, 1), GpuWait::Yield);
    assert!(driver_supports(0xc1, 12, 0));
    assert!(driver_supports(0xc1, 12, 1));
    assert!(!driver_supports(0xc1, 12, 2));
    assert!(driver_supports(0xd0, 12, 2));
    assert_eq!(frame_budget(6_000_000, 60), 100_000);
    assert_eq!(frame_budget(10, 60), 1);
    assert_eq!(frame_budget(10, 0), 10);
    assert!(needs_rebuild(None, 1, 2));
    assert!(needs_rebuild(Some((1, 3)), 1, 2));
    assert!(!needs_rebuild(Some((1, 2)), 1, 2));
}
