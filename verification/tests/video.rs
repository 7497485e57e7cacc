use echobind::clock::Clock;
use echobind::protocol::{
    Packet, VideoFragment, JUMBO_DATAGRAM_SIZE, MAX_DATAGRAM_SIZE, MAX_VIDEO_FRAGMENTS,
    MAX_VIDEO_FRAGMENT_PAYLOAD, MAX_VIDEO_FRAME_SIZE, STANDARD_DATAGRAM_SIZE,
    STANDARD_VIDEO_FRAGMENT_PAYLOAD,
};
use echobind::reassembly::{VideoReassembler, VideoReassemblyError};
use echobind::video::{
    fragment_video_frame, fragment_video_frame_with_datagram_size, VideoFragmentationError,
};
use std::borrow::Cow;
use std::time::Duration;

#[test]
fn fragments_and_reassembles_out_of_order() {
    let payload = vec![7; STANDARD_VIDEO_FRAGMENT_PAYLOAD * 2 + 17];
    let fragments = fragment_video_frame(42, 123_456, true, &payload).unwrap();
    assert_eq!(fragments.len(), 4);

    let mut reassembler = VideoReassembler::new(3, Duration::from_secs(1));
    assert_eq!(reassembler.push(fragments[2].clone()).unwrap(), None);
    assert_eq!(reassembler.push(fragments[0].clone()).unwrap(), None);
    let frame = reassembler.push(fragments[1].clone()).unwrap().unwrap();

    assert_eq!(frame.frame_id, 42);
    assert_eq!(frame.timestamp_us, 123_456);
    assert!(frame.is_keyframe);
    assert_eq!(frame.payload, payload);
}

#[test]
fn duplicate_fragment_is_ignored() {
    let payload = vec![1; STANDARD_VIDEO_FRAGMENT_PAYLOAD + 1];
    let fragments = fragment_video_frame(8, 99, false, &payload).unwrap();
    let mut reassembler = VideoReassembler::new(2, Duration::from_secs(1));

    assert_eq!(reassembler.push(fragments[0].clone()).unwrap(), None);
    assert_eq!(reassembler.push(fragments[0].clone()).unwrap(), None);
    assert_eq!(
        reassembler
            .push(fragments[1].clone())
            .unwrap()
            .unwrap()
            .payload,
        payload
    );
}

#[test]
fn recovery_fragment_repairs_one_lost_datagram() {
    let payload = (0..STANDARD_VIDEO_FRAGMENT_PAYLOAD * 3 + 17)
        .map(|index| (index % 251) as u8)
        .collect::<Vec<_>>();
    let fragments = fragment_video_frame(11, 500, false, &payload).unwrap();
    let delayed_fragment = fragments[1].clone();
    let mut reassembler = VideoReassembler::new(3, Duration::from_secs(1));
    let mut completed = None;
    for (index, fragment) in fragments.into_iter().enumerate() {
        if index != 1 {
            completed = reassembler.push(fragment).unwrap().or(completed);
        }
    }
    assert_eq!(completed.unwrap().payload, payload);
    assert_eq!(reassembler.push(delayed_fragment).unwrap(), None);
    assert_eq!(reassembler.pending_frames(), 0);
}

#[test]
fn recovery_fragment_does_not_emit_with_two_losses() {
    let payload = vec![9; STANDARD_VIDEO_FRAGMENT_PAYLOAD * 3];
    let fragments = fragment_video_frame(12, 600, false, &payload).unwrap();
    let mut reassembler = VideoReassembler::new(3, Duration::from_secs(1));
    let mut completed = None;
    for (index, fragment) in fragments.into_iter().enumerate() {
        if index != 0 && index != 2 {
            completed = reassembler.push(fragment).unwrap().or(completed);
        }
    }
    assert!(completed.is_none());
    assert_eq!(reassembler.pending_frames(), 1);
}

#[test]
fn pending_frames_are_bounded() {
    let payload = vec![0; STANDARD_VIDEO_FRAGMENT_PAYLOAD + 1];
    let first = fragment_video_frame(1, 0, false, &payload).unwrap();
    let second = fragment_video_frame(2, 1, false, &payload).unwrap();
    let mut reassembler = VideoReassembler::new(1, Duration::from_secs(1));

    reassembler.push(first[0].clone()).unwrap();
    reassembler.push(second[0].clone()).unwrap();
    assert_eq!(reassembler.pending_frames(), 1);
}

#[test]
fn jumbo_mode_reduces_fragment_count_and_round_trips() {
    let payload = vec![3; 32_000];
    let standard = fragment_video_frame(7, 10, true, &payload).unwrap();
    let jumbo =
        fragment_video_frame_with_datagram_size(7, 10, true, &payload, JUMBO_DATAGRAM_SIZE)
            .unwrap();
    assert!(jumbo.len() < standard.len());

    let mut reassembler = VideoReassembler::new(2, Duration::from_secs(1));
    let mut completed = None;
    for fragment in jumbo {
        completed = reassembler.push(fragment).unwrap().or(completed);
    }
    assert_eq!(completed.unwrap().payload, payload);
}

#[test]
fn rejects_unnegotiated_datagram_sizes() {
    assert_eq!(
        fragment_video_frame_with_datagram_size(1, 0, false, &[1], 1399),
        Err(VideoFragmentationError::InvalidDatagramSize)
    );
    assert_eq!(
        fragment_video_frame_with_datagram_size(1, 0, false, &[1], MAX_DATAGRAM_SIZE + 1),
        Err(VideoFragmentationError::InvalidDatagramSize)
    );
}

#[test]
fn rejects_empty_and_oversized_frames() {
    assert_eq!(
        fragment_video_frame(1, 0, false, &[]),
        Err(VideoFragmentationError::EmptyFrame)
    );
    let payload = vec![0; MAX_VIDEO_FRAME_SIZE + 1];
    assert_eq!(
        fragment_video_frame(1, 0, false, &payload),
        Err(VideoFragmentationError::FrameTooLarge)
    );
    let largest = fragment_video_frame(1, 0, false, &payload[1..]).unwrap();
    assert_eq!(largest.len(), MAX_VIDEO_FRAGMENTS + 1);
    assert_eq!(
        VideoFragmentationError::EmptyFrame.message(),
        "video frame is empty"
    );
}

#[test]
fn recovery_fragment_holds_length_and_parity() {
    let mut payload = vec![0x0f; 1370];
    payload.extend_from_slice(&[0xf0, 0x01]);
    let fragments = fragment_video_frame(5, 6, true, &payload).unwrap();
    assert_eq!(fragments.len(), 3);
    let recovery = &fragments[2];
    assert!(recovery.is_recovery);
    assert_eq!((recovery.index, recovery.total), (2, 2));
    let bytes = recovery.payload_bytes();
    assert_eq!(bytes.len(), 1374);
    assert_eq!(&bytes[..4], &[0, 0, 5, 0x5c]);
    assert_eq!(&bytes[4..7], &[0xff, 0x0e, 0x0f]);
}

#[test]
fn fragments_fit_their_datagrams_and_survive_the_wire() {
    let payload = (0..100_000_u32).map(|i| (i % 253) as u8).collect::<Vec<_>>();
    for size in [STANDARD_DATAGRAM_SIZE, 5000, JUMBO_DATAGRAM_SIZE] {
        let fragments =
            fragment_video_frame_with_datagram_size(9, 1, false, &payload, size).unwrap();
        for fragment in fragments {
            let mut datagram = Vec::new();
            Packet::Video(fragment.clone()).encode(&mut datagram);
            assert!(datagram.len() <= size);
            assert_eq!(
                Packet::try_from(datagram.as_slice()),
                Ok(Packet::Video(fragment))
            );
        }
    }
}

fn fragment(index: u16, total: u16, is_recovery: bool, payload: Vec<u8>) -> VideoFragment<'static> {
    VideoFragment {
        frame_id: 3,
        timestamp_us: 30,
        index,
        total,
        is_keyframe: false,
        is_recovery,
        payload: Cow::Owned(payload),
    }
}

#[test]
fn any_single_loss_is_repaired_in_any_order() {
    let payload = (0..5000_u32).map(|i| (i * 7 % 251) as u8).collect::<Vec<_>>();
    let fragments = fragment_video_frame(77, 5, true, &payload).unwrap();
    let count = fragments.len();
    for lost in 0..count {
        for shift in 0..count {
            let mut reassembler = VideoReassembler::new(2, Duration::from_secs(1));
            let mut frames = Vec::new();
            for step in 0..count {
                let index = (step * 3 + shift) % count;
                if index != lost {
                    frames.extend(
                        reassembler
                            .push_at(fragments[index].clone(), step as u64)
                            .unwrap(),
                    );
                }
            }
            assert_eq!(frames.len(), 1);
            assert_eq!(frames[0].payload, payload);
        }
    }
}

#[test]
fn invalid_fragments_are_refused() {
    let mut reassembler = VideoReassembler::new(2, Duration::from_secs(1));
    let bad = [
        fragment(0, 0, false, vec![1]),
        fragment(2, 2, false, vec![1]),
        fragment(1, 2, true, vec![1; 9]),
        fragment(0, MAX_VIDEO_FRAGMENTS as u16 + 1, false, vec![1]),
        fragment(0, 1, false, vec![]),
        fragment(0, 1, false, vec![1; MAX_VIDEO_FRAGMENT_PAYLOAD + 1]),
        fragment(2, 2, true, vec![0; 4]),
    ];
    for fragment in bad {
        assert_eq!(
            reassembler.push(fragment),
            Err(VideoReassemblyError::InvalidFragment)
        );
    }
    assert_eq!(reassembler.pending_frames(), 0);
}

#[test]
fn changed_metadata_drops_the_frame() {
    let mut reassembler = VideoReassembler::new(2, Duration::from_secs(1));
    assert_eq!(reassembler.push(fragment(0, 3, false, vec![1])), Ok(None));
    assert_eq!(
        reassembler.push(fragment(1, 2, false, vec![1])),
        Err(VideoReassemblyError::FrameMetadataChanged)
    );
    assert_eq!(reassembler.pending_frames(), 0);
}

#[test]
fn recovery_with_a_wrong_length_is_refused() {
    let mut reassembler = VideoReassembler::new(2, Duration::from_secs(1));
    assert_eq!(reassembler.push(fragment(0, 2, false, vec![1, 2])), Ok(None));
    // The frame of two chunks of two bytes cannot be two bytes long.
    assert_eq!(
        reassembler.push(fragment(2, 2, true, vec![0, 0, 0, 2, 9, 9])),
        Err(VideoReassemblyError::InvalidFragment)
    );
    assert_eq!(reassembler.pending_frames(), 0);
}

#[test]
fn oversized_reassembly_is_refused() {
    let mut reassembler = VideoReassembler::new(2, Duration::from_secs(60));
    let total = 1100;
    for index in 0..total - 1 {
        assert_eq!(
            reassembler.push(fragment(index, total, false, vec![1; 8000])),
            Ok(None)
        );
    }
    assert_eq!(
        reassembler.push(fragment(total - 1, total, false, vec![1; 8000])),
        Err(VideoReassemblyError::FrameTooLarge)
    );
}

#[test]
fn stale_frames_expire() {
    let mut reassembler = VideoReassembler::new(4, Duration::from_millis(50));
    assert_eq!(
        reassembler.push_at(fragment(0, 3, false, vec![1]), 1_000),
        Ok(None)
    );
    assert_eq!(reassembler.expire_stale_at(50_001_000), 0);
    assert_eq!(reassembler.expire_stale_at(50_001_001), 1);
    assert_eq!(reassembler.pending_frames(), 0);
    assert_eq!(reassembler.expire_stale(), 0);
}

#[test]
fn the_frame_that_waited_longest_makes_room() {
    let mut reassembler = VideoReassembler::new(2, Duration::from_secs(1));
    let part = |id: u64, index: u16| {
        let mut fragment = fragment(index, 2, false, vec![id as u8]);
        fragment.frame_id = id;
        fragment
    };
    assert_eq!(reassembler.push_at(part(1, 0), 10), Ok(None));
    assert_eq!(reassembler.push_at(part(2, 0), 5), Ok(None));
    assert_eq!(reassembler.push_at(part(3, 0), 20), Ok(None));
    assert_eq!(reassembler.pending_frames(), 2);
    let finished = reassembler.push_at(part(1, 1), 21).unwrap().unwrap();
    assert_eq!(finished.payload, vec![1, 1]);
}

#[test]
fn the_clock_does_not_run_backwards() {
    let clock = Clock::start();
    let first = clock.now();
    assert!(clock.now() >= first);
}

#[test]
fn fragments_say_which_they_are() {
    let payload = vec![9; STANDARD_VIDEO_FRAGMENT_PAYLOAD * 4 + 1];
    let fragments = fragment_video_frame(77, 1, false, &payload).unwrap();
    assert_eq!(fragments.len(), 6);
    for (index, fragment) in fragments.iter().enumerate() {
        assert_eq!(fragment.frame_id, 77);
        assert_eq!(fragment.index as usize, index);
        assert_eq!(fragment.is_recovery, index == 5);
    }
}
