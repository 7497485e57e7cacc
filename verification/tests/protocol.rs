use echobind::protocol::{
    AudioFrame, ClipboardChunk, CursorPosition, Float32, Packet, PacketParseError, ServerStats,
    VideoFragment, HEADER_LEN, HELLO, JUMBO_DATAGRAM_SIZE, LEGACY_SERVER_STATS_LEN,
    MAX_AUDIO_FRAME_PAYLOAD, MAX_DATAGRAM_SIZE, MAX_VIDEO_FRAGMENT_PAYLOAD,
    STANDARD_DATAGRAM_SIZE,
};
use std::borrow::Cow;

fn round_trip(packet: Packet<'_>) -> Vec<u8> {
    let mut encoded = Vec::new();
    packet.encode(&mut encoded);
    encoded
}

fn float(value: f32) -> Float32 {
    Float32 {
        bits: value.to_bits(),
    }
}

#[test]
fn encodes_and_parses_ping() {
    let encoded = round_trip(Packet::Ping(42));
    assert_eq!(Packet::try_from(encoded.as_slice()), Ok(Packet::Ping(42)));
}

#[test]
fn hello_advertises_datagram_capability_and_accepts_legacy() {
    let hello = Packet::Hello {
        max_datagram_size: JUMBO_DATAGRAM_SIZE as u16,
    };
    let encoded = round_trip(hello);
    assert_eq!(
        Packet::try_from(encoded.as_slice()),
        Ok(Packet::Hello {
            max_datagram_size: JUMBO_DATAGRAM_SIZE as u16
        })
    );

    let mut legacy = b"ECB2".to_vec();
    legacy.push(HELLO);
    assert_eq!(
        Packet::try_from(legacy.as_slice()),
        Ok(Packet::Hello {
            max_datagram_size: STANDARD_DATAGRAM_SIZE as u16
        })
    );
}

#[test]
fn rejects_v1_packets() {
    assert_eq!(
        Packet::try_from(&b"ECB1\x01"[..]),
        Err(PacketParseError::Invalid)
    );
}

#[test]
fn encodes_and_parses_audio() {
    let frame = AudioFrame {
        sequence: 7,
        timestamp_us: 140_000,
        payload: &[1, 2, 3],
    };
    let encoded = round_trip(Packet::Audio(frame));
    assert_eq!(
        Packet::try_from(encoded.as_slice()),
        Ok(Packet::Audio(frame))
    );
}

#[test]
fn rejects_oversized_audio_frame() {
    let payload = vec![0; MAX_AUDIO_FRAME_PAYLOAD + 1];
    let frame = AudioFrame {
        sequence: 1,
        timestamp_us: 0,
        payload: &payload,
    };
    let encoded = round_trip(Packet::Audio(frame));
    assert_eq!(
        Packet::try_from(encoded.as_slice()),
        Err(PacketParseError::TooLarge)
    );
}

#[test]
fn encodes_and_parses_video_fragment() {
    let fragment = VideoFragment {
        frame_id: 9,
        timestamp_us: 150_000,
        index: 1,
        total: 3,
        is_keyframe: true,
        is_recovery: false,
        payload: Cow::Borrowed(&[4, 5, 6]),
    };
    let encoded = round_trip(Packet::Video(fragment.clone()));
    assert_eq!(
        Packet::try_from(encoded.as_slice()),
        Ok(Packet::Video(fragment))
    );
    assert!(encoded.len() <= MAX_DATAGRAM_SIZE);
}

#[test]
fn rejects_oversized_video_fragment() {
    let payload = vec![0; MAX_VIDEO_FRAGMENT_PAYLOAD + 1];
    let fragment = VideoFragment {
        frame_id: 1,
        timestamp_us: 0,
        index: 0,
        total: 1,
        is_keyframe: false,
        is_recovery: false,
        payload: Cow::Borrowed(&payload),
    };
    let encoded = round_trip(Packet::Video(fragment));
    assert_eq!(
        Packet::try_from(encoded.as_slice()),
        Err(PacketParseError::Invalid)
    );
}

#[test]
fn encodes_and_parses_clipboard_chunk() {
    let chunk = ClipboardChunk {
        transfer_id: 7,
        index: 1,
        total: 3,
        payload: b"hello",
    };
    let encoded = round_trip(Packet::Clipboard(chunk));
    assert_eq!(
        Packet::try_from(encoded.as_slice()),
        Ok(Packet::Clipboard(chunk))
    );
}

#[test]
fn encodes_and_parses_connection_rejection() {
    let encoded = round_trip(Packet::ConnectionRejected(b"busy"));
    assert_eq!(
        Packet::try_from(encoded.as_slice()),
        Ok(Packet::ConnectionRejected(b"busy"))
    );
}

#[test]
fn encodes_and_parses_cursor_position() {
    let position = CursorPosition {
        x: 1234,
        y: -7,
        visible: true,
    };
    let encoded = round_trip(Packet::CursorPosition(position));
    assert_eq!(
        Packet::try_from(encoded.as_slice()),
        Ok(Packet::CursorPosition(position))
    );
}

#[test]
fn encodes_and_parses_server_stats() {
    let stats = ServerStats {
        fps: float(119.5),
        source_fps: float(120.0),
        megabits_per_second: float(87.25),
        capture_ms: float(1.2),
        gpu_wait_ms: float(0.3),
        gpu_lock_ms: float(0.1),
        encode_ms: float(2.4),
        send_ms: float(0.8),
        encode_queue_ms: float(0.2),
        copy_wait_ms: float(0.4),
        convert_wait_ms: float(0.5),
        map_ms: float(0.6),
        submit_ms: float(0.7),
        completion_wait_ms: float(0.8),
        bitstream_ms: float(0.9),
        dxgi_timeouts: 3,
        dxgi_backlog: 4,
        dxgi_backlog_max: 2,
        pacing_skips: 5,
        slot_busy_skips: 6,
        cursor_only_frames: 7,
        stale_frames: 8,
        preprocess_busy_skips: 9,
        no_free_slot_skips: 10,
    };
    let encoded = round_trip(Packet::ServerStats(stats));
    assert_eq!(
        Packet::try_from(encoded.as_slice()),
        Ok(Packet::ServerStats(stats))
    );
}

#[test]
fn parses_legacy_server_stats_without_stage_breakdown() {
    let stats = ServerStats {
        fps: float(60.0),
        source_fps: float(90.0),
        copy_wait_ms: float(4.0),
        preprocess_busy_skips: 12,
        ..ServerStats::default()
    };
    let mut encoded = Vec::new();
    Packet::ServerStats(stats).encode(&mut encoded);
    encoded.truncate(HEADER_LEN + LEGACY_SERVER_STATS_LEN);
    let Packet::ServerStats(parsed) = Packet::try_from(encoded.as_slice()).unwrap() else {
        panic!("legacy server stats changed packet type");
    };
    assert_eq!(parsed.fps, stats.fps);
    assert_eq!(parsed.source_fps, stats.source_fps);
    assert_eq!(parsed.copy_wait_ms, float(0.0));
    assert_eq!(parsed.preprocess_busy_skips, 0);
}

#[test]
fn rejects_non_finite_server_stats() {
    for value in [f32::NAN, f32::INFINITY, f32::NEG_INFINITY] {
        let encoded = round_trip(Packet::ServerStats(ServerStats {
            fps: float(value),
            ..ServerStats::default()
        }));
        assert_eq!(
            Packet::try_from(encoded.as_slice()),
            Err(PacketParseError::Invalid)
        );
    }
}

#[test]
fn finiteness_agrees_with_the_processor() {
    for value in [0.0, -0.0, 1.5, f32::MAX, f32::MIN_POSITIVE, f32::NAN, f32::INFINITY] {
        assert_eq!(float(value).is_finite(), value.is_finite());
    }
}

#[test]
fn a_packet_has_the_documented_layout() {
    assert_eq!(
        round_trip(Packet::Ping(0x0102_0304_0506_0708)),
        b"ECB2\x03\x01\x02\x03\x04\x05\x06\x07\x08"
    );
    assert_eq!(
        round_trip(Packet::Video(VideoFragment {
            frame_id: 1,
            timestamp_us: 2,
            index: 3,
            total: 3,
            is_keyframe: true,
            is_recovery: true,
            payload: Cow::Owned(vec![0xaa]),
        })),
        b"ECB2\x07\0\0\0\0\0\0\0\x01\0\0\0\0\0\0\0\x02\0\x03\0\x03\x03\xaa"
    );
}

#[test]
fn short_and_unknown_packets_are_refused() {
    assert_eq!(
        Packet::try_from(&b"ECB2"[..]),
        Err(PacketParseError::TooShort)
    );
    assert_eq!(
        Packet::try_from(&b"ECB2\x63"[..]),
        Err(PacketParseError::Invalid)
    );
    assert_eq!(
        Packet::try_from(&b"ECB2\x05\0\0\0\0\0\0\0\0\0\0\0\0"[..]),
        Err(PacketParseError::TooShort)
    );
    assert_eq!(
        Packet::try_from(&b"ECB2\x08\0"[..]),
        Err(PacketParseError::Invalid)
    );
    assert_eq!(
        Packet::try_from(&b"ECB2\x06\0\0\0\0\0\0\0\x01\0\x02\0\x02"[..]),
        Err(PacketParseError::Invalid)
    );
    assert_eq!(
        PacketParseError::TooLarge.message(),
        "packet exceeds protocol limits"
    );
}

#[test]
fn accepted_datagrams_are_written_the_same_way() {
    let fragment = Packet::Video(VideoFragment {
        frame_id: 5,
        timestamp_us: 6,
        index: 2,
        total: 2,
        is_keyframe: true,
        is_recovery: true,
        payload: std::borrow::Cow::Borrowed(&[1, 2, 3, 4, 5]),
    });
    let datagram = round_trip(fragment);
    let mut again = Vec::new();
    Packet::try_from(datagram.as_slice())
        .unwrap()
        .encode(&mut again);
    assert_eq!(again, datagram);

    let wordy = [0x45, 0x43, 0x42, 0x32, 1, 0x05, 0x78];
    Packet::try_from(wordy.as_slice())
        .unwrap()
        .encode(&mut again);
    assert_eq!(again, &wordy[..5]);
}
