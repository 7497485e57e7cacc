use echobind::client::{
    Client, ClientAction, ClientError, CONNECTION_TIMEOUT, HEARTBEAT_INTERVAL, HELLO_INTERVAL,
    KEYFRAME_RETRY_INTERVAL,
};
use echobind::config::{
    AudioConfig, BufferSize, FrameRate, SessionConfig, VideoCodec, VideoConfig,
};
use echobind::host::{ConfigPurpose, Host, HostAction, RECONNECT_GRACE};
use echobind::panel::{Mode, Panel, PanelEvent};
use echobind::peer::{IpAddress, PeerAddr};
use echobind::protocol::{
    AudioFrame, CursorPosition, Packet, JUMBO_DATAGRAM_SIZE, MAX_DATAGRAM_SIZE,
    STANDARD_DATAGRAM_SIZE,
};
use echobind::resolution::VideoResolution;
use echobind::sender::packetize;

const SECOND: u64 = 1_000_000_000;

fn peer(last: u32, port: u16) -> PeerAddr {
    PeerAddr {
        ip: IpAddress::V4(0x0a00_0000 + last),
        port,
        flow_info: 0,
        scope_id: 0,
    }
}

fn datagram(packet: Packet<'_>) -> Vec<u8> {
    let mut bytes = Vec::new();
    packet.encode(&mut bytes);
    bytes
}

fn hello(size: usize) -> Vec<u8> {
    datagram(Packet::Hello {
        max_datagram_size: size as u16,
    })
}

fn new_host(jumbo: bool) -> Host {
    Host::new(b"standard".to_vec(), b"jumbo".to_vec(), jumbo)
}

#[test]
fn the_user_lets_a_viewer_in() {
    let mut host = new_host(false);
    let viewer = peer(1, 5000);
    host.receive(viewer, &hello(MAX_DATAGRAM_SIZE), 0);
    assert_eq!(host.take_actions(), vec![HostAction::AskUser(viewer)]);
    host.receive(viewer, &hello(MAX_DATAGRAM_SIZE), 1);
    assert_eq!(host.take_actions(), vec![]);
    assert_eq!(host.active_peer(), None);
    host.accept(peer(9, 9), 2);
    assert_eq!(host.active_peer(), None);
    host.accept(viewer, 2);
    assert_eq!(host.active_peer(), Some(viewer));
    assert_eq!(host.active_datagram_size(), STANDARD_DATAGRAM_SIZE);
    assert_eq!(
        host.take_actions(),
        vec![
            HostAction::ForceKeyframe,
            HostAction::SendConfig {
                peer: viewer,
                datagram: datagram(Packet::Config(b"standard")),
                purpose: ConfigPurpose::Accept,
            },
        ]
    );
    host.conclude_config(viewer, ConfigPurpose::Accept, true, 3);
    assert_eq!(
        host.take_actions(),
        vec![
            HostAction::Connected(viewer),
            HostAction::TransportConfigured {
                datagram_size: STANDARD_DATAGRAM_SIZE
            },
        ]
    );
    host.receive(viewer, &datagram(Packet::Ping(8)), 4);
    host.receive(viewer, &datagram(Packet::VideoKeyframeRequest), 5);
    assert_eq!(
        host.take_actions(),
        vec![
            HostAction::Send {
                peer: viewer,
                datagram: datagram(Packet::Pong(8)),
            },
            HostAction::ForceKeyframe,
        ]
    );
}

#[test]
fn others_are_refused_while_there_is_a_viewer() {
    let mut host = new_host(false);
    let viewer = peer(1, 5000);
    host.receive(viewer, &hello(STANDARD_DATAGRAM_SIZE), 0);
    host.accept(viewer, 0);
    host.take_actions();
    let other = peer(2, 5000);
    host.receive(other, &hello(STANDARD_DATAGRAM_SIZE), 1);
    host.receive(other, &datagram(Packet::Ping(1)), 1);
    host.receive(other, &datagram(Packet::VideoKeyframeRequest), 1);
    assert_eq!(
        host.take_actions(),
        vec![HostAction::Send {
            peer: other,
            datagram: datagram(Packet::ConnectionRejected(b"Host is already connected")),
        }]
    );
    let restarted = peer(1, 6000);
    host.receive(restarted, &hello(STANDARD_DATAGRAM_SIZE), 2);
    assert_eq!(host.active_peer(), Some(restarted));
}

#[test]
fn a_rejected_viewer_is_told() {
    let mut host = new_host(false);
    let viewer = peer(1, 5000);
    host.receive(viewer, &hello(STANDARD_DATAGRAM_SIZE), 0);
    host.take_actions();
    host.reject(viewer);
    assert_eq!(
        host.take_actions(),
        vec![HostAction::Send {
            peer: viewer,
            datagram: datagram(Packet::ConnectionRejected(b"Connection rejected by host")),
        }]
    );
    host.accept(viewer, 1);
    assert_eq!(host.active_peer(), None);
}

#[test]
fn jumbo_datagrams_need_both_sides() {
    let viewer = peer(1, 5000);
    for (wanted, size, expected) in [
        (true, JUMBO_DATAGRAM_SIZE, JUMBO_DATAGRAM_SIZE),
        (true, STANDARD_DATAGRAM_SIZE, STANDARD_DATAGRAM_SIZE),
        (false, JUMBO_DATAGRAM_SIZE, STANDARD_DATAGRAM_SIZE),
    ] {
        let mut host = new_host(wanted);
        host.receive(viewer, &hello(size), 0);
        host.accept(viewer, 0);
        assert_eq!(host.active_datagram_size(), expected);
    }
}

#[test]
fn a_silent_viewer_may_come_back_for_a_while() {
    let mut host = new_host(true);
    let viewer = peer(1, 5000);
    host.receive(viewer, &hello(JUMBO_DATAGRAM_SIZE), 0);
    host.accept(viewer, 0);
    host.take_actions();
    host.conclude(3 * SECOND - 1);
    assert_eq!(host.active_peer(), Some(viewer));
    host.conclude(3 * SECOND);
    assert_eq!(host.take_actions(), vec![HostAction::Disconnected(viewer)]);
    assert_eq!(host.active_peer(), None);
    host.receive(viewer, &hello(STANDARD_DATAGRAM_SIZE), 5 * SECOND);
    assert_eq!(host.active_peer(), Some(viewer));
    assert_eq!(host.active_datagram_size(), JUMBO_DATAGRAM_SIZE);
    host.take_actions();
    host.conclude_config(viewer, ConfigPurpose::Restore, false, 6 * SECOND);
    assert_eq!(
        host.take_actions(),
        vec![HostAction::ConfigFailed {
            peer: viewer,
            purpose: ConfigPurpose::Restore
        }]
    );
    assert_eq!(host.active_peer(), None);
    host.conclude(6 * SECOND + RECONNECT_GRACE);
    host.receive(viewer, &hello(STANDARD_DATAGRAM_SIZE), 50 * SECOND);
    assert_eq!(host.active_peer(), None);
    assert_eq!(host.take_actions(), vec![HostAction::AskUser(viewer)]);
}

fn offer(codec: VideoCodec, datagram_size: u16) -> SessionConfig {
    SessionConfig {
        audio: None,
        video: Some(VideoConfig {
            codec,
            width: 1280,
            height: 720,
            frame_rate: FrameRate {
                numerator: 60,
                denominator: 1,
            },
            bitrate_bps: 6_000_000,
            datagram_size,
        }),
    }
}

fn connected(now: u64) -> Client {
    let mut client = Client::new(now);
    client.prepare(false, now);
    client.receive(&datagram(Packet::Config(b"json")), now);
    client.configure(offer(VideoCodec::H264, 1400));
    client.take_actions();
    client
}

fn send_frame(client: &mut Client, frame_id: u64, is_keyframe: bool, now: u64) {
    let datagrams = packetize(frame_id, frame_id * 1_000, is_keyframe, &[frame_id as u8; 3000], 1400)
        .unwrap();
    for datagram in datagrams {
        client.receive(&datagram, now);
    }
}

#[test]
fn a_client_greets_until_it_is_let_in() {
    let mut client = Client::new(0);
    client.prepare(false, 0);
    assert_eq!(
        client.take_actions(),
        vec![
            ClientAction::Send(hello(STANDARD_DATAGRAM_SIZE)),
            ClientAction::SendOrStop(hello(MAX_DATAGRAM_SIZE)),
        ]
    );
    client.prepare(false, HELLO_INTERVAL - 1);
    assert_eq!(client.take_actions(), vec![]);
    client.prepare(false, HELLO_INTERVAL);
    assert_eq!(client.take_actions().len(), 2);
    client.receive(&datagram(Packet::Config(b"json")), 1);
    assert_eq!(
        client.take_actions(),
        vec![ClientAction::ReadConfig(b"json".to_vec())]
    );
    let mut config = offer(VideoCodec::H264, 8192);
    config.audio = Some(AudioConfig {
        sample_format: "opus_f32".to_owned(),
        sample_rate: 48_000,
        channels: 2,
        buffer_size: BufferSize { min: 0, max: 0 },
    });
    client.configure(config);
    let actions = client.take_actions();
    assert!(matches!(actions[0], ClientAction::StartAudio(_)));
    assert!(actions.contains(&ClientAction::Connected));
    assert!(actions.contains(&ClientAction::TransportConfigured {
        datagram_size: 8192
    }));
    assert!(actions.contains(&ClientAction::VideoConfigured {
        width: 1280,
        height: 720
    }));
    client.audio_device_changed();
    assert!(matches!(
        client.take_actions()[0],
        ClientAction::StartAudio(_)
    ));
}

#[test]
fn a_client_refuses_what_it_cannot_show() {
    for (config, error, text) in [
        (
            SessionConfig {
                audio: None,
                video: None,
            },
            ClientError::NoVideo,
            "Host did not offer a video stream",
        ),
        (
            offer(VideoCodec::Av1, 1400),
            ClientError::UnsupportedCodec(VideoCodec::Av1),
            "Unsupported video codec: Av1",
        ),
        (
            offer(VideoCodec::H264, 1500),
            ClientError::UnsupportedDatagramSize(1500),
            "Host selected unsupported datagram size 1500",
        ),
    ] {
        let mut client = Client::new(0);
        client.receive(&datagram(Packet::Config(b"json")), 0);
        client.take_actions();
        client.configure(config);
        let actions = client.take_actions();
        assert!(actions.contains(&ClientAction::Failed(error)));
        assert_eq!(error.message(), text);
    }
}

#[test]
fn frames_reach_the_decoder_in_order() {
    let mut client = connected(0);
    send_frame(&mut client, 0, true, 1_000);
    send_frame(&mut client, 1, false, 2_000);
    let first = client.pop_frame().unwrap();
    assert_eq!(first.frame.frame_id, 0);
    assert_eq!(first.frame.payload, vec![0; 3000]);
    assert_eq!(first.received_at, 1_000);
    assert_eq!(client.pop_frame().unwrap().frame.frame_id, 1);
    assert!(client.pop_frame().is_none());
    let generation = client.decoder_generation();
    client.prepare(true, 3_000);
    assert_ne!(client.decoder_generation(), generation);
    let request = ClientAction::Send(datagram(Packet::VideoKeyframeRequest));
    assert!(client.take_actions().contains(&request));
    client.prepare(true, 3_000 + KEYFRAME_RETRY_INTERVAL - 1);
    assert!(!client.take_actions().contains(&request));
    client.prepare(true, 3_000 + KEYFRAME_RETRY_INTERVAL);
    assert!(client.take_actions().contains(&request));
}

#[test]
fn after_a_loss_the_decoder_gets_a_keyframe() {
    let mut client = connected(0);
    let mut given = Vec::new();
    let frames = [
        (0, true),
        (1, false),
        (3, false),
        (4, false),
        (5, false),
        (6, true),
        (7, false),
    ];
    for (frame_id, is_keyframe) in frames {
        send_frame(&mut client, frame_id, is_keyframe, 1_000);
        while let Some(received) = client.pop_frame() {
            given.push((received.frame.frame_id, client.decoder_generation()));
        }
    }
    assert_eq!(given, vec![(0, 0), (1, 0), (6, 1), (7, 1)]);
}

#[test]
fn a_silent_host_is_given_up_after_three_seconds() {
    let mut client = connected(0);
    client.conclude(3 * SECOND - 1);
    assert!(!client.take_actions().contains(&ClientAction::Disconnected));
    client.conclude(3 * SECOND);
    assert!(client.take_actions().contains(&ClientAction::Disconnected));
}

#[test]
fn other_packets_are_passed_on() {
    let mut client = connected(0);
    client.receive(
        &datagram(Packet::Audio(AudioFrame {
            sequence: 3,
            timestamp_us: 4,
            payload: b"opus",
        })),
        1,
    );
    let position = CursorPosition {
        x: -4,
        y: 5,
        visible: true,
    };
    client.receive(&datagram(Packet::CursorPosition(position)), 1);
    client.receive(&datagram(Packet::ConnectionRejected(b"no \xff")), 1);
    assert_eq!(
        client.take_actions(),
        vec![
            ClientAction::PlayAudio {
                sequence: 3,
                payload: b"opus".to_vec()
            },
            ClientAction::ShowCursor(position),
            ClientAction::Rejected("no \u{fffd}".to_owned()),
            ClientAction::Stop,
        ]
    );
}

#[test]
fn round_trips_and_silence_are_noticed() {
    let mut client = connected(0);
    client.prepare(false, HEARTBEAT_INTERVAL);
    let ping = client
        .take_actions()
        .into_iter()
        .find_map(|action| match action {
            ClientAction::Send(bytes) | ClientAction::SendOrStop(bytes) => {
                match Packet::try_from(bytes.as_slice()) {
                    Ok(Packet::Ping(id)) => Some(id),
                    _ => None,
                }
            }
            _ => None,
        })
        .unwrap();
    client.receive(
        &datagram(Packet::Pong(ping)),
        HEARTBEAT_INTERVAL + 7_000_000,
    );
    client.conclude(2 * HEARTBEAT_INTERVAL);
    let report = client
        .take_actions()
        .into_iter()
        .find_map(|action| match action {
            ClientAction::ShowStats(report) => Some(report),
            _ => None,
        })
        .unwrap();
    assert_eq!(report.metrics.rtt_us, 7_000);
    client.conclude(HEARTBEAT_INTERVAL + 7_000_000 + CONNECTION_TIMEOUT);
    assert!(client.take_actions().contains(&ClientAction::Disconnected));
    client.prepare(false, 2 * CONNECTION_TIMEOUT);
    assert!(client
        .take_actions()
        .contains(&ClientAction::SendOrStop(hello(MAX_DATAGRAM_SIZE))));
}

#[test]
fn the_window_follows_the_session() {
    let mut panel = Panel::new();
    assert_eq!(panel.status(), "Ready");
    assert_eq!(panel.start_label(), "Connect");
    let mut settings = panel.settings();
    settings.mode = Mode::Host;
    settings.port = 0;
    settings.frames_per_second = 500;
    settings.bitrate_mbps = 0;
    settings.resolution = VideoResolution::P720;
    panel.set(settings);
    assert_eq!(panel.settings().port, 1);
    assert_eq!(panel.settings().frames_per_second, 120);
    assert_eq!(panel.bits_per_second(), 1_000_000);
    assert_eq!(panel.start_label(), "Start server");
    assert_eq!(panel.resolution_label(), "720p");

    panel.refuse_address("nowhere");
    assert_eq!(panel.status(), "Invalid IP address: nowhere");
    panel.started("0.0.0.0:3013", Err("in use".to_owned()));
    assert_eq!(panel.status(), "Unable to start server: in use");
    assert!(!panel.is_active());
    panel.started("0.0.0.0:3013", Ok(()));
    assert!(panel.is_active());
    assert_eq!(panel.status(), "Starting server on 0.0.0.0:3013\u{2026}");
    panel.show(PanelEvent::Listening("0.0.0.0:3013".to_owned()));
    panel.show(PanelEvent::CaptureReady);
    assert_eq!(
        panel.status(),
        "Listening on 0.0.0.0:3013 \u{b7} capture ready"
    );
    let viewer = peer(1, 5000);
    panel.show(PanelEvent::PendingConnection(viewer, "10.0.0.1:5000".to_owned()));
    assert_eq!(panel.status(), "10.0.0.1:5000 wants to connect");
    assert_eq!(panel.pending_peer(), Some(viewer));
    assert_eq!(panel.reject("10.0.0.1:5000"), Some(viewer));
    assert_eq!(panel.status(), "Rejected 10.0.0.1:5000");
    assert_eq!(panel.reject("10.0.0.1:5000"), None);
    panel.show(PanelEvent::Connected("10.0.0.2:1".to_owned()));
    assert_eq!(panel.status(), "Connected to 10.0.0.2:1");
    panel.show(PanelEvent::VideoConfigured(1152, 720));
    assert_eq!(panel.resolution_label(), "1152\u{d7}720");
    panel.show(PanelEvent::VideoBackend("OpenH264".to_owned()));
    panel.show(PanelEvent::AudioBackend("Opus".to_owned()));
    panel.show(PanelEvent::FramesDropped(4));
    assert_eq!(panel.video_backend(), "OpenH264");
    assert_eq!(panel.audio_backend(), "Opus");
    assert_eq!(panel.dropped_frames(), 4);
    panel.show(PanelEvent::AwaitingApproval);
    panel.show(PanelEvent::ConnectionRejected("no".to_owned()));
    assert_eq!(panel.status(), "Connection rejected: no");
    panel.show(PanelEvent::Error("oops".to_owned()));
    assert_eq!(panel.status(), "Error: oops");
    panel.show(PanelEvent::Disconnected("gone".to_owned()));
    assert_eq!(panel.status(), "Disconnected: gone");
    panel.press(false, true);
    assert!(!panel.is_fullscreen());
    panel.press(true, false);
    assert!(panel.is_fullscreen());
    panel.press(false, true);
    assert!(!panel.is_fullscreen());
    panel.stop();
    assert_eq!(panel.status(), "Ready");
    assert_eq!(panel.audio_backend(), "System default output");
}
