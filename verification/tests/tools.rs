use echobind::cli::{ConnectCmd, RecordCmd, DEFAULT_UDP_PORT};
use echobind::config::{
    count_to_channels, format_of_name, host_session, BufferSize, Channels, Config, SampleFormat,
    VideoCodec,
};
use echobind::listen::{DeviceWatch, ListenEvent, Listener, HELLO_INTERVAL, PING_INTERVAL};
use echobind::peer::{IpAddress, PeerAddr};
use echobind::protocol::ClipboardChunk;
use echobind::protocol_v1::Packet;
use echobind::record::{
    AttemptStep, EncodeAttempts, OpusReply, RecordReply, RecordServer, DISCONNECT_TIMEOUT,
};
use echobind::resolution::{round_down_to_even, stream_dimensions, VideoResolution};
use echobind::text::{decimal, same_text};

fn peer(last: u32, port: u16) -> PeerAddr {
    PeerAddr {
        ip: IpAddress::V4(0xc0a8_0000 + last),
        port,
        flow_info: 0,
        scope_id: 0,
    }
}

fn datagram(packet: Packet<'_>) -> Vec<u8> {
    let mut bytes = Vec::new();
    packet.encode(&mut bytes);
    bytes
}

#[test]
fn commands_have_default_ports() {
    assert_eq!(DEFAULT_UDP_PORT, 3013);
    assert_eq!(RecordCmd::default().port, 3013);
    assert!(!RecordCmd::default().clipboard);
    let command = ConnectCmd::to_host([10, 0, 0, 1]);
    assert_eq!((command.dest_port, command.src_port), (3013, 3013));
    assert_eq!(command.ip, [10, 0, 0, 1]);
}

#[test]
fn configs_name_their_format() {
    assert_eq!(format_of_name("i16"), Some(SampleFormat::I16));
    assert_eq!(format_of_name("f64"), Some(SampleFormat::F64));
    assert_eq!(format_of_name("u8"), None);
    let config = Config {
        sample_format: "f32".to_owned(),
        sample_rate: 48_000,
        channels: 2,
        buffer_size: BufferSize { min: 64, max: 4096 },
        video: None,
    };
    let settings = config.stream_settings();
    assert_eq!(settings.sample_format, SampleFormat::F32);
    assert_eq!(settings.buffer_size.max, 4096);
    assert_eq!(count_to_channels(1), Channels::Mono);
    assert_eq!(count_to_channels(2), Channels::Stereo);

    let session = host_session(None, (1280, 720), 60, 6_000_000, true);
    let video = session.video.unwrap();
    assert_eq!(video.codec, VideoCodec::H264);
    assert_eq!(video.datagram_size, 8192);
    assert_eq!((video.frame_rate.numerator, video.frame_rate.denominator), (60, 1));
    let session = host_session(None, (2, 4), 1, 2, false);
    assert_eq!(session.video.unwrap().datagram_size, 1400);
}

#[test]
fn resolutions_are_even() {
    assert_eq!(VideoResolution::P720.dimensions(), Some((1280, 720)));
    assert_eq!(VideoResolution::P1080.dimensions(), Some((1920, 1080)));
    assert_eq!(VideoResolution::Native.dimensions(), None);
    assert_eq!(VideoResolution::P1080.label(), "1080p");
    assert_eq!(round_down_to_even(1367), 1366);
    assert_eq!(
        stream_dimensions(VideoResolution::Native, (1367, 769), (0, 0)),
        Some((1366, 768))
    );
    assert_eq!(
        stream_dimensions(VideoResolution::P720, (1920, 1200), (1152, 720)),
        Some((1152, 720))
    );
    assert_eq!(
        stream_dimensions(VideoResolution::Native, (1, 769), (0, 0)),
        None
    );
}

#[test]
fn numbers_and_texts() {
    assert_eq!(decimal(0), "0");
    assert_eq!(decimal(90_817), "90817");
    assert_eq!(decimal(u64::MAX), "18446744073709551615");
    assert!(same_text("abc", "abc"));
    assert!(!same_text("abc", "abd"));
}

#[test]
fn a_server_greets_one_client_and_no_other() {
    let config = datagram(Packet::Config(b"{}"));
    let mut server = RecordServer::new(b"{}");
    let client = peer(1, 4000);
    let stranger = peer(2, 4000);
    assert_eq!(
        server.receive(&datagram(Packet::Ping(9)), stranger, 0),
        RecordReply::Send(datagram(Packet::Pong(9)))
    );
    assert_eq!(server.receive(b"nonsense", stranger, 0), RecordReply::Invalid);
    assert_eq!(
        server.receive(&datagram(Packet::Audio(b"x")), stranger, 0),
        RecordReply::Nothing
    );
    assert_eq!(server.client(), None);
    assert_eq!(
        server.receive(&datagram(Packet::Hello), client, 0),
        RecordReply::Connect(config.clone())
    );
    assert_eq!(server.client(), Some(client));
    server.attend(1_000_000_000);
    assert_eq!(
        server.receive(&datagram(Packet::Hello), stranger, 2_000_000_000),
        RecordReply::Stranger
    );
    assert!(!server.expire(1_000_000_000 + DISCONNECT_TIMEOUT - 1));
    assert_eq!(
        server.receive(&datagram(Packet::Ping(3)), client, 3_000_000_000),
        RecordReply::Send(datagram(Packet::Pong(3)))
    );
    assert_eq!(
        server.receive(&datagram(Packet::Hello), client, 4_000_000_000),
        RecordReply::Send(config)
    );
    let chunk = ClipboardChunk {
        transfer_id: 5,
        index: 0,
        total: 1,
        payload: b"text",
    };
    assert_eq!(
        server.receive(&datagram(Packet::Clipboard(chunk)), client, 5_000_000_000),
        RecordReply::Clipboard(chunk)
    );
    assert_eq!(server.receive(b"?", client, 6_000_000_000), RecordReply::Invalid);
    assert!(!server.expire(7_999_999_999));
    assert!(server.expire(8_000_000_000));
    assert_eq!(server.client(), None);
    assert!(!server.expire(90_000_000_000));
    server.receive(&datagram(Packet::Hello), stranger, 0);
    server.disconnect();
    assert_eq!(server.client(), None);
}

#[test]
fn frames_are_tried_three_times() {
    let mut attempts = EncodeAttempts::new();
    assert_eq!(attempts.output_bytes, 2048);
    assert_eq!(attempts.step(OpusReply::BufferTooSmall), AttemptStep::Again);
    assert_eq!(attempts.output_bytes, 4096);
    assert_eq!(attempts.step(OpusReply::Failed), AttemptStep::Again);
    assert_eq!(attempts.step(OpusReply::Failed), AttemptStep::Again);
    assert_eq!(attempts.step(OpusReply::Failed), AttemptStep::GiveUp);
    attempts.begin_frame();
    assert_eq!(attempts.step(OpusReply::Failed), AttemptStep::Again);
    assert_eq!(attempts.step(OpusReply::Encoded(70)), AttemptStep::Send(70));
    assert_eq!(attempts.output_bytes, 2048);
}

#[test]
fn a_listener_greets_plays_and_gives_up() {
    let start = 10_000_000_000;
    let mut listener = Listener::new(start);
    assert_eq!(listener.poll(start), Some(datagram(Packet::Hello)));
    assert_eq!(listener.poll(start + HELLO_INTERVAL - 1), None);
    assert_eq!(
        listener.poll(start + HELLO_INTERVAL),
        Some(datagram(Packet::Hello))
    );
    let sound = datagram(Packet::Audio(b"sound"));
    assert_eq!(listener.receive(&sound, start), ListenEvent::Nothing);
    assert_eq!(listener.receive(b"", start), ListenEvent::Invalid);
    let config = datagram(Packet::Config(b"{1}"));
    let heard = start + 1_000_000_000;
    assert_eq!(
        listener.receive(&config, heard),
        ListenEvent::Configure(b"{1}")
    );
    assert_eq!(listener.receive(&config, heard), ListenEvent::Nothing);
    assert_eq!(listener.receive(&sound, heard), ListenEvent::Play(b"sound"));
    assert_eq!(listener.poll(heard), Some(datagram(Packet::Ping(0))));
    assert_eq!(listener.poll(heard + 1), None);
    assert_eq!(
        listener.poll(heard + PING_INTERVAL),
        Some(datagram(Packet::Ping(1)))
    );
    let pong = datagram(Packet::Pong(1));
    assert_eq!(listener.receive(&pong, heard + 5), ListenEvent::Nothing);
    assert!(!listener.server_lost(heard + 4 + DISCONNECT_TIMEOUT));
    assert!(listener.server_lost(heard + 5 + DISCONNECT_TIMEOUT));
}

#[test]
fn another_device_is_noticed() {
    let mut watch = DeviceWatch::new(None);
    assert!(!watch.observe(None));
    assert!(watch.observe(Some("Speakers".to_owned())));
    assert!(!watch.observe(Some("Speakers".to_owned())));
    assert!(!watch.observe(None));
    assert!(watch.observe(Some("Headphones".to_owned())));
    let mut watch = DeviceWatch::new(Some("Speakers".to_owned()));
    assert!(!watch.observe(Some("Speakers".to_owned())));
}
