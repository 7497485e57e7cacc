//! The viewing end of a desktop session.
//!
//! The application reads datagrams and the clock and hands them to a [`Client`],
//! which decides what is sent, shown and played. It asks to be let in until the host
//! answers, keeps the connection alive, and puts the video together: complete frames
//! go to the decoder in the order of their numbers. Where a frame is lost, the frames
//! after it are of no use, and the client asks for a keyframe to start anew.

use crate::clock;
use crate::clock::nanos_since;
use crate::config::{AudioConfig, SessionConfig, VideoCodec, VideoConfig};
use crate::decode_queue;
use crate::decode_queue::{
    DecodeQueue, DecodeQueuePush, DecodeQueueView, ReceivedFrameView, ReceivedVideoFrame,
};
use crate::id_map;
use crate::id_map::IdMap;
use crate::protocol;
use crate::protocol::{
    CursorPosition, Packet, PacketView, ServerStats, VideoFragment, VideoFragmentView,
    JUMBO_DATAGRAM_SIZE, MAX_DATAGRAM_SIZE, STANDARD_DATAGRAM_SIZE,
};
use crate::reassembly;
use crate::reassembly::{ReassemblerView, VideoReassembler};
use crate::text;
use crate::text::decimal;
use crate::video::{VideoFrame, VideoFrameView};
use vstd::prelude::*;
use vstd::utf8;

verus! {

/// After so many nanoseconds without a word the host is taken to be gone.
pub const CONNECTION_TIMEOUT: u64 = 3_000_000_000;

/// How long to wait before asking for a keyframe again.
pub const KEYFRAME_RETRY_INTERVAL: u64 = 500_000_000;

/// How long an unfinished frame waits for its next fragment.
pub const VIDEO_REASSEMBLY_AGE: u64 = 50_000_000;

/// How long to wait before asking to be let in again.
pub const HELLO_INTERVAL: u64 = 400_000_000;

/// How long to wait between two pings.
pub const HEARTBEAT_INTERVAL: u64 = 1_000_000_000;

/// How long to gather statistics.
pub const STATS_INTERVAL: u64 = 1_000_000_000;

/// With so many later frames complete, an earlier one is taken to be lost.
pub const VIDEO_REORDER_WINDOW: usize = 2;

pub const MAX_PENDING_FRAMES: usize = 8;

/// How many unanswered pings are remembered.
pub const PINGS_REMEMBERED: usize = 4;

/// Of how many frames the arrival of the first fragment is remembered.
pub const STARTS_REMEMBERED: usize = 16;

/// What happened since the last report.
#[derive(Clone, Copy, Debug, PartialEq, Eq, Structural)]
pub struct ClientMetrics {
    pub received_bytes: u64,
    pub reassembled_frames: u64,
    pub dropped_frames: u64,
    pub reassembly_us: u64,
    pub reassembly_samples: u64,
    pub jitter_us: u64,
    pub jitter_samples: u64,
    /// The last round trip, which is kept from one report to the next.
    pub rtt_us: u64,
    pub lost_frames: u64,
}

/// What a client measured in the given time.
#[derive(Clone, Copy, Debug, PartialEq, Eq, Structural)]
pub struct ClientReport {
    pub elapsed: u64,
    pub metrics: ClientMetrics,
}

/// Why a client cannot use what the host offers.
#[derive(Clone, Copy, Debug, PartialEq, Eq, Structural)]
pub enum ClientError {
    NoVideo,
    UnsupportedCodec(VideoCodec),
    UnsupportedDatagramSize(u16),
}

impl ClientError {
    pub open spec fn message_text(self) -> Seq<char> {
        match self {
            ClientError::NoVideo => "Host did not offer a video stream"@,
            ClientError::UnsupportedCodec(codec) => "Unsupported video codec: "@ + match codec {
                VideoCodec::H264 => "H264"@,
                VideoCodec::H265 => "H265"@,
                VideoCodec::Av1 => "Av1"@,
            },
            ClientError::UnsupportedDatagramSize(size) => {
                "Host selected unsupported datagram size "@ + text::decimal_text(size as nat)
            },
        }
    }

    /// What to tell the user.
    pub fn message(&self) -> (message: String)
        ensures
            message@ == self.message_text(),
    {
        match self {
            ClientError::NoVideo => "Host did not offer a video stream".to_owned(),
            ClientError::UnsupportedCodec(codec) => {
                let mut message = "Unsupported video codec: ".to_owned();
                message.append(
                    match codec {
                        VideoCodec::H264 => "H264",
                        VideoCodec::H265 => "H265",
                        VideoCodec::Av1 => "Av1",
                    },
                );
                message
            },
            ClientError::UnsupportedDatagramSize(size) => {
                let mut message = "Host selected unsupported datagram size ".to_owned();
                message.append(decimal(*size as u64).as_str());
                message
            },
        }
    }
}

/// What the application has to do.
#[derive(Debug, PartialEq, Eq)]
pub enum ClientAction {
    /// Send a datagram. It does not matter if it cannot be sent.
    Send(Vec<u8>),
    /// Send a datagram, and end the session if it cannot be sent.
    SendOrStop(Vec<u8>),
    /// Read the session config from its JSON text and hand it to the client, or end
    /// the session if it cannot be read.
    ReadConfig(Vec<u8>),
    /// Play audio of this format from now on.
    StartAudio(AudioConfig),
    /// The host has no audio.
    NoAudio,
    /// Play an audio frame.
    PlayAudio { sequence: u32, payload: Vec<u8> },
    /// The host has let the client in.
    Connected,
    /// The host uses datagrams of this size.
    TransportConfigured { datagram_size: usize },
    /// The host sends pictures of this size.
    VideoConfigured { width: u32, height: u32 },
    /// The host has said no, for this reason.
    Rejected(String),
    /// The host does not answer any more; the client tries to get in again.
    Disconnected,
    /// The client cannot use what the host offers.
    Failed(ClientError),
    /// Show where the host's cursor is.
    ShowCursor(CursorPosition),
    /// Show how the host is doing.
    ShowHostStats(ServerStats),
    /// Show how the client is doing.
    ShowStats(ClientReport),
    /// End the session.
    Stop,
}

/// What the application has to do.
#[verifier::ext_equal]
pub enum ClientActionView {
    Send(Seq<u8>),
    SendOrStop(Seq<u8>),
    ReadConfig(Seq<u8>),
    StartAudio(AudioConfig),
    NoAudio,
    PlayAudio { sequence: u32, payload: Seq<u8> },
    Connected,
    TransportConfigured { datagram_size: usize },
    VideoConfigured { width: u32, height: u32 },
    Rejected(Seq<char>),
    Disconnected,
    Failed(ClientError),
    ShowCursor(CursorPosition),
    ShowHostStats(ServerStats),
    ShowStats(ClientReport),
    Stop,
}

impl View for ClientAction {
    type V = ClientActionView;

    open spec fn view(&self) -> ClientActionView {
        match self {
            ClientAction::Send(datagram) => ClientActionView::Send(datagram@),
            ClientAction::SendOrStop(datagram) => ClientActionView::SendOrStop(datagram@),
            ClientAction::ReadConfig(json) => ClientActionView::ReadConfig(json@),
            ClientAction::StartAudio(config) => ClientActionView::StartAudio(*config),
            ClientAction::NoAudio => ClientActionView::NoAudio,
            ClientAction::PlayAudio { sequence, payload } => ClientActionView::PlayAudio {
                sequence: *sequence,
                payload: payload@,
            },
            ClientAction::Connected => ClientActionView::Connected,
            ClientAction::TransportConfigured { datagram_size } => {
                ClientActionView::TransportConfigured { datagram_size: *datagram_size }
            },
            ClientAction::VideoConfigured { width, height } => ClientActionView::VideoConfigured {
                width: *width,
                height: *height,
            },
            ClientAction::Rejected(reason) => ClientActionView::Rejected(reason@),
            ClientAction::Disconnected => ClientActionView::Disconnected,
            ClientAction::Failed(error) => ClientActionView::Failed(*error),
            ClientAction::ShowCursor(position) => ClientActionView::ShowCursor(*position),
            ClientAction::ShowHostStats(stats) => ClientActionView::ShowHostStats(*stats),
            ClientAction::ShowStats(report) => ClientActionView::ShowStats(*report),
            ClientAction::Stop => ClientActionView::Stop,
        }
    }
}

/// What actions hold.
pub open spec fn action_views(actions: Seq<ClientAction>) -> Seq<ClientActionView> {
    actions.map_values(|action: ClientAction| action@)
}

/// Everything that a client knows.
#[verifier::ext_equal]
pub struct ClientView {
    /// What the application still has to do.
    pub actions: Seq<ClientActionView>,
    /// The frames that wait for the decoder.
    pub queue: DecodeQueueView,
    pub reassembler: ReassemblerView,
    /// The host has let the client in.
    pub accepted: bool,
    pub last_hello: Option<u64>,
    pub last_ping: Option<u64>,
    pub last_server_response: u64,
    pub last_keyframe_request: Option<u64>,
    pub ping_id: u64,
    /// The frame that the decoder needs next.
    pub next_frame_id: Option<u64>,
    /// Complete frames that an earlier frame is missing for.
    pub completed_frames: Map<u64, ReceivedFrameView>,
    /// When the first fragment of a frame came.
    pub reassembly_started: Map<u64, u64>,
    /// When a ping was sent.
    pub ping_sent: Map<u64, u64>,
    /// When the last frame was complete, and its timestamp.
    pub last_frame_arrival: Option<(u64, u64)>,
    pub negotiated_datagram_size: usize,
    pub waiting_for_keyframe: bool,
    pub audio_config: Option<AudioConfig>,
    pub audio_configured: bool,
    pub metrics: ClientMetrics,
    pub stats_started: u64,
}

pub struct Client {
    actions: Vec<ClientAction>,
    queue: DecodeQueue,
    reassembler: VideoReassembler,
    accepted: bool,
    last_hello: Option<u64>,
    last_ping: Option<u64>,
    last_server_response: u64,
    last_keyframe_request: Option<u64>,
    ping_id: u64,
    next_frame_id: Option<u64>,
    completed_frames: IdMap<ReceivedVideoFrame>,
    reassembly_started: IdMap<u64>,
    ping_sent: IdMap<u64>,
    last_frame_arrival: Option<(u64, u64)>,
    negotiated_datagram_size: usize,
    waiting_for_keyframe: bool,
    audio_config: Option<AudioConfig>,
    audio_configured: bool,
    metrics: ClientMetrics,
    stats_started: u64,
}

impl View for Client {
    type V = ClientView;

    closed spec fn view(&self) -> ClientView {
        ClientView {
            actions: action_views(self.actions@),
            queue: self.queue@,
            reassembler: self.reassembler@,
            accepted: self.accepted,
            last_hello: self.last_hello,
            last_ping: self.last_ping,
            last_server_response: self.last_server_response,
            last_keyframe_request: self.last_keyframe_request,
            ping_id: self.ping_id,
            next_frame_id: self.next_frame_id,
            completed_frames: self.completed_frames@,
            reassembly_started: self.reassembly_started@,
            ping_sent: self.ping_sent@,
            last_frame_arrival: self.last_frame_arrival,
            negotiated_datagram_size: self.negotiated_datagram_size,
            waiting_for_keyframe: self.waiting_for_keyframe,
            audio_config: self.audio_config,
            audio_configured: self.audio_configured,
            metrics: self.metrics,
            stats_started: self.stats_started,
        }
    }
}

pub open spec fn no_metrics() -> ClientMetrics {
    ClientMetrics {
        received_bytes: 0,
        reassembled_frames: 0,
        dropped_frames: 0,
        reassembly_us: 0,
        reassembly_samples: 0,
        jitter_us: 0,
        jitter_samples: 0,
        rtt_us: 0,
        lost_frames: 0,
    }
}

/// The reassembler of a client that has received nothing.
pub open spec fn empty_reassembler() -> ReassemblerView {
    ReassemblerView {
        frames: Map::empty(),
        completed: Seq::empty(),
        max_pending_frames: MAX_PENDING_FRAMES,
        max_age: VIDEO_REASSEMBLY_AGE as u128,
    }
}

/// A client that starts when the clock shows `now`.
pub open spec fn new_client(now: u64) -> ClientView {
    ClientView {
        actions: Seq::empty(),
        queue: DecodeQueueView { frames: Seq::empty(), waiting_for_keyframe: false, generation: 0 },
        reassembler: empty_reassembler(),
        accepted: false,
        last_hello: None,
        last_ping: None,
        last_server_response: now,
        last_keyframe_request: None,
        ping_id: 0,
        next_frame_id: None,
        completed_frames: Map::empty(),
        reassembly_started: Map::empty(),
        ping_sent: Map::empty(),
        last_frame_arrival: None,
        negotiated_datagram_size: STANDARD_DATAGRAM_SIZE,
        waiting_for_keyframe: true,
        audio_config: None,
        audio_configured: false,
        metrics: no_metrics(),
        stats_started: now,
    }
}

/// The interval since `last` is over, or there was no last time.
pub open spec fn due(now: u64, last: Option<u64>, interval: u64) -> bool {
    match last {
        Some(last) => clock::age(now, last) >= interval,
        None => true,
    }
}

/// Nanoseconds as whole microseconds.
pub open spec fn micros(nanos: int) -> u64 {
    (nanos / 1000) as u64
}

/// The client with one more thing to do.
pub open spec fn acting(c: ClientView, action: ClientActionView) -> ClientView {
    ClientView { actions: c.actions.push(action), ..c }
}

/// Frames were dropped, and some of them were lost on the way.
pub open spec fn counted(c: ClientView, dropped: u64, lost: u64) -> ClientView {
    ClientView {
        metrics: ClientMetrics {
            dropped_frames: c.metrics.dropped_frames.wrapping_add(dropped),
            lost_frames: c.metrics.lost_frames.wrapping_add(lost),
            ..c.metrics
        },
        ..c
    }
}

/// The chain of frames is broken: only a keyframe can start a new one.
pub open spec fn chain_broken(c: ClientView) -> ClientView {
    ClientView {
        completed_frames: Map::empty(),
        next_frame_id: None,
        waiting_for_keyframe: true,
        ..c
    }
}

/// The chain of frames is broken, and the decoder has to start anew.
pub open spec fn resynced(c: ClientView) -> ClientView {
    chain_broken(ClientView { queue: decode_queue::emptied(c.queue), ..c })
}

/// The client asks for a keyframe, unless it has just done so.
pub open spec fn keyframe_asked(c: ClientView, now: u64) -> ClientView {
    if due(now, c.last_keyframe_request, KEYFRAME_RETRY_INTERVAL) {
        acting(
            ClientView { last_keyframe_request: Some(now), ..c },
            ClientActionView::Send(protocol::encode_packet(PacketView::VideoKeyframeRequest)),
        )
    } else {
        c
    }
}

/// Frames whose fragments do not come are given up.
pub open spec fn stale_given_up(c: ClientView, now: u64) -> ClientView {
    let reassembler = reassembly::expired(c.reassembler, now);
    let count = (c.reassembler.frames.len() - reassembler.frames.len()) as u64;
    let d = ClientView { reassembler, ..c };
    if count > 0 {
        let e = resynced(
            counted(
                ClientView {
                    reassembly_started: id_map::recent::<u64>(
                        c.reassembly_started,
                        now,
                        VIDEO_REASSEMBLY_AGE as u128,
                    ),
                    ..d
                },
                count,
                count,
            ),
        );
        if c.accepted {
            keyframe_asked(e, now)
        } else {
            e
        }
    } else {
        d
    }
}

/// The decoder could not go on.
pub open spec fn decoder_restarted(c: ClientView, now: u64) -> ClientView {
    if c.accepted {
        keyframe_asked(resynced(c), now)
    } else {
        resynced(c)
    }
}

/// The client asks to be let in, unless it has just done so. Hosts that know only
/// standard datagrams understand the first of the two packets.
pub open spec fn greeted(c: ClientView, now: u64) -> ClientView {
    if !c.accepted && due(now, c.last_hello, HELLO_INTERVAL) {
        acting(
            acting(
                ClientView { last_hello: Some(now), ..c },
                ClientActionView::Send(
                    protocol::encode_packet(
                        PacketView::Hello { max_datagram_size: STANDARD_DATAGRAM_SIZE as u16 },
                    ),
                ),
            ),
            ClientActionView::SendOrStop(
                protocol::encode_packet(
                    PacketView::Hello { max_datagram_size: MAX_DATAGRAM_SIZE as u16 },
                ),
            ),
        )
    } else {
        c
    }
}

/// The client keeps the connection alive.
pub open spec fn pinged(c: ClientView, now: u64) -> ClientView {
    if c.accepted && due(now, c.last_ping, HEARTBEAT_INTERVAL) {
        acting(
            ClientView {
                ping_sent: id_map::capped(
                    c.ping_sent.insert(c.ping_id, now),
                    PINGS_REMEMBERED as nat,
                ),
                ping_id: c.ping_id.wrapping_add(1),
                last_ping: Some(now),
                ..c
            },
            ClientActionView::Send(protocol::encode_packet(PacketView::Ping(c.ping_id))),
        )
    } else {
        c
    }
}

/// What a client does before it waits for a datagram.
pub open spec fn prepared(c: ClientView, decoder_needs_keyframe: bool, now: u64) -> ClientView {
    let d = stale_given_up(c, now);
    let e = if decoder_needs_keyframe {
        decoder_restarted(d, now)
    } else {
        d
    };
    pinged(greeted(e, now), now)
}

/// How long a frame took to arrive is measured.
pub open spec fn arrival_timed(c: ClientView, frame: VideoFrameView, now: u64) -> ClientView {
    let id = frame.frame_id;
    let known = c.reassembly_started.contains_key(id);
    let took = micros(clock::age(now, c.reassembly_started[id]));
    ClientView {
        reassembly_started: c.reassembly_started.remove(id),
        metrics: ClientMetrics {
            reassembly_us: if known {
                c.metrics.reassembly_us.wrapping_add(took)
            } else {
                c.metrics.reassembly_us
            },
            reassembly_samples: if known {
                c.metrics.reassembly_samples.wrapping_add(1)
            } else {
                c.metrics.reassembly_samples
            },
            reassembled_frames: c.metrics.reassembled_frames.wrapping_add(1),
            ..c.metrics
        },
        ..c
    }
}

/// The distance between two numbers.
pub open spec fn distance(a: u64, b: u64) -> u64 {
    if a >= b {
        (a - b) as u64
    } else {
        (b - a) as u64
    }
}

/// How far the time between two frames is from that between their timestamps is
/// measured. Frames that are overtaken are left out.
pub open spec fn jitter_measured(c: ClientView, frame: VideoFrameView, now: u64) -> ClientView {
    match c.last_frame_arrival {
        None => ClientView { last_frame_arrival: Some((now, frame.timestamp_us)), ..c },
        Some((arrival, timestamp)) => if frame.timestamp_us > timestamp {
            let jitter = distance(
                micros(clock::age(now, arrival)),
                (frame.timestamp_us - timestamp) as u64,
            );
            ClientView {
                last_frame_arrival: Some((now, frame.timestamp_us)),
                metrics: ClientMetrics {
                    jitter_us: c.metrics.jitter_us.wrapping_add(jitter),
                    jitter_samples: c.metrics.jitter_samples.wrapping_add(1),
                    ..c.metrics
                },
                ..c
            }
        } else {
            c
        },
    }
}

/// A keyframe starts a new chain of frames.
pub open spec fn anchored(c: ClientView, frame: VideoFrameView) -> ClientView {
    if frame.is_keyframe && c.next_frame_id != Some(frame.frame_id) {
        ClientView {
            completed_frames: Map::empty(),
            next_frame_id: Some(frame.frame_id),
            waiting_for_keyframe: false,
            ..c
        }
    } else if c.waiting_for_keyframe {
        ClientView { next_frame_id: Some(frame.frame_id), waiting_for_keyframe: false, ..c }
    } else {
        c
    }
}

/// How many frames are missing up to the newest complete one, at least one.
pub open spec fn frames_missing(expected: u64, newest: u64, complete: nat) -> u64 {
    let span = if newest >= expected {
        newest - expected + 1
    } else {
        1
    };
    let bounded = if span > u64::MAX {
        u64::MAX as int
    } else {
        span
    };
    if bounded - complete > 1 {
        (bounded - complete) as u64
    } else {
        1
    }
}

/// The sum of two numbers, or the largest number that there is.
pub open spec fn capped_sum(a: u64, b: int) -> u64 {
    if a + b > u64::MAX {
        u64::MAX
    } else {
        (a + b) as u64
    }
}

/// When enough later frames are complete, the frame that is needed is taken to be lost.
pub open spec fn gap_noticed(c: ClientView) -> ClientView {
    match c.next_frame_id {
        None => c,
        Some(expected) => if !c.completed_frames.contains_key(expected) && c.completed_frames.len()
            >= VIDEO_REORDER_WINDOW {
            let missing = frames_missing(
                expected,
                id_map::largest(c.completed_frames),
                c.completed_frames.len(),
            );
            let unusable = capped_sum(missing, c.completed_frames.len() as int);
            resynced(counted(c, unusable, missing))
        } else {
            c
        },
    }
}

/// Frames go to the decoder as long as the next one is there.
pub open spec fn handed_over(c: ClientView, now: u64) -> ClientView
    decreases c.completed_frames.len(),
{
    match c.next_frame_id {
        None => c,
        Some(expected) => if c.completed_frames.dom().finite() && c.completed_frames.contains_key(
            expected,
        ) {
            let (queue, outcome) = decode_queue::offered(
                c.queue,
                c.completed_frames[expected],
                now,
            );
            let d = ClientView {
                queue,
                completed_frames: c.completed_frames.remove(expected),
                ..c
            };
            if outcome == DecodeQueuePush::Queued {
                handed_over(
                    ClientView { next_frame_id: Some(expected.wrapping_add(1)), ..d },
                    now,
                )
            } else {
                chain_broken(counted(d, 1, 0))
            }
        } else {
            c
        },
    }
}

/// A complete frame takes its place in the chain.
pub open spec fn ordered(c: ClientView, frame: VideoFrameView, now: u64) -> ClientView {
    let d = anchored(c, frame);
    let overtaken = match d.next_frame_id {
        Some(next) => frame.frame_id < next,
        None => false,
    };
    if overtaken {
        counted(d, 1, 0)
    } else {
        let e = handed_over(
            gap_noticed(
                ClientView {
                    completed_frames: id_map::with_default(
                        d.completed_frames,
                        frame.frame_id,
                        ReceivedFrameView { frame, received_at: now },
                    ),
                    ..d
                },
            ),
            now,
        );
        if e.waiting_for_keyframe {
            keyframe_asked(e, now)
        } else {
            e
        }
    }
}

/// A frame is complete.
pub open spec fn frame_received(c: ClientView, frame: VideoFrameView, now: u64) -> ClientView {
    let d = jitter_measured(arrival_timed(c, frame, now), frame, now);
    if d.waiting_for_keyframe && !frame.is_keyframe {
        keyframe_asked(counted(d, 1, 0), now)
    } else {
        ordered(d, frame, now)
    }
}

/// A fragment arrives in a datagram of the given size.
pub open spec fn fragment_received(
    c: ClientView,
    fragment: VideoFragmentView,
    size: nat,
    now: u64,
) -> ClientView {
    if size > c.negotiated_datagram_size {
        counted(c, 1, 1)
    } else {
        let started = id_map::capped(
            id_map::with_default(c.reassembly_started, fragment.frame_id, now),
            STARTS_REMEMBERED as nat,
        );
        let (reassembler, outcome) = reassembly::pushed(c.reassembler, fragment, now);
        let d = ClientView { reassembler, reassembly_started: started, ..c };
        match outcome {
            Ok(Some(frame)) => frame_received(d, frame, now),
            Ok(None) => d,
            Err(_) => keyframe_asked(
                resynced(
                    counted(
                        ClientView {
                            reassembly_started: started.remove(fragment.frame_id),
                            ..d
                        },
                        1,
                        1,
                    ),
                ),
                now,
            ),
        }
    }
}

/// The answer to a ping arrives.
pub open spec fn pong_received(c: ClientView, id: u64, now: u64) -> ClientView {
    ClientView {
        ping_sent: c.ping_sent.remove(id),
        metrics: if c.ping_sent.contains_key(id) {
            ClientMetrics { rtt_us: micros(clock::age(now, c.ping_sent[id])), ..c.metrics }
        } else {
            c.metrics
        },
        ..c
    }
}

/// What `String::from_utf8_lossy` makes of bytes that are not UTF-8.
pub uninterp spec fn lossy_utf8(bytes: Seq<u8>) -> Seq<char>;

/// The text that bytes are shown as.
pub open spec fn shown_text(bytes: Seq<u8>) -> Seq<char> {
    if utf8::valid_utf8(bytes) {
        utf8::decode_utf8(bytes)
    } else {
        lossy_utf8(bytes)
    }
}

/// `String::from_utf8_lossy` reads bytes as a text, whatever they are. Of bytes that are
/// UTF-8 it makes the text that they spell; for what it makes of others the name
/// `lossy_utf8` stands.
#[verifier::external_body]
fn lossy_text(bytes: &[u8]) -> (text: String)
    ensures
        text@ == if utf8::valid_utf8(bytes@) {
            utf8::decode_utf8(bytes@)
        } else {
            lossy_utf8(bytes@)
        },
{
    String::from_utf8_lossy(bytes).into_owned()
}

/// A packet arrives in a datagram of the given size.
pub open spec fn packet_received(c: ClientView, packet: PacketView, size: nat, now: u64) -> ClientView {
    match packet {
        PacketView::Config(json) => acting(c, ClientActionView::ReadConfig(json)),
        PacketView::ConnectionRejected(reason) => acting(
            acting(c, ClientActionView::Rejected(shown_text(reason))),
            ClientActionView::Stop,
        ),
        PacketView::Pong(id) => pong_received(c, id, now),
        PacketView::Ping(id) => acting(
            c,
            ClientActionView::Send(protocol::encode_packet(PacketView::Pong(id))),
        ),
        PacketView::Audio(frame) => if c.accepted {
            acting(
                c,
                ClientActionView::PlayAudio { sequence: frame.sequence, payload: frame.payload },
            )
        } else {
            c
        },
        PacketView::Video(fragment) => if c.accepted {
            fragment_received(c, fragment, size, now)
        } else {
            c
        },
        PacketView::CursorPosition(position) => if c.accepted {
            acting(c, ClientActionView::ShowCursor(position))
        } else {
            c
        },
        PacketView::ServerStats(stats) => if c.accepted {
            acting(c, ClientActionView::ShowHostStats(stats))
        } else {
            c
        },
        PacketView::Hello { .. } => c,
        PacketView::Clipboard(_) => c,
        PacketView::VideoKeyframeRequest => c,
    }
}

/// A datagram arrives. What is not a packet is ignored.
pub open spec fn datagram_received(c: ClientView, data: Seq<u8>, now: u64) -> ClientView {
    let d = ClientView {
        metrics: ClientMetrics {
            received_bytes: c.metrics.received_bytes.wrapping_add(data.len() as u64),
            ..c.metrics
        },
        ..c
    };
    match protocol::parsed_packet(data) {
        Ok(packet) => packet_received(
            ClientView { last_server_response: now, ..d },
            packet,
            data.len(),
            now,
        ),
        Err(_) => d,
    }
}

/// The audio that a host offers first is the audio that is played.
pub open spec fn audio_offered(c: ClientView, audio: Option<AudioConfig>) -> ClientView {
    if c.audio_configured {
        c
    } else {
        acting(
            ClientView { audio_configured: true, audio_config: audio, ..c },
            match audio {
                Some(config) => ClientActionView::StartAudio(config),
                None => ClientActionView::NoAudio,
            },
        )
    }
}

/// The video that a host offers can be used.
pub open spec fn video_offer_error(video: Option<VideoConfig>) -> Option<ClientError> {
    match video {
        None => Some(ClientError::NoVideo),
        Some(video) => if video.codec != VideoCodec::H264 {
            Some(ClientError::UnsupportedCodec(video.codec))
        } else if video.datagram_size != STANDARD_DATAGRAM_SIZE && video.datagram_size
            != JUMBO_DATAGRAM_SIZE {
            Some(ClientError::UnsupportedDatagramSize(video.datagram_size))
        } else {
            None
        },
    }
}

/// The host offers its streams.
pub open spec fn config_received(c: ClientView, config: SessionConfig) -> ClientView {
    let d = audio_offered(c, config.audio);
    match video_offer_error(config.video) {
        Some(error) => acting(
            acting(d, ClientActionView::Failed(error)),
            ClientActionView::Stop,
        ),
        None => {
            let video = config.video->0;
            let e = acting(
                acting(
                    ClientView { negotiated_datagram_size: video.datagram_size as usize, ..d },
                    ClientActionView::TransportConfigured {
                        datagram_size: video.datagram_size as usize,
                    },
                ),
                ClientActionView::VideoConfigured { width: video.width, height: video.height },
            );
            if c.accepted {
                e
            } else {
                acting(
                    acting(ClientView { accepted: true, ..e }, ClientActionView::Connected),
                    ClientActionView::Send(
                        protocol::encode_packet(PacketView::VideoKeyframeRequest),
                    ),
                )
            }
        },
    }
}

/// A host that does not answer is given up, and asked again to be let in.
pub open spec fn silence_noticed(c: ClientView, now: u64) -> ClientView {
    if c.accepted && clock::age(now, c.last_server_response) >= CONNECTION_TIMEOUT {
        resynced(
            acting(
                ClientView {
                    accepted: false,
                    reassembler: empty_reassembler(),
                    reassembly_started: Map::empty(),
                    last_hello: None,
                    last_server_response: now,
                    ..c
                },
                ClientActionView::Disconnected,
            ),
        )
    } else {
        c
    }
}

/// Once a second the measurements are shown.
pub open spec fn measurements_shown(c: ClientView, now: u64) -> ClientView {
    let elapsed = clock::age(now, c.stats_started);
    if elapsed >= STATS_INTERVAL {
        acting(
            ClientView {
                metrics: ClientMetrics { rtt_us: c.metrics.rtt_us, ..no_metrics() },
                stats_started: now,
                ..c
            },
            ClientActionView::ShowStats(
                ClientReport { elapsed: elapsed as u64, metrics: c.metrics },
            ),
        )
    } else {
        c
    }
}

/// What a client does after it has waited for a datagram.
pub open spec fn concluded(c: ClientView, now: u64) -> ClientView {
    measurements_shown(silence_noticed(c, now), now)
}

fn is_due(now: u64, last: Option<u64>, interval: u64) -> (due: bool)
    ensures
        due == self::due(now, last, interval),
{
    match last {
        Some(last) => nanos_since(now, last) >= interval,
        None => true,
    }
}

fn encoded(packet: &Packet<'_>) -> (datagram: Vec<u8>)
    ensures
        datagram@ == protocol::encode_packet(packet@),
{
    let mut datagram: Vec<u8> = Vec::new();
    packet.encode(&mut datagram);
    datagram
}

impl Client {
    /// A client that starts when the clock shows `now`.
    pub fn new(now: u64) -> (client: Self)
        ensures
            client@ == new_client(now),
    {
        let client = Client {
            actions: Vec::new(),
            queue: DecodeQueue::new(),
            reassembler: VideoReassembler::with_age(
                MAX_PENDING_FRAMES,
                VIDEO_REASSEMBLY_AGE as u128,
            ),
            accepted: false,
            last_hello: None,
            last_ping: None,
            last_server_response: now,
            last_keyframe_request: None,
            ping_id: 0,
            next_frame_id: None,
            completed_frames: IdMap::new(),
            reassembly_started: IdMap::new(),
            ping_sent: IdMap::new(),
            last_frame_arrival: None,
            negotiated_datagram_size: STANDARD_DATAGRAM_SIZE,
            waiting_for_keyframe: true,
            audio_config: None,
            audio_configured: false,
            metrics: ClientMetrics {
                received_bytes: 0,
                reassembled_frames: 0,
                dropped_frames: 0,
                reassembly_us: 0,
                reassembly_samples: 0,
                jitter_us: 0,
                jitter_samples: 0,
                rtt_us: 0,
                lost_frames: 0,
            },
            stats_started: now,
        };
        assert(client@ =~= new_client(now));
        client
    }

    /// Takes over what there is to do, in the order in which it is to be done.
    pub fn take_actions(&mut self) -> (actions: Vec<ClientAction>)
        ensures
            action_views(actions@) == old(self)@.actions,
            final(self)@ == (ClientView { actions: Seq::empty(), ..old(self)@ }),
    {
        let mut actions: Vec<ClientAction> = Vec::new();
        std::mem::swap(&mut actions, &mut self.actions);
        assert(action_views(self.actions@) =~= Seq::empty());
        actions
    }

    /// Takes the frame that has waited longest for the decoder.
    pub fn pop_frame(&mut self) -> (frame: Option<ReceivedVideoFrame>)
        ensures
            match frame {
                Some(frame) => {
                    &&& old(self)@.queue.frames.len() > 0
                    &&& frame@ == old(self)@.queue.frames[0]
                    &&& final(self)@ == (ClientView {
                        queue: DecodeQueueView {
                            frames: old(self)@.queue.frames.skip(1),
                            ..old(self)@.queue
                        },
                        ..old(self)@
                    })
                },
                None => old(self)@.queue.frames.len() == 0 && final(self)@ == old(self)@,
            },
    {
        self.queue.pop()
    }

    /// Changes whenever the decoder has to start anew.
    pub fn decoder_generation(&self) -> (generation: u64)
        ensures
            generation == self@.queue.generation,
    {
        self.queue.generation()
    }

    /// The audio that was playing has to start anew, on another device.
    pub fn audio_device_changed(&mut self)
        ensures
            final(self)@ == match old(self)@.audio_config {
                Some(config) => acting(old(self)@, ClientActionView::StartAudio(config)),
                None => old(self)@,
            },
    {
        match &self.audio_config {
            Some(config) => {
                let config = config.clone();
                self.act(ClientAction::StartAudio(config));
            },
            None => {},
        }
    }

    fn act(&mut self, action: ClientAction)
        ensures
            final(self)@ == acting(old(self)@, action@),
    {
        let ghost before = self.actions@;
        self.actions.push(action);
        assert(action_views(self.actions@) =~= action_views(before).push(action@));
    }

    fn count(&mut self, dropped: u64, lost: u64)
        ensures
            final(self)@ == counted(old(self)@, dropped, lost),
    {
        self.metrics.dropped_frames = self.metrics.dropped_frames.wrapping_add(dropped);
        self.metrics.lost_frames = self.metrics.lost_frames.wrapping_add(lost);
    }

    fn break_chain(&mut self)
        ensures
            final(self)@ == chain_broken(old(self)@),
    {
        self.completed_frames.clear();
        self.next_frame_id = None;
        self.waiting_for_keyframe = true;
    }

    fn resync(&mut self)
        ensures
            final(self)@ == resynced(old(self)@),
    {
        self.queue.require_keyframe();
        self.break_chain();
    }

    fn ask_for_keyframe(&mut self, now: u64)
        ensures
            final(self)@ == keyframe_asked(old(self)@, now),
    {
        if is_due(now, self.last_keyframe_request, KEYFRAME_RETRY_INTERVAL) {
            self.last_keyframe_request = Some(now);
            self.act(ClientAction::Send(encoded(&Packet::VideoKeyframeRequest)));
        }
    }

    fn give_up_stale(&mut self, now: u64)
        ensures
            final(self)@ == stale_given_up(old(self)@, now),
    {
        let expired: usize = self.reassembler.expire_stale_at(now);
        let count: u64 = expired as u64;
        if count > 0 {
            self.count(count, count);
            let _ = self.reassembly_started.retain_recent(now, VIDEO_REASSEMBLY_AGE as u128);
            self.resync();
            if self.accepted {
                self.ask_for_keyframe(now);
            }
        }
    }

    fn greet(&mut self, now: u64)
        ensures
            final(self)@ == greeted(old(self)@, now),
    {
        if !self.accepted && is_due(now, self.last_hello, HELLO_INTERVAL) {
            self.last_hello = Some(now);
            let standard = encoded(
                &Packet::Hello { max_datagram_size: STANDARD_DATAGRAM_SIZE as u16 },
            );
            let largest = encoded(&Packet::Hello { max_datagram_size: MAX_DATAGRAM_SIZE as u16 });
            self.act(ClientAction::Send(standard));
            self.act(ClientAction::SendOrStop(largest));
        }
    }

    fn ping(&mut self, now: u64)
        ensures
            final(self)@ == pinged(old(self)@, now),
    {
        if self.accepted && is_due(now, self.last_ping, HEARTBEAT_INTERVAL) {
            let id: u64 = self.ping_id;
            self.ping_sent.insert(id, now);
            self.ping_sent.cap(PINGS_REMEMBERED);
            self.ping_id = id.wrapping_add(1);
            self.last_ping = Some(now);
            self.act(ClientAction::Send(encoded(&Packet::Ping(id))));
        }
    }

    /// What there is to do before waiting for a datagram. `decoder_needs_keyframe`
    /// says whether the decoder could not go on since the last time.
    pub fn prepare(&mut self, decoder_needs_keyframe: bool, now: u64)
        ensures
            final(self)@ == prepared(old(self)@, decoder_needs_keyframe, now),
    {
        self.give_up_stale(now);
        if decoder_needs_keyframe {
            self.resync();
            if self.accepted {
                self.ask_for_keyframe(now);
            }
        }
        self.greet(now);
        self.ping(now);
    }
}

impl Client {
    fn time_arrival(&mut self, frame: &VideoFrame, now: u64)
        ensures
            final(self)@ == arrival_timed(old(self)@, frame@, now),
    {
        match self.reassembly_started.remove(frame.frame_id) {
            Some(started) => {
                let took: u64 = nanos_since(now, started) / 1000;
                self.metrics.reassembly_us = self.metrics.reassembly_us.wrapping_add(took);
                self.metrics.reassembly_samples = self.metrics.reassembly_samples.wrapping_add(1);
            },
            None => {},
        }
        self.metrics.reassembled_frames = self.metrics.reassembled_frames.wrapping_add(1);
    }

    fn measure_jitter(&mut self, frame: &VideoFrame, now: u64)
        ensures
            final(self)@ == jitter_measured(old(self)@, frame@, now),
    {
        match self.last_frame_arrival {
            None => {
                self.last_frame_arrival = Some((now, frame.timestamp_us));
            },
            Some((arrival, timestamp)) => {
                if frame.timestamp_us > timestamp {
                    let arrival_delta: u64 = nanos_since(now, arrival) / 1000;
                    let source_delta: u64 = frame.timestamp_us - timestamp;
                    let jitter: u64 = if arrival_delta >= source_delta {
                        arrival_delta - source_delta
                    } else {
                        source_delta - arrival_delta
                    };
                    self.metrics.jitter_us = self.metrics.jitter_us.wrapping_add(jitter);
                    self.metrics.jitter_samples = self.metrics.jitter_samples.wrapping_add(1);
                    self.last_frame_arrival = Some((now, frame.timestamp_us));
                }
            },
        }
    }

    fn anchor(&mut self, frame: &VideoFrame)
        ensures
            final(self)@ == anchored(old(self)@, frame@),
    {
        let is_next = match self.next_frame_id {
            Some(next) => next == frame.frame_id,
            None => false,
        };
        if frame.is_keyframe && !is_next {
            self.completed_frames.clear();
            self.next_frame_id = Some(frame.frame_id);
            self.waiting_for_keyframe = false;
        } else if self.waiting_for_keyframe {
            self.next_frame_id = Some(frame.frame_id);
            self.waiting_for_keyframe = false;
        }
    }

    fn notice_gap(&mut self)
        ensures
            final(self)@ == gap_noticed(old(self)@),
    {
        let expected: u64 = match self.next_frame_id {
            Some(expected) => expected,
            None => return,
        };
        let complete: usize = self.completed_frames.len();
        if !self.completed_frames.contains(expected) && complete >= VIDEO_REORDER_WINDOW {
            let newest: u64 = self.completed_frames.largest_id();
            let span: u64 = newest.saturating_sub(expected).saturating_add(1);
            let apart: u64 = span.saturating_sub(complete as u64);
            let missing: u64 = if apart > 1 {
                apart
            } else {
                1
            };
            let unusable: u64 = missing.saturating_add(complete as u64);
            self.count(unusable, missing);
            self.resync();
        }
    }

    fn hand_over(&mut self, now: u64)
        ensures
            final(self)@ == handed_over(old(self)@, now),
    {
        loop
            invariant
                handed_over(self@, now) == handed_over(old(self)@, now),
            ensures
                self@ == handed_over(old(self)@, now),
            decreases self.completed_frames@.len(),
        {
            let ghost before = self@;
            let expected: u64 = match self.next_frame_id {
                Some(expected) => expected,
                None => break,
            };
            let frame = match self.completed_frames.remove(expected) {
                Some(frame) => frame,
                None => {
                    assert(self@ =~= before);
                    break;
                },
            };
            match self.queue.push(frame, now) {
                DecodeQueuePush::Queued => {
                    self.next_frame_id = Some(expected.wrapping_add(1));
                },
                _ => {
                    self.count(1, 0);
                    self.break_chain();
                    break;
                },
            }
        }
    }

    fn order(&mut self, frame: VideoFrame, now: u64)
        ensures
            final(self)@ == ordered(old(self)@, frame@, now),
    {
        self.anchor(&frame);
        let frame_id: u64 = frame.frame_id;
        let overtaken = match self.next_frame_id {
            Some(next) => frame_id < next,
            None => false,
        };
        if overtaken {
            self.count(1, 0);
            return;
        }
        self.completed_frames.insert_if_absent(
            frame_id,
            ReceivedVideoFrame { frame, received_at: now },
        );
        self.notice_gap();
        self.hand_over(now);
        if self.waiting_for_keyframe {
            self.ask_for_keyframe(now);
        }
    }

    fn receive_frame(&mut self, frame: VideoFrame, now: u64)
        ensures
            final(self)@ == frame_received(old(self)@, frame@, now),
    {
        self.time_arrival(&frame, now);
        self.measure_jitter(&frame, now);
        if self.waiting_for_keyframe && !frame.is_keyframe {
            self.count(1, 0);
            self.ask_for_keyframe(now);
        } else {
            self.order(frame, now);
        }
    }

    fn receive_fragment(&mut self, fragment: VideoFragment<'_>, size: usize, now: u64)
        ensures
            final(self)@ == fragment_received(old(self)@, fragment@, size as nat, now),
    {
        if size > self.negotiated_datagram_size {
            self.count(1, 1);
            return;
        }
        let frame_id: u64 = fragment.frame_id;
        self.reassembly_started.insert_if_absent(frame_id, now);
        self.reassembly_started.cap(STARTS_REMEMBERED);
        match self.reassembler.push_at(fragment, now) {
            Ok(Some(frame)) => {
                self.receive_frame(frame, now);
            },
            Ok(None) => {},
            Err(_) => {
                let _ = self.reassembly_started.remove(frame_id);
                self.count(1, 1);
                self.resync();
                self.ask_for_keyframe(now);
            },
        }
    }

    fn receive_pong(&mut self, id: u64, now: u64)
        ensures
            final(self)@ == pong_received(old(self)@, id, now),
    {
        match self.ping_sent.remove(id) {
            Some(sent) => {
                self.metrics.rtt_us = nanos_since(now, sent) / 1000;
            },
            None => {},
        }
    }

    fn receive_packet(&mut self, packet: Packet<'_>, size: usize, now: u64)
        ensures
            final(self)@ == packet_received(old(self)@, packet@, size as nat, now),
    {
        match packet {
            Packet::Config(json) => {
                self.act(ClientAction::ReadConfig(vstd::slice::slice_to_vec(json)));
            },
            Packet::ConnectionRejected(reason) => {
                self.act(ClientAction::Rejected(lossy_text(reason)));
                self.act(ClientAction::Stop);
            },
            Packet::Pong(id) => {
                self.receive_pong(id, now);
            },
            Packet::Ping(id) => {
                self.act(ClientAction::Send(encoded(&Packet::Pong(id))));
            },
            Packet::Audio(frame) => {
                if self.accepted {
                    let payload = vstd::slice::slice_to_vec(frame.payload);
                    self.act(ClientAction::PlayAudio { sequence: frame.sequence, payload });
                }
            },
            Packet::Video(fragment) => {
                if self.accepted {
                    self.receive_fragment(fragment, size, now);
                }
            },
            Packet::CursorPosition(position) => {
                if self.accepted {
                    self.act(ClientAction::ShowCursor(position));
                }
            },
            Packet::ServerStats(stats) => {
                if self.accepted {
                    self.act(ClientAction::ShowHostStats(stats));
                }
            },
            Packet::Hello { .. } => {},
            Packet::Clipboard(_) => {},
            Packet::VideoKeyframeRequest => {},
        }
    }

    /// A datagram arrives when the clock shows `now`.
    pub fn receive(&mut self, data: &[u8], now: u64)
        ensures
            final(self)@ == datagram_received(old(self)@, data@, now),
    {
        self.metrics.received_bytes = self.metrics.received_bytes.wrapping_add(data.len() as u64);
        match Packet::try_from(data) {
            Ok(packet) => {
                self.last_server_response = now;
                self.receive_packet(packet, data.len(), now);
            },
            Err(_) => {},
        }
    }

    /// The host offers its streams.
    pub fn configure(&mut self, config: SessionConfig)
        ensures
            final(self)@ == config_received(old(self)@, config),
    {
        if !self.audio_configured {
            self.audio_configured = true;
            match config.audio {
                Some(audio) => {
                    self.audio_config = Some(audio.clone());
                    self.act(ClientAction::StartAudio(audio));
                },
                None => {
                    self.audio_config = None;
                    self.act(ClientAction::NoAudio);
                },
            }
        }
        match check_video_offer(&config.video) {
            Some(error) => {
                self.act(ClientAction::Failed(error));
                self.act(ClientAction::Stop);
            },
            None => {
                let video = config.video.unwrap();
                let datagram_size: usize = video.datagram_size as usize;
                self.negotiated_datagram_size = datagram_size;
                self.act(ClientAction::TransportConfigured { datagram_size });
                self.act(
                    ClientAction::VideoConfigured { width: video.width, height: video.height },
                );
                if !self.accepted {
                    self.accepted = true;
                    self.act(ClientAction::Connected);
                    self.act(ClientAction::Send(encoded(&Packet::VideoKeyframeRequest)));
                }
            },
        }
    }

    fn notice_silence(&mut self, now: u64)
        ensures
            final(self)@ == silence_noticed(old(self)@, now),
    {
        if self.accepted && nanos_since(now, self.last_server_response) >= CONNECTION_TIMEOUT {
            self.act(ClientAction::Disconnected);
            self.accepted = false;
            self.reassembler = VideoReassembler::with_age(
                MAX_PENDING_FRAMES,
                VIDEO_REASSEMBLY_AGE as u128,
            );
            self.reassembly_started.clear();
            self.resync();
            self.last_hello = None;
            self.last_server_response = now;
        }
    }

    fn show_measurements(&mut self, now: u64)
        ensures
            final(self)@ == measurements_shown(old(self)@, now),
    {
        let elapsed: u64 = nanos_since(now, self.stats_started);
        if elapsed >= STATS_INTERVAL {
            let metrics = self.metrics;
            self.metrics = ClientMetrics {
                received_bytes: 0,
                reassembled_frames: 0,
                dropped_frames: 0,
                reassembly_us: 0,
                reassembly_samples: 0,
                jitter_us: 0,
                jitter_samples: 0,
                rtt_us: metrics.rtt_us,
                lost_frames: 0,
            };
            self.stats_started = now;
            self.act(ClientAction::ShowStats(ClientReport { elapsed, metrics }));
        }
    }

    /// What there is to do after waiting for a datagram.
    pub fn conclude(&mut self, now: u64)
        ensures
            final(self)@ == concluded(old(self)@, now),
    {
        self.notice_silence(now);
        self.show_measurements(now);
    }
}

fn check_video_offer(video: &Option<VideoConfig>) -> (error: Option<ClientError>)
    ensures
        error == video_offer_error(*video),
{
    match video {
        None => Some(ClientError::NoVideo),
        Some(video) => {
            if video.codec != VideoCodec::H264 {
                Some(ClientError::UnsupportedCodec(video.codec))
            } else if video.datagram_size as usize != STANDARD_DATAGRAM_SIZE
                && video.datagram_size as usize != JUMBO_DATAGRAM_SIZE {
                Some(ClientError::UnsupportedDatagramSize(video.datagram_size))
            } else {
                None
            }
        },
    }
}

} // verus!
