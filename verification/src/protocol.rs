//! The packets that the two ends of a session exchange.
//!
//! Every packet starts with four magic bytes and one byte that says what kind of
//! packet it is. The rest is the payload, whose layout depends on the kind. All
//! integers are big-endian.

use crate::bytes;
use crate::bytes::{push_be, push_words, read_be};
use std::borrow::Cow;
use vstd::prelude::*;

verus! {

pub const HELLO: u8 = 1;

pub const CONFIG: u8 = 2;

pub const PING: u8 = 3;

pub const PONG: u8 = 4;

pub const AUDIO: u8 = 5;

pub const CLIPBOARD: u8 = 6;

pub const VIDEO: u8 = 7;

pub const VIDEO_KEYFRAME_REQUEST: u8 = 8;

pub const CONNECTION_REJECTED: u8 = 9;

pub const CURSOR_POSITION: u8 = 10;

pub const SERVER_STATS: u8 = 11;

pub const HEADER_LEN: usize = 5;

pub const AUDIO_HEADER_LEN: usize = 12;

pub const VIDEO_HEADER_LEN: usize = 21;

pub const CLIPBOARD_HEADER_LEN: usize = 12;

pub const LEGACY_SERVER_STATS_LEN: usize = 92;

pub const SERVER_STATS_LEN: usize = 132;

pub const VIDEO_RECOVERY_HEADER_LEN: usize = 4;

// The standard mode keeps the complete IPv6 packet below an Ethernet 1500-byte
// MTU. Jumbo mode is only used after the client advertises support and the host
// explicitly enables it; 8 KiB leaves headroom inside a 9000-byte jumbo frame.
pub const STANDARD_DATAGRAM_SIZE: usize = 1400;

pub const JUMBO_DATAGRAM_SIZE: usize = 8192;

pub const MAX_DATAGRAM_SIZE: usize = JUMBO_DATAGRAM_SIZE;

pub const MAX_CLIPBOARD_CHUNK_PAYLOAD: usize = 1024;

pub const MAX_AUDIO_FRAME_PAYLOAD: usize = STANDARD_DATAGRAM_SIZE - HEADER_LEN - AUDIO_HEADER_LEN;

pub const STANDARD_VIDEO_FRAGMENT_PAYLOAD: usize = STANDARD_DATAGRAM_SIZE - HEADER_LEN
    - VIDEO_HEADER_LEN;

pub const MAX_VIDEO_FRAGMENT_PAYLOAD: usize = MAX_DATAGRAM_SIZE - HEADER_LEN - VIDEO_HEADER_LEN;

pub const MAX_VIDEO_FRAME_SIZE: usize = 8 * 1024 * 1024;

/// As many standard fragments as the largest frame needs, when four bytes of
/// each are kept free for the recovery header.
pub const MAX_VIDEO_FRAGMENTS: usize = 6124;

/// The bit pattern of a single precision floating point number.
///
/// The protocol carries such numbers and rejects the ones that are not finite;
/// it never computes with them.
#[derive(Clone, Copy, Debug, PartialEq, Eq, Structural)]
pub struct Float32 {
    pub bits: u32,
}

impl Float32 {
    /// Neither infinite nor not-a-number: the eight exponent bits, between the
    /// sign bit and the 23 bits of the mantissa, are not all ones.
    pub open spec fn finite(self) -> bool {
        (self.bits / 0x80_0000) % 0x100 != 0xff
    }

    pub fn is_finite(&self) -> (finite: bool)
        ensures
            finite == self.finite(),
    {
        (self.bits / 0x80_0000) % 0x100 != 0xff
    }
}

#[derive(Debug, PartialEq)]
pub enum Packet<'a> {
    Hello { max_datagram_size: u16 },
    Config(&'a [u8]),
    Ping(u64),
    Pong(u64),
    Audio(AudioFrame<'a>),
    Clipboard(ClipboardChunk<'a>),
    Video(VideoFragment<'a>),
    CursorPosition(CursorPosition),
    ServerStats(ServerStats),
    VideoKeyframeRequest,
    ConnectionRejected(&'a [u8]),
}

#[derive(Clone, Copy, Debug, PartialEq, Eq)]
pub struct AudioFrame<'a> {
    pub sequence: u32,
    pub timestamp_us: u64,
    pub payload: &'a [u8],
}

#[derive(Debug, PartialEq, Eq)]
pub struct VideoFragment<'a> {
    pub frame_id: u64,
    pub timestamp_us: u64,
    pub index: u16,
    pub total: u16,
    pub is_keyframe: bool,
    pub is_recovery: bool,
    pub payload: Cow<'a, [u8]>,
}

#[derive(Clone, Copy, Debug, PartialEq, Eq)]
pub struct ClipboardChunk<'a> {
    pub transfer_id: u64,
    pub index: u16,
    pub total: u16,
    pub payload: &'a [u8],
}

#[derive(Clone, Copy, Debug, PartialEq, Eq)]
pub struct CursorPosition {
    pub x: i32,
    pub y: i32,
    pub visible: bool,
}

/// A one-second snapshot of the host's capture and encode pipeline.
#[derive(Clone, Copy, Debug, PartialEq, Eq)]
pub struct ServerStats {
    pub fps: Float32,
    pub source_fps: Float32,
    pub megabits_per_second: Float32,
    pub capture_ms: Float32,
    pub gpu_wait_ms: Float32,
    pub gpu_lock_ms: Float32,
    pub encode_ms: Float32,
    pub send_ms: Float32,
    pub encode_queue_ms: Float32,
    pub copy_wait_ms: Float32,
    pub convert_wait_ms: Float32,
    pub map_ms: Float32,
    pub submit_ms: Float32,
    pub completion_wait_ms: Float32,
    pub bitstream_ms: Float32,
    pub dxgi_timeouts: u64,
    pub dxgi_backlog: u64,
    pub dxgi_backlog_max: u64,
    pub pacing_skips: u64,
    pub slot_busy_skips: u64,
    pub cursor_only_frames: u64,
    pub stale_frames: u64,
    pub preprocess_busy_skips: u64,
    pub no_free_slot_skips: u64,
}

impl Default for Float32 {
    /// The number zero.
    fn default() -> (zero: Self)
        ensures
            zero == zero_float(),
    {
        Float32 { bits: 0 }
    }
}

impl Default for ServerStats {
    fn default() -> (none: Self)
        ensures
            none == no_stats(),
    {
        let zero = Float32 { bits: 0 };
        ServerStats {
            fps: zero,
            source_fps: zero,
            megabits_per_second: zero,
            capture_ms: zero,
            gpu_wait_ms: zero,
            gpu_lock_ms: zero,
            encode_ms: zero,
            send_ms: zero,
            encode_queue_ms: zero,
            copy_wait_ms: zero,
            convert_wait_ms: zero,
            map_ms: zero,
            submit_ms: zero,
            completion_wait_ms: zero,
            bitstream_ms: zero,
            dxgi_timeouts: 0,
            dxgi_backlog: 0,
            dxgi_backlog_max: 0,
            pacing_skips: 0,
            slot_busy_skips: 0,
            cursor_only_frames: 0,
            stale_frames: 0,
            preprocess_busy_skips: 0,
            no_free_slot_skips: 0,
        }
    }
}

/// Statistics in which every number is zero.
pub open spec fn no_stats() -> ServerStats {
    ServerStats {
        fps: zero_float(),
        source_fps: zero_float(),
        megabits_per_second: zero_float(),
        capture_ms: zero_float(),
        gpu_wait_ms: zero_float(),
        gpu_lock_ms: zero_float(),
        encode_ms: zero_float(),
        send_ms: zero_float(),
        encode_queue_ms: zero_float(),
        copy_wait_ms: zero_float(),
        convert_wait_ms: zero_float(),
        map_ms: zero_float(),
        submit_ms: zero_float(),
        completion_wait_ms: zero_float(),
        bitstream_ms: zero_float(),
        dxgi_timeouts: 0,
        dxgi_backlog: 0,
        dxgi_backlog_max: 0,
        pacing_skips: 0,
        slot_busy_skips: 0,
        cursor_only_frames: 0,
        stale_frames: 0,
        preprocess_busy_skips: 0,
        no_free_slot_skips: 0,
    }
}

/// What an audio frame holds.
#[verifier::ext_equal]
pub struct AudioFrameView {
    pub sequence: u32,
    pub timestamp_us: u64,
    pub payload: Seq<u8>,
}

/// What a fragment of a video frame holds.
#[verifier::ext_equal]
pub struct VideoFragmentView {
    pub frame_id: u64,
    pub timestamp_us: u64,
    pub index: u16,
    pub total: u16,
    pub is_keyframe: bool,
    pub is_recovery: bool,
    pub payload: Seq<u8>,
}

/// What a chunk of a clipboard transfer holds.
#[verifier::ext_equal]
pub struct ClipboardChunkView {
    pub transfer_id: u64,
    pub index: u16,
    pub total: u16,
    pub payload: Seq<u8>,
}

/// What a packet says.
#[verifier::ext_equal]
pub enum PacketView {
    Hello { max_datagram_size: u16 },
    Config(Seq<u8>),
    Ping(u64),
    Pong(u64),
    Audio(AudioFrameView),
    Clipboard(ClipboardChunkView),
    Video(VideoFragmentView),
    CursorPosition(CursorPosition),
    ServerStats(ServerStats),
    VideoKeyframeRequest,
    ConnectionRejected(Seq<u8>),
}

impl<'a> View for AudioFrame<'a> {
    type V = AudioFrameView;

    open spec fn view(&self) -> AudioFrameView {
        AudioFrameView {
            sequence: self.sequence,
            timestamp_us: self.timestamp_us,
            payload: self.payload@,
        }
    }
}

impl<'a> View for VideoFragment<'a> {
    type V = VideoFragmentView;

    open spec fn view(&self) -> VideoFragmentView {
        VideoFragmentView {
            frame_id: self.frame_id,
            timestamp_us: self.timestamp_us,
            index: self.index,
            total: self.total,
            is_keyframe: self.is_keyframe,
            is_recovery: self.is_recovery,
            payload: self.payload@,
        }
    }
}

impl<'a> VideoFragment<'a> {
    /// The payload, whoever owns it.
    pub fn payload_bytes(&self) -> (bytes: &[u8])
        ensures
            bytes@ == self@.payload,
    {
        match &self.payload {
            Cow::Borrowed(bytes) => bytes,
            Cow::Owned(bytes) => bytes.as_slice(),
        }
    }
}

impl<'a> VideoFragment<'a> {
    /// The payload, copied if it was borrowed.
    pub fn into_payload(self) -> (bytes: Vec<u8>)
        ensures
            bytes@ == self@.payload,
    {
        match self.payload {
            Cow::Borrowed(bytes) => vstd::slice::slice_to_vec(bytes),
            Cow::Owned(bytes) => bytes,
        }
    }
}

impl<'a> Clone for VideoFragment<'a> {
    fn clone(&self) -> (copy: Self)
        ensures
            copy@ == self@,
    {
        let payload = match &self.payload {
            Cow::Borrowed(bytes) => Cow::Borrowed(*bytes),
            Cow::Owned(bytes) => Cow::Owned(bytes.clone()),
        };
        assert(payload@ =~= self.payload@);
        VideoFragment {
            frame_id: self.frame_id,
            timestamp_us: self.timestamp_us,
            index: self.index,
            total: self.total,
            is_keyframe: self.is_keyframe,
            is_recovery: self.is_recovery,
            payload,
        }
    }
}

impl<'a> View for ClipboardChunk<'a> {
    type V = ClipboardChunkView;

    open spec fn view(&self) -> ClipboardChunkView {
        ClipboardChunkView {
            transfer_id: self.transfer_id,
            index: self.index,
            total: self.total,
            payload: self.payload@,
        }
    }
}

impl<'a> View for Packet<'a> {
    type V = PacketView;

    open spec fn view(&self) -> PacketView {
        match self {
            Packet::Hello { max_datagram_size } => PacketView::Hello {
                max_datagram_size: *max_datagram_size,
            },
            Packet::Config(json) => PacketView::Config(json@),
            Packet::Ping(id) => PacketView::Ping(*id),
            Packet::Pong(id) => PacketView::Pong(*id),
            Packet::Audio(frame) => PacketView::Audio(frame@),
            Packet::Clipboard(chunk) => PacketView::Clipboard(chunk@),
            Packet::Video(fragment) => PacketView::Video(fragment@),
            Packet::CursorPosition(position) => PacketView::CursorPosition(*position),
            Packet::ServerStats(stats) => PacketView::ServerStats(*stats),
            Packet::VideoKeyframeRequest => PacketView::VideoKeyframeRequest,
            Packet::ConnectionRejected(reason) => PacketView::ConnectionRejected(reason@),
        }
    }
}

#[derive(Clone, Copy, Debug, PartialEq, Eq, Structural)]
pub enum PacketParseError {
    Invalid,
    TooShort,
    TooLarge,
}

impl PacketParseError {
    pub open spec fn message_text(self) -> Seq<char> {
        match self {
            PacketParseError::Invalid => "invalid packet"@,
            PacketParseError::TooShort => "packet is too short"@,
            PacketParseError::TooLarge => "packet exceeds protocol limits"@,
        }
    }

    /// What to tell the user.
    pub fn message(&self) -> (text: &'static str)
        ensures
            text@ == self.message_text(),
    {
        match self {
            PacketParseError::Invalid => "invalid packet",
            PacketParseError::TooShort => "packet is too short",
            PacketParseError::TooLarge => "packet exceeds protocol limits",
        }
    }
}

/// The four bytes that every packet starts with: `ECB2`.
pub open spec fn magic() -> Seq<u8> {
    seq![0x45u8, 0x43u8, 0x42u8, 0x32u8]
}

/// The first five bytes of a packet.
pub open spec fn header(kind: u8) -> Seq<u8> {
    magic().push(kind)
}

/// A signed number as the unsigned number with the same 32 bits.
pub open spec fn unsigned_bits(x: i32) -> nat {
    if x < 0 {
        (x + 0x1_0000_0000) as nat
    } else {
        x as nat
    }
}

/// The signed number whose 32 bits are those of `bits`.
pub open spec fn signed_value(bits: nat) -> i32 {
    if bits < 0x8000_0000 {
        bits as i32
    } else {
        (bits - 0x1_0000_0000) as i32
    }
}

pub open spec fn video_flags(is_keyframe: bool, is_recovery: bool) -> u8 {
    if is_keyframe {
        if is_recovery {
            3
        } else {
            1
        }
    } else {
        if is_recovery {
            2
        } else {
            0
        }
    }
}

/// The floating point numbers that every version of the statistics holds.
pub open spec fn stage_floats(stats: ServerStats) -> Seq<nat> {
    seq![
        stats.fps.bits as nat,
        stats.source_fps.bits as nat,
        stats.megabits_per_second.bits as nat,
        stats.capture_ms.bits as nat,
        stats.gpu_wait_ms.bits as nat,
        stats.gpu_lock_ms.bits as nat,
        stats.encode_ms.bits as nat,
        stats.send_ms.bits as nat,
        stats.encode_queue_ms.bits as nat,
    ]
}

/// The counters that every version of the statistics holds.
pub open spec fn stage_counters(stats: ServerStats) -> Seq<nat> {
    seq![
        stats.dxgi_timeouts as nat,
        stats.dxgi_backlog as nat,
        stats.dxgi_backlog_max as nat,
        stats.pacing_skips as nat,
        stats.slot_busy_skips as nat,
        stats.cursor_only_frames as nat,
        stats.stale_frames as nat,
    ]
}

/// The floating point numbers that older hosts leave out.
pub open spec fn breakdown_floats(stats: ServerStats) -> Seq<nat> {
    seq![
        stats.copy_wait_ms.bits as nat,
        stats.convert_wait_ms.bits as nat,
        stats.map_ms.bits as nat,
        stats.submit_ms.bits as nat,
        stats.completion_wait_ms.bits as nat,
        stats.bitstream_ms.bits as nat,
    ]
}

/// The counters that older hosts leave out.
pub open spec fn breakdown_counters(stats: ServerStats) -> Seq<nat> {
    seq![stats.preprocess_busy_skips as nat, stats.no_free_slot_skips as nat]
}

pub open spec fn encode_audio(frame: AudioFrameView) -> Seq<u8> {
    bytes::be_bytes(frame.sequence as nat, 4) + bytes::be_bytes(frame.timestamp_us as nat, 8) + frame.payload
}

pub open spec fn encode_clipboard(chunk: ClipboardChunkView) -> Seq<u8> {
    bytes::be_bytes(chunk.transfer_id as nat, 8) + bytes::be_bytes(chunk.index as nat, 2) + bytes::be_bytes(
        chunk.total as nat,
        2,
    ) + chunk.payload
}

pub open spec fn encode_video(fragment: VideoFragmentView) -> Seq<u8> {
    bytes::be_bytes(fragment.frame_id as nat, 8) + bytes::be_bytes(fragment.timestamp_us as nat, 8) + bytes::be_bytes(
        fragment.index as nat,
        2,
    ) + bytes::be_bytes(fragment.total as nat, 2) + seq![
        video_flags(fragment.is_keyframe, fragment.is_recovery),
    ] + fragment.payload
}

pub open spec fn encode_cursor(position: CursorPosition) -> Seq<u8> {
    bytes::be_bytes(unsigned_bits(position.x), 4) + bytes::be_bytes(unsigned_bits(position.y), 4) + seq![
        if position.visible {
            1u8
        } else {
            0u8
        },
    ]
}

pub open spec fn encode_stats(stats: ServerStats) -> Seq<u8> {
    bytes::be_words(stage_floats(stats), 4) + bytes::be_words(stage_counters(stats), 8) + bytes::be_words(
        breakdown_floats(stats),
        4,
    ) + bytes::be_words(breakdown_counters(stats), 8)
}

/// The datagram that carries a packet.
pub open spec fn encode_packet(packet: PacketView) -> Seq<u8> {
    match packet {
        PacketView::Hello { max_datagram_size } => if max_datagram_size <= STANDARD_DATAGRAM_SIZE {
            header(HELLO)
        } else {
            header(HELLO) + bytes::be_bytes(max_datagram_size as nat, 2)
        },
        PacketView::Config(json) => header(CONFIG) + json,
        PacketView::Ping(id) => header(PING) + bytes::be_bytes(id as nat, 8),
        PacketView::Pong(id) => header(PONG) + bytes::be_bytes(id as nat, 8),
        PacketView::Audio(frame) => header(AUDIO) + encode_audio(frame),
        PacketView::Clipboard(chunk) => header(CLIPBOARD) + encode_clipboard(chunk),
        PacketView::Video(fragment) => header(VIDEO) + encode_video(fragment),
        PacketView::CursorPosition(position) => header(CURSOR_POSITION) + encode_cursor(position),
        PacketView::ServerStats(stats) => header(SERVER_STATS) + encode_stats(stats),
        PacketView::VideoKeyframeRequest => header(VIDEO_KEYFRAME_REQUEST),
        PacketView::ConnectionRejected(reason) => header(CONNECTION_REJECTED) + reason,
    }
}

/// Appends bytes one for one.
pub(crate) fn push_bytes(out: &mut Vec<u8>, bytes: &[u8])
    ensures
        final(out)@ == old(out)@ + bytes@,
{
    out.extend_from_slice(bytes);
    assert(out@ =~= old(out)@ + bytes@);
}

fn begin_packet(kind: u8, out: &mut Vec<u8>)
    ensures
        final(out)@ == header(kind),
{
    out.clear();
    out.push(0x45);
    out.push(0x43);
    out.push(0x42);
    out.push(0x32);
    out.push(kind);
    assert(out@ =~= header(kind));
}

fn push_stats(stats: &ServerStats, out: &mut Vec<u8>)
    ensures
        final(out)@ == old(out)@ + encode_stats(*stats),
{
    let stage_float_words: Vec<u64> = vec![
        stats.fps.bits as u64,
        stats.source_fps.bits as u64,
        stats.megabits_per_second.bits as u64,
        stats.capture_ms.bits as u64,
        stats.gpu_wait_ms.bits as u64,
        stats.gpu_lock_ms.bits as u64,
        stats.encode_ms.bits as u64,
        stats.send_ms.bits as u64,
        stats.encode_queue_ms.bits as u64,
    ];
    let stage_counter_words: Vec<u64> = vec![
        stats.dxgi_timeouts,
        stats.dxgi_backlog,
        stats.dxgi_backlog_max,
        stats.pacing_skips,
        stats.slot_busy_skips,
        stats.cursor_only_frames,
        stats.stale_frames,
    ];
    let breakdown_float_words: Vec<u64> = vec![
        stats.copy_wait_ms.bits as u64,
        stats.convert_wait_ms.bits as u64,
        stats.map_ms.bits as u64,
        stats.submit_ms.bits as u64,
        stats.completion_wait_ms.bits as u64,
        stats.bitstream_ms.bits as u64,
    ];
    let breakdown_counter_words: Vec<u64> = vec![
        stats.preprocess_busy_skips,
        stats.no_free_slot_skips,
    ];
    assert(bytes::word_values(stage_float_words@) =~= stage_floats(*stats));
    assert(bytes::word_values(stage_counter_words@) =~= stage_counters(*stats));
    assert(bytes::word_values(breakdown_float_words@) =~= breakdown_floats(*stats));
    assert(bytes::word_values(breakdown_counter_words@) =~= breakdown_counters(*stats));
    push_words(out, stage_float_words.as_slice(), 4);
    push_words(out, stage_counter_words.as_slice(), 8);
    push_words(out, breakdown_float_words.as_slice(), 4);
    push_words(out, breakdown_counter_words.as_slice(), 8);
    assert(out@ =~= old(out)@ + encode_stats(*stats));
}

fn push_signed(value: i32, out: &mut Vec<u8>)
    ensures
        final(out)@ == old(out)@ + bytes::be_bytes(unsigned_bits(value), 4),
{
    let bits: u64 = if value < 0 {
        (value as i64 + 0x1_0000_0000) as u64
    } else {
        value as u64
    };
    push_be(out, bits, 4);
}

impl<'a> Packet<'a> {
    /// Replaces what `out` holds with the datagram that carries this packet.
    pub fn encode(&self, out: &mut Vec<u8>)
        ensures
            final(out)@ == encode_packet(self@),
    {
        match self {
            Packet::Hello { max_datagram_size } => {
                begin_packet(HELLO, out);
                if *max_datagram_size as usize > STANDARD_DATAGRAM_SIZE {
                    push_be(out, *max_datagram_size as u64, 2);
                }
            },
            Packet::Config(payload) => {
                begin_packet(CONFIG, out);
                push_bytes(out, payload);
            },
            Packet::Ping(id) => {
                begin_packet(PING, out);
                push_be(out, *id, 8);
            },
            Packet::Pong(id) => {
                begin_packet(PONG, out);
                push_be(out, *id, 8);
            },
            Packet::Audio(frame) => {
                begin_packet(AUDIO, out);
                push_be(out, frame.sequence as u64, 4);
                push_be(out, frame.timestamp_us, 8);
                push_bytes(out, frame.payload);
                assert(out@ =~= header(AUDIO) + encode_audio(frame@));
            },
            Packet::Clipboard(chunk) => {
                begin_packet(CLIPBOARD, out);
                push_be(out, chunk.transfer_id, 8);
                push_be(out, chunk.index as u64, 2);
                push_be(out, chunk.total as u64, 2);
                push_bytes(out, chunk.payload);
                assert(out@ =~= header(CLIPBOARD) + encode_clipboard(chunk@));
            },
            Packet::Video(fragment) => {
                begin_packet(VIDEO, out);
                push_be(out, fragment.frame_id, 8);
                push_be(out, fragment.timestamp_us, 8);
                push_be(out, fragment.index as u64, 2);
                push_be(out, fragment.total as u64, 2);
                let keyframe_flag: u8 = if fragment.is_keyframe {
                    1
                } else {
                    0
                };
                let recovery_flag: u8 = if fragment.is_recovery {
                    2
                } else {
                    0
                };
                out.push(keyframe_flag + recovery_flag);
                push_bytes(out, fragment.payload_bytes());
                assert(out@ =~= header(VIDEO) + encode_video(fragment@));
            },
            Packet::CursorPosition(position) => {
                begin_packet(CURSOR_POSITION, out);
                push_signed(position.x, out);
                push_signed(position.y, out);
                out.push(
                    if position.visible {
                        1
                    } else {
                        0
                    },
                );
                assert(out@ =~= header(CURSOR_POSITION) + encode_cursor(*position));
            },
            Packet::ServerStats(stats) => {
                begin_packet(SERVER_STATS, out);
                push_stats(stats, out);
            },
            Packet::VideoKeyframeRequest => {
                begin_packet(VIDEO_KEYFRAME_REQUEST, out);
            },
            Packet::ConnectionRejected(reason) => {
                begin_packet(CONNECTION_REJECTED, out);
                push_bytes(out, reason);
            },
        }
    }
}

/// The number spelled by the `width` bytes of `data` from `start` on.
pub open spec fn field(data: Seq<u8>, start: int, width: int) -> nat {
    bytes::be_value(data.subrange(start, start + width))
}

pub open spec fn float_field(data: Seq<u8>, start: int) -> Float32 {
    Float32 { bits: field(data, start, 4) as u32 }
}

pub open spec fn counter_field(data: Seq<u8>, start: int) -> u64 {
    field(data, start, 8) as u64
}

pub open spec fn zero_float() -> Float32 {
    Float32 { bits: 0 }
}

/// Every floating point number in the statistics is finite.
pub open spec fn stats_finite(stats: ServerStats) -> bool {
    &&& stats.fps.finite()
    &&& stats.source_fps.finite()
    &&& stats.megabits_per_second.finite()
    &&& stats.capture_ms.finite()
    &&& stats.gpu_wait_ms.finite()
    &&& stats.gpu_lock_ms.finite()
    &&& stats.encode_ms.finite()
    &&& stats.send_ms.finite()
    &&& stats.encode_queue_ms.finite()
    &&& stats.copy_wait_ms.finite()
    &&& stats.convert_wait_ms.finite()
    &&& stats.map_ms.finite()
    &&& stats.submit_ms.finite()
    &&& stats.completion_wait_ms.finite()
    &&& stats.bitstream_ms.finite()
}

/// The statistics that a payload spells. Without the breakdown, which older
/// hosts leave out, its numbers are zero.
pub open spec fn stats_of(payload: Seq<u8>) -> ServerStats {
    let full = payload.len() == SERVER_STATS_LEN;
    ServerStats {
        fps: float_field(payload, 0),
        source_fps: float_field(payload, 4),
        megabits_per_second: float_field(payload, 8),
        capture_ms: float_field(payload, 12),
        gpu_wait_ms: float_field(payload, 16),
        gpu_lock_ms: float_field(payload, 20),
        encode_ms: float_field(payload, 24),
        send_ms: float_field(payload, 28),
        encode_queue_ms: float_field(payload, 32),
        dxgi_timeouts: counter_field(payload, 36),
        dxgi_backlog: counter_field(payload, 44),
        dxgi_backlog_max: counter_field(payload, 52),
        pacing_skips: counter_field(payload, 60),
        slot_busy_skips: counter_field(payload, 68),
        cursor_only_frames: counter_field(payload, 76),
        stale_frames: counter_field(payload, 84),
        copy_wait_ms: if full { float_field(payload, 92) } else { zero_float() },
        convert_wait_ms: if full { float_field(payload, 96) } else { zero_float() },
        map_ms: if full { float_field(payload, 100) } else { zero_float() },
        submit_ms: if full { float_field(payload, 104) } else { zero_float() },
        completion_wait_ms: if full { float_field(payload, 108) } else { zero_float() },
        bitstream_ms: if full { float_field(payload, 112) } else { zero_float() },
        preprocess_busy_skips: if full { counter_field(payload, 116) } else { 0 },
        no_free_slot_skips: if full { counter_field(payload, 124) } else { 0 },
    }
}

/// What the payload of a statistics packet says, or why it is refused.
pub open spec fn parsed_stats(payload: Seq<u8>) -> Result<ServerStats, PacketParseError> {
    if payload.len() != LEGACY_SERVER_STATS_LEN && payload.len() != SERVER_STATS_LEN {
        Err(PacketParseError::Invalid)
    } else if !stats_finite(stats_of(payload)) {
        Err(PacketParseError::Invalid)
    } else {
        Ok(stats_of(payload))
    }
}

/// What the payload of a cursor packet says, or why it is refused.
pub open spec fn parsed_cursor(payload: Seq<u8>) -> Result<CursorPosition, PacketParseError> {
    if payload.len() != 9 || payload[8] > 1 {
        Err(PacketParseError::Invalid)
    } else {
        Ok(
            CursorPosition {
                x: signed_value(field(payload, 0, 4)),
                y: signed_value(field(payload, 4, 4)),
                visible: payload[8] == 1,
            },
        )
    }
}

/// The eight byte number that a payload spells, if it is eight bytes long.
pub open spec fn parsed_u64(payload: Seq<u8>) -> Result<u64, PacketParseError> {
    if payload.len() != 8 {
        Err(PacketParseError::Invalid)
    } else {
        Ok(field(payload, 0, 8) as u64)
    }
}

/// What the payload of an audio packet says, or why it is refused.
pub open spec fn parsed_audio(payload: Seq<u8>) -> Result<AudioFrameView, PacketParseError> {
    if payload.len() <= AUDIO_HEADER_LEN {
        Err(PacketParseError::TooShort)
    } else if payload.len() > AUDIO_HEADER_LEN + MAX_AUDIO_FRAME_PAYLOAD {
        Err(PacketParseError::TooLarge)
    } else {
        Ok(
            AudioFrameView {
                sequence: field(payload, 0, 4) as u32,
                timestamp_us: field(payload, 4, 8) as u64,
                payload: payload.skip(AUDIO_HEADER_LEN as int),
            },
        )
    }
}

/// A fragment that a frame can have: data fragments are numbered from zero, the
/// recovery fragment comes after them, and neither is empty or too large.
pub open spec fn fragment_valid(fragment: VideoFragmentView) -> bool {
    &&& 0 < fragment.total <= MAX_VIDEO_FRAGMENTS
    &&& if fragment.is_recovery {
        fragment.index == fragment.total
    } else {
        fragment.index < fragment.total
    }
    &&& 0 < fragment.payload.len() <= MAX_VIDEO_FRAGMENT_PAYLOAD
    &&& fragment.is_recovery ==> fragment.payload.len() > VIDEO_RECOVERY_HEADER_LEN
}

/// The fragment that the payload of a video packet spells.
pub open spec fn fragment_of(payload: Seq<u8>) -> VideoFragmentView {
    VideoFragmentView {
        frame_id: field(payload, 0, 8) as u64,
        timestamp_us: field(payload, 8, 8) as u64,
        index: field(payload, 16, 2) as u16,
        total: field(payload, 18, 2) as u16,
        is_keyframe: payload[20] % 2 == 1,
        is_recovery: (payload[20] / 2) % 2 == 1,
        payload: payload.skip(VIDEO_HEADER_LEN as int),
    }
}

/// What the payload of a video packet says, or why it is refused. No flag but
/// the two that have a meaning may be set.
pub open spec fn parsed_video(payload: Seq<u8>) -> Result<VideoFragmentView, PacketParseError> {
    if payload.len() <= VIDEO_HEADER_LEN {
        Err(PacketParseError::TooShort)
    } else if payload[20] >= 4 || !fragment_valid(fragment_of(payload)) {
        Err(PacketParseError::Invalid)
    } else {
        Ok(fragment_of(payload))
    }
}

/// What the payload of a clipboard packet says, or why it is refused.
pub open spec fn parsed_clipboard(payload: Seq<u8>) -> Result<ClipboardChunkView, PacketParseError> {
    let index = field(payload, 8, 2) as u16;
    let total = field(payload, 10, 2) as u16;
    if payload.len() < CLIPBOARD_HEADER_LEN {
        Err(PacketParseError::TooShort)
    } else if index >= total {
        Err(PacketParseError::Invalid)
    } else {
        Ok(
            ClipboardChunkView {
                transfer_id: field(payload, 0, 8) as u64,
                index,
                total,
                payload: payload.skip(CLIPBOARD_HEADER_LEN as int),
            },
        )
    }
}

/// What the payload of a packet of the given kind says, or why it is refused.
pub open spec fn parsed_payload(kind: u8, payload: Seq<u8>) -> Result<PacketView, PacketParseError> {
    if kind == HELLO && payload.len() == 0 {
        // Peers that do not advertise transport capabilities have the standard ones.
        Ok(PacketView::Hello { max_datagram_size: STANDARD_DATAGRAM_SIZE as u16 })
    } else if kind == HELLO && payload.len() == 2 {
        Ok(PacketView::Hello { max_datagram_size: field(payload, 0, 2) as u16 })
    } else if kind == CONFIG {
        Ok(PacketView::Config(payload))
    } else if kind == PING {
        match parsed_u64(payload) {
            Ok(id) => Ok(PacketView::Ping(id)),
            Err(error) => Err(error),
        }
    } else if kind == PONG {
        match parsed_u64(payload) {
            Ok(id) => Ok(PacketView::Pong(id)),
            Err(error) => Err(error),
        }
    } else if kind == AUDIO {
        match parsed_audio(payload) {
            Ok(frame) => Ok(PacketView::Audio(frame)),
            Err(error) => Err(error),
        }
    } else if kind == CLIPBOARD {
        match parsed_clipboard(payload) {
            Ok(chunk) => Ok(PacketView::Clipboard(chunk)),
            Err(error) => Err(error),
        }
    } else if kind == VIDEO {
        match parsed_video(payload) {
            Ok(fragment) => Ok(PacketView::Video(fragment)),
            Err(error) => Err(error),
        }
    } else if kind == CURSOR_POSITION {
        match parsed_cursor(payload) {
            Ok(position) => Ok(PacketView::CursorPosition(position)),
            Err(error) => Err(error),
        }
    } else if kind == SERVER_STATS {
        match parsed_stats(payload) {
            Ok(stats) => Ok(PacketView::ServerStats(stats)),
            Err(error) => Err(error),
        }
    } else if kind == VIDEO_KEYFRAME_REQUEST && payload.len() == 0 {
        Ok(PacketView::VideoKeyframeRequest)
    } else if kind == CONNECTION_REJECTED {
        Ok(PacketView::ConnectionRejected(payload))
    } else {
        Err(PacketParseError::Invalid)
    }
}

/// What a datagram says, or why it is refused.
pub open spec fn parsed_packet(data: Seq<u8>) -> Result<PacketView, PacketParseError> {
    if data.len() < HEADER_LEN {
        Err(PacketParseError::TooShort)
    } else if data.take(4) != magic() {
        Err(PacketParseError::Invalid)
    } else {
        parsed_payload(data[4], data.skip(HEADER_LEN as int))
    }
}

/// The outcome of parsing, with what the packet says in place of the packet.
pub open spec fn packet_outcome(
    outcome: Result<Packet<'_>, PacketParseError>,
) -> Result<PacketView, PacketParseError> {
    match outcome {
        Ok(packet) => Ok(packet@),
        Err(error) => Err(error),
    }
}

/// The part of `data` from `start` on.
pub(crate) fn tail<'a>(data: &'a [u8], start: usize) -> (rest: &'a [u8])
    requires
        start <= data@.len(),
    ensures
        rest@ == data@.skip(start as int),
{
    let rest = vstd::slice::slice_subrange(data, start, data.len());
    assert(rest@ =~= data@.skip(start as int));
    rest
}

fn float_at(payload: &[u8], start: usize) -> (value: Float32)
    requires
        start + 4 <= payload@.len(),
    ensures
        value == float_field(payload@, start as int),
{
    Float32 { bits: read_be(payload, start, 4) as u32 }
}

fn counter_at(payload: &[u8], start: usize) -> (value: u64)
    requires
        start + 8 <= payload@.len(),
    ensures
        value == counter_field(payload@, start as int),
{
    read_be(payload, start, 8)
}

fn all_finite(stats: &ServerStats) -> (finite: bool)
    ensures
        finite == stats_finite(*stats),
{
    stats.fps.is_finite() && stats.source_fps.is_finite() && stats.megabits_per_second.is_finite()
        && stats.capture_ms.is_finite() && stats.gpu_wait_ms.is_finite()
        && stats.gpu_lock_ms.is_finite() && stats.encode_ms.is_finite()
        && stats.send_ms.is_finite() && stats.encode_queue_ms.is_finite()
        && stats.copy_wait_ms.is_finite() && stats.convert_wait_ms.is_finite()
        && stats.map_ms.is_finite() && stats.submit_ms.is_finite()
        && stats.completion_wait_ms.is_finite() && stats.bitstream_ms.is_finite()
}

pub fn parse_server_stats(payload: &[u8]) -> (outcome: Result<ServerStats, PacketParseError>)
    ensures
        outcome == parsed_stats(payload@),
{
    if payload.len() != LEGACY_SERVER_STATS_LEN && payload.len() != SERVER_STATS_LEN {
        return Err(PacketParseError::Invalid);
    }
    let full = payload.len() == SERVER_STATS_LEN;
    let none = Float32 { bits: 0 };
    let stats = ServerStats {
        fps: float_at(payload, 0),
        source_fps: float_at(payload, 4),
        megabits_per_second: float_at(payload, 8),
        capture_ms: float_at(payload, 12),
        gpu_wait_ms: float_at(payload, 16),
        gpu_lock_ms: float_at(payload, 20),
        encode_ms: float_at(payload, 24),
        send_ms: float_at(payload, 28),
        encode_queue_ms: float_at(payload, 32),
        dxgi_timeouts: counter_at(payload, 36),
        dxgi_backlog: counter_at(payload, 44),
        dxgi_backlog_max: counter_at(payload, 52),
        pacing_skips: counter_at(payload, 60),
        slot_busy_skips: counter_at(payload, 68),
        cursor_only_frames: counter_at(payload, 76),
        stale_frames: counter_at(payload, 84),
        copy_wait_ms: if full { float_at(payload, 92) } else { none },
        convert_wait_ms: if full { float_at(payload, 96) } else { none },
        map_ms: if full { float_at(payload, 100) } else { none },
        submit_ms: if full { float_at(payload, 104) } else { none },
        completion_wait_ms: if full { float_at(payload, 108) } else { none },
        bitstream_ms: if full { float_at(payload, 112) } else { none },
        preprocess_busy_skips: if full { counter_at(payload, 116) } else { 0 },
        no_free_slot_skips: if full { counter_at(payload, 124) } else { 0 },
    };
    if !all_finite(&stats) {
        return Err(PacketParseError::Invalid);
    }
    Ok(stats)
}

fn signed_at(payload: &[u8], start: usize) -> (value: i32)
    requires
        start + 4 <= payload@.len(),
    ensures
        value == signed_value(field(payload@, start as int, 4)),
{
    let bits: u64 = read_be(payload, start, 4);
    proof {
        bytes::lemma_be_ranges();
    }
    if bits < 0x8000_0000 {
        bits as i32
    } else {
        (bits as i64 - 0x1_0000_0000) as i32
    }
}

pub fn parse_cursor_position(payload: &[u8]) -> (outcome: Result<CursorPosition, PacketParseError>)
    ensures
        outcome == parsed_cursor(payload@),
{
    if payload.len() != 9 || payload[8] > 1 {
        return Err(PacketParseError::Invalid);
    }
    Ok(
        CursorPosition {
            x: signed_at(payload, 0),
            y: signed_at(payload, 4),
            visible: payload[8] != 0,
        },
    )
}

pub fn parse_u64(payload: &[u8]) -> (outcome: Result<u64, PacketParseError>)
    ensures
        outcome == parsed_u64(payload@),
{
    if payload.len() != 8 {
        return Err(PacketParseError::Invalid);
    }
    Ok(read_be(payload, 0, 8))
}

pub fn parse_audio_frame<'a>(payload: &'a [u8]) -> (outcome: Result<
    AudioFrame<'a>,
    PacketParseError,
>)
    ensures
        match outcome {
            Ok(frame) => parsed_audio(payload@) == Ok::<_, PacketParseError>(frame@),
            Err(error) => parsed_audio(payload@) == Err::<AudioFrameView, _>(error),
        },
{
    if payload.len() <= AUDIO_HEADER_LEN {
        return Err(PacketParseError::TooShort);
    }
    if payload.len() - AUDIO_HEADER_LEN > MAX_AUDIO_FRAME_PAYLOAD {
        return Err(PacketParseError::TooLarge);
    }
    Ok(
        AudioFrame {
            sequence: read_be(payload, 0, 4) as u32,
            timestamp_us: read_be(payload, 4, 8),
            payload: tail(payload, AUDIO_HEADER_LEN),
        },
    )
}

pub fn parse_video_fragment<'a>(payload: &'a [u8]) -> (outcome: Result<
    VideoFragment<'a>,
    PacketParseError,
>)
    ensures
        match outcome {
            Ok(fragment) => parsed_video(payload@) == Ok::<_, PacketParseError>(fragment@),
            Err(error) => parsed_video(payload@) == Err::<VideoFragmentView, _>(error),
        },
{
    if payload.len() <= VIDEO_HEADER_LEN {
        return Err(PacketParseError::TooShort);
    }
    let index: u16 = read_be(payload, 16, 2) as u16;
    let total: u16 = read_be(payload, 18, 2) as u16;
    let flags: u8 = payload[20];
    let is_recovery = flags & 2 != 0;
    let is_keyframe = flags & 1 != 0;
    proof {
        bytes::lemma_be_ranges();
        assert((flags & 2 != 0) == ((flags / 2) % 2 == 1)) by (bit_vector);
        assert((flags & 1 != 0) == (flags % 2 == 1)) by (bit_vector);
        assert((flags & !3u8 != 0) == (flags >= 4)) by (bit_vector);
    }
    if total == 0 || (!is_recovery && index >= total) || (is_recovery && index != total)
        || total as usize > MAX_VIDEO_FRAGMENTS || flags & !3u8 != 0 || payload.len()
        - VIDEO_HEADER_LEN > MAX_VIDEO_FRAGMENT_PAYLOAD || (is_recovery && payload.len()
        - VIDEO_HEADER_LEN <= VIDEO_RECOVERY_HEADER_LEN) {
        return Err(PacketParseError::Invalid);
    }
    Ok(
        VideoFragment {
            frame_id: read_be(payload, 0, 8),
            timestamp_us: read_be(payload, 8, 8),
            index,
            total,
            is_keyframe,
            is_recovery,
            payload: Cow::Borrowed(tail(payload, VIDEO_HEADER_LEN)),
        },
    )
}

pub fn parse_clipboard_chunk<'a>(payload: &'a [u8]) -> (outcome: Result<
    ClipboardChunk<'a>,
    PacketParseError,
>)
    ensures
        match outcome {
            Ok(chunk) => parsed_clipboard(payload@) == Ok::<_, PacketParseError>(chunk@),
            Err(error) => parsed_clipboard(payload@) == Err::<ClipboardChunkView, _>(error),
        },
{
    if payload.len() < CLIPBOARD_HEADER_LEN {
        return Err(PacketParseError::TooShort);
    }
    let index: u16 = read_be(payload, 8, 2) as u16;
    let total: u16 = read_be(payload, 10, 2) as u16;
    if total == 0 || index >= total {
        return Err(PacketParseError::Invalid);
    }
    Ok(
        ClipboardChunk {
            transfer_id: read_be(payload, 0, 8),
            index,
            total,
            payload: tail(payload, CLIPBOARD_HEADER_LEN),
        },
    )
}

impl<'a> vstd::std_specs::convert::TryFromSpecImpl<&'a [u8]> for Packet<'a> {
    /// Packets that say the same can borrow from different places, so what a
    /// datagram is read as is stated of what the packet says.
    open spec fn obeys_try_from_spec() -> bool {
        false
    }

    open spec fn try_from_spec(data: &'a [u8]) -> Result<Self, PacketParseError> {
        Err(PacketParseError::Invalid)
    }
}

impl<'a> TryFrom<&'a [u8]> for Packet<'a> {
    type Error = PacketParseError;

    fn try_from(data: &'a [u8]) -> (outcome: Result<Self, PacketParseError>)
        ensures
            packet_outcome(outcome) == parsed_packet(data@),
    {
        if data.len() < HEADER_LEN {
            return Err(PacketParseError::TooShort);
        }
        if data[0] != 0x45 || data[1] != 0x43 || data[2] != 0x42 || data[3] != 0x32 {
            proof {
                let ghost front = data@.take(4);
                assert(front[0] == data@[0] && front[1] == data@[1] && front[2] == data@[2]
                    && front[3] == data@[3]);
                assert(magic()[0] == 0x45 && magic()[1] == 0x43 && magic()[2] == 0x42
                    && magic()[3] == 0x32);
            }
            return Err(PacketParseError::Invalid);
        }
        assert(data@.take(4) =~= magic());
        let payload = tail(data, HEADER_LEN);
        let kind: u8 = data[4];
        if kind == HELLO && payload.len() == 0 {
            Ok(Packet::Hello { max_datagram_size: STANDARD_DATAGRAM_SIZE as u16 })
        } else if kind == HELLO && payload.len() == 2 {
            Ok(Packet::Hello { max_datagram_size: read_be(payload, 0, 2) as u16 })
        } else if kind == CONFIG {
            Ok(Packet::Config(payload))
        } else if kind == PING {
            match parse_u64(payload) {
                Ok(id) => Ok(Packet::Ping(id)),
                Err(error) => Err(error),
            }
        } else if kind == PONG {
            match parse_u64(payload) {
                Ok(id) => Ok(Packet::Pong(id)),
                Err(error) => Err(error),
            }
        } else if kind == AUDIO {
            match parse_audio_frame(payload) {
                Ok(frame) => Ok(Packet::Audio(frame)),
                Err(error) => Err(error),
            }
        } else if kind == CLIPBOARD {
            match parse_clipboard_chunk(payload) {
                Ok(chunk) => Ok(Packet::Clipboard(chunk)),
                Err(error) => Err(error),
            }
        } else if kind == VIDEO {
            match parse_video_fragment(payload) {
                Ok(fragment) => Ok(Packet::Video(fragment)),
                Err(error) => Err(error),
            }
        } else if kind == CURSOR_POSITION {
            match parse_cursor_position(payload) {
                Ok(position) => Ok(Packet::CursorPosition(position)),
                Err(error) => Err(error),
            }
        } else if kind == SERVER_STATS {
            match parse_server_stats(payload) {
                Ok(stats) => Ok(Packet::ServerStats(stats)),
                Err(error) => Err(error),
            }
        } else if kind == VIDEO_KEYFRAME_REQUEST && payload.len() == 0 {
            Ok(Packet::VideoKeyframeRequest)
        } else if kind == CONNECTION_REJECTED {
            Ok(Packet::ConnectionRejected(payload))
        } else {
            Err(PacketParseError::Invalid)
        }
    }
}

} // verus!
