//! What encoding and parsing promise together.

use crate::bytes;
use crate::protocol;
use crate::protocol::{
    AudioFrameView, ClipboardChunkView, CursorPosition, PacketView, ServerStats, VideoFragmentView,
    AUDIO, AUDIO_HEADER_LEN, CLIPBOARD, CLIPBOARD_HEADER_LEN, CONFIG, CONNECTION_REJECTED,
    CURSOR_POSITION, HEADER_LEN, HELLO, LEGACY_SERVER_STATS_LEN, MAX_AUDIO_FRAME_PAYLOAD, PING,
    PONG, SERVER_STATS, SERVER_STATS_LEN, STANDARD_DATAGRAM_SIZE, VIDEO, VIDEO_HEADER_LEN, VIDEO_KEYFRAME_REQUEST,
};
use vstd::prelude::*;

verus! {

/// A packet within the limits of the protocol.
pub open spec fn packet_valid(packet: PacketView) -> bool {
    match packet {
        PacketView::Audio(frame) => 0 < frame.payload.len() <= MAX_AUDIO_FRAME_PAYLOAD,
        PacketView::Clipboard(chunk) => chunk.index < chunk.total,
        PacketView::Video(fragment) => protocol::fragment_valid(fragment),
        PacketView::ServerStats(stats) => protocol::stats_finite(stats),
        _ => true,
    }
}

/// What the other end learns from a packet. A hello that advertises no more than
/// the standard datagram size is sent without a size, which stands for that one.
pub open spec fn received_as(packet: PacketView) -> PacketView {
    match packet {
        PacketView::Hello { max_datagram_size } => if max_datagram_size <= STANDARD_DATAGRAM_SIZE {
            PacketView::Hello { max_datagram_size: STANDARD_DATAGRAM_SIZE as u16 }
        } else {
            packet
        },
        _ => packet,
    }
}

/// A header followed by a payload is parsed by the payload's kind.
proof fn lemma_parse_framed(kind: u8, payload: Seq<u8>)
    ensures
        (protocol::header(kind) + payload).len() == HEADER_LEN + payload.len(),
        protocol::parsed_packet(protocol::header(kind) + payload) == protocol::parsed_payload(
            kind,
            payload,
        ),
{
    let data = protocol::header(kind) + payload;
    assert(data.take(4) =~= protocol::magic());
    assert(data.skip(HEADER_LEN as int) =~= payload);
}

/// A number that was written at `start` is read there.
proof fn lemma_field_written(before: Seq<u8>, value: nat, width: nat, after: Seq<u8>)
    requires
        value < bytes::be_range(width),
    ensures
        protocol::field(
            before + bytes::be_bytes(value, width) + after,
            before.len() as int,
            width as int,
        ) == value,
{
    bytes::lemma_be_read_write(value, width);
    assert((before + bytes::be_bytes(value, width) + after).subrange(
        before.len() as int,
        (before.len() + width) as int,
    ) =~= bytes::be_bytes(value, width));
}

proof fn lemma_audio_round_trip(frame: AudioFrameView)
    requires
        0 < frame.payload.len() <= MAX_AUDIO_FRAME_PAYLOAD,
    ensures
        protocol::encode_audio(frame).len() == AUDIO_HEADER_LEN + frame.payload.len(),
        protocol::parsed_audio(protocol::encode_audio(frame)) == Ok::<
            AudioFrameView,
            protocol::PacketParseError,
        >(frame),
{
    let a = bytes::be_bytes(frame.sequence as nat, 4);
    let b = bytes::be_bytes(frame.timestamp_us as nat, 8);
    let data = protocol::encode_audio(frame);
    bytes::lemma_be_ranges();
    bytes::lemma_be_bytes_len(frame.sequence as nat, 4);
    bytes::lemma_be_bytes_len(frame.timestamp_us as nat, 8);
    lemma_field_written(Seq::empty(), frame.sequence as nat, 4, b + frame.payload);
    assert(data =~= Seq::<u8>::empty() + a + (b + frame.payload));
    lemma_field_written(a, frame.timestamp_us as nat, 8, frame.payload);
    assert(data.skip(AUDIO_HEADER_LEN as int) =~= frame.payload);
}

pub(crate) proof fn lemma_clipboard_round_trip(chunk: ClipboardChunkView)
    requires
        chunk.index < chunk.total,
    ensures
        protocol::encode_clipboard(chunk).len() == CLIPBOARD_HEADER_LEN + chunk.payload.len(),
        protocol::parsed_clipboard(protocol::encode_clipboard(chunk)) == Ok::<
            ClipboardChunkView,
            protocol::PacketParseError,
        >(chunk),
{
    let a = bytes::be_bytes(chunk.transfer_id as nat, 8);
    let b = bytes::be_bytes(chunk.index as nat, 2);
    let c = bytes::be_bytes(chunk.total as nat, 2);
    let data = protocol::encode_clipboard(chunk);
    bytes::lemma_be_ranges();
    bytes::lemma_be_bytes_len(chunk.transfer_id as nat, 8);
    bytes::lemma_be_bytes_len(chunk.index as nat, 2);
    bytes::lemma_be_bytes_len(chunk.total as nat, 2);
    lemma_field_written(Seq::empty(), chunk.transfer_id as nat, 8, b + c + chunk.payload);
    assert(data =~= Seq::<u8>::empty() + a + (b + c + chunk.payload));
    lemma_field_written(a, chunk.index as nat, 2, c + chunk.payload);
    assert(data =~= a + b + (c + chunk.payload));
    lemma_field_written(a + b, chunk.total as nat, 2, chunk.payload);
    assert(data.skip(CLIPBOARD_HEADER_LEN as int) =~= chunk.payload);
}

pub(crate) proof fn lemma_video_round_trip(fragment: VideoFragmentView)
    requires
        protocol::fragment_valid(fragment),
    ensures
        protocol::encode_video(fragment).len() == VIDEO_HEADER_LEN + fragment.payload.len(),
        protocol::parsed_video(protocol::encode_video(fragment)) == Ok::<
            VideoFragmentView,
            protocol::PacketParseError,
        >(fragment),
{
    let a = bytes::be_bytes(fragment.frame_id as nat, 8);
    let b = bytes::be_bytes(fragment.timestamp_us as nat, 8);
    let c = bytes::be_bytes(fragment.index as nat, 2);
    let d = bytes::be_bytes(fragment.total as nat, 2);
    let flags = seq![protocol::video_flags(fragment.is_keyframe, fragment.is_recovery)];
    let data = protocol::encode_video(fragment);
    bytes::lemma_be_ranges();
    bytes::lemma_be_bytes_len(fragment.frame_id as nat, 8);
    bytes::lemma_be_bytes_len(fragment.timestamp_us as nat, 8);
    bytes::lemma_be_bytes_len(fragment.index as nat, 2);
    bytes::lemma_be_bytes_len(fragment.total as nat, 2);
    let rest = flags + fragment.payload;
    lemma_field_written(Seq::empty(), fragment.frame_id as nat, 8, b + c + d + rest);
    assert(data =~= Seq::<u8>::empty() + a + (b + c + d + rest));
    lemma_field_written(a, fragment.timestamp_us as nat, 8, c + d + rest);
    assert(data =~= a + b + (c + d + rest));
    lemma_field_written(a + b, fragment.index as nat, 2, d + rest);
    assert(data =~= a + b + c + (d + rest));
    lemma_field_written(a + b + c, fragment.total as nat, 2, rest);
    assert(data =~= a + b + c + d + rest);
    assert(data[20] == flags[0]);
    assert(data.skip(VIDEO_HEADER_LEN as int) =~= fragment.payload);
    assert(protocol::fragment_of(data) =~= fragment);
}

proof fn lemma_cursor_round_trip(position: CursorPosition)
    ensures
        protocol::encode_cursor(position).len() == 9,
        protocol::parsed_cursor(protocol::encode_cursor(position)) == Ok::<
            CursorPosition,
            protocol::PacketParseError,
        >(position),
{
    let x = protocol::unsigned_bits(position.x);
    let y = protocol::unsigned_bits(position.y);
    let a = bytes::be_bytes(x, 4);
    let b = bytes::be_bytes(y, 4);
    let c = seq![if position.visible { 1u8 } else { 0u8 }];
    let data = protocol::encode_cursor(position);
    bytes::lemma_be_ranges();
    bytes::lemma_be_bytes_len(x, 4);
    bytes::lemma_be_bytes_len(y, 4);
    lemma_field_written(Seq::empty(), x, 4, b + c);
    assert(data =~= Seq::<u8>::empty() + a + (b + c));
    lemma_field_written(a, y, 4, c);
    assert(data[8] == c[0]);
}

/// A word of a section of words is read where the section has it.
proof fn lemma_word_read(before: Seq<u8>, words: Seq<nat>, width: nat, after: Seq<u8>, i: int)
    requires
        0 <= i < words.len(),
        words[i] < bytes::be_range(width),
    ensures
        (before + bytes::be_words(words, width) + after).len() == before.len() + words.len() * width
            + after.len(),
        protocol::field(
            before + bytes::be_words(words, width) + after,
            before.len() + i * width,
            width as int,
        ) == words[i],
{
    bytes::lemma_be_words(words, width);
    bytes::lemma_be_read_write(words[i], width);
    let data = before + bytes::be_words(words, width) + after;
    assert(0 <= i * width && i * width + width <= words.len() * width) by (nonlinear_arith)
        requires
            0 <= i < words.len(),
    ;
    assert(data.subrange(before.len() + i * width, before.len() + i * width + width)
        =~= bytes::be_words(words, width).subrange(i * width, i * width + width));
}

proof fn lemma_stats_round_trip(stats: ServerStats)
    requires
        protocol::stats_finite(stats),
    ensures
        protocol::encode_stats(stats).len() == SERVER_STATS_LEN,
        protocol::parsed_stats(protocol::encode_stats(stats)) == Ok::<
            ServerStats,
            protocol::PacketParseError,
        >(stats),
{
    let f1 = protocol::stage_floats(stats);
    let c1 = protocol::stage_counters(stats);
    let f2 = protocol::breakdown_floats(stats);
    let c2 = protocol::breakdown_counters(stats);
    let a = bytes::be_words(f1, 4);
    let b = bytes::be_words(c1, 8);
    let c = bytes::be_words(f2, 4);
    let d = bytes::be_words(c2, 8);
    let data = protocol::encode_stats(stats);
    bytes::lemma_be_ranges();
    bytes::lemma_be_words(f1, 4);
    bytes::lemma_be_words(c1, 8);
    bytes::lemma_be_words(f2, 4);
    bytes::lemma_be_words(c2, 8);
    assert(data.len() == 132);
    assert forall|i: int| 0 <= i < 9 implies protocol::field(data, i * 4, 4) == #[trigger] f1[i] by {
        lemma_word_read(Seq::empty(), f1, 4, b + c + d, i);
        assert(data =~= Seq::<u8>::empty() + a + (b + c + d));
    }
    assert forall|i: int| 0 <= i < 7 implies protocol::field(data, 36 + i * 8, 8)
        == #[trigger] c1[i] by {
        lemma_word_read(a, c1, 8, c + d, i);
        assert(data =~= a + b + (c + d));
    }
    assert forall|i: int| 0 <= i < 6 implies protocol::field(data, 92 + i * 4, 4)
        == #[trigger] f2[i] by {
        lemma_word_read(a + b, f2, 4, d, i);
    }
    assert forall|i: int| 0 <= i < 2 implies protocol::field(data, 116 + i * 8, 8)
        == #[trigger] c2[i] by {
        lemma_word_read(a + b + c, c2, 8, Seq::empty(), i);
        assert(data =~= a + b + c + d + Seq::<u8>::empty());
    }
    lemma_stats_fields(stats, data);
}

/// Statistics whose fields stand where they belong are read back.
proof fn lemma_stats_fields(stats: ServerStats, data: Seq<u8>)
    requires
        data.len() == SERVER_STATS_LEN,
        forall|i: int| 0 <= i < 9 ==> protocol::field(data, i * 4, 4)
            == #[trigger] protocol::stage_floats(stats)[i],
        forall|i: int| 0 <= i < 7 ==> protocol::field(data, 36 + i * 8, 8)
            == #[trigger] protocol::stage_counters(stats)[i],
        forall|i: int| 0 <= i < 6 ==> protocol::field(data, 92 + i * 4, 4)
            == #[trigger] protocol::breakdown_floats(stats)[i],
        forall|i: int| 0 <= i < 2 ==> protocol::field(data, 116 + i * 8, 8)
            == #[trigger] protocol::breakdown_counters(stats)[i],
    ensures
        protocol::stats_of(data) == stats,
{
    let f1 = protocol::stage_floats(stats);
    assert(f1[0] == stats.fps.bits);
    assert(f1[1] == stats.source_fps.bits);
    assert(f1[2] == stats.megabits_per_second.bits);
    assert(f1[3] == stats.capture_ms.bits);
    assert(f1[4] == stats.gpu_wait_ms.bits);
    assert(f1[5] == stats.gpu_lock_ms.bits);
    assert(f1[6] == stats.encode_ms.bits);
    assert(f1[7] == stats.send_ms.bits);
    assert(f1[8] == stats.encode_queue_ms.bits);
    let c1 = protocol::stage_counters(stats);
    assert(c1[0] == stats.dxgi_timeouts);
    assert(c1[1] == stats.dxgi_backlog);
    assert(c1[2] == stats.dxgi_backlog_max);
    assert(c1[3] == stats.pacing_skips);
    assert(c1[4] == stats.slot_busy_skips);
    assert(c1[5] == stats.cursor_only_frames);
    assert(c1[6] == stats.stale_frames);
    let f2 = protocol::breakdown_floats(stats);
    assert(f2[0] == stats.copy_wait_ms.bits);
    assert(f2[1] == stats.convert_wait_ms.bits);
    assert(f2[2] == stats.map_ms.bits);
    assert(f2[3] == stats.submit_ms.bits);
    assert(f2[4] == stats.completion_wait_ms.bits);
    assert(f2[5] == stats.bitstream_ms.bits);
    let c2 = protocol::breakdown_counters(stats);
    assert(c2[0] == stats.preprocess_busy_skips);
    assert(c2[1] == stats.no_free_slot_skips);
}

/// A packet within the limits of the protocol is read back as it was sent.
pub proof fn packets_round_trip(packet: PacketView)
    requires
        packet_valid(packet),
    ensures
        protocol::parsed_packet(protocol::encode_packet(packet)) == Ok::<
            PacketView,
            protocol::PacketParseError,
        >(received_as(packet)),
{
    bytes::lemma_be_ranges();
    match packet {
        PacketView::Hello { max_datagram_size } => {
            if max_datagram_size <= STANDARD_DATAGRAM_SIZE {
                lemma_parse_framed(HELLO, Seq::empty());
                assert(protocol::header(HELLO) + Seq::<u8>::empty() =~= protocol::header(HELLO));
            } else {
                let size = bytes::be_bytes(max_datagram_size as nat, 2);
                lemma_parse_framed(HELLO, size);
                bytes::lemma_be_read_write(max_datagram_size as nat, 2);
                assert(size.subrange(0, 2) =~= size);
            }
        },
        PacketView::Config(json) => {
            lemma_parse_framed(CONFIG, json);
        },
        PacketView::Ping(id) => {
            let payload = bytes::be_bytes(id as nat, 8);
            lemma_parse_framed(PING, payload);
            bytes::lemma_be_read_write(id as nat, 8);
            assert(payload.subrange(0, 8) =~= payload);
        },
        PacketView::Pong(id) => {
            let payload = bytes::be_bytes(id as nat, 8);
            lemma_parse_framed(PONG, payload);
            bytes::lemma_be_read_write(id as nat, 8);
            assert(payload.subrange(0, 8) =~= payload);
        },
        PacketView::Audio(frame) => {
            lemma_parse_framed(AUDIO, protocol::encode_audio(frame));
            lemma_audio_round_trip(frame);
        },
        PacketView::Clipboard(chunk) => {
            lemma_parse_framed(CLIPBOARD, protocol::encode_clipboard(chunk));
            lemma_clipboard_round_trip(chunk);
        },
        PacketView::Video(fragment) => {
            lemma_parse_framed(VIDEO, protocol::encode_video(fragment));
            lemma_video_round_trip(fragment);
        },
        PacketView::CursorPosition(position) => {
            lemma_parse_framed(CURSOR_POSITION, protocol::encode_cursor(position));
            lemma_cursor_round_trip(position);
        },
        PacketView::ServerStats(stats) => {
            lemma_parse_framed(SERVER_STATS, protocol::encode_stats(stats));
            lemma_stats_round_trip(stats);
        },
        PacketView::VideoKeyframeRequest => {
            lemma_parse_framed(VIDEO_KEYFRAME_REQUEST, Seq::empty());
            assert(protocol::header(VIDEO_KEYFRAME_REQUEST) + Seq::<u8>::empty()
                =~= protocol::header(VIDEO_KEYFRAME_REQUEST));
        },
        PacketView::ConnectionRejected(reason) => {
            lemma_parse_framed(CONNECTION_REJECTED, reason);
        },
    }
}

/// Writing a number that was read gives back its bytes.
proof fn lemma_field_read(data: Seq<u8>, start: int, width: nat)
    requires
        0 <= start,
        start + width <= data.len(),
    ensures
        bytes::be_bytes(protocol::field(data, start, width as int), width) == data.subrange(
            start,
            start + width,
        ),
        protocol::field(data, start, width as int) < bytes::be_range(width),
{
    bytes::lemma_be_write_read(data.subrange(start, start + width));
    bytes::lemma_be_value_bound(data.subrange(start, start + width));
}

/// Numbers that were read one after the other spell the bytes that they were read from.
proof fn lemma_words_read(data: Seq<u8>, start: int, words: Seq<nat>, width: nat)
    requires
        0 <= start,
        start + words.len() * width <= data.len(),
        forall|i: int|
            0 <= i < words.len() ==> #[trigger] words[i] == protocol::field(
                data,
                start + i * width,
                width as int,
            ),
    ensures
        bytes::be_words(words, width) == data.subrange(start, start + words.len() * width),
    decreases words.len(),
{
    if words.len() == 0 {
        assert(bytes::be_words(words, width) =~= data.subrange(start, start + 0 * width));
    } else {
        let init = words.drop_last();
        let end = start + init.len() * width;
        assert(init.len() * width + width == words.len() * width && 0 <= init.len() * width)
            by (nonlinear_arith)
            requires
                init.len() + 1 == words.len(),
        ;
        lemma_words_read(data, start, init, width);
        assert(words.last() == words[words.len() - 1]);
        lemma_field_read(data, end, width);
        assert(data.subrange(start, end) + data.subrange(end, end + width) =~= data.subrange(
            start,
            end + width,
        ));
    }
}

proof fn lemma_stats_canonical(payload: Seq<u8>)
    requires
        payload.len() == SERVER_STATS_LEN,
    ensures
        protocol::encode_stats(protocol::stats_of(payload)) == payload,
{
    let stats = protocol::stats_of(payload);
    let floats = protocol::stage_floats(stats);
    let counters = protocol::stage_counters(stats);
    let more_floats = protocol::breakdown_floats(stats);
    let more_counters = protocol::breakdown_counters(stats);
    bytes::lemma_be_ranges();
    assert forall|i: int| 0 <= i < 9 implies #[trigger] floats[i] == protocol::field(
        payload,
        0 + i * 4,
        4,
    ) by {
        lemma_field_read(payload, i * 4, 4);
    }
    lemma_words_read(payload, 0, floats, 4);
    assert forall|i: int| 0 <= i < 7 implies #[trigger] counters[i] == protocol::field(
        payload,
        36 + i * 8,
        8,
    ) by {
        lemma_field_read(payload, 36 + i * 8, 8);
    }
    lemma_words_read(payload, 36, counters, 8);
    assert forall|i: int| 0 <= i < 6 implies #[trigger] more_floats[i] == protocol::field(
        payload,
        92 + i * 4,
        4,
    ) by {
        lemma_field_read(payload, 92 + i * 4, 4);
    }
    lemma_words_read(payload, 92, more_floats, 4);
    assert forall|i: int| 0 <= i < 2 implies #[trigger] more_counters[i] == protocol::field(
        payload,
        116 + i * 8,
        8,
    ) by {
        lemma_field_read(payload, 116 + i * 8, 8);
    }
    lemma_words_read(payload, 116, more_counters, 8);
    assert(protocol::encode_stats(stats) =~= payload);
}

proof fn lemma_video_canonical(payload: Seq<u8>)
    requires
        protocol::parsed_video(payload) is Ok,
    ensures
        protocol::encode_video(protocol::fragment_of(payload)) == payload,
{
    let fragment = protocol::fragment_of(payload);
    bytes::lemma_be_ranges();
    lemma_field_read(payload, 0, 8);
    lemma_field_read(payload, 8, 8);
    lemma_field_read(payload, 16, 2);
    lemma_field_read(payload, 18, 2);
    assert(protocol::video_flags(fragment.is_keyframe, fragment.is_recovery) == payload[20]);
    assert(protocol::encode_video(fragment) =~= payload);
}

/// A hello that spells out a datagram size which goes without saying.
pub open spec fn is_wordy_hello(data: Seq<u8>) -> bool {
    &&& data.len() == HEADER_LEN + 2
    &&& data[4] == HELLO
    &&& protocol::field(data, HEADER_LEN as int, 2) <= STANDARD_DATAGRAM_SIZE
}

/// Statistics as older hosts send them.
pub open spec fn is_legacy_stats(data: Seq<u8>) -> bool {
    &&& data.len() == HEADER_LEN + LEGACY_SERVER_STATS_LEN
    &&& data[4] == SERVER_STATS
}

/// A datagram that is accepted is the one that its packet is sent as: no two datagrams say
/// the same, but for hellos that spell out what goes without saying, and for statistics of
/// older hosts.
pub proof fn accepted_datagrams_are_canonical(data: Seq<u8>)
    requires
        protocol::parsed_packet(data) is Ok,
        !is_wordy_hello(data),
        !is_legacy_stats(data),
    ensures
        protocol::encode_packet(protocol::parsed_packet(data)->Ok_0) == data,
{
    let payload = data.skip(HEADER_LEN as int);
    let kind = data[4];
    assert(data.take(4) == protocol::magic());
    assert(protocol::header(kind) + payload =~= data) by {
        assert(data.take(4) + seq![kind] + payload =~= data);
        assert(protocol::header(kind) =~= protocol::magic() + seq![kind]);
    }
    bytes::lemma_be_ranges();
    assert(payload.subrange(0, payload.len() as int) =~= payload);
    if kind == HELLO {
        if payload.len() == 2 {
            lemma_field_read(payload, 0, 2);
            assert(payload.subrange(0, 2) =~= data.subrange(HEADER_LEN as int, HEADER_LEN + 2));
        } else {
            assert(protocol::header(kind) =~= data);
        }
    } else if kind == PING || kind == PONG {
        lemma_field_read(payload, 0, 8);
    } else if kind == AUDIO {
        lemma_field_read(payload, 0, 4);
        lemma_field_read(payload, 4, 8);
        assert(protocol::encode_audio(protocol::parsed_audio(payload)->Ok_0) =~= payload);
    } else if kind == CLIPBOARD {
        lemma_field_read(payload, 0, 8);
        lemma_field_read(payload, 8, 2);
        lemma_field_read(payload, 10, 2);
        assert(protocol::encode_clipboard(protocol::parsed_clipboard(payload)->Ok_0) =~= payload);
    } else if kind == VIDEO {
        lemma_video_canonical(payload);
    } else if kind == CURSOR_POSITION {
        lemma_field_read(payload, 0, 4);
        lemma_field_read(payload, 4, 4);
        assert(protocol::encode_cursor(protocol::parsed_cursor(payload)->Ok_0) =~= payload);
    } else if kind == SERVER_STATS {
        lemma_stats_canonical(payload);
    } else if kind == VIDEO_KEYFRAME_REQUEST {
        assert(protocol::header(kind) =~= data);
    }
}

} // verus!
