//! What stands on the wire: the layout of every packet, and what is refused.

use crate::bytes;
use crate::protocol;
use crate::protocol::{PacketParseError, PacketView, ServerStats};
use crate::protocol_laws;
use crate::protocol_v1;
use vstd::arithmetic::power::pow;
use vstd::prelude::*;

verus! {

/// Numbers are written with the most significant byte first.
pub proof fn numbers_are_big_endian(value: nat, width: nat, i: int)
    requires
        0 <= i < width,
    ensures
        bytes::be_bytes(value, width).len() == width,
        bytes::be_bytes(value, width)[i] == (value as int / pow(256, (width - 1 - i) as nat)) % 256,
    decreases width,
{
    bytes::lemma_be_bytes_len(value, width);
    bytes::lemma_be_bytes_len(value / 256, (width - 1) as nat);
    if i == width - 1 {
        reveal(pow);
        assert(pow(256, 0) == 1);
    } else {
        let e = (width - 2 - i) as nat;
        numbers_are_big_endian(value / 256, (width - 1) as nat, i);
        vstd::arithmetic::power::lemma_pow_positive(256, e);
        assert(pow(256, e + 1) == 256 * pow(256, e)) by {
            reveal(pow);
        }
        vstd::arithmetic::div_mod::lemma_div_denominator(value as int, 256, pow(256, e));
    }
}

/// Numbers are read with the most significant byte first.
pub proof fn numbers_are_read_big_endian(bytes: Seq<u8>, low: u8)
    ensures
        bytes::be_value(Seq::empty()) == 0,
        bytes::be_value(bytes.push(low)) == bytes::be_value(bytes) * 256 + low,
{
    assert(bytes.push(low).drop_last() =~= bytes);
}

/// A datagram of a desktop session starts with `ECB2` and the number of its kind.
pub proof fn datagrams_start_with_their_kind(packet: PacketView)
    ensures
        protocol::encode_packet(packet).len() >= 5,
        protocol::encode_packet(packet).take(5) == seq![
            0x45u8,
            0x43u8,
            0x42u8,
            0x32u8,
            match packet {
                PacketView::Hello { .. } => 1u8,
                PacketView::Config(_) => 2u8,
                PacketView::Ping(_) => 3u8,
                PacketView::Pong(_) => 4u8,
                PacketView::Audio(_) => 5u8,
                PacketView::Clipboard(_) => 6u8,
                PacketView::Video(_) => 7u8,
                PacketView::VideoKeyframeRequest => 8u8,
                PacketView::ConnectionRejected(_) => 9u8,
                PacketView::CursorPosition(_) => 10u8,
                PacketView::ServerStats(_) => 11u8,
            },
        ],
{
    let start = protocol::encode_packet(packet).take(5);
    assert(start =~= protocol::header(start[4]));
}

/// A signed number as the unsigned number with the same 32 bits.
pub open spec fn as_unsigned(value: i32) -> nat {
    if value >= 0 {
        value as nat
    } else {
        (0x1_0000_0000 + value) as nat
    }
}

/// What follows the kind in a datagram of a desktop session.
pub proof fn payloads_are_laid_out(packet: PacketView)
    ensures
        ({
            let payload = protocol::encode_packet(packet).skip(5);
            match packet {
                PacketView::Hello { max_datagram_size } => payload == if max_datagram_size > 1400 {
                    bytes::be_bytes(max_datagram_size as nat, 2)
                } else {
                    Seq::empty()
                },
                PacketView::Config(json) => payload == json,
                PacketView::Ping(id) => payload == bytes::be_bytes(id as nat, 8),
                PacketView::Pong(id) => payload == bytes::be_bytes(id as nat, 8),
                PacketView::Audio(frame) => payload == bytes::be_bytes(frame.sequence as nat, 4)
                    + bytes::be_bytes(frame.timestamp_us as nat, 8) + frame.payload,
                PacketView::Clipboard(chunk) => payload == bytes::be_bytes(
                    chunk.transfer_id as nat,
                    8,
                ) + bytes::be_bytes(chunk.index as nat, 2) + bytes::be_bytes(chunk.total as nat, 2)
                    + chunk.payload,
                PacketView::Video(fragment) => payload == bytes::be_bytes(
                    fragment.frame_id as nat,
                    8,
                ) + bytes::be_bytes(fragment.timestamp_us as nat, 8) + bytes::be_bytes(
                    fragment.index as nat,
                    2,
                ) + bytes::be_bytes(fragment.total as nat, 2) + seq![
                    match (fragment.is_keyframe, fragment.is_recovery) {
                        (false, false) => 0u8,
                        (true, false) => 1u8,
                        (false, true) => 2u8,
                        (true, true) => 3u8,
                    },
                ] + fragment.payload,
                PacketView::VideoKeyframeRequest => payload == Seq::<u8>::empty(),
                PacketView::ConnectionRejected(reason) => payload == reason,
                PacketView::CursorPosition(position) => payload == bytes::be_bytes(
                    as_unsigned(position.x),
                    4,
                ) + bytes::be_bytes(as_unsigned(position.y), 4) + seq![
                    if position.visible {
                        1u8
                    } else {
                        0u8
                    },
                ],
                PacketView::ServerStats(_) => true,
            }
        }),
{
    let payload = protocol::encode_packet(packet).skip(5);
    match packet {
        PacketView::Hello { max_datagram_size } => {
            if max_datagram_size > 1400 {
                assert(payload =~= bytes::be_bytes(max_datagram_size as nat, 2));
            } else {
                assert(payload =~= Seq::empty());
            }
        },
        PacketView::Config(json) => assert(payload =~= json),
        PacketView::Ping(id) => assert(payload =~= bytes::be_bytes(id as nat, 8)),
        PacketView::Pong(id) => assert(payload =~= bytes::be_bytes(id as nat, 8)),
        PacketView::Audio(frame) => assert(payload =~= protocol::encode_audio(frame)),
        PacketView::Clipboard(chunk) => assert(payload =~= protocol::encode_clipboard(chunk)),
        PacketView::Video(fragment) => assert(payload =~= protocol::encode_video(fragment)),
        PacketView::VideoKeyframeRequest => assert(payload =~= Seq::empty()),
        PacketView::ConnectionRejected(reason) => assert(payload =~= reason),
        PacketView::CursorPosition(position) => assert(payload =~= protocol::encode_cursor(
            position,
        )),
        PacketView::ServerStats(_) => {},
    }
}

/// A datagram that is not one of a desktop session is refused: it is too short to say what it
/// is, does not start with `ECB2`, or is of no known kind.
pub proof fn foreign_datagrams_are_refused(data: Seq<u8>)
    ensures
        data.len() < 5 ==> protocol::parsed_packet(data) == Err::<PacketView, _>(
            PacketParseError::TooShort,
        ),
        data.len() >= 5 && !(data[0] == 0x45 && data[1] == 0x43 && data[2] == 0x42 && data[3]
            == 0x32 && 1 <= data[4] <= 11) ==> protocol::parsed_packet(data) == Err::<
            PacketView,
            _,
        >(PacketParseError::Invalid),
{
    if data.len() >= 5 && data.take(4) == protocol::magic() {
        assert(data.take(4)[0] == 0x45 && data.take(4)[1] == 0x43 && data.take(4)[2] == 0x42
            && data.take(4)[3] == 0x32);
    }
}

/// What is accepted makes sense: a piece of a whole is one of those that the whole has, sound
/// and pictures are there and not too large, and measurements are numbers.
pub proof fn accepted_packets_make_sense(data: Seq<u8>)
    ensures
        protocol::parsed_packet(data) matches Ok(packet) ==> match packet {
            PacketView::Audio(frame) => 0 < frame.payload.len() <= 1383,
            PacketView::Clipboard(chunk) => chunk.index < chunk.total,
            PacketView::Video(fragment) => {
                &&& 0 < fragment.total <= 6124
                &&& fragment.index <= fragment.total
                &&& fragment.is_recovery == (fragment.index == fragment.total)
                &&& 0 < fragment.payload.len() <= 8166
                &&& fragment.is_recovery ==> fragment.payload.len() > 4
            },
            PacketView::ServerStats(stats) => stats.fps.finite() && stats.send_ms.finite()
                && stats.bitstream_ms.finite(),
            _ => true,
        },
{
}

/// What makes sense is accepted, as it was sent.
pub proof fn sensible_packets_are_accepted(packet: PacketView)
    requires
        match packet {
            PacketView::Hello { max_datagram_size } => max_datagram_size >= 1400,
            PacketView::Audio(frame) => 0 < frame.payload.len() <= 1383,
            PacketView::Clipboard(chunk) => chunk.index < chunk.total,
            PacketView::Video(fragment) => {
                &&& 0 < fragment.total <= 6124
                &&& fragment.index <= fragment.total
                &&& fragment.is_recovery == (fragment.index == fragment.total)
                &&& 0 < fragment.payload.len() <= 8166
                &&& fragment.is_recovery ==> fragment.payload.len() > 4
            },
            PacketView::ServerStats(_) => false,
            _ => true,
        },
    ensures
        protocol::parsed_packet(protocol::encode_packet(packet)) == Ok::<
            PacketView,
            PacketParseError,
        >(packet),
{
    protocol_laws::packets_round_trip(packet);
}

/// A single precision number is finite unless the bits of its exponent are all ones: plus and
/// minus infinity and what is not a number are left out, and nothing else.
pub proof fn infinities_are_told_apart(bits: u32)
    ensures
        (protocol::Float32 { bits }).finite() == (bits < 0x7f80_0000 || 0x8000_0000 <= bits
            < 0xff80_0000),
{
}

/// Measurements are sent as they are, if all of them are finite numbers.
pub proof fn measurements_are_accepted(stats: ServerStats)
    requires
        finite_bits(stats.fps.bits),
        finite_bits(stats.source_fps.bits),
        finite_bits(stats.megabits_per_second.bits),
        finite_bits(stats.capture_ms.bits),
        finite_bits(stats.gpu_wait_ms.bits),
        finite_bits(stats.gpu_lock_ms.bits),
        finite_bits(stats.encode_ms.bits),
        finite_bits(stats.send_ms.bits),
        finite_bits(stats.encode_queue_ms.bits),
        finite_bits(stats.copy_wait_ms.bits),
        finite_bits(stats.convert_wait_ms.bits),
        finite_bits(stats.map_ms.bits),
        finite_bits(stats.submit_ms.bits),
        finite_bits(stats.completion_wait_ms.bits),
        finite_bits(stats.bitstream_ms.bits),
    ensures
        protocol::parsed_packet(protocol::encode_packet(PacketView::ServerStats(stats))) == Ok::<
            PacketView,
            PacketParseError,
        >(PacketView::ServerStats(stats)),
{
    infinities_are_told_apart(stats.fps.bits);
    infinities_are_told_apart(stats.source_fps.bits);
    infinities_are_told_apart(stats.megabits_per_second.bits);
    infinities_are_told_apart(stats.capture_ms.bits);
    infinities_are_told_apart(stats.gpu_wait_ms.bits);
    infinities_are_told_apart(stats.gpu_lock_ms.bits);
    infinities_are_told_apart(stats.encode_ms.bits);
    infinities_are_told_apart(stats.send_ms.bits);
    infinities_are_told_apart(stats.encode_queue_ms.bits);
    infinities_are_told_apart(stats.copy_wait_ms.bits);
    infinities_are_told_apart(stats.convert_wait_ms.bits);
    infinities_are_told_apart(stats.map_ms.bits);
    infinities_are_told_apart(stats.submit_ms.bits);
    infinities_are_told_apart(stats.completion_wait_ms.bits);
    infinities_are_told_apart(stats.bitstream_ms.bits);
    protocol_laws::packets_round_trip(PacketView::ServerStats(stats));
}

/// The bits of a finite single precision number.
pub open spec fn finite_bits(bits: u32) -> bool {
    bits < 0x7f80_0000 || 0x8000_0000 <= bits < 0xff80_0000
}

/// The number that stands at a place in a datagram.
pub open spec fn number_at(data: Seq<u8>, at: int, width: int) -> nat {
    bytes::be_value(data.subrange(at, at + width))
}

/// Each measurement stands at its place in a datagram; the later ones are zero where an older
/// host left them out.
pub proof fn measurements_have_their_places(data: Seq<u8>)
    ensures
        protocol::parsed_packet(data) matches Ok(PacketView::ServerStats(stats)) ==> {
            &&& stats.fps.bits == number_at(data, 5, 4)
            &&& stats.source_fps.bits == number_at(data, 9, 4)
            &&& stats.megabits_per_second.bits == number_at(data, 13, 4)
            &&& stats.capture_ms.bits == number_at(data, 17, 4)
            &&& stats.gpu_wait_ms.bits == number_at(data, 21, 4)
            &&& stats.gpu_lock_ms.bits == number_at(data, 25, 4)
            &&& stats.encode_ms.bits == number_at(data, 29, 4)
            &&& stats.send_ms.bits == number_at(data, 33, 4)
            &&& stats.encode_queue_ms.bits == number_at(data, 37, 4)
            &&& stats.dxgi_timeouts == number_at(data, 41, 8)
            &&& stats.dxgi_backlog == number_at(data, 49, 8)
            &&& stats.dxgi_backlog_max == number_at(data, 57, 8)
            &&& stats.pacing_skips == number_at(data, 65, 8)
            &&& stats.slot_busy_skips == number_at(data, 73, 8)
            &&& stats.cursor_only_frames == number_at(data, 81, 8)
            &&& stats.stale_frames == number_at(data, 89, 8)
            &&& data.len() == 97 || data.len() == 137
            &&& stats.copy_wait_ms.bits == if data.len() == 137 { number_at(data, 97, 4) } else { 0 }
            &&& stats.convert_wait_ms.bits == if data.len() == 137 { number_at(data, 101, 4) } else { 0 }
            &&& stats.map_ms.bits == if data.len() == 137 { number_at(data, 105, 4) } else { 0 }
            &&& stats.submit_ms.bits == if data.len() == 137 { number_at(data, 109, 4) } else { 0 }
            &&& stats.completion_wait_ms.bits == if data.len() == 137 { number_at(data, 113, 4) } else { 0 }
            &&& stats.bitstream_ms.bits == if data.len() == 137 { number_at(data, 117, 4) } else { 0 }
            &&& stats.preprocess_busy_skips == if data.len() == 137 { number_at(data, 121, 8) } else { 0 }
            &&& stats.no_free_slot_skips == if data.len() == 137 { number_at(data, 129, 8) } else { 0 }
        },
{
    if protocol::parsed_packet(data) matches Ok(PacketView::ServerStats(_)) {
        let payload = data.skip(5);
        assert forall|at: int, width: int|
            0 <= at && 0 <= width && at + width <= payload.len() implies #[trigger] payload.subrange(
            at,
            at + width,
        ) == data.subrange(at + 5, at + 5 + width) by {
            assert(payload.subrange(at, at + width) =~= data.subrange(at + 5, at + 5 + width));
        }

        lemma_numbers_fit(payload);
    }
}

/// Four bytes hold a number of 32 bits, and eight bytes one of 64.
proof fn lemma_numbers_fit(data: Seq<u8>)
    ensures
        forall|at: int|
            0 <= at && at + 4 <= data.len() ==> #[trigger] protocol::field(data, at, 4)
                <= u32::MAX,
        forall|at: int|
            0 <= at && at + 8 <= data.len() ==> #[trigger] protocol::field(data, at, 8)
                <= u64::MAX,
{
    bytes::lemma_be_ranges();
    assert forall|at: int| 0 <= at && at + 4 <= data.len() implies #[trigger] protocol::field(
        data,
        at,
        4,
    ) <= u32::MAX by {
        bytes::lemma_be_value_bound(data.subrange(at, at + 4));
    }
    assert forall|at: int| 0 <= at && at + 8 <= data.len() implies #[trigger] protocol::field(
        data,
        at,
        8,
    ) <= u64::MAX by {
        bytes::lemma_be_value_bound(data.subrange(at, at + 8));
    }
}

/// A datagram of the command line tools starts with `ECB1` and the number of its kind, and
/// what it carries follows.
pub proof fn tool_datagrams_are_laid_out(packet: protocol_v1::PacketView)
    ensures
        protocol_v1::encode_packet(packet) == seq![0x45u8, 0x43u8, 0x42u8, 0x31u8] + match packet {
            protocol_v1::PacketView::Hello => seq![1u8],
            protocol_v1::PacketView::Config(json) => seq![2u8] + json,
            protocol_v1::PacketView::Ping(id) => seq![3u8] + bytes::be_bytes(id as nat, 8),
            protocol_v1::PacketView::Pong(id) => seq![4u8] + bytes::be_bytes(id as nat, 8),
            protocol_v1::PacketView::Audio(payload) => seq![5u8] + payload,
            protocol_v1::PacketView::Clipboard(chunk) => seq![6u8] + bytes::be_bytes(
                chunk.transfer_id as nat,
                8,
            ) + bytes::be_bytes(chunk.index as nat, 2) + bytes::be_bytes(chunk.total as nat, 2)
                + chunk.payload,
        },
{
    let magic = seq![0x45u8, 0x43u8, 0x42u8, 0x31u8];
    let data = protocol_v1::encode_packet(packet);
    match packet {
        protocol_v1::PacketView::Hello => assert(data =~= magic + seq![1u8]),
        protocol_v1::PacketView::Config(json) => assert(data =~= magic + (seq![2u8] + json)),
        protocol_v1::PacketView::Ping(id) => assert(data =~= magic + (seq![3u8] + bytes::be_bytes(
            id as nat,
            8,
        ))),
        protocol_v1::PacketView::Pong(id) => assert(data =~= magic + (seq![4u8] + bytes::be_bytes(
            id as nat,
            8,
        ))),
        protocol_v1::PacketView::Audio(payload) => assert(data =~= magic + (seq![5u8] + payload)),
        protocol_v1::PacketView::Clipboard(chunk) => assert(data =~= magic + (seq![6u8]
            + bytes::be_bytes(chunk.transfer_id as nat, 8) + bytes::be_bytes(chunk.index as nat, 2)
            + bytes::be_bytes(chunk.total as nat, 2) + chunk.payload)),
    }
}

/// The command line tools refuse what is not one of their datagrams: what is too short, does
/// not start with `ECB1`, is of no known kind, or has more or less in it than it should.
pub proof fn foreign_tool_datagrams_are_refused(data: Seq<u8>)
    ensures
        data.len() < 5 ==> protocol_v1::parsed_packet(data) == Err::<protocol_v1::PacketView, _>(
            protocol_v1::PacketParseError::TooShort,
        ),
        data.len() >= 5 && !(data[0] == 0x45 && data[1] == 0x43 && data[2] == 0x42 && data[3]
            == 0x31 && 1 <= data[4] <= 6) ==> protocol_v1::parsed_packet(data) == Err::<
            protocol_v1::PacketView,
            _,
        >(protocol_v1::PacketParseError::Invalid),
        data.len() > 5 && data[4] == 1 ==> protocol_v1::parsed_packet(data) is Err,
        data.len() != 13 && 3 <= data[4] <= 4 ==> protocol_v1::parsed_packet(data) is Err,
        protocol_v1::parsed_packet(data) matches Ok(protocol_v1::PacketView::Clipboard(chunk))
            ==> chunk.index < chunk.total,
{
    if data.len() >= 5 && data.take(4) == protocol_v1::magic() {
        assert(data.take(4)[0] == 0x45 && data.take(4)[1] == 0x43 && data.take(4)[2] == 0x42
            && data.take(4)[3] == 0x31);
    }
}

/// Chunks of a text that come to the tools are refused as too short without their header, and as
/// invalid where the header makes no sense.
pub proof fn refused_chunks_are_told_apart(payload: Seq<u8>)
    requires
        protocol::parsed_clipboard(payload) is Err,
    ensures
        protocol_v1::parsed_payload(protocol::CLIPBOARD, payload) == Err::<
            protocol_v1::PacketView,
            _,
        >(
            if payload.len() < 12 {
                protocol_v1::PacketParseError::TooShort
            } else {
                protocol_v1::PacketParseError::Invalid
            },
        ),
{
}

} // verus!
