//! The packets of the audio command line tools.
//!
//! They look like the packets of a desktop session but start with other magic
//! bytes, so that neither side takes the other's packets for its own.

use crate::bytes;
use crate::bytes::{push_be, read_be};
use crate::protocol;
use crate::protocol::{
    push_bytes, tail, ClipboardChunk, ClipboardChunkView, AUDIO, CLIPBOARD, CLIPBOARD_HEADER_LEN,
    CONFIG, HEADER_LEN, HELLO, PING, PONG,
};
use crate::protocol_laws;
use vstd::prelude::*;

verus! {

#[derive(Debug, PartialEq, Eq)]
pub enum Packet<'a> {
    Hello,
    Config(&'a [u8]),
    Ping(u64),
    Pong(u64),
    Audio(&'a [u8]),
    Clipboard(ClipboardChunk<'a>),
}

/// What a packet says.
#[verifier::ext_equal]
pub enum PacketView {
    Hello,
    Config(Seq<u8>),
    Ping(u64),
    Pong(u64),
    Audio(Seq<u8>),
    Clipboard(ClipboardChunkView),
}

impl<'a> View for Packet<'a> {
    type V = PacketView;

    open spec fn view(&self) -> PacketView {
        match self {
            Packet::Hello => PacketView::Hello,
            Packet::Config(json) => PacketView::Config(json@),
            Packet::Ping(id) => PacketView::Ping(*id),
            Packet::Pong(id) => PacketView::Pong(*id),
            Packet::Audio(payload) => PacketView::Audio(payload@),
            Packet::Clipboard(chunk) => PacketView::Clipboard(chunk@),
        }
    }
}

#[derive(Clone, Copy, Debug, PartialEq, Eq, Structural)]
pub enum PacketParseError {
    Invalid,
    TooShort,
}

/// The four bytes that every packet starts with: `ECB1`.
pub open spec fn magic() -> Seq<u8> {
    seq![0x45u8, 0x43u8, 0x42u8, 0x31u8]
}

/// The first five bytes of a packet.
pub open spec fn header(kind: u8) -> Seq<u8> {
    magic().push(kind)
}

/// The datagram that carries a packet.
pub open spec fn encode_packet(packet: PacketView) -> Seq<u8> {
    match packet {
        PacketView::Hello => header(HELLO),
        PacketView::Config(json) => header(CONFIG) + json,
        PacketView::Ping(id) => header(PING) + bytes::be_bytes(id as nat, 8),
        PacketView::Pong(id) => header(PONG) + bytes::be_bytes(id as nat, 8),
        PacketView::Audio(payload) => header(AUDIO) + payload,
        PacketView::Clipboard(chunk) => header(CLIPBOARD) + protocol::encode_clipboard(chunk),
    }
}

/// What the payload of a packet of the given kind says, or why it is refused.
pub open spec fn parsed_payload(kind: u8, payload: Seq<u8>) -> Result<PacketView, PacketParseError> {
    if kind == HELLO && payload.len() == 0 {
        Ok(PacketView::Hello)
    } else if kind == CONFIG {
        Ok(PacketView::Config(payload))
    } else if kind == PING && payload.len() == 8 {
        Ok(PacketView::Ping(bytes::be_value(payload) as u64))
    } else if kind == PONG && payload.len() == 8 {
        Ok(PacketView::Pong(bytes::be_value(payload) as u64))
    } else if kind == AUDIO {
        Ok(PacketView::Audio(payload))
    } else if kind == CLIPBOARD {
        match protocol::parsed_clipboard(payload) {
            Ok(chunk) => Ok(PacketView::Clipboard(chunk)),
            Err(error) => if payload.len() < CLIPBOARD_HEADER_LEN {
                Err(PacketParseError::TooShort)
            } else {
                Err(PacketParseError::Invalid)
            },
        }
    } else {
        Err(PacketParseError::Invalid)
    }
}

/// What a datagram says, or why it is refused.
pub open spec fn parsed_packet(data: Seq<u8>) -> Result<PacketView, PacketParseError> {
    if data.len() < HEADER_LEN {
        Err(PacketParseError::TooShort)
    } else if data.take(4) != magic() {
        Err(PacketParseError::Invalid)
    } else {
        parsed_payload(data[4], data.skip(HEADER_LEN as int))
    }
}

/// The outcome of parsing, with what the packet says in place of the packet.
pub open spec fn packet_outcome(
    outcome: Result<Packet<'_>, PacketParseError>,
) -> Result<PacketView, PacketParseError> {
    match outcome {
        Ok(packet) => Ok(packet@),
        Err(error) => Err(error),
    }
}

fn begin_packet(kind: u8, out: &mut Vec<u8>)
    ensures
        final(out)@ == header(kind),
{
    out.clear();
    out.push(0x45);
    out.push(0x43);
    out.push(0x42);
    out.push(0x31);
    out.push(kind);
    assert(out@ =~= header(kind));
}

impl<'a> Packet<'a> {
    /// Replaces what `out` holds with the datagram that carries this packet.
    pub fn encode(&self, out: &mut Vec<u8>)
        ensures
            final(out)@ == encode_packet(self@),
    {
        match self {
            Packet::Hello => {
                begin_packet(HELLO, out);
            },
            Packet::Config(payload) => {
                begin_packet(CONFIG, out);
                push_bytes(out, payload);
            },
            Packet::Ping(id) => {
                begin_packet(PING, out);
                push_be(out, *id, 8);
            },
            Packet::Pong(id) => {
                begin_packet(PONG, out);
                push_be(out, *id, 8);
            },
            Packet::Audio(payload) => {
                begin_packet(AUDIO, out);
                push_bytes(out, payload);
            },
            Packet::Clipboard(chunk) => {
                begin_packet(CLIPBOARD, out);
                push_be(out, chunk.transfer_id, 8);
                push_be(out, chunk.index as u64, 2);
                push_be(out, chunk.total as u64, 2);
                push_bytes(out, chunk.payload);
                assert(out@ =~= header(CLIPBOARD) + protocol::encode_clipboard(chunk@));
            },
        }
    }
}

fn whole_number(payload: &[u8]) -> (value: u64)
    requires
        payload@.len() == 8,
    ensures
        value == bytes::be_value(payload@),
{
    assert(payload@.subrange(0, 8) =~= payload@);
    read_be(payload, 0, 8)
}

impl<'a> vstd::std_specs::convert::TryFromSpecImpl<&'a [u8]> for Packet<'a> {
    /// Packets that say the same can borrow from different places, so what a
    /// datagram is read as is stated of what the packet says.
    open spec fn obeys_try_from_spec() -> bool {
        false
    }

    open spec fn try_from_spec(data: &'a [u8]) -> Result<Self, PacketParseError> {
        Err(PacketParseError::Invalid)
    }
}

impl<'a> TryFrom<&'a [u8]> for Packet<'a> {
    type Error = PacketParseError;

    fn try_from(data: &'a [u8]) -> (outcome: Result<Self, PacketParseError>)
        ensures
            packet_outcome(outcome) == parsed_packet(data@),
    {
        if data.len() < HEADER_LEN {
            return Err(PacketParseError::TooShort);
        }
        if data[0] != 0x45 || data[1] != 0x43 || data[2] != 0x42 || data[3] != 0x31 {
            proof {
                let ghost front = data@.take(4);
                assert(front[0] == data@[0] && front[1] == data@[1] && front[2] == data@[2]
                    && front[3] == data@[3]);
                assert(magic()[0] == 0x45 && magic()[1] == 0x43 && magic()[2] == 0x42
                    && magic()[3] == 0x31);
            }
            return Err(PacketParseError::Invalid);
        }
        assert(data@.take(4) =~= magic());
        let payload = tail(data, HEADER_LEN);
        let kind: u8 = data[4];
        if kind == HELLO && payload.len() == 0 {
            Ok(Packet::Hello)
        } else if kind == CONFIG {
            Ok(Packet::Config(payload))
        } else if kind == PING && payload.len() == 8 {
            Ok(Packet::Ping(whole_number(payload)))
        } else if kind == PONG && payload.len() == 8 {
            Ok(Packet::Pong(whole_number(payload)))
        } else if kind == AUDIO {
            Ok(Packet::Audio(payload))
        } else if kind == CLIPBOARD {
            if payload.len() < CLIPBOARD_HEADER_LEN {
                return Err(PacketParseError::TooShort);
            }
            match protocol::parse_clipboard_chunk(payload) {
                Ok(chunk) => Ok(Packet::Clipboard(chunk)),
                Err(_) => Err(PacketParseError::Invalid),
            }
        } else {
            Err(PacketParseError::Invalid)
        }
    }
}

proof fn lemma_parse_framed(kind: u8, payload: Seq<u8>)
    ensures
        parsed_packet(header(kind) + payload) == parsed_payload(kind, payload),
{
    let data = header(kind) + payload;
    assert(data.take(4) =~= magic());
    assert(data.skip(HEADER_LEN as int) =~= payload);
}

/// A packet is read back as it was sent. A clipboard chunk must be one of the
/// chunks that its transfer has.
pub proof fn packets_round_trip(packet: PacketView)
    requires
        packet matches PacketView::Clipboard(chunk) ==> chunk.index < chunk.total,
    ensures
        parsed_packet(encode_packet(packet)) == Ok::<PacketView, PacketParseError>(packet),
{
    bytes::lemma_be_ranges();
    match packet {
        PacketView::Hello => {
            lemma_parse_framed(HELLO, Seq::empty());
            assert(header(HELLO) + Seq::<u8>::empty() =~= header(HELLO));
        },
        PacketView::Config(json) => {
            lemma_parse_framed(CONFIG, json);
        },
        PacketView::Ping(id) => {
            lemma_parse_framed(PING, bytes::be_bytes(id as nat, 8));
            bytes::lemma_be_read_write(id as nat, 8);
        },
        PacketView::Pong(id) => {
            lemma_parse_framed(PONG, bytes::be_bytes(id as nat, 8));
            bytes::lemma_be_read_write(id as nat, 8);
        },
        PacketView::Audio(payload) => {
            lemma_parse_framed(AUDIO, payload);
        },
        PacketView::Clipboard(chunk) => {
            lemma_parse_framed(CLIPBOARD, protocol::encode_clipboard(chunk));
            protocol_laws::lemma_clipboard_round_trip(chunk);
        },
    }
}

/// Neither side takes the other's packets for its own: a desktop session refuses
/// every packet of the command line tools, and they refuse every packet of a
/// desktop session.
pub proof fn versions_do_not_mix(tools: PacketView, desktop: protocol::PacketView)
    ensures
        protocol::parsed_packet(encode_packet(tools)) == Err::<
            protocol::PacketView,
            protocol::PacketParseError,
        >(protocol::PacketParseError::Invalid),
        parsed_packet(protocol::encode_packet(desktop)) == Err::<PacketView, PacketParseError>(
            PacketParseError::Invalid,
        ),
{
    let data = encode_packet(tools);
    assert(data.len() >= HEADER_LEN && data[3] == 0x31);
    assert(data.take(4)[3] == 0x31);
    assert(protocol::magic()[3] == 0x32);
    let data = protocol::encode_packet(desktop);
    assert(data.len() >= HEADER_LEN && data[3] == 0x32);
    assert(data.take(4)[3] == 0x32);
    assert(magic()[3] == 0x31);
}

} // verus!
