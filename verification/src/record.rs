//! The side of the command line tool that records: it waits for a client, and then sends
//! it sound until the client falls silent.

use crate::audio::{MAX_RETRIES, OUTPUT_BYTES};
use crate::clock;
use crate::clock::nanos_since;
use crate::peer::PeerAddr;
use crate::protocol::{ClipboardChunk, ClipboardChunkView};
use crate::protocol_v1;
use crate::protocol_v1::{Packet, PacketView};
use vstd::prelude::*;

verus! {

/// After so many nanoseconds without a datagram the other end is gone.
pub const DISCONNECT_TIMEOUT: u64 = 3_000_000_000;

/// What to do about a datagram.
#[derive(Debug, PartialEq, Eq)]
pub enum RecordReply<'a> {
    Nothing,
    /// It is not a packet.
    Invalid,
    /// It is not from the client.
    Stranger,
    /// Send this back.
    Send(Vec<u8>),
    /// Send this back, and start to send sound.
    Connect(Vec<u8>),
    /// Part of the client's clipboard.
    Clipboard(ClipboardChunk<'a>),
}

/// What to do about a datagram.
#[verifier::ext_equal]
pub enum RecordReplyView {
    Nothing,
    Invalid,
    Stranger,
    Send(Seq<u8>),
    Connect(Seq<u8>),
    Clipboard(ClipboardChunkView),
}

impl<'a> View for RecordReply<'a> {
    type V = RecordReplyView;

    open spec fn view(&self) -> RecordReplyView {
        match self {
            RecordReply::Nothing => RecordReplyView::Nothing,
            RecordReply::Invalid => RecordReplyView::Invalid,
            RecordReply::Stranger => RecordReplyView::Stranger,
            RecordReply::Send(datagram) => RecordReplyView::Send(datagram@),
            RecordReply::Connect(datagram) => RecordReplyView::Connect(datagram@),
            RecordReply::Clipboard(chunk) => RecordReplyView::Clipboard(chunk@),
        }
    }
}

/// What a recording server knows.
#[verifier::ext_equal]
pub struct RecordView {
    /// The datagram that tells a client how the sound is recorded.
    pub config: Seq<u8>,
    pub client: Option<PeerAddr>,
    /// When the client was heard of last.
    pub last_seen: u64,
}

pub struct RecordServer {
    config: Vec<u8>,
    client: Option<PeerAddr>,
    last_seen: u64,
}

impl View for RecordServer {
    type V = RecordView;

    closed spec fn view(&self) -> RecordView {
        RecordView { config: self.config@, client: self.client, last_seen: self.last_seen }
    }
}

/// The answer to a ping.
pub open spec fn pong(id: u64) -> Seq<u8> {
    protocol_v1::encode_packet(PacketView::Pong(id))
}

/// The server has heard of its client.
pub open spec fn heard(s: RecordView, now: u64) -> RecordView {
    RecordView { last_seen: now, ..s }
}

/// What a server does about a datagram, and what it knows then.
pub open spec fn record_received(s: RecordView, data: Seq<u8>, from: PeerAddr, now: u64) -> (
    RecordView,
    RecordReplyView,
) {
    let packet = protocol_v1::parsed_packet(data);
    match s.client {
        None => match packet {
            Err(_) => (s, RecordReplyView::Invalid),
            Ok(PacketView::Hello) => (
                RecordView { client: Some(from), last_seen: now, ..s },
                RecordReplyView::Connect(s.config),
            ),
            Ok(PacketView::Ping(id)) => (s, RecordReplyView::Send(pong(id))),
            Ok(_) => (s, RecordReplyView::Nothing),
        },
        Some(client) => if from != client {
            (s, RecordReplyView::Stranger)
        } else {
            match packet {
                Err(_) => (s, RecordReplyView::Invalid),
                Ok(PacketView::Hello) => (heard(s, now), RecordReplyView::Send(s.config)),
                Ok(PacketView::Ping(id)) => (heard(s, now), RecordReplyView::Send(pong(id))),
                Ok(PacketView::Clipboard(chunk)) => (
                    heard(s, now),
                    RecordReplyView::Clipboard(chunk),
                ),
                Ok(_) => (heard(s, now), RecordReplyView::Nothing),
            }
        },
    }
}

/// The client has not been heard of for too long.
pub open spec fn client_silent(s: RecordView, now: u64) -> bool {
    s.client is Some && clock::age(now, s.last_seen) >= DISCONNECT_TIMEOUT
}

fn pong_for(id: u64) -> (datagram: Vec<u8>)
    ensures
        datagram@ == pong(id),
{
    let mut datagram: Vec<u8> = Vec::new();
    Packet::Pong(id).encode(&mut datagram);
    datagram
}

impl RecordServer {
    /// A server that sends this config, as JSON, to its clients.
    pub fn new(config_json: &[u8]) -> (server: RecordServer)
        ensures
            server@ == (RecordView {
                config: protocol_v1::encode_packet(PacketView::Config(config_json@)),
                client: None,
                last_seen: 0,
            }),
    {
        let mut config: Vec<u8> = Vec::new();
        Packet::Config(config_json).encode(&mut config);
        RecordServer { config, client: None, last_seen: 0 }
    }

    pub fn client(&self) -> (client: Option<PeerAddr>)
        ensures
            client == self@.client,
    {
        self.client
    }

    /// The client is waited for from now on.
    pub fn attend(&mut self, now: u64)
        ensures
            final(self)@ == heard(old(self)@, now),
    {
        self.last_seen = now;
    }

    /// What to do about a datagram.
    pub fn receive<'a>(&mut self, data: &'a [u8], from: PeerAddr, now: u64) -> (reply: RecordReply<
        'a,
    >)
        ensures
            (final(self)@, reply@) == record_received(old(self)@, data@, from, now),
    {
        match self.client {
            None => match Packet::try_from(data) {
                Err(_) => RecordReply::Invalid,
                Ok(Packet::Hello) => {
                    self.client = Some(from);
                    self.last_seen = now;
                    RecordReply::Connect(self.config.clone())
                },
                Ok(Packet::Ping(id)) => RecordReply::Send(pong_for(id)),
                Ok(_) => RecordReply::Nothing,
            },
            Some(client) => {
                if from != client {
                    return RecordReply::Stranger;
                }
                let packet = match Packet::try_from(data) {
                    Ok(packet) => packet,
                    Err(_) => return RecordReply::Invalid,
                };
                self.last_seen = now;
                match packet {
                    Packet::Hello => RecordReply::Send(self.config.clone()),
                    Packet::Ping(id) => RecordReply::Send(pong_for(id)),
                    Packet::Clipboard(chunk) => RecordReply::Clipboard(chunk),
                    _ => RecordReply::Nothing,
                }
            },
        }
    }

    /// Whether the client is gone, which is then waited for anew.
    pub fn expire(&mut self, now: u64) -> (gone: bool)
        ensures
            gone == client_silent(old(self)@, now),
            final(self)@ == if gone {
                RecordView { client: None, ..old(self)@ }
            } else {
                old(self)@
            },
    {
        if self.client.is_some() && nanos_since(now, self.last_seen) >= DISCONNECT_TIMEOUT {
            self.client = None;
            return true;
        }
        false
    }

    /// Nothing more can be received of the client.
    pub fn disconnect(&mut self)
        ensures
            final(self)@ == (RecordView { client: None, ..old(self)@ }),
    {
        self.client = None;
    }
}

/// While there is a client, nobody else is answered, and nobody else keeps it connected.
pub proof fn clients_are_served_alone(s: RecordView, data: Seq<u8>, from: PeerAddr, now: u64)
    requires
        s.client is Some,
        s.client != Some(from),
    ensures
        record_received(s, data, from, now) == (s, RecordReplyView::Stranger),
{
}

/// A hello gets the config, whether or not its sender is the client already.
pub proof fn hellos_get_the_config(s: RecordView, from: PeerAddr, now: u64)
    requires
        s.client is None || s.client == Some(from),
    ensures
        ({
            let hello = protocol_v1::encode_packet(PacketView::Hello);
            let (after, reply) = record_received(s, hello, from, now);
            &&& after.client == Some(from)
            &&& reply == RecordReplyView::Connect(s.config) || reply == RecordReplyView::Send(
                s.config,
            )
            &&& !client_silent(after, now)
        }),
{
    protocol_v1::packets_round_trip(PacketView::Hello);
}

/// What Opus made of a frame.
#[derive(Clone, Copy, Debug, PartialEq, Eq, Structural)]
pub enum OpusReply {
    /// So many bytes.
    Encoded(usize),
    BufferTooSmall,
    Failed,
}

/// What to do about the frame.
#[derive(Clone, Copy, Debug, PartialEq, Eq, Structural)]
pub enum AttemptStep {
    /// Send so many bytes.
    Send(usize),
    /// Try again, with as many bytes as the attempts then say.
    Again,
    /// Drop the frame.
    GiveUp,
}

/// The attempts to encode a frame.
#[derive(Clone, Copy, Debug, PartialEq, Eq, Structural)]
pub struct EncodeAttempts {
    /// The bytes that Opus gets to write to.
    pub output_bytes: usize,
    pub retries: usize,
}

/// What to do after an attempt, and what the next one works with.
pub open spec fn attempted(a: EncodeAttempts, reply: OpusReply) -> (EncodeAttempts, AttemptStep) {
    match reply {
        OpusReply::Encoded(len) => (
            EncodeAttempts { output_bytes: OUTPUT_BYTES, ..a },
            AttemptStep::Send(len),
        ),
        OpusReply::BufferTooSmall => (
            EncodeAttempts { output_bytes: (a.output_bytes * 2) as usize, ..a },
            AttemptStep::Again,
        ),
        OpusReply::Failed => (
            EncodeAttempts { retries: (a.retries + 1) as usize, ..a },
            if a.retries + 1 >= MAX_RETRIES {
                AttemptStep::GiveUp
            } else {
                AttemptStep::Again
            },
        ),
    }
}

impl EncodeAttempts {
    pub fn new() -> (attempts: EncodeAttempts)
        ensures
            attempts == (EncodeAttempts { output_bytes: OUTPUT_BYTES, retries: 0 }),
    {
        EncodeAttempts { output_bytes: OUTPUT_BYTES, retries: 0 }
    }

    /// The next frame has attempts of its own.
    pub fn begin_frame(&mut self)
        ensures
            *final(self) == (EncodeAttempts { retries: 0, ..*old(self) }),
    {
        self.retries = 0;
    }

    /// What to do after an attempt.
    pub fn step(&mut self, reply: OpusReply) -> (step: AttemptStep)
        requires
            reply is BufferTooSmall ==> old(self).output_bytes * 2 <= usize::MAX,
            reply is Failed ==> old(self).retries < usize::MAX,
        ensures
            (*final(self), step) == attempted(*old(self), reply),
    {
        match reply {
            OpusReply::Encoded(len) => {
                self.output_bytes = OUTPUT_BYTES;
                AttemptStep::Send(len)
            },
            OpusReply::BufferTooSmall => {
                self.output_bytes = self.output_bytes * 2;
                AttemptStep::Again
            },
            OpusReply::Failed => {
                self.retries = self.retries + 1;
                if self.retries >= MAX_RETRIES {
                    AttemptStep::GiveUp
                } else {
                    AttemptStep::Again
                }
            },
        }
    }
}

/// A frame is dropped at the third failure, not before.
pub proof fn frames_get_three_attempts(a: EncodeAttempts)
    requires
        a.retries == 0,
    ensures
        ({
            let (b, first) = attempted(a, OpusReply::Failed);
            let (c, second) = attempted(b, OpusReply::Failed);
            let (_, third) = attempted(c, OpusReply::Failed);
            &&& first == AttemptStep::Again
            &&& second == AttemptStep::Again
            &&& third == AttemptStep::GiveUp
        }),
{
}

} // verus!
