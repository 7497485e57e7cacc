//! The side of the command line tool that plays: it greets a recording server, keeps the
//! connection alive, and plays what comes.

use crate::clock;
use crate::clock::nanos_since;
use crate::protocol::{ClipboardChunk, ClipboardChunkView};
use crate::protocol_v1;
use crate::protocol_v1::{Packet, PacketView};
use crate::record::DISCONNECT_TIMEOUT;
use crate::text::same_text;
use vstd::prelude::*;

verus! {

/// How many nanoseconds to wait for the config before greeting again.
pub const HELLO_INTERVAL: u64 = 400_000_000;

/// How many nanoseconds lie between two pings.
pub const PING_INTERVAL: u64 = 1_000_000_000;

/// How many nanoseconds to wait before a server that is gone is tried again.
pub const RETRY_DELAY: u64 = 5_000_000_000;

/// What to do about a datagram.
#[derive(Debug, PartialEq, Eq)]
pub enum ListenEvent<'a> {
    Nothing,
    /// It is not a packet.
    Invalid,
    /// The config, as JSON: start to play.
    Configure(&'a [u8]),
    /// Sound to play.
    Play(&'a [u8]),
    /// Part of the server's clipboard.
    Clipboard(ClipboardChunk<'a>),
}

/// What to do about a datagram.
#[verifier::ext_equal]
pub enum ListenEventView {
    Nothing,
    Invalid,
    Configure(Seq<u8>),
    Play(Seq<u8>),
    Clipboard(ClipboardChunkView),
}

impl<'a> View for ListenEvent<'a> {
    type V = ListenEventView;

    open spec fn view(&self) -> ListenEventView {
        match self {
            ListenEvent::Nothing => ListenEventView::Nothing,
            ListenEvent::Invalid => ListenEventView::Invalid,
            ListenEvent::Configure(json) => ListenEventView::Configure(json@),
            ListenEvent::Play(payload) => ListenEventView::Play(payload@),
            ListenEvent::Clipboard(chunk) => ListenEventView::Clipboard(chunk@),
        }
    }
}

/// What a listener knows.
#[derive(Clone, Copy, Debug, PartialEq, Eq, Structural)]
pub struct Listener {
    /// The server has sent its config.
    pub configured: bool,
    /// When the server was heard of last; at first, when the listener was made.
    pub last_seen: u64,
    /// When a hello or a ping was sent last.
    pub last_sent: Option<u64>,
    pub next_ping: u64,
}

/// How many nanoseconds lie between two datagrams to the server.
pub open spec fn sending_interval(l: Listener) -> u64 {
    if l.configured {
        PING_INTERVAL
    } else {
        HELLO_INTERVAL
    }
}

/// Something has to be sent.
pub open spec fn sending_due(l: Listener, now: u64) -> bool {
    match l.last_sent {
        None => true,
        Some(last) => clock::age(now, last) >= sending_interval(l),
    }
}

/// What the listener sends next.
pub open spec fn greeting(l: Listener) -> PacketView {
    if l.configured {
        PacketView::Ping(l.next_ping)
    } else {
        PacketView::Hello
    }
}

/// What the listener does about a datagram, and what it knows then.
pub open spec fn listen_received(l: Listener, data: Seq<u8>, now: u64) -> (
    Listener,
    ListenEventView,
) {
    let heard = Listener { last_seen: now, ..l };
    match protocol_v1::parsed_packet(data) {
        Err(_) => (l, ListenEventView::Invalid),
        Ok(PacketView::Config(json)) => if l.configured {
            (heard, ListenEventView::Nothing)
        } else {
            (
                Listener { configured: true, last_sent: None, ..heard },
                ListenEventView::Configure(json),
            )
        },
        Ok(PacketView::Audio(payload)) => if l.configured {
            (heard, ListenEventView::Play(payload))
        } else {
            (heard, ListenEventView::Nothing)
        },
        Ok(PacketView::Clipboard(chunk)) => (heard, ListenEventView::Clipboard(chunk)),
        Ok(_) => (heard, ListenEventView::Nothing),
    }
}

/// The server has not been heard of for too long.
pub open spec fn server_silent(l: Listener, now: u64) -> bool {
    clock::age(now, l.last_seen) >= DISCONNECT_TIMEOUT
}

impl Listener {
    pub fn new(now: u64) -> (listener: Listener)
        ensures
            listener == (Listener {
                configured: false,
                last_seen: now,
                last_sent: None,
                next_ping: 0,
            }),
    {
        Listener { configured: false, last_seen: now, last_sent: None, next_ping: 0 }
    }

    /// The datagram to send now, if any.
    pub fn poll(&mut self, now: u64) -> (datagram: Option<Vec<u8>>)
        ensures
            if sending_due(*old(self), now) {
                &&& datagram matches Some(datagram)
                &&& datagram@ == protocol_v1::encode_packet(greeting(*old(self)))
                &&& *final(self) == (Listener {
                    last_sent: Some(now),
                    next_ping: if old(self).configured {
                        old(self).next_ping.wrapping_add(1)
                    } else {
                        old(self).next_ping
                    },
                    ..*old(self)
                })
            } else {
                datagram is None && *final(self) == *old(self)
            },
    {
        let due = match self.last_sent {
            None => true,
            Some(last) => {
                let interval: u64 = if self.configured {
                    PING_INTERVAL
                } else {
                    HELLO_INTERVAL
                };
                nanos_since(now, last) >= interval
            },
        };
        if !due {
            return None;
        }
        self.last_sent = Some(now);
        let mut datagram: Vec<u8> = Vec::new();
        if self.configured {
            Packet::Ping(self.next_ping).encode(&mut datagram);
            self.next_ping = self.next_ping.wrapping_add(1);
        } else {
            Packet::Hello.encode(&mut datagram);
        }
        Some(datagram)
    }

    /// What to do about a datagram of the server.
    pub fn receive<'a>(&mut self, data: &'a [u8], now: u64) -> (event: ListenEvent<'a>)
        ensures
            (*final(self), event@) == listen_received(*old(self), data@, now),
    {
        let packet = match Packet::try_from(data) {
            Ok(packet) => packet,
            Err(_) => return ListenEvent::Invalid,
        };
        self.last_seen = now;
        match packet {
            Packet::Config(json) => {
                if self.configured {
                    return ListenEvent::Nothing;
                }
                self.configured = true;
                self.last_sent = None;
                ListenEvent::Configure(json)
            },
            Packet::Audio(payload) => {
                if self.configured {
                    ListenEvent::Play(payload)
                } else {
                    ListenEvent::Nothing
                }
            },
            Packet::Clipboard(chunk) => ListenEvent::Clipboard(chunk),
            _ => ListenEvent::Nothing,
        }
    }

    /// Whether the server is gone. It is to be tried again after `RETRY_DELAY`.
    pub fn server_lost(&self, now: u64) -> (lost: bool)
        ensures
            lost == server_silent(*self, now),
    {
        nanos_since(now, self.last_seen) >= DISCONNECT_TIMEOUT
    }
}

/// After an answer the next ping is due while the server still counts as present.
pub proof fn answered_pings_keep_the_connection(
    l: Listener,
    data: Seq<u8>,
    id: u64,
    now: u64,
    later: u64,
)
    requires
        l.configured,
        l.last_sent matches Some(sent) && sent <= now,
        protocol_v1::parsed_packet(data) == Ok::<_, protocol_v1::PacketParseError>(
            PacketView::Pong(id),
        ),
        PING_INTERVAL <= clock::age(later, now) < DISCONNECT_TIMEOUT,
    ensures
        ({
            let after = listen_received(l, data, now).0;
            sending_due(after, later) && !server_silent(after, later)
        }),
{
}

/// A silent server is given up, whatever else comes that is not a packet.
pub proof fn silent_servers_are_given_up(l: Listener, data: Seq<u8>, now: u64)
    requires
        clock::age(now, l.last_seen) >= DISCONNECT_TIMEOUT,
        protocol_v1::parsed_packet(data) is Err,
    ensures
        server_silent(l, now),
        server_silent(listen_received(l, data, now).0, now),
{
}

/// A greeted server's config makes the listener ready to play, once.
pub proof fn configs_are_used_once(l: Listener, json: Seq<u8>, again: Seq<u8>, now: u64)
    requires
        !l.configured,
    ensures
        ({
            let first = protocol_v1::encode_packet(PacketView::Config(json));
            let second = protocol_v1::encode_packet(PacketView::Config(again));
            let (after, event) = listen_received(l, first, now);
            &&& event == ListenEventView::Configure(json)
            &&& after.configured
            &&& listen_received(after, second, now).1 == ListenEventView::Nothing
        }),
{
    protocol_v1::packets_round_trip(PacketView::Config(json));
    protocol_v1::packets_round_trip(PacketView::Config(again));
}

/// Notices when the machine plays sound on another device.
pub struct DeviceWatch {
    last: String,
}

impl DeviceWatch {
    pub closed spec fn last(&self) -> Seq<char> {
        self.last@
    }

    /// Starts with a device; with an empty name if there is none.
    pub fn new(name: Option<String>) -> (watch: DeviceWatch)
        ensures
            watch.last() == match name {
                Some(name) => name@,
                None => Seq::empty(),
            },
    {
        match name {
            Some(name) => DeviceWatch { last: name },
            None => DeviceWatch { last: String::new() },
        }
    }

    /// Whether the device is another one than before. While there is none, nothing is.
    pub fn observe(&mut self, name: Option<String>) -> (changed: bool)
        ensures
            changed == (name is Some && name->0@ != old(self).last()),
            final(self).last() == if changed {
                name->0@
            } else {
                old(self).last()
            },
    {
        match name {
            Some(name) => {
                if same_text(name.as_str(), self.last.as_str()) {
                    return false;
                }
                self.last = name;
                true
            },
            None => false,
        }
    }
}

} // verus!
