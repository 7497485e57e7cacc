//! What the two command line tools promise each other.

use crate::clock;
use crate::listen;
use crate::listen::{DeviceWatch, ListenEventView, Listener};
use crate::peer::PeerAddr;
use crate::protocol::ClipboardChunkView;
use crate::protocol_v1;
use crate::protocol_v1::{PacketParseError, PacketView};
use crate::record;
use crate::record::{
    AttemptStep, EncodeAttempts, OpusReply, RecordReplyView, RecordServer, RecordView,
};
use vstd::prelude::*;

verus! {

/// The datagram carries the packet.
pub open spec fn carries(data: Seq<u8>, packet: PacketView) -> bool {
    protocol_v1::parsed_packet(data) == Ok::<PacketView, PacketParseError>(packet)
}

/// A recording sends the config that it was made with.
pub proof fn recordings_send_their_config(config: &[u8], server: RecordServer)
    requires
        call_ensures(RecordServer::new, (config,), server),
    ensures
        carries(server@.config, PacketView::Config(config@)),
        server@.client is None,
{
    protocol_v1::packets_round_trip(PacketView::Config(config@));
}

/// Whoever says hello first is the client, gets the config, and the sound starts. A client that
/// says hello again gets the config again.
pub proof fn the_first_to_say_hello_is_the_client(
    s: RecordView,
    data: Seq<u8>,
    from: PeerAddr,
    now: u64,
)
    requires
        carries(data, PacketView::Hello),
        s.client is None || s.client == Some(from),
    ensures
        record::record_received(s, data, from, now) == (
            RecordView { config: s.config, client: Some(from), last_seen: now },
            if s.client is None {
                RecordReplyView::Connect(s.config)
            } else {
                RecordReplyView::Send(s.config)
            },
        ),
{
}

/// A ping is answered with a pong of the same number, and keeps the client connected; without
/// a client everybody's is answered.
pub proof fn recordings_answer_pings(
    s: RecordView,
    data: Seq<u8>,
    id: u64,
    from: PeerAddr,
    now: u64,
)
    requires
        carries(data, PacketView::Ping(id)),
        s.client is None || s.client == Some(from),
    ensures
        ({
            let (after, reply) = record::record_received(s, data, from, now);
            &&& reply matches RecordReplyView::Send(pong) && carries(pong, PacketView::Pong(id))
            &&& after.client == s.client
            &&& s.client is Some ==> after.last_seen == now
            &&& s.client is None ==> after == s
        }),
{
    protocol_v1::packets_round_trip(PacketView::Pong(id));
}

/// The clipboard of the client is passed on, and of nobody else.
pub proof fn recordings_pass_on_the_clipboard(
    s: RecordView,
    data: Seq<u8>,
    chunk: ClipboardChunkView,
    from: PeerAddr,
    now: u64,
)
    requires
        carries(data, PacketView::Clipboard(chunk)),
    ensures
        s.client == Some(from) ==> record::record_received(s, data, from, now) == (
            RecordView { last_seen: now, ..s },
            RecordReplyView::Clipboard(chunk),
        ),
        s.client != Some(from) ==> record::record_received(s, data, from, now).0 == s
            && record::record_received(s, data, from, now).1 !is Clipboard,
{
}

/// A client is gone after three seconds of silence, not before, and makes room for the next.
pub proof fn clients_are_given_up_after_three_seconds(now: u64, gone: bool)
    ensures
        forall|server: &mut RecordServer| #[trigger]
            call_ensures(RecordServer::expire, (server, now), gone) ==> {
                let s = (*server)@;
                &&& gone == (s.client is Some && clock::age(now, s.last_seen) >= 3_000_000_000)
                &&& gone ==> (*final(server))@.client is None && (*final(server))@.config
                    == s.config
                &&& !gone ==> (*final(server))@ == s
            },
        forall|server: &mut RecordServer| #[trigger]
            call_ensures(RecordServer::attend, (server, now), ()) ==> (*final(server))@
                == (RecordView { last_seen: now, ..(*server)@ }),
        forall|server: &mut RecordServer| #[trigger]
            call_ensures(RecordServer::disconnect, (server,), ()) ==> (*final(server))@
                == (RecordView { client: None, ..(*server)@ }),
{
}

/// What Opus made is sent; where it had too little room it gets twice as much, and where it
/// failed another try, up to three times. The room is 2048 bytes again after that.
pub proof fn attempts_are_made(a: EncodeAttempts, len: usize)
    requires
        a.output_bytes <= usize::MAX / 2,
        a.retries < 1000,
    ensures
        record::attempted(a, OpusReply::Encoded(len)) == (
            EncodeAttempts { output_bytes: 2048, retries: a.retries },
            AttemptStep::Send(len),
        ),
        record::attempted(a, OpusReply::BufferTooSmall) == (
            EncodeAttempts { output_bytes: (2 * a.output_bytes) as usize, retries: a.retries },
            AttemptStep::Again,
        ),
        record::attempted(a, OpusReply::Failed) == (
            EncodeAttempts { retries: (a.retries + 1) as usize, ..a },
            if a.retries < 2 {
                AttemptStep::Again
            } else {
                AttemptStep::GiveUp
            },
        ),
{
}

/// Until it has the config a listener says hello every 400 milliseconds, and then sends a ping
/// every second, each with a number of its own.
pub proof fn listeners_keep_in_touch(now: u64, datagram: Option<Vec<u8>>)
    ensures
        forall|listener: &mut Listener| #[trigger]
            call_ensures(Listener::poll, (listener, now), datagram) ==> {
                let l = *listener;
                let pause: int = if l.configured {
                    1_000_000_000
                } else {
                    400_000_000
                };
                let due = l.last_sent is None || clock::age(now, l.last_sent->0) >= pause;
                if due {
                    &&& datagram is Some
                    &&& carries(
                        datagram->0@,
                        if l.configured {
                            PacketView::Ping(l.next_ping)
                        } else {
                            PacketView::Hello
                        },
                    )
                    &&& final(listener).last_sent == Some(now)
                    &&& l.configured ==> final(listener).next_ping == l.next_ping.wrapping_add(1)
                    &&& final(listener).configured == l.configured
                    &&& final(listener).last_seen == l.last_seen
                } else {
                    datagram is None && *final(listener) == l
                }
            },
{
    assert forall|id: u64| carries(
        #[trigger] protocol_v1::encode_packet(PacketView::Ping(id)),
        PacketView::Ping(id),
    ) by {
        protocol_v1::packets_round_trip(PacketView::Ping(id));
    }
    protocol_v1::packets_round_trip(PacketView::Hello);
}

/// Sound is played once the config is there, and not before; every packet shows that the
/// server is there, and nothing else does.
pub proof fn listeners_play_what_comes(l: Listener, data: Seq<u8>, payload: Seq<u8>, now: u64)
    requires
        carries(data, PacketView::Audio(payload)),
    ensures
        listen::listen_received(l, data, now) == (
            Listener { last_seen: now, ..l },
            if l.configured {
                ListenEventView::Play(payload)
            } else {
                ListenEventView::Nothing
            },
        ),
{
}

/// The config makes a listener ready, and makes it send a ping at once.
pub proof fn configs_make_listeners_ready(l: Listener, data: Seq<u8>, json: Seq<u8>, now: u64)
    requires
        carries(data, PacketView::Config(json)),
    ensures
        !l.configured ==> listen::listen_received(l, data, now) == (
            Listener { configured: true, last_seen: now, last_sent: None, next_ping: l.next_ping },
            ListenEventView::Configure(json),
        ),
        l.configured ==> listen::listen_received(l, data, now) == (
            Listener { last_seen: now, ..l },
            ListenEventView::Nothing,
        ),
{
}

/// The clipboard of the server is passed on.
pub proof fn listeners_pass_on_the_clipboard(
    l: Listener,
    data: Seq<u8>,
    chunk: ClipboardChunkView,
    now: u64,
)
    requires
        carries(data, PacketView::Clipboard(chunk)),
    ensures
        listen::listen_received(l, data, now) == (
            Listener { last_seen: now, ..l },
            ListenEventView::Clipboard(chunk),
        ),
{
}

/// A pong shows that the server is there; what is not a packet shows nothing.
pub proof fn pongs_keep_listeners_waiting(
    l: Listener,
    data: Seq<u8>,
    id: u64,
    noise: Seq<u8>,
    now: u64,
)
    requires
        carries(data, PacketView::Pong(id)),
        protocol_v1::parsed_packet(noise) is Err,
    ensures
        listen::listen_received(l, data, now) == (
            Listener { last_seen: now, ..l },
            ListenEventView::Nothing,
        ),
        listen::listen_received(l, noise, now) == (l, ListenEventView::Invalid),
{
}

/// A server is gone after three seconds of silence, not before.
pub proof fn servers_are_given_up_after_three_seconds(l: Listener, now: u64, lost: bool)
    requires
        call_ensures(Listener::server_lost, (&l, now), lost),
    ensures
        lost == (clock::age(now, l.last_seen) >= 3_000_000_000),
{
}

/// A device is another one if it has another name than the last one that there was.
pub proof fn other_devices_are_noticed(name: Option<String>, changed: bool)
    ensures
        forall|watch: &mut DeviceWatch| #[trigger]
            call_ensures(DeviceWatch::observe, (watch, name), changed) ==> {
                &&& changed == (name is Some && name->0@ != (*watch).last())
                &&& changed ==> (*final(watch)).last() == name->0@
                &&& !changed ==> (*final(watch)).last() == (*watch).last()
            },
{
}

/// Whatever the client sends keeps it, as long as it can be read.
pub proof fn clients_that_send_are_kept(s: RecordView, data: Seq<u8>, from: PeerAddr, now: u64)
    requires
        s.client == Some(from),
    ensures
        ({
            let after = record::record_received(s, data, from, now).0;
            &&& protocol_v1::parsed_packet(data) is Ok ==> after == (RecordView {
                last_seen: now,
                ..s
            })
            &&& protocol_v1::parsed_packet(data) is Err ==> after == s
        }),
{
}

} // verus!
