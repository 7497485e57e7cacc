//! What a client says to a host, and what it makes of what the host says.

use crate::client;
use crate::client::{ClientActionView, ClientError, ClientMetrics, ClientReport, ClientView};
use crate::clock;
use crate::config::{SessionConfig, VideoCodec};
use crate::host_laws;
use crate::protocol;
use crate::protocol::{AudioFrameView, CursorPosition, PacketView, ServerStats};
use crate::reassembly;
use crate::viewing_laws;
use vstd::prelude::*;

verus! {

/// No frame has been waiting for its next fragment for more than 50 milliseconds.
pub open spec fn nothing_stale(c: ClientView, now: u64) -> bool {
    c.reassembler.max_age == 50_000_000 && forall|id: u64| #[trigger]
        c.reassembler.frames.contains_key(id) ==> clock::age(
            now,
            c.reassembler.frames[id].last_updated,
        ) <= 50_000_000
}

proof fn lemma_nothing_stale(c: ClientView, now: u64)
    requires
        nothing_stale(c, now),
    ensures
        client::stale_given_up(c, now) == c,
{
    assert(reassembly::expired(c.reassembler, now).frames =~= c.reassembler.frames);
}

/// A client that is not let in yet says hello every 400 milliseconds: once as hosts understand
/// it that know only standard datagrams, and once with the largest datagrams that it can take.
pub proof fn clients_say_hello(c: ClientView, now: u64)
    requires
        !c.accepted,
        nothing_stale(c, now),
    ensures
        client::prepared(c, false, now) == if c.last_hello is Some && clock::age(
            now,
            c.last_hello->0,
        ) < 400_000_000 {
            c
        } else {
            ClientView {
                actions: c.actions.push(
                    ClientActionView::Send(
                        protocol::encode_packet(PacketView::Hello { max_datagram_size: 1400 }),
                    ),
                ).push(
                    ClientActionView::SendOrStop(
                        protocol::encode_packet(PacketView::Hello { max_datagram_size: 8192 }),
                    ),
                ),
                last_hello: Some(now),
                ..c
            }
        },
{
    lemma_nothing_stale(c, now);
}

/// A client that is let in sends a ping every second, each with a number of its own, and
/// remembers when.
pub proof fn clients_send_pings(c: ClientView, now: u64)
    requires
        c.accepted,
        nothing_stale(c, now),
        c.ping_sent.dom().finite(),
        c.ping_sent.len() < 4,
    ensures
        client::prepared(c, false, now) == if c.last_ping is Some && clock::age(
            now,
            c.last_ping->0,
        ) < 1_000_000_000 {
            c
        } else {
            ClientView {
                actions: c.actions.push(
                    ClientActionView::Send(protocol::encode_packet(PacketView::Ping(c.ping_id))),
                ),
                ping_sent: c.ping_sent.insert(c.ping_id, now),
                ping_id: c.ping_id.wrapping_add(1),
                last_ping: Some(now),
                ..c
            }
        },
{
    lemma_nothing_stale(c, now);
    assert(c.ping_sent.insert(c.ping_id, now).len() <= 4);
}

/// When frames were given up because their fragments did not come, or the decoder could not go
/// on, the decoder starts anew, and a client that is let in asks for a keyframe.
pub proof fn clients_ask_for_keyframes(c: ClientView, now: u64)
    requires
        c.accepted,
        nothing_stale(c, now),
        c.last_ping is Some && clock::age(now, c.last_ping->0) < 1_000_000_000,
    ensures
        ({
            let d = client::prepared(c, true, now);
            &&& d.queue.frames.len() == 0
            &&& d.queue.waiting_for_keyframe
            &&& d.queue.generation == c.queue.generation.wrapping_add(1)
            &&& d.next_frame_id is None
            &&& d.waiting_for_keyframe
            &&& d.metrics == c.metrics
            &&& viewing_laws::keyframe_wanted(c, d, now)
        }),
{
    lemma_nothing_stale(c, now);
}

/// A frame whose fragments do not come within 50 milliseconds is lost: the decoder starts
/// anew, and a keyframe is asked for.
pub proof fn stale_frames_are_lost(c: ClientView, id: u64, now: u64)
    requires
        c.accepted,
        c.reassembler.max_age == 50_000_000,
        c.reassembler.frames.dom() == set![id],
        clock::age(now, c.reassembler.frames[id].last_updated) > 50_000_000,
        c.last_ping is Some && clock::age(now, c.last_ping->0) < 1_000_000_000,
    ensures
        ({
            let d = client::prepared(c, false, now);
            &&& !d.reassembler.frames.contains_key(id)
            &&& d.queue.frames.len() == 0
            &&& d.queue.waiting_for_keyframe
            &&& d.queue.generation == c.queue.generation.wrapping_add(1)
            &&& d.next_frame_id is None
            &&& d.waiting_for_keyframe
            &&& d.metrics.lost_frames == c.metrics.lost_frames.wrapping_add(1)
            &&& d.metrics.dropped_frames == c.metrics.dropped_frames.wrapping_add(1)
            &&& viewing_laws::keyframe_wanted(c, d, now)
        }),
{
    let left = reassembly::expired(c.reassembler, now).frames;
    assert(c.reassembler.frames.contains_key(id));
    assert(left.dom() =~= Set::empty());
    assert(c.reassembler.frames.len() == 1);
}

/// The time from a ping to its pong is the round trip.
pub proof fn round_trips_are_measured(c: ClientView, data: Seq<u8>, id: u64, sent: u64, now: u64)
    requires
        host_laws::carries(data, PacketView::Pong(id)),
        c.ping_sent.contains_key(id),
        c.ping_sent[id] == sent,
        sent <= now,
    ensures
        ({
            let d = client::datagram_received(c, data, now);
            &&& d.metrics.rtt_us == (now - sent) / 1000
            &&& d.ping_sent == c.ping_sent.remove(id)
            &&& d.last_server_response == now
            &&& d.actions == c.actions
            &&& d.queue == c.queue
        }),
{
}

/// A pong that nothing was sent for is no round trip.
pub proof fn unexpected_pongs_are_not_measured(c: ClientView, data: Seq<u8>, id: u64, now: u64)
    requires
        host_laws::carries(data, PacketView::Pong(id)),
        !c.ping_sent.contains_key(id),
    ensures
        ({
            let d = client::datagram_received(c, data, now);
            &&& d.metrics.rtt_us == c.metrics.rtt_us
            &&& d.ping_sent == c.ping_sent
            &&& d.actions == c.actions
        }),
{
    assert(c.ping_sent.remove(id) =~= c.ping_sent);
}

/// A ping of the host is answered with a pong of the same number.
pub proof fn clients_answer_pings(c: ClientView, data: Seq<u8>, id: u64, now: u64)
    requires
        host_laws::carries(data, PacketView::Ping(id)),
    ensures
        client::datagram_received(c, data, now).actions == c.actions.push(
            ClientActionView::Send(protocol::encode_packet(PacketView::Pong(id))),
        ),
        client::datagram_received(c, data, now).last_server_response == now,
{
}

/// Sound, the cursor and the host's measurements are passed on as they are, once the client is
/// let in.
pub proof fn what_the_host_shows_is_passed_on(
    c: ClientView,
    sound: Seq<u8>,
    frame: AudioFrameView,
    cursor: Seq<u8>,
    position: CursorPosition,
    measured: Seq<u8>,
    stats: ServerStats,
    now: u64,
)
    requires
        c.accepted,
        host_laws::carries(sound, PacketView::Audio(frame)),
        host_laws::carries(cursor, PacketView::CursorPosition(position)),
        host_laws::carries(measured, PacketView::ServerStats(stats)),
    ensures
        client::datagram_received(c, sound, now).actions == c.actions.push(
            ClientActionView::PlayAudio { sequence: frame.sequence, payload: frame.payload },
        ),
        client::datagram_received(c, cursor, now).actions == c.actions.push(
            ClientActionView::ShowCursor(position),
        ),
        client::datagram_received(c, measured, now).actions == c.actions.push(
            ClientActionView::ShowHostStats(stats),
        ),
        client::datagram_received(c, sound, now).last_server_response == now,
{
}

/// What is not a packet shows nothing but that bytes came in.
pub proof fn noise_is_ignored(c: ClientView, data: Seq<u8>, now: u64)
    requires
        protocol::parsed_packet(data) is Err,
    ensures
        client::datagram_received(c, data, now) == (ClientView {
            metrics: ClientMetrics {
                received_bytes: c.metrics.received_bytes.wrapping_add(data.len() as u64),
                ..c.metrics
            },
            ..c
        }),
{
}

/// A usable offer lets the client in: it starts the sound or learns that there is none, learns
/// the size of datagrams and pictures, is connected, and asks for a keyframe.
pub proof fn usable_offers_connect(c: ClientView, config: SessionConfig)
    requires
        !c.accepted,
        !c.audio_configured,
        config.video matches Some(video) && video.codec == VideoCodec::H264 && (video.datagram_size
            == 1400 || video.datagram_size == 8192),
    ensures
        ({
            let d = client::config_received(c, config);
            let video = config.video->0;
            &&& d.accepted
            &&& d.audio_configured
            &&& d.audio_config == config.audio
            &&& d.negotiated_datagram_size == video.datagram_size
            &&& d.actions == c.actions.push(
                match config.audio {
                    Some(audio) => ClientActionView::StartAudio(audio),
                    None => ClientActionView::NoAudio,
                },
            ).push(
                ClientActionView::TransportConfigured {
                    datagram_size: video.datagram_size as usize,
                },
            ).push(
                ClientActionView::VideoConfigured { width: video.width, height: video.height },
            ).push(ClientActionView::Connected).push(
                ClientActionView::Send(protocol::encode_packet(PacketView::VideoKeyframeRequest)),
            )
        }),
{
}

/// An offer that comes again does not start the sound or connect again.
pub proof fn repeated_offers_change_nothing(c: ClientView, config: SessionConfig)
    requires
        c.accepted,
        c.audio_configured,
        config.video matches Some(video) && video.codec == VideoCodec::H264 && (video.datagram_size
            == 1400 || video.datagram_size == 8192),
    ensures
        ({
            let d = client::config_received(c, config);
            let video = config.video->0;
            &&& d.accepted
            &&& d.audio_config == c.audio_config
            &&& d.queue == c.queue
            &&& d.negotiated_datagram_size == video.datagram_size
            &&& d.actions == c.actions.push(
                ClientActionView::TransportConfigured {
                    datagram_size: video.datagram_size as usize,
                },
            ).push(
                ClientActionView::VideoConfigured { width: video.width, height: video.height },
            )
        }),
{
}

/// An offer that cannot be used ends the session, and the user learns why.
pub proof fn unusable_offers_end_the_session(c: ClientView, config: SessionConfig)
    requires
        c.audio_configured,
        config.video matches Some(video) ==> video.codec != VideoCodec::H264 || (
        video.datagram_size != 1400 && video.datagram_size != 8192),
    ensures
        client::config_received(c, config) == (ClientView {
            actions: c.actions.push(
                ClientActionView::Failed(
                    match config.video {
                        None => ClientError::NoVideo,
                        Some(video) => if video.codec != VideoCodec::H264 {
                            ClientError::UnsupportedCodec(video.codec)
                        } else {
                            ClientError::UnsupportedDatagramSize(video.datagram_size)
                        },
                    },
                ),
            ).push(ClientActionView::Stop),
            ..c
        }),
{
}

/// A host that was heard of less than three seconds ago is there; one that was not is given
/// up: the client starts over.
pub proof fn hosts_are_given_up_after_three_seconds(c: ClientView, now: u64)
    requires
        c.accepted,
        clock::age(now, c.stats_started) < 1_000_000_000,
    ensures
        clock::age(now, c.last_server_response) < 3_000_000_000 ==> client::concluded(c, now) == c,
        clock::age(now, c.last_server_response) >= 3_000_000_000 ==> {
            let d = client::concluded(c, now);
            &&& !d.accepted
            &&& d.actions == c.actions.push(ClientActionView::Disconnected)
            &&& d.last_hello is None
            &&& d.last_server_response == now
            &&& d.reassembler.frames == Map::<u64, reassembly::PendingFrameView>::empty()
            &&& d.reassembler.completed == Seq::<u64>::empty()
            &&& d.queue.frames.len() == 0
            &&& d.queue.generation == c.queue.generation.wrapping_add(1)
            &&& d.waiting_for_keyframe
            &&& d.next_frame_id is None
        },
{
}

/// What was measured is shown once a second, and measured anew; the last round trip is kept.
pub proof fn measurements_are_shown_every_second(c: ClientView, now: u64)
    requires
        !c.accepted || clock::age(now, c.last_server_response) < 3_000_000_000,
    ensures
        ({
            let elapsed = clock::age(now, c.stats_started);
            let d = client::concluded(c, now);
            if elapsed < 1_000_000_000 {
                d == c
            } else {
                &&& d.actions == c.actions.push(
                    ClientActionView::ShowStats(
                        ClientReport { elapsed: elapsed as u64, metrics: c.metrics },
                    ),
                )
                &&& d.stats_started == now
                &&& d.metrics.received_bytes == 0
                &&& d.metrics.reassembled_frames == 0
                &&& d.metrics.dropped_frames == 0
                &&& d.metrics.lost_frames == 0
                &&& d.metrics.reassembly_us == 0
                &&& d.metrics.reassembly_samples == 0
                &&& d.metrics.jitter_us == 0
                &&& d.metrics.jitter_samples == 0
                &&& d.metrics.rtt_us == c.metrics.rtt_us
                &&& d.queue == c.queue
                &&& d.accepted == c.accepted
            }
        }),
{
}

/// A client that has not been let in asks nobody for a keyframe, whatever it gives up.
pub proof fn keyframes_are_asked_of_hosts_alone(c: ClientView, now: u64)
    requires
        !c.accepted,
    ensures
        client::stale_given_up(c, now).last_keyframe_request == c.last_keyframe_request,
        client::stale_given_up(c, now).actions == c.actions,
{
}

} // verus!
