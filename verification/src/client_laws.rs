//! What a client promises, whatever arrives and whenever it does.

use crate::client;
use crate::client::{
    ClientActionView, ClientView, CONNECTION_TIMEOUT, KEYFRAME_RETRY_INTERVAL, MAX_PENDING_FRAMES,
    PINGS_REMEMBERED, STARTS_REMEMBERED, VIDEO_REORDER_WINDOW,
};
use crate::clock;
use crate::config::SessionConfig;
use crate::decode_queue;
use crate::decode_queue::{
    DecodeQueuePush, DecodeQueueView, ReceivedFrameView, VIDEO_DECODE_QUEUE_CAPACITY,
};
use crate::id_map;
use crate::host;
use crate::host::HostView;
use crate::protocol;
use crate::protocol::{PacketView, VideoFragmentView, JUMBO_DATAGRAM_SIZE};
use crate::protocol_laws;
use crate::reassembly;
use crate::reassembly::{ReassemblerView, COMPLETED_FRAMES_REMEMBERED};
use crate::video::VideoFrameView;
use crate::video_laws;
use vstd::prelude::*;
use vstd::utf8;

verus! {

/// Every queued frame is a keyframe or follows the frame before it.
pub open spec fn queue_in_order(frames: Seq<ReceivedFrameView>) -> bool {
    forall|i: int|
        0 < i < frames.len() ==> (#[trigger] frames[i]).frame.is_keyframe
            || frames[i].frame.frame_id == frames[i - 1].frame.frame_id.wrapping_add(1)
}

/// Frames that wait for an earlier one carry the number that they are kept under.
pub open spec fn completed_consistent(completed: Map<u64, ReceivedFrameView>) -> bool {
    forall|id: u64| #[trigger]
        completed.contains_key(id) ==> completed[id].frame.frame_id == id
}

/// The frame that is needed next follows the last queued one, unless it is there
/// already and is a keyframe.
pub open spec fn next_follows(c: ClientView) -> bool {
    c.next_frame_id is Some && c.queue.frames.len() > 0 ==> {
        let next = c.next_frame_id->0;
        ||| next == c.queue.frames.last().frame.frame_id.wrapping_add(1)
        ||| c.completed_frames.contains_key(next) && c.completed_frames[next].frame.is_keyframe
    }
}

/// The part of what a client knows that the order of the video rests on.
pub open spec fn chain_valid(c: ClientView) -> bool {
    &&& c.waiting_for_keyframe == (c.next_frame_id is None)
    &&& c.next_frame_id is None ==> c.completed_frames == Map::<u64, ReceivedFrameView>::empty()
    &&& c.completed_frames.dom().finite()
    &&& completed_consistent(c.completed_frames)
    &&& queue_in_order(c.queue.frames)
    &&& next_follows(c)
    &&& c.queue.frames.len() <= VIDEO_DECODE_QUEUE_CAPACITY
}

/// Everything that a client holds is bounded.
pub open spec fn memory_bounded(c: ClientView) -> bool {
    &&& c.completed_frames.len() < VIDEO_REORDER_WINDOW
    &&& c.ping_sent.dom().finite() && c.ping_sent.len() <= PINGS_REMEMBERED
    &&& c.reassembly_started.dom().finite() && c.reassembly_started.len() <= STARTS_REMEMBERED
    &&& reassembler_bounded(c.reassembler)
}

pub open spec fn reassembler_bounded(r: ReassemblerView) -> bool {
    &&& r.frames.dom().finite()
    &&& r.max_pending_frames == MAX_PENDING_FRAMES
    &&& r.frames.len() <= MAX_PENDING_FRAMES
    &&& r.completed.len() <= COMPLETED_FRAMES_REMEMBERED
}

/// What holds of a client between any two steps.
pub open spec fn client_valid(c: ClientView) -> bool {
    chain_valid(c) && memory_bounded(c)
}

/// A new client is valid.
pub proof fn new_clients_are_valid(now: u64)
    ensures
        client_valid(client::new_client(now)),
{
    let c = client::new_client(now);
    assert(c.completed_frames.len() == 0);
}

proof fn lemma_asked_valid(c: ClientView, now: u64)
    ensures
        client_valid(c) ==> client_valid(client::keyframe_asked(c, now)),
{
}

proof fn lemma_resynced_valid(c: ClientView)
    ensures
        chain_valid(client::resynced(c)),
        memory_bounded(c) ==> memory_bounded(client::resynced(c)),
{
    assert(client::resynced(c).completed_frames.len() == 0);
}

/// Taking out the smallest identifier keeps a map as small as it was.
proof fn lemma_capped_insert(held: Map<u64, u64>, id: u64, value: u64, limit: nat)
    requires
        held.dom().finite(),
        held.len() <= limit,
    ensures
        id_map::capped(held.insert(id, value), limit).dom().finite(),
        id_map::capped(held.insert(id, value), limit).len() <= limit,
        id_map::capped(id_map::with_default(held, id, value), limit).dom().finite(),
        id_map::capped(id_map::with_default(held, id, value), limit).len() <= limit,
{
    let more = held.insert(id, value);
    if more.len() > limit {
        lemma_smallest_exists(more);
    }
}

/// A finite map that is not empty has a smallest identifier.
proof fn lemma_smallest_exists<W>(held: Map<u64, W>)
    requires
        held.dom().finite(),
        held.len() > 0,
    ensures
        held.contains_key(id_map::smallest(held)),
        forall|other: u64| #[trigger]
            held.contains_key(other) ==> id_map::smallest(held) <= other,
    decreases held.len(),
{
    let some = held.dom().choose();
    assert(held.contains_key(some));
    let rest = held.remove(some);
    if rest.len() == 0 {
        assert(rest.dom() =~= Set::empty());
        assert forall|other: u64| #[trigger] held.contains_key(other) implies some <= other by {
            if other != some {
                assert(rest.dom().contains(other));
            }
        }
        assert(held.contains_key(some) && forall|other: u64| #[trigger]
            held.contains_key(other) ==> some <= other);
    } else {
        lemma_smallest_exists(rest);
        let first = id_map::smallest(rest);
        let best = if some <= first {
            some
        } else {
            first
        };
        assert forall|other: u64| #[trigger] held.contains_key(other) implies best <= other by {
            if other != some {
                assert(rest.contains_key(other));
            }
        }
        assert(held.contains_key(best));
    }
}

/// Whether a client is valid depends on these parts of it alone.
proof fn lemma_same_parts(c: ClientView, d: ClientView)
    requires
        client_valid(c),
        d.queue == c.queue,
        d.completed_frames == c.completed_frames,
        d.next_frame_id == c.next_frame_id,
        d.waiting_for_keyframe == c.waiting_for_keyframe,
        d.ping_sent.dom().finite() && d.ping_sent.len() <= PINGS_REMEMBERED,
        d.reassembly_started.dom().finite() && d.reassembly_started.len() <= STARTS_REMEMBERED,
        reassembler_bounded(d.reassembler),
    ensures
        client_valid(d),
{
}

proof fn lemma_stale_valid(c: ClientView, now: u64)
    requires
        client_valid(c),
    ensures
        client_valid(client::stale_given_up(c, now)),
{
    let reassembler = reassembly::expired(c.reassembler, now);
    assert(reassembler.frames.dom().subset_of(c.reassembler.frames.dom()));
    vstd::set_lib::lemma_len_subset(reassembler.frames.dom(), c.reassembler.frames.dom());
    let recent = id_map::recent::<u64>(
        c.reassembly_started,
        now,
        client::VIDEO_REASSEMBLY_AGE as u128,
    );
    assert(recent.dom().subset_of(c.reassembly_started.dom()));
    vstd::set_lib::lemma_len_subset(recent.dom(), c.reassembly_started.dom());
    let count = (c.reassembler.frames.len() - reassembler.frames.len()) as u64;
    let d = ClientView { reassembler, ..c };
    lemma_same_parts(c, d);
    let before = client::counted(ClientView { reassembly_started: recent, ..d }, count, count);
    lemma_same_parts(c, before);
    lemma_resynced_valid(before);
    lemma_asked_valid(client::resynced(before), now);
}

proof fn lemma_restart_valid(c: ClientView, now: u64)
    requires
        client_valid(c),
    ensures
        client_valid(client::decoder_restarted(c, now)),
{
    lemma_resynced_valid(c);
    lemma_asked_valid(client::resynced(c), now);
}

/// What a client does before it waits keeps it valid.
pub proof fn preparing_keeps_a_client_valid(c: ClientView, decoder_needs_keyframe: bool, now: u64)
    requires
        client_valid(c),
    ensures
        client_valid(client::prepared(c, decoder_needs_keyframe, now)),
{
    lemma_stale_valid(c, now);
    let d = client::stale_given_up(c, now);
    lemma_restart_valid(d, now);
    let e = if decoder_needs_keyframe {
        client::decoder_restarted(d, now)
    } else {
        d
    };
    let f = client::greeted(e, now);
    lemma_same_parts(e, f);
    lemma_capped_insert(f.ping_sent, f.ping_id, now, PINGS_REMEMBERED as nat);
    lemma_same_parts(f, client::pinged(f, now));
}

/// A frame that the queue takes keeps it in order.
pub proof fn lemma_chain_grows(c: ClientView, now: u64)
    requires
        chain_valid(c),
        c.next_frame_id matches Some(expected) && c.completed_frames.contains_key(expected)
            && decode_queue::offered(c.queue, c.completed_frames[expected], now).1
            == DecodeQueuePush::Queued,
    ensures
        ({
            let expected = c.next_frame_id->0;
            chain_valid(
                ClientView {
                    queue: decode_queue::offered(c.queue, c.completed_frames[expected], now).0,
                    completed_frames: c.completed_frames.remove(expected),
                    next_frame_id: Some(expected.wrapping_add(1)),
                    ..c
                },
            )
        }),
{
    let expected = c.next_frame_id->0;
    let frame = c.completed_frames[expected];
    let queue = decode_queue::offered(c.queue, frame, now).0;
    let completed = c.completed_frames.remove(expected);
    assert(queue.frames.last() == frame);
    assert(completed_consistent(completed)) by {
        assert forall|id: u64| #[trigger]
            completed.contains_key(id) implies completed[id].frame.frame_id == id by {
            assert(c.completed_frames.contains_key(id));
        }
    }
    assert(queue_in_order(queue.frames)) by {
        assert forall|i: int| 0 < i < queue.frames.len() implies (
        #[trigger] queue.frames[i]).frame.is_keyframe || queue.frames[i].frame.frame_id
            == queue.frames[i - 1].frame.frame_id.wrapping_add(1) by {
            if i < queue.frames.len() - 1 {
                assert(queue.frames[i] == c.queue.frames[i]);
                assert(queue.frames[i - 1] == c.queue.frames[i - 1]);
            }
        }
    }
}

/// Handing frames over keeps the queue in order.
proof fn lemma_handed_over(c: ClientView, now: u64)
    requires
        chain_valid(c),
    ensures
        chain_valid(client::handed_over(c, now)),
        client::handed_over(c, now).completed_frames.len() <= c.completed_frames.len(),
        c.next_frame_id is Some && c.completed_frames.contains_key(c.next_frame_id->0)
            ==> client::handed_over(c, now).completed_frames.len() < c.completed_frames.len(),
        client::handed_over(c, now).ping_sent == c.ping_sent,
        client::handed_over(c, now).reassembly_started == c.reassembly_started,
        client::handed_over(c, now).reassembler == c.reassembler,
    decreases c.completed_frames.len(),
{
    if c.next_frame_id is Some {
        let expected = c.next_frame_id->0;
        if c.completed_frames.contains_key(expected) {
            let frame = c.completed_frames[expected];
            let (queue, outcome) = decode_queue::offered(c.queue, frame, now);
            let d = ClientView {
                queue,
                completed_frames: c.completed_frames.remove(expected),
                ..c
            };
            if outcome == DecodeQueuePush::Queued {
                let e = ClientView { next_frame_id: Some(expected.wrapping_add(1)), ..d };
                lemma_chain_grows(c, now);
                lemma_handed_over(e, now);
            } else {
                let f = client::chain_broken(client::counted(d, 1, 0));
                assert(f.completed_frames.len() == 0);
            }
        }
    }
}

/// A client that has taken in a complete frame, before it hands any over.
pub open spec fn taken_in(c: ClientView, frame: VideoFrameView, now: u64) -> ClientView {
    let d = client::anchored(c, frame);
    ClientView {
        completed_frames: id_map::with_default(
            d.completed_frames,
            frame.frame_id,
            ReceivedFrameView { frame, received_at: now },
        ),
        ..d
    }
}

/// A complete frame that was not overtaken keeps the chain.
pub proof fn lemma_taken_in(c: ClientView, frame: VideoFrameView, now: u64)
    requires
        client_valid(c),
        c.waiting_for_keyframe ==> frame.is_keyframe,
    ensures
        ({
            let e = taken_in(c, frame, now);
            &&& chain_valid(e)
            &&& e.completed_frames.len() <= VIDEO_REORDER_WINDOW
            &&& chain_valid(client::gap_noticed(e))
        }),
{
    let d = client::anchored(c, frame);
    let e = taken_in(c, frame, now);
    assert(d.completed_frames.dom().finite());
    assert(e.completed_frames.dom().finite());
    assert(e.completed_frames.len() <= VIDEO_REORDER_WINDOW) by {
        assert(d.completed_frames.len() < VIDEO_REORDER_WINDOW) by {
            assert(Map::<u64, ReceivedFrameView>::empty().len() == 0);
        }
    }
    assert(completed_consistent(e.completed_frames)) by {
        assert forall|id: u64| #[trigger]
            e.completed_frames.contains_key(
                id,
            ) implies e.completed_frames[id].frame.frame_id == id by {
            if id != frame.frame_id {
                assert(d.completed_frames.contains_key(id));
                assert(c.completed_frames.contains_key(id));
            } else if d.completed_frames.contains_key(id) {
                assert(c.completed_frames.contains_key(id));
            }
        }
    }
}

/// A complete frame keeps a client valid.
proof fn lemma_ordered_valid(c: ClientView, frame: VideoFrameView, now: u64)
    requires
        client_valid(c),
        c.waiting_for_keyframe ==> frame.is_keyframe,
    ensures
        client_valid(client::ordered(c, frame, now)),
{
    let d = client::anchored(c, frame);
    assert(d.next_frame_id is Some);
    let next = d.next_frame_id->0;
    if frame.frame_id < next {
        assert(client_valid(client::counted(d, 1, 0)));
    } else {
        let e = taken_in(c, frame, now);
        lemma_taken_in(c, frame, now);
        let f = client::gap_noticed(e);
        if !e.completed_frames.contains_key(next) && e.completed_frames.len()
            >= VIDEO_REORDER_WINDOW {
            assert(f.completed_frames.len() == 0);
        }
        lemma_handed_over(f, now);
        lemma_asked_valid(client::handed_over(f, now), now);
    }
}

/// A client that has measured how a frame arrived.
pub open spec fn measured(c: ClientView, frame: VideoFrameView, now: u64) -> ClientView {
    client::jitter_measured(client::arrival_timed(c, frame, now), frame, now)
}

/// Measuring how a frame arrived keeps a client valid.
pub proof fn lemma_measured(c: ClientView, frame: VideoFrameView, now: u64)
    requires
        client_valid(c),
    ensures
        client_valid(measured(c, frame, now)),
{
    let d = client::arrival_timed(c, frame, now);
    assert(c.reassembly_started.remove(frame.frame_id).len() <= c.reassembly_started.len());
    lemma_same_parts(c, d);
    lemma_same_parts(d, measured(c, frame, now));
}

proof fn lemma_frame_valid(c: ClientView, frame: VideoFrameView, now: u64)
    requires
        client_valid(c),
    ensures
        client_valid(client::frame_received(c, frame, now)),
{
    let e = measured(c, frame, now);
    lemma_measured(c, frame, now);
    if e.waiting_for_keyframe && !frame.is_keyframe {
        lemma_same_parts(e, client::counted(e, 1, 0));
        lemma_asked_valid(client::counted(e, 1, 0), now);
    } else {
        lemma_ordered_valid(e, frame, now);
    }
}

/// A client that has given a fragment to its reassembler.
pub open spec fn reassembling(c: ClientView, fragment: VideoFragmentView, now: u64) -> ClientView {
    ClientView {
        reassembler: reassembly::pushed(c.reassembler, fragment, now).0,
        reassembly_started: id_map::capped(
            id_map::with_default(c.reassembly_started, fragment.frame_id, now),
            STARTS_REMEMBERED as nat,
        ),
        ..c
    }
}

/// Reassembling keeps a client valid.
pub proof fn lemma_reassembling(c: ClientView, fragment: VideoFragmentView, now: u64)
    requires
        client_valid(c),
    ensures
        client_valid(reassembling(c, fragment, now)),
{
    lemma_capped_insert(c.reassembly_started, fragment.frame_id, now, STARTS_REMEMBERED as nat);
    video_laws::reassembly_stays_bounded(c.reassembler, fragment, now);
    lemma_same_parts(c, reassembling(c, fragment, now));
}

proof fn lemma_fragment_valid(c: ClientView, fragment: VideoFragmentView, size: nat, now: u64)
    requires
        client_valid(c),
    ensures
        client_valid(client::fragment_received(c, fragment, size, now)),
{
    if size > c.negotiated_datagram_size {
        lemma_same_parts(c, client::counted(c, 1, 1));
    } else {
        let d = reassembling(c, fragment, now);
        let started = d.reassembly_started;
        let outcome = reassembly::pushed(c.reassembler, fragment, now).1;
        lemma_reassembling(c, fragment, now);
        match outcome {
            Ok(Some(frame)) => {
                lemma_frame_valid(d, frame, now);
            },
            Ok(None) => {},
            Err(_) => {
                let e = client::counted(
                    ClientView { reassembly_started: started.remove(fragment.frame_id), ..d },
                    1,
                    1,
                );
                assert(started.remove(fragment.frame_id).len() <= started.len());
                lemma_same_parts(d, e);
                lemma_resynced_valid(e);
                lemma_asked_valid(client::resynced(e), now);
            },
        }
    }
}

/// Whatever arrives, a client stays valid: the frames for the decoder stay in
/// order, each following the one before it unless it is a keyframe, and everything
/// that the client holds stays bounded.
pub proof fn receiving_keeps_a_client_valid(c: ClientView, data: Seq<u8>, now: u64)
    requires
        client_valid(c),
    ensures
        client_valid(client::datagram_received(c, data, now)),
{
    let d = ClientView {
        metrics: client::ClientMetrics {
            received_bytes: c.metrics.received_bytes.wrapping_add(data.len() as u64),
            ..c.metrics
        },
        ..c
    };
    assert(client_valid(d));
    if let Ok(packet) = protocol::parsed_packet(data) {
        let e = ClientView { last_server_response: now, ..d };
        assert(client_valid(e));
        match packet {
            PacketView::Video(fragment) => {
                if e.accepted {
                    lemma_fragment_valid(e, fragment, data.len(), now);
                }
            },
            PacketView::Pong(id) => {
                assert(e.ping_sent.remove(id).len() <= e.ping_sent.len());
                assert(client_valid(client::pong_received(e, id, now)));
            },
            _ => {
                assert(client_valid(client::packet_received(e, packet, data.len(), now)));
            },
        }
    }
}

/// Whatever the host offers, a client stays valid.
pub proof fn configuring_keeps_a_client_valid(c: ClientView, config: SessionConfig)
    requires
        client_valid(c),
    ensures
        client_valid(client::config_received(c, config)),
{
}

/// What a client does after it has waited keeps it valid.
pub proof fn concluding_keeps_a_client_valid(c: ClientView, now: u64)
    requires
        client_valid(c),
    ensures
        client_valid(client::concluded(c, now)),
{
    let d = client::acting(
        ClientView {
            accepted: false,
            reassembler: client::empty_reassembler(),
            reassembly_started: Map::empty(),
            last_hello: None,
            last_server_response: now,
            ..c
        },
        ClientActionView::Disconnected,
    );
    assert(d.reassembly_started.len() == 0 && d.reassembler.frames.len() == 0);
    assert(memory_bounded(d));
    lemma_resynced_valid(d);
    assert(client_valid(client::silence_noticed(c, now)));
}

/// A frame that the decoder takes leaves a client valid.
pub proof fn decoding_keeps_a_client_valid(c: ClientView)
    requires
        client_valid(c),
        c.queue.frames.len() > 0,
    ensures
        client_valid(
            ClientView {
                queue: DecodeQueueView { frames: c.queue.frames.skip(1), ..c.queue },
                ..c
            },
        ),
{
    let frames = c.queue.frames.skip(1);
    assert forall|i: int| 0 < i < frames.len() implies (#[trigger] frames[i]).frame.is_keyframe
        || frames[i].frame.frame_id == frames[i - 1].frame.frame_id.wrapping_add(1) by {
        assert(frames[i] == c.queue.frames[i + 1]);
        assert(frames[i - 1] == c.queue.frames[i]);
    }
    if frames.len() > 0 {
        assert(frames.last() == c.queue.frames.last());
    }
}

/// A client does not ask for a keyframe twice within the interval.
pub proof fn keyframes_are_not_asked_for_too_often(c: ClientView, first: u64, second: u64)
    requires
        clock::age(second, first) < KEYFRAME_RETRY_INTERVAL,
        client::due(first, c.last_keyframe_request, KEYFRAME_RETRY_INTERVAL),
    ensures
        client::keyframe_asked(client::keyframe_asked(c, first), second)
            == client::keyframe_asked(c, first),
{
}

/// Before the host has let it in a client plays and shows nothing that arrives.
pub proof fn strangers_media_is_ignored(c: ClientView, packet: PacketView, size: nat, now: u64)
    requires
        !c.accepted,
        packet is Audio || packet is Video || packet is CursorPosition || packet is ServerStats,
    ensures
        client::packet_received(c, packet, size, now) == c,
{
}

/// A host that has been silent for too long is given up, and the client asks at
/// once to be let in again.
pub proof fn silent_hosts_are_asked_again(c: ClientView, now: u64, later: u64)
    requires
        c.accepted,
        clock::age(now, c.last_server_response) >= CONNECTION_TIMEOUT,
    ensures
        ({
            let d = client::silence_noticed(c, now);
            &&& !d.accepted
            &&& d.actions.last() == ClientActionView::Disconnected
            &&& client::greeted(d, later).last_hello == Some(later)
        }),
{
}

/// A client that is turned away learns why, and gives up.
pub proof fn refusals_are_understood(c: ClientView, reason: Seq<char>, now: u64)
    ensures
        client::datagram_received(c, host::refusal(reason), now).actions == c.actions.push(
            ClientActionView::Rejected(reason),
        ).push(ClientActionView::Stop),
{
    let bytes = utf8::encode_utf8(reason);
    utf8::encode_utf8_valid_utf8(reason);
    utf8::encode_utf8_decode_utf8(reason);
    protocol_laws::packets_round_trip(PacketView::ConnectionRejected(bytes));
}

/// A client that the host lets in gets the config that the host was made with.
pub proof fn configs_arrive(c: ClientView, h: HostView, datagram_size: usize, now: u64)
    ensures
        client::datagram_received(
            c,
            host::config_datagram(h, datagram_size),
            now,
        ).actions == c.actions.push(
            ClientActionView::ReadConfig(
                if datagram_size == JUMBO_DATAGRAM_SIZE {
                    h.jumbo_config
                } else {
                    h.standard_config
                },
            ),
        ),
{
    protocol_laws::packets_round_trip(PacketView::Config(h.jumbo_config));
    protocol_laws::packets_round_trip(PacketView::Config(h.standard_config));
}

} // verus!
