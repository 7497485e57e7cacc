//! What becomes of the frames that reach a client: that they go to the decoder, and when they
//! do not.

use crate::client;
use crate::client::{ClientActionView, ClientView};
use crate::client_laws;
use crate::clock;
use crate::decode_queue::ReceivedFrameView;
use crate::host_laws;
use crate::id_map;
use crate::protocol;
use crate::protocol::{PacketView, VideoFragmentView};
use crate::reassembly;
use crate::reassembly::VideoReassemblyError;
use crate::video::VideoFrameView;
use vstd::prelude::*;

verus! {

/// The client is let in, and the datagram brings the fragment with which the frame is there.
#[verifier::opaque]
pub open spec fn completes(
    c: ClientView,
    data: Seq<u8>,
    fragment: VideoFragmentView,
    frame: VideoFrameView,
    now: u64,
) -> bool {
    &&& client_laws::client_valid(c)
    &&& c.accepted
    &&& host_laws::carries(data, PacketView::Video(fragment))
    &&& data.len() <= c.negotiated_datagram_size
    &&& reassembly::pushed(c.reassembler, fragment, now).1 == Ok::<
        Option<VideoFrameView>,
        VideoReassemblyError,
    >(Some(frame))
}

/// The client after a datagram.
#[verifier::opaque]
pub open spec fn after(c: ClientView, data: Seq<u8>, now: u64) -> ClientView {
    client::datagram_received(c, data, now)
}

/// The decoder goes on as before: nothing was lost, and nobody is asked for anything.
pub open spec fn undisturbed(c: ClientView, d: ClientView) -> bool {
    &&& d.queue.generation == c.queue.generation
    &&& d.metrics.dropped_frames == c.metrics.dropped_frames
    &&& d.metrics.lost_frames == c.metrics.lost_frames
    &&& d.actions == c.actions
    &&& d.waiting_for_keyframe == c.waiting_for_keyframe
}

/// The client has asked for a keyframe, unless it did so less than half a second ago.
pub open spec fn keyframe_wanted(c: ClientView, d: ClientView, now: u64) -> bool {
    let just_asked = c.last_keyframe_request is Some && clock::age(
        now,
        c.last_keyframe_request->0,
    ) < 500_000_000;
    if just_asked {
        d.actions == c.actions && d.last_keyframe_request == c.last_keyframe_request
    } else {
        &&& d.actions == c.actions.push(
            ClientActionView::Send(protocol::encode_packet(PacketView::VideoKeyframeRequest)),
        )
        &&& d.last_keyframe_request == Some(now)
    }
}

/// The frame, complete at that time.
pub open spec fn complete_at(frame: VideoFrameView, now: u64) -> ReceivedFrameView {
    ReceivedFrameView { frame, received_at: now }
}

/// A client that has noted that a frame is there, before it puts it in its place.
spec fn noted(
    c: ClientView,
    data: Seq<u8>,
    fragment: VideoFragmentView,
    frame: VideoFrameView,
    now: u64,
) -> ClientView {
    client_laws::measured(
        client_laws::reassembling(
            ClientView {
                metrics: client::ClientMetrics {
                    received_bytes: c.metrics.received_bytes.wrapping_add(data.len() as u64),
                    ..c.metrics
                },
                last_server_response: now,
                ..c
            },
            fragment,
            now,
        ),
        frame,
        now,
    )
}

/// All that the decoder depends on is the same.
spec fn alike(c: ClientView, d: ClientView) -> bool {
    &&& d.queue == c.queue
    &&& d.completed_frames == c.completed_frames
    &&& d.next_frame_id == c.next_frame_id
    &&& d.waiting_for_keyframe == c.waiting_for_keyframe
    &&& d.actions == c.actions
    &&& d.last_keyframe_request == c.last_keyframe_request
    &&& d.metrics.dropped_frames == c.metrics.dropped_frames
    &&& d.metrics.lost_frames == c.metrics.lost_frames
}

proof fn lemma_measured_alike(c: ClientView, frame: VideoFrameView, now: u64)
    ensures
        alike(c, client_laws::measured(c, frame, now)),
{
}

/// A client whose reassembler gives it a frame.
proof fn lemma_frame_given(
    c: ClientView,
    fragment: VideoFragmentView,
    size: nat,
    frame: VideoFrameView,
    now: u64,
)
    requires
        size <= c.negotiated_datagram_size,
        reassembly::pushed(c.reassembler, fragment, now).1 == Ok::<
            Option<VideoFrameView>,
            VideoReassemblyError,
        >(Some(frame)),
    ensures
        client::fragment_received(c, fragment, size, now) == client::frame_received(
            client_laws::reassembling(c, fragment, now),
            frame,
            now,
        ),
{
}

proof fn lemma_noted(
    c: ClientView,
    data: Seq<u8>,
    fragment: VideoFragmentView,
    frame: VideoFrameView,
    now: u64,
)
    requires
        completes(c, data, fragment, frame, now),
    ensures
        client_laws::client_valid(c),
        alike(c, noted(c, data, fragment, frame, now)),
        after(c, data, now) == if c.waiting_for_keyframe && !frame.is_keyframe {
            client::keyframe_asked(
                client::counted(noted(c, data, fragment, frame, now), 1, 0),
                now,
            )
        } else {
            client::ordered(noted(c, data, fragment, frame, now), frame, now)
        },
{
    let e = ClientView {
        metrics: client::ClientMetrics {
            received_bytes: c.metrics.received_bytes.wrapping_add(data.len() as u64),
            ..c.metrics
        },
        last_server_response: now,
        ..c
    };
    let f = client_laws::reassembling(e, fragment, now);
    assert(alike(c, f));
    lemma_measured_alike(f, frame, now);
    assert(after(c, data, now) == client::frame_received(f, frame, now)) by {
        reveal(completes);
        reveal(after);
        lemma_frame_given(e, fragment, data.len(), frame, now);
    }
    assert(client_laws::client_valid(c)) by {
        reveal(completes);
    }
}

/// The frame that is needed next goes to the decoder at once.
pub proof fn needed_frames_go_to_the_decoder(
    c: ClientView,
    data: Seq<u8>,
    fragment: VideoFragmentView,
    frame: VideoFrameView,
    now: u64,
)
    requires
        completes(c, data, fragment, frame, now),
        c.next_frame_id == Some(frame.frame_id),
        !c.completed_frames.contains_key(frame.frame_id),
        !c.completed_frames.contains_key(frame.frame_id.wrapping_add(1)),
        c.queue.frames.len() < 2,
        !c.queue.waiting_for_keyframe || frame.is_keyframe,
    ensures
        ({
            let d = after(c, data, now);
            &&& d.queue.frames == c.queue.frames.push(complete_at(frame, now))
            &&& d.next_frame_id == Some(frame.frame_id.wrapping_add(1))
            &&& d.completed_frames == c.completed_frames
            &&& undisturbed(c, d)
        }),
{
    lemma_noted(c, data, fragment, frame, now);
    reveal_with_fuel(client::handed_over, 3);
    let received = complete_at(frame, now);
    assert(c.completed_frames.insert(frame.frame_id, received).remove(frame.frame_id)
        =~= c.completed_frames);
}

/// A frame that is complete before the one that is needed is kept for it: the decoder goes on
/// as before, and nothing is taken to be lost.
pub proof fn early_frames_are_kept(
    c: ClientView,
    data: Seq<u8>,
    fragment: VideoFragmentView,
    frame: VideoFrameView,
    needed: u64,
    now: u64,
)
    requires
        completes(c, data, fragment, frame, now),
        c.next_frame_id == Some(needed),
        needed < frame.frame_id,
        !frame.is_keyframe,
        c.completed_frames.len() == 0,
    ensures
        ({
            let d = after(c, data, now);
            &&& d.queue == c.queue
            &&& d.next_frame_id == c.next_frame_id
            &&& d.completed_frames == map![frame.frame_id => complete_at(frame, now)]
            &&& undisturbed(c, d)
        }),
{
    lemma_noted(c, data, fragment, frame, now);
    reveal_with_fuel(client::handed_over, 2);
    assert(c.completed_frames.dom() =~= Set::empty());
    assert(c.completed_frames =~= Map::empty());
    let held = Map::empty().insert(frame.frame_id, complete_at(frame, now));
    assert(held =~= map![frame.frame_id => complete_at(frame, now)]);
    assert(!held.contains_key(needed));
    assert(held.len() == 1);
}

/// The frame that is needed brings along the one that has waited for it, unless that one is
/// too old by then.
pub proof fn needed_frames_bring_along_the_next(
    c: ClientView,
    data: Seq<u8>,
    fragment: VideoFragmentView,
    frame: VideoFrameView,
    waiting: ReceivedFrameView,
    now: u64,
)
    requires
        completes(c, data, fragment, frame, now),
        c.next_frame_id == Some(frame.frame_id),
        c.completed_frames == map![frame.frame_id.wrapping_add(1) => waiting],
        clock::age(now, waiting.received_at) <= 25_000_000,
        c.queue.frames.len() == 0,
        !c.queue.waiting_for_keyframe || frame.is_keyframe,
    ensures
        ({
            let d = after(c, data, now);
            &&& d.queue.frames == seq![complete_at(frame, now), waiting]
            &&& d.next_frame_id == Some(frame.frame_id.wrapping_add(2))
            &&& d.completed_frames == Map::<u64, ReceivedFrameView>::empty()
            &&& undisturbed(c, d)
        }),
{
    lemma_noted(c, data, fragment, frame, now);
    reveal_with_fuel(client::handed_over, 4);
    let id = frame.frame_id;
    let next = id.wrapping_add(1);
    let received = complete_at(frame, now);
    let both = c.completed_frames.insert(id, received);
    assert(next != id);
    assert(!c.completed_frames.contains_key(id));
    assert(both.remove(id) =~= c.completed_frames);
    assert(both.remove(id).remove(next) =~= Map::empty());
    assert(c.queue.frames.push(received).push(waiting) =~= seq![received, waiting]);
    assert(next.wrapping_add(1) == id.wrapping_add(2));
}

/// Two frames that the network swaps come out in the order of their numbers.
pub proof fn swapped_frames_are_put_in_order(
    c: ClientView,
    early_data: Seq<u8>,
    early_fragment: VideoFragmentView,
    early: VideoFrameView,
    then: u64,
    data: Seq<u8>,
    fragment: VideoFragmentView,
    frame: VideoFrameView,
    now: u64,
)
    requires
        completes(c, early_data, early_fragment, early, then),
        completes(after(c, early_data, then), data, fragment, frame, now),
        c.next_frame_id == Some(frame.frame_id),
        early.frame_id == frame.frame_id + 1,
        !early.is_keyframe,
        c.completed_frames.len() == 0,
        c.queue.frames.len() == 0,
        !c.queue.waiting_for_keyframe || frame.is_keyframe,
        clock::age(now, then) <= 25_000_000,
    ensures
        ({
            let d = after(after(c, early_data, then), data, now);
            &&& d.queue.frames == seq![complete_at(frame, now), complete_at(early, then)]
            &&& d.next_frame_id == Some(frame.frame_id.wrapping_add(2))
            &&& undisturbed(c, d)
        }),
{
    early_frames_are_kept(c, early_data, early_fragment, early, frame.frame_id, then);
    let held = after(c, early_data, then);
    assert(early.frame_id == frame.frame_id.wrapping_add(1));
    needed_frames_bring_along_the_next(
        held,
        data,
        fragment,
        frame,
        complete_at(early, then),
        now,
    );
}

/// Once two later frames are complete, the frame that is needed is taken to be lost: the
/// decoder starts anew, the frames that are missing or of no use are counted, and a keyframe
/// is asked for.
pub proof fn lost_frames_are_noticed(
    c: ClientView,
    data: Seq<u8>,
    fragment: VideoFragmentView,
    frame: VideoFrameView,
    needed: u64,
    waiting: u64,
    now: u64,
)
    requires
        completes(c, data, fragment, frame, now),
        c.next_frame_id == Some(needed),
        c.completed_frames.dom() == set![waiting],
        needed < waiting,
        needed < frame.frame_id,
        frame.frame_id != waiting,
        frame.frame_id - needed < u64::MAX,
        waiting - needed < u64::MAX,
        !frame.is_keyframe,
    ensures
        ({
            let d = after(c, data, now);
            let newest = if frame.frame_id > waiting {
                frame.frame_id
            } else {
                waiting
            };
            let missing = (newest - needed - 1) as u64;
            &&& d.queue.frames.len() == 0
            &&& d.queue.waiting_for_keyframe
            &&& d.queue.generation == c.queue.generation.wrapping_add(1)
            &&& d.next_frame_id is None
            &&& d.waiting_for_keyframe
            &&& d.completed_frames == Map::<u64, ReceivedFrameView>::empty()
            &&& d.metrics.lost_frames == c.metrics.lost_frames.wrapping_add(missing)
            &&& d.metrics.dropped_frames == c.metrics.dropped_frames.wrapping_add(
                client::capped_sum(missing, 2),
            )
            &&& keyframe_wanted(c, d, now)
        }),
{
    lemma_noted(c, data, fragment, frame, now);
    reveal_with_fuel(client::handed_over, 2);
    let id = frame.frame_id;
    let both = c.completed_frames.insert(id, complete_at(frame, now));
    let newest = if id > waiting {
        id
    } else {
        waiting
    };
    assert(c.completed_frames.contains_key(waiting));
    assert(!c.completed_frames.contains_key(id));
    assert(both.dom() =~= set![waiting].insert(id));
    assert(both.len() == 2);
    assert(!both.contains_key(needed));
    assert(both.contains_key(newest) && forall|other: u64| #[trigger]
        both.contains_key(other) ==> other <= newest);
    let chosen = id_map::largest(both);
    assert(both.contains_key(chosen) && chosen == newest);
}

/// A keyframe out of turn is where the decoder goes on: what came before is not waited for any
/// more.
pub proof fn keyframes_start_anew(
    c: ClientView,
    data: Seq<u8>,
    fragment: VideoFragmentView,
    frame: VideoFrameView,
    now: u64,
)
    requires
        completes(c, data, fragment, frame, now),
        frame.is_keyframe,
        c.next_frame_id != Some(frame.frame_id),
    ensures
        ({
            let d = after(c, data, now);
            &&& d.queue.frames == if c.queue.frames.len() < 2 {
                c.queue.frames.push(complete_at(frame, now))
            } else {
                seq![complete_at(frame, now)]
            }
            &&& !d.queue.waiting_for_keyframe
            &&& d.queue.generation == c.queue.generation
            &&& d.next_frame_id == Some(frame.frame_id.wrapping_add(1))
            &&& d.completed_frames == Map::<u64, ReceivedFrameView>::empty()
            &&& !d.waiting_for_keyframe
            &&& d.metrics.dropped_frames == c.metrics.dropped_frames
            &&& d.metrics.lost_frames == c.metrics.lost_frames
            &&& d.actions == c.actions
        }),
{
    lemma_noted(c, data, fragment, frame, now);
    reveal_with_fuel(client::handed_over, 3);
    let id = frame.frame_id;
    let one = Map::empty().insert(id, complete_at(frame, now));
    assert(one.remove(id) =~= Map::empty());
    assert(one.dom().finite());
}

/// While a keyframe is waited for, other frames are dropped, and the keyframe is asked for.
pub proof fn only_keyframes_end_the_wait(
    c: ClientView,
    data: Seq<u8>,
    fragment: VideoFragmentView,
    frame: VideoFrameView,
    now: u64,
)
    requires
        completes(c, data, fragment, frame, now),
        c.waiting_for_keyframe,
        !frame.is_keyframe,
    ensures
        ({
            let d = after(c, data, now);
            &&& d.queue == c.queue
            &&& d.next_frame_id is None
            &&& d.waiting_for_keyframe
            &&& d.completed_frames == c.completed_frames
            &&& d.metrics.dropped_frames == c.metrics.dropped_frames.wrapping_add(1)
            &&& d.metrics.lost_frames == c.metrics.lost_frames
            &&& keyframe_wanted(c, d, now)
        }),
{
    lemma_noted(c, data, fragment, frame, now);
}

/// A frame that comes after its turn is dropped.
pub proof fn overtaken_frames_are_dropped(
    c: ClientView,
    data: Seq<u8>,
    fragment: VideoFragmentView,
    frame: VideoFrameView,
    needed: u64,
    now: u64,
)
    requires
        completes(c, data, fragment, frame, now),
        c.next_frame_id == Some(needed),
        frame.frame_id < needed,
        !frame.is_keyframe,
    ensures
        ({
            let d = after(c, data, now);
            &&& d.queue == c.queue
            &&& d.next_frame_id == c.next_frame_id
            &&& d.completed_frames == c.completed_frames
            &&& !d.waiting_for_keyframe
            &&& d.metrics.dropped_frames == c.metrics.dropped_frames.wrapping_add(1)
            &&& d.metrics.lost_frames == c.metrics.lost_frames
            &&& d.actions == c.actions
        }),
{
    lemma_noted(c, data, fragment, frame, now);
}

/// When the decoder does not keep up, what waits for it is dropped, and a keyframe is asked
/// for.
pub proof fn slow_decoders_start_anew(
    c: ClientView,
    data: Seq<u8>,
    fragment: VideoFragmentView,
    frame: VideoFrameView,
    now: u64,
)
    requires
        completes(c, data, fragment, frame, now),
        c.next_frame_id == Some(frame.frame_id),
        !c.completed_frames.contains_key(frame.frame_id),
        !frame.is_keyframe,
        c.queue.frames.len() == 2,
        !c.queue.waiting_for_keyframe,
    ensures
        ({
            let d = after(c, data, now);
            &&& d.queue.frames.len() == 0
            &&& d.queue.waiting_for_keyframe
            &&& d.next_frame_id is None
            &&& d.waiting_for_keyframe
            &&& d.metrics.dropped_frames == c.metrics.dropped_frames.wrapping_add(1)
            &&& keyframe_wanted(c, d, now)
        }),
{
    lemma_noted(c, data, fragment, frame, now);
    reveal_with_fuel(client::handed_over, 2);
}

/// Every frame that is there is counted, and the time that it took to arrive is measured from
/// its first fragment on.
pub proof fn complete_frames_are_counted(
    c: ClientView,
    data: Seq<u8>,
    fragment: VideoFragmentView,
    frame: VideoFrameView,
    first: u64,
    now: u64,
)
    requires
        completes(c, data, fragment, frame, now),
        c.reassembly_started.contains_key(frame.frame_id),
        c.reassembly_started[frame.frame_id] == first,
        fragment.frame_id == frame.frame_id,
    ensures
        ({
            let d = after(c, data, now);
            let took = if now >= first {
                ((now - first) / 1000) as u64
            } else {
                0
            };
            &&& d.metrics.reassembled_frames == c.metrics.reassembled_frames.wrapping_add(1)
            &&& d.metrics.reassembly_us == c.metrics.reassembly_us.wrapping_add(took)
            &&& d.metrics.reassembly_samples == c.metrics.reassembly_samples.wrapping_add(1)
            &&& d.metrics.received_bytes == c.metrics.received_bytes.wrapping_add(
                data.len() as u64,
            )
            &&& !d.reassembly_started.contains_key(frame.frame_id)
        }),
{
    lemma_noted(c, data, fragment, frame, now);
    lemma_ordered_metrics(noted(c, data, fragment, frame, now), frame, now);
    assert(c.reassembly_started.len() <= client::STARTS_REMEMBERED);
}

/// Putting frames in order measures nothing.
proof fn lemma_ordered_metrics(c: ClientView, frame: VideoFrameView, now: u64)
    ensures
        same_timing(c, client::ordered(c, frame, now)),
{
    let d = client::anchored(c, frame);
    let e = client::gap_noticed(
        ClientView {
            completed_frames: id_map::with_default(
                d.completed_frames,
                frame.frame_id,
                complete_at(frame, now),
            ),
            ..d
        },
    );
    lemma_handed_over_metrics(e, now);
}

spec fn same_timing(c: ClientView, d: ClientView) -> bool {
    &&& d.metrics.reassembled_frames == c.metrics.reassembled_frames
    &&& d.metrics.reassembly_us == c.metrics.reassembly_us
    &&& d.metrics.reassembly_samples == c.metrics.reassembly_samples
    &&& d.metrics.received_bytes == c.metrics.received_bytes
    &&& d.metrics.jitter_us == c.metrics.jitter_us
    &&& d.metrics.jitter_samples == c.metrics.jitter_samples
    &&& d.metrics.rtt_us == c.metrics.rtt_us
    &&& d.last_frame_arrival == c.last_frame_arrival
    &&& forall|id: u64| #[trigger]
        d.reassembly_started.contains_key(id) ==> c.reassembly_started.contains_key(id)
}

proof fn lemma_handed_over_metrics(c: ClientView, now: u64)
    ensures
        same_timing(c, client::handed_over(c, now)),
    decreases c.completed_frames.len(),
{
    if c.next_frame_id is Some {
        let expected = c.next_frame_id->0;
        if c.completed_frames.dom().finite() && c.completed_frames.contains_key(expected) {
            let (queue, outcome) = crate::decode_queue::offered(
                c.queue,
                c.completed_frames[expected],
                now,
            );
            lemma_handed_over_metrics(
                ClientView {
                    queue,
                    completed_frames: c.completed_frames.remove(expected),
                    next_frame_id: Some(expected.wrapping_add(1)),
                    ..c
                },
                now,
            );
        }
    }
}

/// The jitter of a frame is how far the time between it and the one before is from the time
/// between their timestamps.
pub proof fn jitter_is_measured(
    c: ClientView,
    data: Seq<u8>,
    fragment: VideoFragmentView,
    frame: VideoFrameView,
    now: u64,
)
    requires
        completes(c, data, fragment, frame, now),
        c.last_frame_arrival matches Some((arrival, timestamp)) && arrival <= now && timestamp
            < frame.timestamp_us,
    ensures
        ({
            let d = after(c, data, now);
            let (arrival, timestamp) = c.last_frame_arrival->0;
            let apart = (now - arrival) / 1000;
            let meant = frame.timestamp_us - timestamp;
            let jitter = if apart >= meant {
                (apart - meant) as u64
            } else {
                (meant - apart) as u64
            };
            &&& d.metrics.jitter_us == c.metrics.jitter_us.wrapping_add(jitter)
            &&& d.metrics.jitter_samples == c.metrics.jitter_samples.wrapping_add(1)
            &&& d.last_frame_arrival == Some((now, frame.timestamp_us))
        }),
{
    lemma_noted(c, data, fragment, frame, now);
    lemma_ordered_metrics(noted(c, data, fragment, frame, now), frame, now);
}

/// A fragment that is not the last one needed changes nothing for the decoder.
pub proof fn fragments_alone_change_nothing(
    c: ClientView,
    data: Seq<u8>,
    fragment: VideoFragmentView,
    now: u64,
)
    requires
        c.accepted,
        host_laws::carries(data, PacketView::Video(fragment)),
        data.len() <= c.negotiated_datagram_size,
        reassembly::pushed(c.reassembler, fragment, now).1 == Ok::<
            Option<VideoFrameView>,
            VideoReassemblyError,
        >(None),
    ensures
        ({
            let d = after(c, data, now);
            &&& d.queue == c.queue
            &&& d.next_frame_id == c.next_frame_id
            &&& d.completed_frames == c.completed_frames
            &&& d.reassembler == reassembly::pushed(c.reassembler, fragment, now).0
            &&& d.last_server_response == now
            &&& undisturbed(c, d)
        }),
{
    reveal(after);
}

/// Fragments that do not fit together cost the decoder its place: a keyframe is asked for.
pub proof fn broken_frames_start_anew(
    c: ClientView,
    data: Seq<u8>,
    fragment: VideoFragmentView,
    now: u64,
)
    requires
        c.accepted,
        host_laws::carries(data, PacketView::Video(fragment)),
        data.len() <= c.negotiated_datagram_size,
        reassembly::pushed(c.reassembler, fragment, now).1 is Err,
    ensures
        ({
            let d = after(c, data, now);
            &&& d.queue.frames.len() == 0
            &&& d.queue.waiting_for_keyframe
            &&& d.queue.generation == c.queue.generation.wrapping_add(1)
            &&& d.next_frame_id is None
            &&& d.waiting_for_keyframe
            &&& d.metrics.dropped_frames == c.metrics.dropped_frames.wrapping_add(1)
            &&& d.metrics.lost_frames == c.metrics.lost_frames.wrapping_add(1)
            &&& keyframe_wanted(c, d, now)
        }),
{
    reveal(after);
}

/// A video datagram that is larger than agreed on is not used.
pub proof fn oversized_datagrams_are_not_used(
    c: ClientView,
    data: Seq<u8>,
    fragment: VideoFragmentView,
    now: u64,
)
    requires
        c.accepted,
        host_laws::carries(data, PacketView::Video(fragment)),
        data.len() > c.negotiated_datagram_size,
    ensures
        ({
            let d = after(c, data, now);
            &&& d.queue == c.queue
            &&& d.reassembler == c.reassembler
            &&& d.next_frame_id == c.next_frame_id
            &&& d.metrics.dropped_frames == c.metrics.dropped_frames.wrapping_add(1)
            &&& d.metrics.lost_frames == c.metrics.lost_frames.wrapping_add(1)
            &&& d.actions == c.actions
        }),
{
    reveal(after);
}

} // verus!
