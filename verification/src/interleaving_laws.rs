//! What a reassembler promises of several frames whose fragments arrive among each other.

use crate::bytes;
use crate::clock;
use crate::protocol;
use crate::protocol::VideoFragmentView;
use crate::reassembly;
use crate::reassembly::{
    PendingFrameView, ReassemblerView, VideoReassemblyError, COMPLETED_FRAMES_REMEMBERED,
};
use crate::video;
use crate::video::VideoFrameView;
use crate::video_laws;
use vstd::prelude::*;

verus! {

/// A fragment of one of several frames arrives.
pub struct Arrival {
    /// Which of the frames it belongs to.
    pub frame: int,
    /// Which of the fragments of the frame it is.
    pub index: int,
    pub now: u64,
}

/// The frame has been waiting for its next fragment for no longer than it may.
pub open spec fn still_waited_for(state: ReassemblerView, id: u64, now: u64) -> bool {
    state.frames.contains_key(id) && clock::age(now, state.frames[id].last_updated)
        <= state.max_age
}

/// The frames that are waited for make room for one more, or the frame is one of them.
pub open spec fn has_room_for(state: ReassemblerView, id: u64, now: u64) -> bool {
    still_waited_for(state, id, now) || state.frames.len() < state.max_pending_frames
}

/// A fragment leaves alone what has arrived of all other frames that are still waited for, as
/// long as there is room; and of no other frame does anything appear.
pub proof fn other_frames_are_left_alone(
    state: ReassemblerView,
    fragment: VideoFragmentView,
    other: u64,
    now: u64,
)
    requires
        state.frames.dom().finite(),
        has_room_for(state, fragment.frame_id, now),
        other != fragment.frame_id,
    ensures
        ({
            let after = reassembly::pushed(state, fragment, now).0;
            &&& after.frames.contains_key(other) == still_waited_for(state, other, now)
            &&& after.frames.contains_key(other) ==> after.frames[other] == state.frames[other]
        }),
{
    let fresh = reassembly::expired(state, now);
    assert(fresh.frames.dom().subset_of(state.frames.dom()));
    vstd::set_lib::lemma_len_subset(fresh.frames.dom(), state.frames.dom());
}

/// When there is no room, one frame makes way for the new one: one that no other frame has
/// waited longer than.
pub proof fn the_longest_waiting_frame_makes_way(
    state: ReassemblerView,
    fragment: VideoFragmentView,
    gone: u64,
    other: u64,
    now: u64,
)
    requires
        state.frames.dom().finite(),
        gone != fragment.frame_id,
        still_waited_for(state, gone, now),
        !reassembly::pushed(state, fragment, now).0.frames.contains_key(gone),
        other != gone,
        still_waited_for(state, other, now),
    ensures
        state.frames[gone].last_updated <= state.frames[other].last_updated,
        !still_waited_for(state, fragment.frame_id, now),
        other != fragment.frame_id ==> {
            let after = reassembly::pushed(state, fragment, now).0;
            after.frames.contains_key(other) && after.frames[other] == state.frames[other]
        },
{
    let fresh = reassembly::expired(state, now);
    assert(fresh.frames.contains_key(gone) && fresh.frames.contains_key(other));
    assert(fresh.frames.dom().subset_of(state.frames.dom()));
    vstd::set_lib::lemma_len_subset(fresh.frames.dom(), state.frames.dom());
    assert(fresh.frames.len() > 0) by {
        if fresh.frames.len() == 0 {
            assert(fresh.frames.dom() =~= Set::empty());
        }
    }
    video_laws::lemma_longest_exists(fresh.frames);
}

/// Giving up what has waited too long takes out these frames and no others.
pub proof fn only_stale_frames_are_given_up(state: ReassemblerView, id: u64, now: u64)
    ensures
        ({
            let after = reassembly::expired(state, now);
            &&& after.frames.contains_key(id) == still_waited_for(state, id, now)
            &&& after.frames.contains_key(id) ==> after.frames[id] == state.frames[id]
            &&& after.completed == state.completed
        }),
{
}

/// A fragment that makes no sense is refused, and leaves no trace.
pub proof fn senseless_fragments_are_refused(
    state: ReassemblerView,
    fragment: VideoFragmentView,
    now: u64,
)
    requires
        fragment.total == 0 || fragment.payload.len() == 0 || fragment.index > fragment.total
            || fragment.is_recovery != (fragment.index == fragment.total),
    ensures
        reassembly::pushed(state, fragment, now) == (
            reassembly::expired(state, now),
            Err::<Option<VideoFrameView>, _>(VideoReassemblyError::InvalidFragment),
        ),
{
}

/// A fragment that contradicts what is known of its frame is refused, and the frame with it.
pub proof fn contradictions_end_a_frame(
    state: ReassemblerView,
    fragment: VideoFragmentView,
    now: u64,
)
    requires
        protocol::fragment_valid(fragment),
        !state.completed.contains(fragment.frame_id),
        still_waited_for(state, fragment.frame_id, now),
        ({
            let known = state.frames[fragment.frame_id];
            known.timestamp_us != fragment.timestamp_us || known.is_keyframe
                != fragment.is_keyframe || known.total != fragment.total
        }),
    ensures
        ({
            let (after, outcome) = reassembly::pushed(state, fragment, now);
            &&& outcome == Err::<Option<VideoFrameView>, _>(
                VideoReassemblyError::FrameMetadataChanged,
            )
            &&& !after.frames.contains_key(fragment.frame_id)
            &&& after.completed == state.completed
        }),
{
}

/// The state of the reassembler before arrival `n`.
pub open spec fn state_before(
    start: ReassemblerView,
    frames: Seq<VideoFrameView>,
    size: int,
    arrivals: Seq<Arrival>,
    n: nat,
) -> ReassemblerView
    decreases n,
{
    if n == 0 {
        start
    } else {
        let k = (n - 1) as nat;
        let arrival = arrivals[k as int];
        reassembly::pushed(
            state_before(start, frames, size, arrivals, k),
            video::fragments_of(frames[arrival.frame], size)[arrival.index],
            arrival.now,
        ).0
    }
}

/// What comes of arrival `n`.
pub open spec fn outcome_at(
    start: ReassemblerView,
    frames: Seq<VideoFrameView>,
    size: int,
    arrivals: Seq<Arrival>,
    n: nat,
) -> Result<Option<VideoFrameView>, VideoReassemblyError> {
    let arrival = arrivals[n as int];
    reassembly::pushed(
        state_before(start, frames, size, arrivals, n),
        video::fragments_of(frames[arrival.frame], size)[arrival.index],
        arrival.now,
    ).1
}

/// The fragments of frame `f` that have arrived before arrival `n`.
pub open spec fn arrived(arrivals: Seq<Arrival>, f: int, n: nat) -> Set<int>
    decreases n,
{
    if n == 0 {
        Set::empty()
    } else if arrivals[n - 1].frame == f {
        arrived(arrivals, f, (n - 1) as nat).insert(arrivals[n - 1].index)
    } else {
        arrived(arrivals, f, (n - 1) as nat)
    }
}

/// When a fragment of frame `f` has arrived last, before arrival `n`.
pub open spec fn last_arrival(arrivals: Seq<Arrival>, f: int, n: nat) -> Option<u64>
    decreases n,
{
    if n == 0 {
        None
    } else if arrivals[n - 1].frame == f {
        Some(arrivals[n - 1].now)
    } else {
        last_arrival(arrivals, f, (n - 1) as nat)
    }
}

/// How many data fragments frame `f` has.
pub open spec fn count_of(frames: Seq<VideoFrameView>, size: int, f: int) -> int {
    video::chunks_of(frames[f].payload, size).len() as int
}

/// Enough of frame `f` has arrived before arrival `n`.
pub open spec fn is_there(
    frames: Seq<VideoFrameView>,
    size: int,
    arrivals: Seq<Arrival>,
    f: int,
    n: nat,
) -> bool {
    video_laws::enough(count_of(frames, size, f), arrived(arrivals, f, n))
}

/// The frames can be sent and told apart, and are new to the reassembler, which has room for
/// all of them.
pub open spec fn frames_fit(
    start: ReassemblerView,
    frames: Seq<VideoFrameView>,
    datagram_size: int,
) -> bool {
    &&& start.frames.dom().finite()
    &&& start.frames.len() + frames.len() <= start.max_pending_frames
    &&& frames.len() <= COMPLETED_FRAMES_REMEMBERED
    &&& start.completed.len() <= COMPLETED_FRAMES_REMEMBERED
    &&& forall|f: int|
        0 <= f < frames.len() ==> video_laws::sendable(#[trigger] frames[f], datagram_size)
            && !start.frames.contains_key(frames[f].frame_id) && !start.completed.contains(
            frames[f].frame_id,
        )
    &&& forall|f: int, g: int|
        0 <= f < g < frames.len() ==> (#[trigger] frames[f]).frame_id != (
        #[trigger] frames[g]).frame_id
}

/// Fragments of the frames arrive one after the other, each of them before the reassembler
/// stops waiting for its frame.
pub open spec fn arrivals_fit(
    start: ReassemblerView,
    frames: Seq<VideoFrameView>,
    size: int,
    arrivals: Seq<Arrival>,
) -> bool {
    &&& forall|k: int|
        0 <= k < arrivals.len() ==> 0 <= (#[trigger] arrivals[k]).frame < frames.len() && 0
            <= arrivals[k].index < video::fragments_of(frames[arrivals[k].frame], size).len()
    &&& forall|j: int, k: int|
        0 <= j <= k < arrivals.len() ==> (#[trigger] arrivals[j]).now <= (
        #[trigger] arrivals[k]).now
    &&& forall|k: int|
        0 <= k < arrivals.len() ==> (last_arrival(arrivals, (#[trigger] arrivals[k]).frame, k as nat) matches Some(
            last,
        ) ==> arrivals[k].now - last <= start.max_age)
}

/// The numbers of the frames that have come out before arrival `n`, in that order.
spec fn finished(
    frames: Seq<VideoFrameView>,
    size: int,
    arrivals: Seq<Arrival>,
    n: nat,
) -> Seq<u64>
    decreases n,
{
    if n == 0 {
        Seq::empty()
    } else {
        let k = (n - 1) as nat;
        let f = arrivals[k as int].frame;
        let before = finished(frames, size, arrivals, k);
        if is_there(frames, size, arrivals, f, n) && !is_there(frames, size, arrivals, f, k) {
            before.push(frames[f].frame_id)
        } else {
            before
        }
    }
}

spec fn frame_ids(frames: Seq<VideoFrameView>) -> Seq<u64> {
    frames.map_values(|frame: VideoFrameView| frame.frame_id)
}

/// The last finished frames.
spec fn remembered(all: Seq<u64>) -> Seq<u64> {
    if all.len() > COMPLETED_FRAMES_REMEMBERED {
        all.skip(all.len() - COMPLETED_FRAMES_REMEMBERED)
    } else {
        all
    }
}

proof fn lemma_remember_more(all: Seq<u64>, id: u64)
    ensures
        reassembly::remember(remembered(all), id) == remembered(all.push(id)),
{
    assert(reassembly::remember(remembered(all), id) =~= remembered(all.push(id)));
}

/// What is finished during the run stays remembered, and nothing else that was not there.
proof fn lemma_remembered(before: Seq<u64>, finished: Seq<u64>, id: u64)
    requires
        finished.len() <= COMPLETED_FRAMES_REMEMBERED,
        !before.contains(id),
    ensures
        remembered(before + finished).contains(id) == finished.contains(id),
{
    let all = before + finished;
    let kept = remembered(all);
    let cut = all.len() - kept.len();
    if finished.contains(id) {
        let i = choose|i: int| 0 <= i < finished.len() && finished[i] == id;
        assert(kept[before.len() + i - cut] == id);
    }
    if kept.contains(id) {
        let i = choose|i: int| 0 <= i < kept.len() && kept[i] == id;
        assert(all[i + cut] == id);
        if i + cut < before.len() {
            assert(before[i + cut] == id);
        } else {
            assert(finished[i + cut - before.len()] == id);
        }
    }
}

/// A frame that is finished is one of the frames, and is finished once.
proof fn lemma_finished(
    start: ReassemblerView,
    frames: Seq<VideoFrameView>,
    datagram_size: int,
    arrivals: Seq<Arrival>,
    n: nat,
)
    requires
        frames_fit(start, frames, datagram_size),
        arrivals_fit(start, frames, video::chunk_size(datagram_size), arrivals),
        n <= arrivals.len(),
    ensures
        ({
            let size = video::chunk_size(datagram_size);
            let ids = finished(frames, size, arrivals, n);
            &&& ids.len() <= frames.len()
            &&& forall|f: int|
                0 <= f < frames.len() ==> ids.contains((#[trigger] frames[f]).frame_id)
                    == is_there(frames, size, arrivals, f, n)
        }),
{
    let size = video::chunk_size(datagram_size);
    lemma_finished_once(start, frames, datagram_size, arrivals, n);
    let ids = finished(frames, size, arrivals, n);
    ids.unique_seq_to_set();
    let all = frame_ids(frames);
    assert(ids.to_set().subset_of(all.to_set())) by {
        assert forall|id: u64| ids.to_set().contains(id) implies all.to_set().contains(id) by {
            let i = choose|i: int| 0 <= i < ids.len() && ids[i] == id;
            let f = choose|f: int| 0 <= f < frames.len() && frames[f].frame_id == ids[i];
            assert(all[f] == id);
        }
    }
    vstd::seq_lib::seq_to_set_is_finite(all);
    vstd::set_lib::lemma_len_subset(ids.to_set(), all.to_set());
    all.lemma_cardinality_of_set();
}

proof fn lemma_finished_once(
    start: ReassemblerView,
    frames: Seq<VideoFrameView>,
    datagram_size: int,
    arrivals: Seq<Arrival>,
    n: nat,
)
    requires
        frames_fit(start, frames, datagram_size),
        arrivals_fit(start, frames, video::chunk_size(datagram_size), arrivals),
        n <= arrivals.len(),
    ensures
        ({
            let size = video::chunk_size(datagram_size);
            let ids = finished(frames, size, arrivals, n);
            &&& ids.no_duplicates()
            &&& forall|i: int|
                0 <= i < ids.len() ==> exists|f: int|
                    0 <= f < frames.len() && (#[trigger] frames[f]).frame_id == #[trigger] ids[i]
            &&& forall|f: int|
                0 <= f < frames.len() ==> ids.contains((#[trigger] frames[f]).frame_id)
                    == is_there(frames, size, arrivals, f, n)
        }),
    decreases n,
{
    let size = video::chunk_size(datagram_size);
    let ids = finished(frames, size, arrivals, n);
    if n == 0 {
        assert forall|f: int| 0 <= f < frames.len() implies !is_there(
            frames,
            size,
            arrivals,
            f,
            n,
        ) by {
            lemma_nothing_is_not_enough(frames[f], datagram_size);
        }
    } else {
        let k = (n - 1) as nat;
        lemma_finished_once(start, frames, datagram_size, arrivals, k);
        let before = finished(frames, size, arrivals, k);
        let f = arrivals[k as int].frame;
        video_laws::lemma_enough_grows(
            count_of(frames, size, f),
            arrived(arrivals, f, k),
            arrivals[k as int].index,
        );
        assert forall|g: int| 0 <= g < frames.len() implies ids.contains(
            (#[trigger] frames[g]).frame_id,
        ) == is_there(frames, size, arrivals, g, n) by {
            if ids.len() > before.len() {
                if before.contains(frames[g].frame_id) {
                    let i = choose|i: int| 0 <= i < before.len() && before[i] == frames[g].frame_id;
                    assert(ids[i] == frames[g].frame_id);
                }
                assert(ids[before.len() as int] == frames[f].frame_id);
                if ids.contains(frames[g].frame_id) && g != f {
                    let i = choose|i: int| 0 <= i < ids.len() && ids[i] == frames[g].frame_id;
                    assert(frames[g].frame_id != frames[f].frame_id);
                    assert(before[i] == frames[g].frame_id);
                }
            }
        }
        if ids.len() > before.len() {
            assert forall|i: int| 0 <= i < ids.len() implies exists|g: int|
                0 <= g < frames.len() && (#[trigger] frames[g]).frame_id == #[trigger] ids[i] by {
                if i < before.len() {
                    assert(ids[i] == before[i]);
                } else {
                    assert(frames[f].frame_id == ids[i]);
                }
            }
            assert(!before.contains(frames[f].frame_id));
            assert forall|i: int, j: int| 0 <= i < j < ids.len() implies ids[i] != ids[j] by {
                if j == before.len() {
                    assert(before[i] == ids[i]);
                }
            }
        }
    }
}

proof fn lemma_nothing_is_not_enough(frame: VideoFrameView, datagram_size: int)
    requires
        video_laws::sendable(frame, datagram_size),
    ensures
        !video_laws::enough(
            video::chunks_of(frame.payload, video::chunk_size(datagram_size)).len() as int,
            Set::empty(),
        ),
{
    let size = video::chunk_size(datagram_size);
    video::lemma_chunk_bounds(frame.payload.len() as int, size);
    let have = Set::<int>::empty();
    assert(!have.contains(0));
}

/// What a reassembler holds of frame `f`, in the middle of a run.
spec fn frame_kept(
    start: ReassemblerView,
    frames: Seq<VideoFrameView>,
    size: int,
    arrivals: Seq<Arrival>,
    n: nat,
    f: int,
) -> bool {
    let state = state_before(start, frames, size, arrivals, n);
    let id = frames[f].frame_id;
    !is_there(frames, size, arrivals, f, n) ==> match last_arrival(arrivals, f, n) {
        None => !state.frames.contains_key(id) && arrived(arrivals, f, n) == Set::<int>::empty(),
        Some(last) => arrivals[n - 1].now - last <= start.max_age ==> {
            &&& state.frames.contains_key(id)
            &&& state.frames[id] == video_laws::held(
                frames[f],
                size,
                arrived(arrivals, f, n),
                last,
            )
        },
    }
}

/// What holds in the middle of a run.
spec fn run_valid(
    start: ReassemblerView,
    frames: Seq<VideoFrameView>,
    size: int,
    arrivals: Seq<Arrival>,
    n: nat,
) -> bool {
    let state = state_before(start, frames, size, arrivals, n);
    &&& state.max_age == start.max_age
    &&& state.max_pending_frames == start.max_pending_frames
    &&& state.frames.dom().subset_of(start.frames.dom().union(frame_ids(frames).to_set()))
    &&& state.completed == remembered(start.completed + finished(frames, size, arrivals, n))
    &&& forall|f: int|
        0 <= f < frames.len() ==> #[trigger] frame_kept(start, frames, size, arrivals, n, f)
}

/// There is room for a frame that has not begun to arrive.
proof fn lemma_room(
    start: ReassemblerView,
    frames: Seq<VideoFrameView>,
    datagram_size: int,
    state: ReassemblerView,
    f: int,
)
    requires
        frames_fit(start, frames, datagram_size),
        0 <= f < frames.len(),
        state.frames.dom().subset_of(start.frames.dom().union(frame_ids(frames).to_set())),
    ensures
        state.frames.dom().finite(),
        !state.frames.contains_key(frames[f].frame_id) ==> state.frames.len()
            < start.max_pending_frames,
{
    let ids = frame_ids(frames);
    let allowed = start.frames.dom().union(ids.to_set());
    let id = frames[f].frame_id;
    vstd::seq_lib::seq_to_set_is_finite(ids);
    ids.lemma_cardinality_of_set();
    vstd::set_lib::lemma_len_union(start.frames.dom(), ids.to_set());
    assert(ids[f] == id);
    assert(allowed.contains(id));
    vstd::set_lib::lemma_len_subset(state.frames.dom(), allowed);
    if !state.frames.contains_key(id) {
        assert(state.frames.dom().subset_of(allowed.remove(id)));
        vstd::set_lib::lemma_len_subset(state.frames.dom(), allowed.remove(id));
    }
}

/// What one arrival does to its own frame.
proof fn lemma_own_frame(
    start: ReassemblerView,
    frames: Seq<VideoFrameView>,
    datagram_size: int,
    arrivals: Seq<Arrival>,
    n: nat,
)
    requires
        frames_fit(start, frames, datagram_size),
        arrivals_fit(start, frames, video::chunk_size(datagram_size), arrivals),
        n < arrivals.len(),
        run_valid(start, frames, video::chunk_size(datagram_size), arrivals, n),
    ensures
        ({
            let size = video::chunk_size(datagram_size);
            let f = arrivals[n as int].frame;
            let state = state_before(start, frames, size, arrivals, n);
            let after = state_before(start, frames, size, arrivals, n + 1);
            let id = frames[f].frame_id;
            let was = is_there(frames, size, arrivals, f, n);
            let done = is_there(frames, size, arrivals, f, n + 1);
            &&& was ==> done && after == reassembly::expired(state, arrivals[n as int].now)
            &&& !was ==> has_room_for(state, id, arrivals[n as int].now)
            &&& after.max_age == start.max_age
            &&& after.max_pending_frames == start.max_pending_frames
            &&& after.completed == if done && !was {
                reassembly::remember(state.completed, id)
            } else {
                state.completed
            }
            &&& !done ==> after.frames.contains_key(id) && after.frames[id] == video_laws::held(
                frames[f],
                size,
                arrived(arrivals, f, n + 1),
                arrivals[n as int].now,
            )
            &&& outcome_at(start, frames, size, arrivals, n) == Ok::<
                Option<VideoFrameView>,
                VideoReassemblyError,
            >(
                if done && !was {
                    Some(frames[f])
                } else {
                    None
                },
            )
        }),
{
    let size = video::chunk_size(datagram_size);
    let arrival = arrivals[n as int];
    let f = arrival.frame;
    let frame = frames[f];
    let id = frame.frame_id;
    let now = arrival.now;
    let state = state_before(start, frames, size, arrivals, n);
    let fresh = reassembly::expired(state, now);
    let have = arrived(arrivals, f, n);
    let more = arrived(arrivals, f, n + 1);
    let count = count_of(frames, size, f);
    let fragment = video::fragments_of(frame, size)[arrival.index];
    assert(more == have.insert(arrival.index));
    video::lemma_chunk_bounds(frame.payload.len() as int, size);
    video::lemma_fragment_limit(frame.payload.len() as int, size);
    video_laws::fragments_fit(frame, datagram_size, arrival.index);
    video_laws::lemma_enough_grows(count, have, arrival.index);
    lemma_finished(start, frames, datagram_size, arrivals, n);
    lemma_remembered(start.completed, finished(frames, size, arrivals, n), id);
    lemma_room(start, frames, datagram_size, state, f);
    assert(frame_kept(start, frames, size, arrivals, n, f));
    assert(state.completed.contains(id) == is_there(frames, size, arrivals, f, n));
    if !is_there(frames, size, arrivals, f, n) {
        assert(fresh.frames.dom().subset_of(state.frames.dom()));
        vstd::set_lib::lemma_len_subset(fresh.frames.dom(), state.frames.dom());
        match last_arrival(arrivals, f, n) {
            None => {
                let pending = reassembly::pending_new(fragment, now);
                let none = video_laws::held(frame, size, have, now);
                assert(pending.chunks =~= none.chunks);
                assert(pending == none);
                video_laws::lemma_push_held(frame, size, have, now, arrival.index, now);
            },
            Some(last) => {
                assert(n > 0);
                assert(arrivals[n - 1].now <= arrivals[n as int].now);
                lemma_last_arrival(arrivals, f, n);
                assert(fresh.frames.contains_key(id));
                video_laws::lemma_push_held(frame, size, have, last, arrival.index, now);
            },
        }
        video_laws::lemma_complete_when_enough(frame, size, more, now);
        if is_there(frames, size, arrivals, f, n + 1) {
            video_laws::lemma_finish_when_enough(frame, datagram_size, more, now);
        }
    }
}

/// The last arrival was before.
proof fn lemma_last_arrival(arrivals: Seq<Arrival>, f: int, n: nat)
    requires
        n <= arrivals.len(),
        forall|j: int, k: int|
            0 <= j <= k < arrivals.len() ==> (#[trigger] arrivals[j]).now <= (
            #[trigger] arrivals[k]).now,
    ensures
        last_arrival(arrivals, f, n) matches Some(last) ==> n > 0 && last <= arrivals[n - 1].now,
    decreases n,
{
    if n > 0 {
        lemma_last_arrival(arrivals, f, (n - 1) as nat);
        if n > 1 {
            assert(arrivals[n - 2].now <= arrivals[n - 1].now);
        }
    }
}

proof fn lemma_run(
    start: ReassemblerView,
    frames: Seq<VideoFrameView>,
    datagram_size: int,
    arrivals: Seq<Arrival>,
    n: nat,
)
    requires
        frames_fit(start, frames, datagram_size),
        arrivals_fit(start, frames, video::chunk_size(datagram_size), arrivals),
        n <= arrivals.len(),
    ensures
        run_valid(start, frames, video::chunk_size(datagram_size), arrivals, n),
    decreases n,
{
    let size = video::chunk_size(datagram_size);
    if n == 0 {
        assert(start.completed + Seq::empty() =~= start.completed);
        assert forall|f: int| 0 <= f < frames.len() implies #[trigger] frame_kept(
            start,
            frames,
            size,
            arrivals,
            n,
            f,
        ) by {
            assert(!start.frames.contains_key(frames[f].frame_id));
        }
    } else {
        let k = (n - 1) as nat;
        lemma_run(start, frames, datagram_size, arrivals, k);
        lemma_own_frame(start, frames, datagram_size, arrivals, k);
        let arrival = arrivals[k as int];
        let f = arrival.frame;
        let now = arrival.now;
        let id = frames[f].frame_id;
        let state = state_before(start, frames, size, arrivals, k);
        let after = state_before(start, frames, size, arrivals, n);
        let fragment = video::fragments_of(frames[f], size)[arrival.index];
        let before = finished(frames, size, arrivals, k);
        lemma_room(start, frames, datagram_size, state, f);
        lemma_remember_more(start.completed + before, id);
        assert((start.completed + before).push(id) =~= start.completed + before.push(id));
        assert forall|other: u64| other != id && #[trigger] after.frames.contains_key(
            other,
        ) implies state.frames.contains_key(other) by {
            if !is_there(frames, size, arrivals, f, k) {
                other_frames_are_left_alone(state, fragment, other, now);
            }
        }
        assert(frame_ids(frames)[f] == id);
        assert forall|g: int| 0 <= g < frames.len() implies #[trigger] frame_kept(
            start,
            frames,
            size,
            arrivals,
            n,
            g,
        ) by {
            if g != f {
                let other = frames[g].frame_id;
                assert(other != id) by {
                    if f < g {
                        assert(frames[f].frame_id != frames[g].frame_id);
                    } else {
                        assert(frames[g].frame_id != frames[f].frame_id);
                    }
                }
                assert(frame_kept(start, frames, size, arrivals, k, g));
                if !is_there(frames, size, arrivals, f, k) {
                    other_frames_are_left_alone(state, fragment, other, now);
                }
                lemma_last_arrival(arrivals, g, k);
                if k > 0 {
                    assert(arrivals[k - 1].now <= arrivals[k as int].now);
                }
            }
        }
    }
}

/// Fragments of different frames do not disturb each other: however the fragments of several
/// frames arrive among each other, reordered and duplicated, each frame comes out as it was
/// sent, once, and at the first fragment with which all its data fragments have arrived, or
/// all but one and its recovery fragment.
pub proof fn frames_do_not_disturb_each_other(
    start: ReassemblerView,
    frames: Seq<VideoFrameView>,
    datagram_size: int,
    arrivals: Seq<Arrival>,
    n: nat,
)
    requires
        frames_fit(start, frames, datagram_size),
        arrivals_fit(start, frames, video::chunk_size(datagram_size), arrivals),
        n < arrivals.len(),
    ensures
        ({
            let size = video::chunk_size(datagram_size);
            let f = arrivals[n as int].frame;
            outcome_at(start, frames, size, arrivals, n) == Ok::<
                Option<VideoFrameView>,
                VideoReassemblyError,
            >(
                if is_there(frames, size, arrivals, f, n + 1) && !is_there(
                    frames,
                    size,
                    arrivals,
                    f,
                    n,
                ) {
                    Some(frames[f])
                } else {
                    None
                },
            )
        }),
{
    lemma_run(start, frames, datagram_size, arrivals, n);
    lemma_own_frame(start, frames, datagram_size, arrivals, n);
}

/// A frame that is complete is handed out and let go, and is remembered as the last of the 64 that
/// were complete last. One that cannot be put together is let go too, and one of which something
/// is missing is kept.
pub proof fn finished_frames_are_let_go(
    state: ReassemblerView,
    fragment: VideoFragmentView,
    now: u64,
)
    requires
        state.completed.len() <= 64,
    ensures
        ({
            let (after, outcome) = reassembly::pushed(state, fragment, now);
            let id = fragment.frame_id;
            &&& outcome matches Ok(Some(frame)) ==> {
                &&& !after.frames.contains_key(id)
                &&& after.completed == if state.completed.len() < 64 {
                    state.completed.push(id)
                } else {
                    state.completed.subrange(1, 64).push(id)
                }
            }
            &&& !(outcome matches Ok(Some(_))) ==> after.completed == state.completed
            &&& outcome matches Ok(None) ==> state.completed.contains(id)
                || after.frames.contains_key(id)
            &&& outcome is Err && protocol::fragment_valid(fragment) && !state.completed.contains(id)
                ==> !after.frames.contains_key(id)
            &&& after.max_pending_frames == state.max_pending_frames
            &&& after.max_age == state.max_age
        }),
{
    let all = state.completed.push(fragment.frame_id);
    if state.completed.len() == 64 {
        assert(all.skip(1) =~= state.completed.subrange(1, 64).push(fragment.frame_id));
    }
}

/// What is lost is not made up where the parity says that the frame is longer than all of its
/// fragments could be, or so short that it would need one fewer, or where a fragment is longer
/// than the parity.
pub proof fn wrong_parity_is_refused(pending: PendingFrameView, recovery: Seq<u8>, i: int)
    requires
        pending.recovery == Some(recovery),
        recovery.len() >= 4,
    ensures
        ({
            let declared = bytes::be_value(recovery.subrange(0, 4));
            let longest = recovery.len() - 4;
            let refused = Err::<Seq<Seq<u8>>, _>(VideoReassemblyError::InvalidFragment);
            &&& declared > 8_388_608 ==> reassembly::recovered_chunks(pending) == refused
            &&& declared <= longest * (pending.total - 1) ==> reassembly::recovered_chunks(pending)
                == refused
            &&& declared > longest * pending.total ==> reassembly::recovered_chunks(pending)
                == refused
            &&& 0 <= i < pending.chunks.len() && pending.chunks[i] is Some
                && pending.chunks[i]->0.len() > longest ==> reassembly::recovered_chunks(pending)
                == refused
        }),
{
    assert(recovery.take(4) =~= recovery.subrange(0, 4));
    if 0 <= i < pending.chunks.len() && pending.chunks[i] is Some {
        assert(reassembly::filled(pending.chunks)[i] == pending.chunks[i]->0);
    }
}

/// Where there is nothing to make up for it, what is lost stays lost.
pub proof fn losses_need_parity(pending: PendingFrameView)
    requires
        pending.recovery is None,
    ensures
        reassembly::recovered_chunks(pending) == Err::<Seq<Seq<u8>>, _>(
            VideoReassemblyError::InvalidFragment,
        ),
{
}

/// What is lost is not made up where all fragments together would not have the length that the
/// parity says: the lost one is as long as the parity, or is what is left where it is the last.
pub proof fn wrong_lengths_are_refused(pending: PendingFrameView, recovery: Seq<u8>, lost: int)
    requires
        pending.recovery == Some(recovery),
        recovery.len() >= 4,
        reassembly::missing_at(pending.chunks, lost),
    ensures
        ({
            let declared = bytes::be_value(recovery.subrange(0, 4));
            let longest = recovery.len() - 4;
            let held = video::joined(reassembly::filled(pending.chunks)).len();
            let refused = Err::<Seq<Seq<u8>>, _>(VideoReassemblyError::InvalidFragment);
            &&& lost + 1 < pending.total && held + longest != declared
                ==> reassembly::recovered_chunks(pending) == refused
            &&& lost + 1 == pending.total && held != longest * (pending.total - 1)
                ==> reassembly::recovered_chunks(pending) == refused
        }),
{
    assert(recovery.take(4) =~= recovery.subrange(0, 4));
    assert forall|i: int| #[trigger] reassembly::missing_at(pending.chunks, i) implies i == lost by {
        if i < lost {
            assert(pending.chunks[i] is Some);
        } else if lost < i {
            assert(pending.chunks[lost] is Some);
        }
    }
}

} // verus!
