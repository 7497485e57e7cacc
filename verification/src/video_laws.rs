//! What cutting up frames and putting them together promise together.

use crate::bytes;
use crate::clock;
use crate::protocol;
use crate::protocol::{
    PacketView, MAX_DATAGRAM_SIZE, MAX_VIDEO_FRAME_SIZE, STANDARD_DATAGRAM_SIZE,
    VIDEO_RECOVERY_HEADER_LEN,
};
use crate::protocol_laws;
use crate::reassembly;
use crate::reassembly::{
    PendingFrameView, ReassemblerView, VideoReassemblyError, COMPLETED_FRAMES_REMEMBERED,
};
use crate::video;
use crate::video::VideoFrameView;
use vstd::prelude::*;

verus! {

/// A frame that can be sent in datagrams of the given size.
pub open spec fn sendable(frame: VideoFrameView, datagram_size: int) -> bool {
    &&& 0 < frame.payload.len() <= MAX_VIDEO_FRAME_SIZE
    &&& STANDARD_DATAGRAM_SIZE <= datagram_size <= MAX_DATAGRAM_SIZE
}

/// The fragments of a frame are valid, fit into datagrams of the negotiated size
/// and are read from them as they were sent.
pub proof fn fragments_fit(frame: VideoFrameView, datagram_size: int, index: int)
    requires
        sendable(frame, datagram_size),
        0 <= index < video::fragments_of(frame, video::chunk_size(datagram_size)).len(),
    ensures
        ({
            let fragment = video::fragments_of(frame, video::chunk_size(datagram_size))[index];
            let datagram = protocol::encode_packet(PacketView::Video(fragment));
            &&& protocol::fragment_valid(fragment)
            &&& datagram.len() <= datagram_size
            &&& protocol::parsed_packet(datagram) == Ok::<PacketView, protocol::PacketParseError>(
                PacketView::Video(fragment),
            )
        }),
{
    let size = video::chunk_size(datagram_size);
    let fragment = video::fragments_of(frame, size)[index];
    let count = video::chunks_of(frame.payload, size).len();
    video::lemma_chunk_bounds(frame.payload.len() as int, size);
    video::lemma_fragment_limit(frame.payload.len() as int, size);
    if index < count {
        video::lemma_chunk(frame.payload, size, index);
    } else {
        bytes::lemma_be_bytes_len(frame.payload.len(), VIDEO_RECOVERY_HEADER_LEN as nat);
    }
    protocol_laws::packets_round_trip(PacketView::Video(fragment));
    protocol_laws::lemma_video_round_trip(fragment);
}

/// Each fragment says which frame it belongs to and which of its fragments it is, and no two
/// of them say the same.
pub proof fn fragments_are_told_apart(frame: VideoFrameView, datagram_size: int, i: int, j: int)
    requires
        sendable(frame, datagram_size),
        0 <= i < j < video::fragments_of(frame, video::chunk_size(datagram_size)).len(),
    ensures
        ({
            let fragments = video::fragments_of(frame, video::chunk_size(datagram_size));
            &&& fragments[i].frame_id == frame.frame_id
            &&& fragments[j].frame_id == frame.frame_id
            &&& fragments[i].index == i
            &&& fragments[j].index == j
        }),
{
    let size = video::chunk_size(datagram_size);
    video::lemma_chunk_bounds(frame.payload.len() as int, size);
    video::lemma_fragment_limit(frame.payload.len() as int, size);
}

/// The chunks of a frame, one after the other, are the frame.
pub proof fn chunks_make_up_the_frame(payload: Seq<u8>, size: int)
    requires
        0 < size,
    ensures
        video::joined(video::chunks_of(payload, size)) == payload,
{
    let chunks = video::chunks_of(payload, size);
    video::lemma_chunk_bounds(payload.len() as int, size);
    lemma_joined_prefix(payload, size, chunks.len() as int);
    assert(chunks.take(chunks.len() as int) =~= chunks);
    assert(payload.take(payload.len() as int) =~= payload);
}

proof fn lemma_joined_prefix(payload: Seq<u8>, size: int, n: int)
    requires
        0 < size,
        0 <= n <= video::chunks_of(payload, size).len(),
    ensures
        video::joined(video::chunks_of(payload, size).take(n)) == payload.take(
            video::chunk_end(payload.len() as int, size, n),
        ),
    decreases n,
{
    let chunks = video::chunks_of(payload, size);
    let len = payload.len() as int;
    if n == 0 {
        assert(chunks.take(0) =~= Seq::empty());
        assert(payload.take(video::chunk_end(len, size, 0)) =~= Seq::empty());
    } else {
        lemma_joined_prefix(payload, size, n - 1);
        video::lemma_chunk(payload, size, n - 1);
        assert(chunks.take(n).drop_last() =~= chunks.take(n - 1));
        assert(payload.take(video::chunk_end(len, size, n)) =~= payload.take((n - 1) * size)
            + chunks[n - 1]);
    }
}

/// With one chunk left out, exclusive-oring the rest and the parity of all gives
/// that chunk.
proof fn lemma_xor_without(all: Seq<Seq<u8>>, some: Seq<Seq<u8>>, missing: int, j: int)
    requires
        all.len() == some.len(),
        0 <= missing,
        forall|i: int| 0 <= i < all.len() && i != missing ==> #[trigger] some[i] == all[i],
        missing < all.len() ==> some[missing].len() == 0,
    ensures
        video::xor_at(all, j) ^ video::xor_at(some, j) == if missing < all.len() {
            video::byte_at(all[missing], j)
        } else {
            0
        },
    decreases all.len(),
{
    if all.len() == 0 {
        assert(0u8 ^ 0u8 == 0) by (bit_vector);
    } else {
        let all_init = all.drop_last();
        let some_init = some.drop_last();
        assert forall|i: int| 0 <= i < all_init.len() && i != missing implies #[trigger] some_init[i]
            == all_init[i] by {
            assert(some[i] == all[i]);
        }
        if missing < all_init.len() {
            assert(some_init[missing] == some[missing]);
        }
        lemma_xor_without(all_init, some_init, missing, j);
        let x = video::xor_at(all_init, j);
        let y = video::xor_at(some_init, j);
        let b = video::byte_at(all.last(), j);
        if missing == all.len() - 1 {
            assert(video::byte_at(some.last(), j) == 0);
            assert(x ^ y == 0);
            assert((x ^ b) ^ (y ^ 0) == b) by (bit_vector)
                requires
                    x ^ y == 0,
            ;
        } else {
            assert(some[all.len() - 1] == all[all.len() - 1]);
            assert((x ^ b) ^ (y ^ b) == x ^ y) by (bit_vector);
        }
    }
}

/// What a reassembler holds of a frame when the fragments `have` have arrived.
pub open spec fn held(
    frame: VideoFrameView,
    size: int,
    have: Set<int>,
    last_updated: u64,
) -> PendingFrameView {
    let chunks = video::chunks_of(frame.payload, size);
    PendingFrameView {
        frame_id: frame.frame_id,
        timestamp_us: frame.timestamp_us,
        is_keyframe: frame.is_keyframe,
        total: chunks.len() as u16,
        chunks: Seq::new(
            chunks.len(),
            |i: int|
                if have.contains(i) {
                    Some(chunks[i])
                } else {
                    None
                },
        ),
        recovery: if have.contains(chunks.len() as int) {
            Some(video::recovery_payload(frame.payload, size))
        } else {
            None
        },
        last_updated,
    }
}

/// All `count` data fragments have arrived but, perhaps, fragment `missing`.
pub open spec fn all_but(count: int, have: Set<int>, missing: int) -> bool {
    forall|i: int| 0 <= i < count && i != missing ==> #[trigger] have.contains(i)
}

/// All data fragments have arrived, or all but one and the recovery fragment.
pub open spec fn enough(count: int, have: Set<int>) -> bool {
    ||| forall|i: int| 0 <= i < count ==> #[trigger] have.contains(i)
    ||| have.contains(count) && exists|missing: int|
        0 <= missing < count && #[trigger] all_but(count, have, missing)
}

/// One chunk is missing when one less is received than there are.
proof fn lemma_one_missing(chunks: Seq<Option<Seq<u8>>>)
    ensures
        received_but_one(chunks) <==> exists|m: int| #[trigger] only_missing(chunks, m),
    decreases chunks.len(),
{
    if chunks.len() > 0 {
        let init = chunks.drop_last();
        lemma_one_missing(init);
        reassembly::lemma_received_bound(init);
        reassembly::lemma_received_bound(chunks);
        if received_but_one(chunks) {
            if chunks.last() is Some {
                let m = choose|m: int| only_missing(init, m);
                assert(only_missing(init, m));
                assert(only_missing(chunks, m)) by {
                    assert forall|i: int| 0 <= i < chunks.len() && i != m implies (
                    #[trigger] chunks[i]) is Some by {
                        if i < init.len() {
                            assert(init[i] is Some);
                        }
                    }
                }
            } else {
                assert(only_missing(chunks, chunks.len() - 1)) by {
                    assert forall|i: int| 0 <= i < chunks.len() && i != chunks.len() - 1 implies (
                    #[trigger] chunks[i]) is Some by {
                        assert(init[i] is Some);
                    }
                }
            }
        }
        if exists|m: int| #[trigger] only_missing(chunks, m) {
            let m = choose|m: int| only_missing(chunks, m);
            if m == chunks.len() - 1 {
                assert forall|i: int| 0 <= i < init.len() implies (#[trigger] init[i]) is Some by {
                    assert(chunks[i] is Some);
                }
            } else {
                assert(chunks[chunks.len() - 1] is Some);
                assert(only_missing(init, m)) by {
                    assert forall|i: int| 0 <= i < init.len() && i != m implies (
                    #[trigger] init[i]) is Some by {
                        assert(chunks[i] is Some);
                    }
                }
            }
        }
    }
}

spec fn received_but_one(chunks: Seq<Option<Seq<u8>>>) -> bool {
    reassembly::received(chunks) + 1 == chunks.len()
}

spec fn only_missing(chunks: Seq<Option<Seq<u8>>>, m: int) -> bool {
    &&& 0 <= m < chunks.len()
    &&& chunks[m] is None
    &&& forall|i: int| 0 <= i < chunks.len() && i != m ==> (#[trigger] chunks[i]) is Some
}

/// A reassembler waits for more as long as it does not have enough.
pub(crate) proof fn lemma_complete_when_enough(
    frame: VideoFrameView,
    size: int,
    have: Set<int>,
    last_updated: u64,
)
    requires
        video::chunks_of(frame.payload, size).len() <= u16::MAX,
    ensures
        reassembly::pending_complete(held(frame, size, have, last_updated)) == enough(
            video::chunks_of(frame.payload, size).len() as int,
            have,
        ),
{
    let pending = held(frame, size, have, last_updated);
    let chunks = pending.chunks;
    let count = chunks.len() as int;
    reassembly::lemma_received_bound(chunks);
    lemma_one_missing(chunks);
    assert forall|i: int| 0 <= i < count implies (chunks[i] is Some) == have.contains(i) by {}
    if forall|i: int| 0 <= i < count ==> #[trigger] have.contains(i) {
        assert forall|i: int| 0 <= i < count implies (#[trigger] chunks[i]) is Some by {
            assert(have.contains(i));
        }
    }
    if reassembly::received(chunks) == count {
        assert forall|i: int| 0 <= i < count implies #[trigger] have.contains(i) by {
            assert(chunks[i] is Some);
        }
    }
    if received_but_one(chunks) {
        let m = choose|m: int| only_missing(chunks, m);
        assert(only_missing(chunks, m));
        assert(all_but(count, have, m)) by {
            assert forall|i: int| 0 <= i < count && i != m implies #[trigger] have.contains(i) by {
                assert(chunks[i] is Some);
            }
        }
    }
    if exists|missing: int| 0 <= missing < count && #[trigger] all_but(count, have, missing) {
        let m = choose|missing: int|
            0 <= missing < count && #[trigger] all_but(count, have, missing);
        if !have.contains(m) {
            assert(only_missing(chunks, m)) by {
                assert forall|i: int| 0 <= i < chunks.len() && i != m implies (
                #[trigger] chunks[i]) is Some by {
                    assert(have.contains(i));
                }
            }
        } else {
            assert forall|i: int| 0 <= i < count implies (#[trigger] chunks[i]) is Some by {
                assert(have.contains(i) || i == m);
            }
        }
    }
}

/// Enough fragments make up the frame that was sent.
pub(crate) proof fn lemma_finish_when_enough(
    frame: VideoFrameView,
    datagram_size: int,
    have: Set<int>,
    last_updated: u64,
)
    requires
        sendable(frame, datagram_size),
        enough(
            video::chunks_of(frame.payload, video::chunk_size(datagram_size)).len() as int,
            have,
        ),
    ensures
        reassembly::pending_finish(
            held(frame, video::chunk_size(datagram_size), have, last_updated),
        ) == Ok::<VideoFrameView, VideoReassemblyError>(frame),
{
    let size = video::chunk_size(datagram_size);
    let pending = held(frame, size, have, last_updated);
    let all = video::chunks_of(frame.payload, size);
    let some = reassembly::filled(pending.chunks);
    let count = all.len() as int;
    let len = frame.payload.len() as int;
    video::lemma_chunk_bounds(len, size);
    video::lemma_fragment_limit(len, size);
    lemma_complete_when_enough(frame, size, have, last_updated);
    reassembly::lemma_received_bound(pending.chunks);
    lemma_one_missing(pending.chunks);
    chunks_make_up_the_frame(frame.payload, size);
    if reassembly::received(pending.chunks) == count {
        assert(some =~= all) by {
            assert forall|i: int| 0 <= i < count implies some[i] == all[i] by {
                assert(pending.chunks[i] is Some);
            }
        }
    } else {
        let m = choose|m: int| only_missing(pending.chunks, m);
        assert(only_missing(pending.chunks, m));
        let recovery = video::recovery_payload(frame.payload, size);
        let parity = recovery.skip(VIDEO_RECOVERY_HEADER_LEN as int);
        bytes::lemma_be_ranges();
        bytes::lemma_be_read_write(frame.payload.len(), VIDEO_RECOVERY_HEADER_LEN as nat);
        assert(recovery.take(VIDEO_RECOVERY_HEADER_LEN as int) =~= bytes::be_bytes(
            frame.payload.len(),
            VIDEO_RECOVERY_HEADER_LEN as nat,
        ));
        assert(parity =~= Seq::new(size as nat, |j: int| video::xor_at(all, j)));
        assert(size * (count - 1) == (count - 1) * size) by (nonlinear_arith);
        assert(size * count == count * size) by (nonlinear_arith);
        assert(reassembly::missing_at(pending.chunks, m)) by {
            assert forall|k: int| 0 <= k < m implies (#[trigger] pending.chunks[k]) is Some by {}
        }
        let missing = choose|i: int| reassembly::missing_at(pending.chunks, i);
        assert(reassembly::missing_at(pending.chunks, missing));
        assert(missing == m);
        assert forall|i: int| 0 <= i < count && i != m implies #[trigger] some[i] == all[i] by {
            assert(pending.chunks[i] is Some);
        }
        assert(some[m] == Seq::<u8>::empty());
        assert forall|i: int| 0 <= i < some.len() implies (#[trigger] some[i]).len()
            <= parity.len() by {
            video::lemma_chunk(frame.payload, size, i);
        }
        video::lemma_chunk(frame.payload, size, m);
        let missing_size = if m + 1 == pending.total {
            len - parity.len() * (pending.total - 1)
        } else {
            parity.len() as int
        };
        assert(missing_size == all[m].len());
        let lost = Seq::new(missing_size as nat, |j: int| parity[j] ^ video::xor_at(some, j));
        assert(lost =~= all[m]) by {
            assert forall|j: int| 0 <= j < lost.len() implies lost[j] == all[m][j] by {
                lemma_xor_without(all, some, m, j);
            }
        }
        assert(some.update(m, lost) =~= all);
        reassembly::lemma_joined_update(some, m, lost);
    }
}

/// A fragment of a frame that arrives is held beside the others.
pub(crate) proof fn lemma_push_held(
    frame: VideoFrameView,
    size: int,
    have: Set<int>,
    then: u64,
    index: int,
    now: u64,
)
    requires
        0 <= index < video::fragments_of(frame, size).len(),
        video::chunks_of(frame.payload, size).len() < u16::MAX,
    ensures
        reassembly::pending_push(
            held(frame, size, have, then),
            video::fragments_of(frame, size)[index],
            now,
        ) == held(frame, size, have.insert(index), now),
{
    let pushed = reassembly::pending_push(
        held(frame, size, have, then),
        video::fragments_of(frame, size)[index],
        now,
    );
    let expected = held(frame, size, have.insert(index), now);
    assert(pushed.chunks =~= expected.chunks);
}

/// The fragments of one frame arrive in the order `order`, at the times `times`:
/// the state of the reassembler before arrival `n`.
pub open spec fn state_before(
    start: ReassemblerView,
    frame: VideoFrameView,
    size: int,
    order: Seq<int>,
    times: Seq<u64>,
    n: nat,
) -> ReassemblerView
    decreases n,
{
    if n == 0 {
        start
    } else {
        let k = (n - 1) as nat;
        reassembly::pushed(
            state_before(start, frame, size, order, times, k),
            video::fragments_of(frame, size)[order[k as int]],
            times[k as int],
        ).0
    }
}

/// What comes of arrival `n`.
pub open spec fn outcome_at(
    start: ReassemblerView,
    frame: VideoFrameView,
    size: int,
    order: Seq<int>,
    times: Seq<u64>,
    n: nat,
) -> Result<Option<VideoFrameView>, VideoReassemblyError> {
    reassembly::pushed(
        state_before(start, frame, size, order, times, n),
        video::fragments_of(frame, size)[order[n as int]],
        times[n as int],
    ).1
}

/// The fragments that have arrived before arrival `n`.
pub open spec fn arrived(order: Seq<int>, n: nat) -> Set<int> {
    Set::new(|i: int| exists|k: int| 0 <= k < n && #[trigger] order[k] == i)
}

/// With each arrival one more has arrived.
pub(crate) proof fn lemma_arrived_next(order: Seq<int>, n: nat)
    requires
        n < order.len(),
    ensures
        arrived(order, n + 1) == arrived(order, n).insert(order[n as int]),
{
    let have = arrived(order, n);
    let more = arrived(order, n + 1);
    let index = order[n as int];
    assert forall|i: int| more.contains(i) == have.insert(index).contains(i) by {
        if more.contains(i) {
            let k = choose|k: int| 0 <= k < n + 1 && #[trigger] order[k] == i;
            if k < n {
                assert(order[k] == i);
            }
        }
        if have.contains(i) {
            let k = choose|k: int| 0 <= k < n && #[trigger] order[k] == i;
            assert(order[k] == i);
        }
        if i == index {
            assert(order[n as int] == i);
        }
    }
    assert(more =~= have.insert(index));
}

/// Fragments of the frame arrive one after the other, no two of them further
/// apart than the reassembler waits.
pub open spec fn arrivals_valid(
    start: ReassemblerView,
    frame: VideoFrameView,
    size: int,
    order: Seq<int>,
    times: Seq<u64>,
) -> bool {
    &&& order.len() == times.len()
    &&& forall|k: int|
        0 <= k < order.len() ==> 0 <= #[trigger] order[k] < video::fragments_of(frame, size).len()
    &&& forall|k: int|
        0 < k < times.len() ==> crate::clock::age(#[trigger] times[k], times[k - 1])
            <= start.max_age
}

proof fn lemma_run(
    start: ReassemblerView,
    frame: VideoFrameView,
    datagram_size: int,
    order: Seq<int>,
    times: Seq<u64>,
    n: nat,
)
    requires
        sendable(frame, datagram_size),
        arrivals_valid(start, frame, video::chunk_size(datagram_size), order, times),
        !start.frames.contains_key(frame.frame_id),
        !start.completed.contains(frame.frame_id),
        n <= order.len(),
    ensures
        ({
            let size = video::chunk_size(datagram_size);
            let state = state_before(start, frame, size, order, times, n);
            let have = arrived(order, n);
            let count = video::chunks_of(frame.payload, size).len() as int;
            &&& state.max_age == start.max_age
            &&& enough(count, have) ==> state.completed.contains(frame.frame_id)
            &&& !enough(count, have) ==> {
                &&& !state.completed.contains(frame.frame_id)
                &&& n == 0 ==> !state.frames.contains_key(frame.frame_id)
                &&& n > 0 ==> state.frames.contains_key(frame.frame_id)
                    && state.frames[frame.frame_id] == held(frame, size, have, times[n - 1])
            }
            &&& n < order.len() ==> outcome_at(start, frame, size, order, times, n) == Ok::<
                Option<VideoFrameView>,
                VideoReassemblyError,
            >(
                if enough(count, arrived(order, n + 1)) && !enough(count, have) {
                    Some(frame)
                } else {
                    None
                },
            )
        }),
    decreases n,
{
    let size = video::chunk_size(datagram_size);
    let state = state_before(start, frame, size, order, times, n);
    let have = arrived(order, n);
    let count = video::chunks_of(frame.payload, size).len() as int;
    let id = frame.frame_id;
    video::lemma_chunk_bounds(frame.payload.len() as int, size);
    video::lemma_fragment_limit(frame.payload.len() as int, size);
    if n == 0 {
        assert(!have.contains(0)) by {
            assert(!exists|k: int| 0 <= k < n && #[trigger] order[k] == 0);
        }
        assert(!have.contains(count));
        assert(!enough(count, have));
    } else {
        let k = (n - 1) as nat;
        lemma_run(start, frame, datagram_size, order, times, k);
        lemma_arrival(start, frame, datagram_size, order, times, k);
    }
    if n < order.len() {
        lemma_arrival(start, frame, datagram_size, order, times, n);
    }
}

/// One more fragment arrives.
proof fn lemma_arrival(
    start: ReassemblerView,
    frame: VideoFrameView,
    datagram_size: int,
    order: Seq<int>,
    times: Seq<u64>,
    n: nat,
)
    requires
        sendable(frame, datagram_size),
        arrivals_valid(start, frame, video::chunk_size(datagram_size), order, times),
        n < order.len(),
        ({
            let size = video::chunk_size(datagram_size);
            let state = state_before(start, frame, size, order, times, n);
            let have = arrived(order, n);
            let count = video::chunks_of(frame.payload, size).len() as int;
            &&& state.max_age == start.max_age
            &&& enough(count, have) ==> state.completed.contains(frame.frame_id)
            &&& !enough(count, have) ==> {
                &&& !state.completed.contains(frame.frame_id)
                &&& n == 0 ==> !state.frames.contains_key(frame.frame_id)
                &&& n > 0 ==> state.frames.contains_key(frame.frame_id)
                    && state.frames[frame.frame_id] == held(frame, size, have, times[n - 1])
            }
        }),
    ensures
        ({
            let size = video::chunk_size(datagram_size);
            let have = arrived(order, n);
            let more = arrived(order, n + 1);
            let count = video::chunks_of(frame.payload, size).len() as int;
            let after = state_before(start, frame, size, order, times, n + 1);
            &&& after.max_age == start.max_age
            &&& enough(count, more) ==> after.completed.contains(frame.frame_id)
            &&& !enough(count, more) ==> !after.completed.contains(frame.frame_id)
                && after.frames.contains_key(frame.frame_id) && after.frames[frame.frame_id]
                == held(frame, size, more, times[n as int])
            &&& outcome_at(start, frame, size, order, times, n) == Ok::<
                Option<VideoFrameView>,
                VideoReassemblyError,
            >(
                if enough(count, more) && !enough(count, have) {
                    Some(frame)
                } else {
                    None
                },
            )
        }),
{
    let size = video::chunk_size(datagram_size);
    let state = state_before(start, frame, size, order, times, n);
    let have = arrived(order, n);
    let more = arrived(order, n + 1);
    let count = video::chunks_of(frame.payload, size).len() as int;
    let id = frame.frame_id;
    let index = order[n as int];
    let now = times[n as int];
    let fragment = video::fragments_of(frame, size)[index];
    video::lemma_chunk_bounds(frame.payload.len() as int, size);
    video::lemma_fragment_limit(frame.payload.len() as int, size);
    fragments_fit(frame, datagram_size, index);
    lemma_arrived_next(order, n);
    lemma_enough_grows(count, have, index);
    let fresh = reassembly::expired(state, now);
    if !enough(count, have) {
        let pending = if n == 0 {
            reassembly::pending_new(fragment, now)
        } else {
            state.frames[id]
        };
        if n == 0 {
            let none = held(frame, size, have, now);
            assert(pending.chunks =~= none.chunks) by {
                assert forall|i: int| !have.contains(i) by {}
            }
            assert(pending == none);
            lemma_push_held(frame, size, have, now, index, now);
        } else {
            assert(fresh.frames.contains_key(id));
            lemma_push_held(frame, size, have, times[n - 1], index, now);
        }
        lemma_complete_when_enough(frame, size, more, now);
        if enough(count, more) {
            lemma_finish_when_enough(frame, datagram_size, more, now);
            lemma_remembered(state.completed, id);
        }
    }
}

/// More fragments are enough where fewer are.
pub(crate) proof fn lemma_enough_grows(count: int, have: Set<int>, index: int)
    ensures
        enough(count, have) ==> enough(count, have.insert(index)),
{
    if enough(count, have) {
        let more = have.insert(index);
        if !(forall|i: int| 0 <= i < count ==> #[trigger] have.contains(i)) {
            let m = choose|missing: int|
                0 <= missing < count && #[trigger] all_but(count, have, missing);
            assert(all_but(count, more, m)) by {
                assert forall|i: int| 0 <= i < count && i != m implies #[trigger] more.contains(
                    i,
                ) by {
                    assert(have.contains(i));
                }
            }
        } else {
            assert forall|i: int| 0 <= i < count implies #[trigger] more.contains(i) by {
                assert(have.contains(i));
            }
        }
    }
}

/// The frame that was finished last is remembered.
proof fn lemma_remembered(completed: Seq<u64>, id: u64)
    ensures
        reassembly::remember(completed, id).contains(id),
{
    let remembered = reassembly::remember(completed, id);
    assert(remembered[remembered.len() - 1] == id);
}

/// However the fragments of a frame are reordered and duplicated, the frame comes
/// out as it was sent, once: at the first fragment with which all data fragments
/// have arrived, or all but one and the recovery fragment.
pub proof fn frames_survive_reordering_and_one_loss(
    start: ReassemblerView,
    frame: VideoFrameView,
    datagram_size: int,
    order: Seq<int>,
    times: Seq<u64>,
    n: nat,
)
    requires
        sendable(frame, datagram_size),
        arrivals_valid(start, frame, video::chunk_size(datagram_size), order, times),
        !start.frames.contains_key(frame.frame_id),
        !start.completed.contains(frame.frame_id),
        n < order.len(),
    ensures
        ({
            let size = video::chunk_size(datagram_size);
            let count = video::chunks_of(frame.payload, size).len() as int;
            outcome_at(start, frame, size, order, times, n) == Ok::<
                Option<VideoFrameView>,
                VideoReassemblyError,
            >(
                if enough(count, arrived(order, n + 1)) && !enough(count, arrived(order, n)) {
                    Some(frame)
                } else {
                    None
                },
            )
        }),
{
    lemma_run(start, frame, datagram_size, order, times, n);
}

/// The loss of any one of the fragments of a frame does not matter: the others
/// are enough. (A frame of one data fragment has no other.)
pub proof fn one_loss_does_no_harm(count: int, lost: int)
    requires
        count > 1,
        0 <= lost <= count,
    ensures
        enough(count, Set::new(|i: int| 0 <= i <= count && i != lost)),
{
    let have = Set::new(|i: int| 0 <= i <= count && i != lost);
    if lost < count {
        assert(all_but(count, have, lost));
    }
}

/// With two data fragments lost nothing comes out.
pub proof fn two_losses_lose_the_frame(count: int, have: Set<int>, first: int, second: int)
    requires
        0 <= first < second < count,
        !have.contains(first),
        !have.contains(second),
    ensures
        !enough(count, have),
{
    if exists|missing: int| 0 <= missing < count && #[trigger] all_but(count, have, missing) {
        let m = choose|missing: int|
            0 <= missing < count && #[trigger] all_but(count, have, missing);
        assert(have.contains(first) || first == m);
        assert(have.contains(second) || second == m);
    }
}

/// Of finitely many frames, one has waited longest.
pub(crate) proof fn lemma_longest_exists(frames: Map<u64, PendingFrameView>)
    requires
        frames.dom().finite(),
        frames.len() > 0,
    ensures
        exists|id: u64| reassembly::waited_longest(frames, id),
    decreases frames.len(),
{
    let some = frames.dom().choose();
    assert(frames.contains_key(some));
    let rest = frames.remove(some);
    if rest.len() == 0 {
        assert forall|other: u64| #[trigger] frames.contains_key(other) implies other == some by {
            if other != some {
                assert(rest.dom().contains(other));
                assert(rest.dom() =~= Set::empty());
            }
        }
        assert(reassembly::waited_longest(frames, some));
    } else {
        lemma_longest_exists(rest);
        let id = choose|id: u64| reassembly::waited_longest(rest, id);
        let earlier = frames[some].last_updated < frames[id].last_updated || (
        frames[some].last_updated == frames[id].last_updated && some <= id);
        let best = if earlier {
            some
        } else {
            id
        };
        assert forall|other: u64| #[trigger]
            frames.contains_key(other) implies frames[best].last_updated
            < frames[other].last_updated || (frames[best].last_updated
            == frames[other].last_updated && best <= other) by {
            if other != some {
                assert(rest.contains_key(other));
            }
        }
        assert(reassembly::waited_longest(frames, best));
    }
}

/// A reassembler never holds more unfinished frames than it may, and never
/// remembers more finished ones than it needs to.
pub proof fn reassembly_stays_bounded(
    state: ReassemblerView,
    fragment: protocol::VideoFragmentView,
    now: u64,
)
    requires
        state.frames.dom().finite(),
        0 < state.max_pending_frames,
        state.frames.len() <= state.max_pending_frames,
        state.completed.len() <= COMPLETED_FRAMES_REMEMBERED,
    ensures
        ({
            let after = reassembly::pushed(state, fragment, now).0;
            &&& after.frames.dom().finite()
            &&& after.frames.len() <= after.max_pending_frames
            &&& after.completed.len() <= COMPLETED_FRAMES_REMEMBERED
            &&& after.max_pending_frames == state.max_pending_frames
            &&& after.max_age == state.max_age
        }),
{
    let fresh = reassembly::expired(state, now);
    assert(fresh.frames.dom().subset_of(state.frames.dom()));
    vstd::set_lib::lemma_len_subset(fresh.frames.dom(), state.frames.dom());
    let frames = fresh.frames;
    let id = fragment.frame_id;
    if !frames.contains_key(id) && frames.len() >= state.max_pending_frames {
        lemma_longest_exists(frames);
        let victim = choose|id: u64| reassembly::waited_longest(frames, id);
        assert(frames.contains_key(victim));
        assert(reassembly::without_longest(frames).len() == frames.len() - 1);
    }
    if frames.contains_key(id) {
        assert forall|grown: PendingFrameView| #[trigger] frames.insert(id, grown).dom()
            == frames.dom() by {
            assert(frames.insert(id, grown).dom() =~= frames.dom());
        }
    }
}

/// A frame that has come out does not come out again while it is remembered.
pub proof fn finished_frames_stay_finished(
    state: ReassemblerView,
    fragment: protocol::VideoFragmentView,
    now: u64,
)
    requires
        state.completed.contains(fragment.frame_id),
    ensures
        !(reassembly::pushed(state, fragment, now).1 matches Ok(Some(_))),
        reassembly::pushed(state, fragment, now).0.completed == state.completed,
{
}

} // verus!
