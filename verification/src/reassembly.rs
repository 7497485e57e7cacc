//! Putting fragments together to frames.

use crate::bytes;
use crate::bytes::read_be;
use crate::clock;
use crate::clock::Clock;
use crate::id_map::{IdMap, Timed};
use crate::protocol;
use crate::protocol::{
    VideoFragment, VideoFragmentView, MAX_VIDEO_FRAGMENTS, MAX_VIDEO_FRAGMENT_PAYLOAD,
    MAX_VIDEO_FRAME_SIZE, VIDEO_RECOVERY_HEADER_LEN,
};
use crate::video;
use crate::video::{xor_into, VideoFrame, VideoFrameView};
use std::time::Duration;
use vstd::prelude::*;

verus! {

/// How many finished frames are remembered.
pub const COMPLETED_FRAMES_REMEMBERED: usize = 64;

#[derive(Clone, Copy, Debug, PartialEq, Eq, Structural)]
pub enum VideoReassemblyError {
    InvalidFragment,
    FrameMetadataChanged,
    FrameTooLarge,
}

impl VideoReassemblyError {
    pub open spec fn message_text(self) -> Seq<char> {
        match self {
            VideoReassemblyError::InvalidFragment => "invalid video fragment"@,
            VideoReassemblyError::FrameMetadataChanged => {
                "video frame metadata changed during reassembly"@
            },
            VideoReassemblyError::FrameTooLarge => {
                "reassembled video frame exceeds the protocol limit"@
            },
        }
    }

    /// What to tell the user.
    pub fn message(&self) -> (text: &'static str)
        ensures
            text@ == self.message_text(),
    {
        match self {
            VideoReassemblyError::InvalidFragment => "invalid video fragment",
            VideoReassemblyError::FrameMetadataChanged => {
                "video frame metadata changed during reassembly"
            },
            VideoReassemblyError::FrameTooLarge => {
                "reassembled video frame exceeds the protocol limit"
            },
        }
    }
}

/// What has arrived of a frame.
#[verifier::ext_equal]
pub struct PendingFrameView {
    pub frame_id: u64,
    pub timestamp_us: u64,
    pub is_keyframe: bool,
    pub total: u16,
    pub chunks: Seq<Option<Seq<u8>>>,
    pub recovery: Option<Seq<u8>>,
    pub last_updated: u64,
}

/// The chunks that have arrived, with nothing in place of the others.
pub open spec fn filled(chunks: Seq<Option<Seq<u8>>>) -> Seq<Seq<u8>> {
    chunks.map_values(
        |chunk: Option<Seq<u8>>|
            match chunk {
                Some(bytes) => bytes,
                None => Seq::empty(),
            },
    )
}

/// How many chunks have arrived.
pub open spec fn received(chunks: Seq<Option<Seq<u8>>>) -> nat
    decreases chunks.len(),
{
    if chunks.len() == 0 {
        0
    } else {
        received(chunks.drop_last()) + if chunks.last() is Some {
            1nat
        } else {
            0nat
        }
    }
}

/// The first chunk that has not arrived is chunk `i`.
pub open spec fn missing_at(chunks: Seq<Option<Seq<u8>>>, i: int) -> bool {
    &&& 0 <= i < chunks.len()
    &&& chunks[i] is None
    &&& forall|k: int| 0 <= k < i ==> (#[trigger] chunks[k]) is Some
}

/// What is known of a frame when its first fragment comes.
pub open spec fn pending_new(fragment: VideoFragmentView, now: u64) -> PendingFrameView {
    PendingFrameView {
        frame_id: fragment.frame_id,
        timestamp_us: fragment.timestamp_us,
        is_keyframe: fragment.is_keyframe,
        total: fragment.total,
        chunks: Seq::new(fragment.total as nat, |i: int| None),
        recovery: None,
        last_updated: now,
    }
}

/// The fragment says of the frame what the fragments before it said.
pub open spec fn pending_matches(pending: PendingFrameView, fragment: VideoFragmentView) -> bool {
    &&& pending.timestamp_us == fragment.timestamp_us
    &&& pending.is_keyframe == fragment.is_keyframe
    &&& pending.total == fragment.total
}

/// A fragment arrives. What has arrived before stays as it is.
pub open spec fn pending_push(
    pending: PendingFrameView,
    fragment: VideoFragmentView,
    now: u64,
) -> PendingFrameView {
    let index = fragment.index as int;
    PendingFrameView {
        chunks: if !fragment.is_recovery && pending.chunks[index] is None {
            pending.chunks.update(index, Some(fragment.payload))
        } else {
            pending.chunks
        },
        recovery: if fragment.is_recovery && pending.recovery is None {
            Some(fragment.payload)
        } else {
            pending.recovery
        },
        last_updated: now,
        ..pending
    }
}

/// Enough has arrived: all chunks, or all but one and the recovery fragment.
pub open spec fn pending_complete(pending: PendingFrameView) -> bool {
    received(pending.chunks) == pending.total || (pending.recovery is Some && received(
        pending.chunks,
    ) + 1 == pending.total)
}

/// The chunks of a frame, with the one that has not arrived computed from the
/// recovery fragment.
pub open spec fn recovered_chunks(pending: PendingFrameView) -> Result<
    Seq<Seq<u8>>,
    VideoReassemblyError,
> {
    match pending.recovery {
        None => Err(VideoReassemblyError::InvalidFragment),
        Some(recovery) => {
            let declared = bytes::be_value(recovery.take(VIDEO_RECOVERY_HEADER_LEN as int));
            let parity = recovery.skip(VIDEO_RECOVERY_HEADER_LEN as int);
            let chunks = filled(pending.chunks);
            let missing = choose|i: int| missing_at(pending.chunks, i);
            let missing_size = if missing + 1 == pending.total {
                declared - parity.len() * (pending.total - 1)
            } else {
                parity.len() as int
            };
            let lost = Seq::new(
                missing_size as nat,
                |j: int| parity[j] ^ video::xor_at(chunks, j),
            );
            if declared > MAX_VIDEO_FRAME_SIZE {
                Err(VideoReassemblyError::InvalidFragment)
            } else if !(parity.len() * (pending.total - 1) < declared <= parity.len()
                * pending.total) {
                Err(VideoReassemblyError::InvalidFragment)
            } else if exists|i: int|
                0 <= i < chunks.len() && (#[trigger] chunks[i]).len() > parity.len() {
                Err(VideoReassemblyError::InvalidFragment)
            } else if video::joined(chunks).len() + missing_size != declared {
                Err(VideoReassemblyError::InvalidFragment)
            } else {
                Ok(chunks.update(missing, lost))
            }
        },
    }
}

/// The frame that a complete set of fragments makes up, or why there is none.
pub open spec fn pending_finish(pending: PendingFrameView) -> Result<
    VideoFrameView,
    VideoReassemblyError,
> {
    let chunks = if received(pending.chunks) + 1 == pending.total {
        recovered_chunks(pending)
    } else {
        Ok(filled(pending.chunks))
    };
    match chunks {
        Err(error) => Err(error),
        Ok(chunks) => if video::joined(chunks).len() > MAX_VIDEO_FRAME_SIZE || received(
            pending.chunks,
        ) + 1 < pending.total {
            Err(VideoReassemblyError::FrameTooLarge)
        } else {
            Ok(
                VideoFrameView {
                    frame_id: pending.frame_id,
                    timestamp_us: pending.timestamp_us,
                    is_keyframe: pending.is_keyframe,
                    payload: video::joined(chunks),
                },
            )
        },
    }
}

struct PendingVideoFrame {
    frame_id: u64,
    timestamp_us: u64,
    is_keyframe: bool,
    total: u16,
    chunks: Vec<Option<Vec<u8>>>,
    received: usize,
    encoded_size: usize,
    recovery: Option<Vec<u8>>,
    last_updated: u64,
}

/// The bytes of chunks that have arrived.
pub open spec fn chunk_views(chunks: Seq<Option<Vec<u8>>>) -> Seq<Option<Seq<u8>>> {
    chunks.map_values(
        |chunk: Option<Vec<u8>>|
            match chunk {
                Some(bytes) => Some(bytes@),
                None => None,
            },
    )
}

impl View for PendingVideoFrame {
    type V = PendingFrameView;

    closed spec fn view(&self) -> PendingFrameView {
        PendingFrameView {
            frame_id: self.frame_id,
            timestamp_us: self.timestamp_us,
            is_keyframe: self.is_keyframe,
            total: self.total,
            chunks: chunk_views(self.chunks@),
            recovery: match self.recovery {
                Some(bytes) => Some(bytes@),
                None => None,
            },
            last_updated: self.last_updated,
        }
    }
}

impl Timed for PendingVideoFrame {
    closed spec fn stamp_of(held: PendingFrameView) -> u64 {
        held.last_updated
    }

    fn stamp(&self) -> (time: u64) {
        self.last_updated
    }
}

/// A chunk more is received when an empty place is filled.
pub(crate) proof fn lemma_received_update(chunks: Seq<Option<Seq<u8>>>, i: int, chunk: Seq<u8>)
    requires
        0 <= i < chunks.len(),
        chunks[i] is None,
    ensures
        received(chunks.update(i, Some(chunk))) == received(chunks) + 1,
    decreases chunks.len(),
{
    let after = chunks.update(i, Some(chunk));
    if i == chunks.len() - 1 {
        assert(after.drop_last() =~= chunks.drop_last());
    } else {
        lemma_received_update(chunks.drop_last(), i, chunk);
        assert(after.drop_last() =~= chunks.drop_last().update(i, Some(chunk)));
    }
}

/// No more chunks are received than there are, and all of them only if none is
/// missing.
pub(crate) proof fn lemma_received_bound(chunks: Seq<Option<Seq<u8>>>)
    ensures
        received(chunks) <= chunks.len(),
        received(chunks) == chunks.len() <==> forall|i: int|
            0 <= i < chunks.len() ==> (#[trigger] chunks[i]) is Some,
    decreases chunks.len(),
{
    if chunks.len() > 0 {
        let init = chunks.drop_last();
        lemma_received_bound(init);
        if received(chunks) == chunks.len() {
            assert forall|i: int| 0 <= i < chunks.len() implies (#[trigger] chunks[i]) is Some by {
                if i < init.len() {
                    assert(init[i] is Some);
                }
            }
        }
        if forall|i: int| 0 <= i < chunks.len() ==> (#[trigger] chunks[i]) is Some {
            assert forall|i: int| 0 <= i < init.len() implies (#[trigger] init[i]) is Some by {
                assert(chunks[i] is Some);
            }
            assert(chunks[chunks.len() - 1] is Some);
        }
    }
}

pub(crate) proof fn lemma_received_none(n: nat)
    ensures
        received(Seq::new(n, |i: int| None::<Seq<u8>>)) == 0,
        video::joined(filled(Seq::new(n, |i: int| None::<Seq<u8>>))) == Seq::<u8>::empty(),
    decreases n,
{
    let chunks = Seq::new(n, |i: int| None::<Seq<u8>>);
    if n > 0 {
        let before = Seq::new((n - 1) as nat, |i: int| None::<Seq<u8>>);
        lemma_received_none((n - 1) as nat);
        assert(chunks.drop_last() =~= before);
        assert(filled(chunks).drop_last() =~= filled(before));
    }
}

/// Replacing a chunk changes the length of the whole by the difference.
pub(crate) proof fn lemma_joined_update(chunks: Seq<Seq<u8>>, i: int, chunk: Seq<u8>)
    requires
        0 <= i < chunks.len(),
    ensures
        video::joined(chunks.update(i, chunk)).len() == video::joined(chunks).len()
            - chunks[i].len() + chunk.len(),
    decreases chunks.len(),
{
    let after = chunks.update(i, chunk);
    if i == chunks.len() - 1 {
        assert(after.drop_last() =~= chunks.drop_last());
    } else {
        lemma_joined_update(chunks.drop_last(), i, chunk);
        assert(after.drop_last() =~= chunks.drop_last().update(i, chunk));
    }
}

/// Chunks of limited length have a limited length in all.
pub(crate) proof fn lemma_joined_bound(chunks: Seq<Seq<u8>>, limit: nat)
    requires
        forall|i: int| 0 <= i < chunks.len() ==> (#[trigger] chunks[i]).len() <= limit,
    ensures
        video::joined(chunks).len() <= chunks.len() * limit,
    decreases chunks.len(),
{
    if chunks.len() > 0 {
        let init = chunks.drop_last();
        assert forall|i: int| 0 <= i < init.len() implies (#[trigger] init[i]).len() <= limit by {
            assert(init[i] == chunks[i]);
        }
        lemma_joined_bound(init, limit);
        assert(chunks[chunks.len() - 1].len() <= limit);
        assert((chunks.len() - 1) * limit + limit == chunks.len() * limit) by (nonlinear_arith);
    }
}

impl PendingVideoFrame {
    #[verifier::type_invariant]
    spec fn consistent(self) -> bool {
        &&& 0 < self.total <= MAX_VIDEO_FRAGMENTS
        &&& self.chunks@.len() == self.total
        &&& self.received == received(self@.chunks)
        &&& self.encoded_size == video::joined(filled(self@.chunks)).len()
        &&& forall|i: int|
            0 <= i < self.total ==> (#[trigger] filled(self@.chunks)[i]).len()
                <= MAX_VIDEO_FRAGMENT_PAYLOAD
        &&& self@.recovery is Some ==> VIDEO_RECOVERY_HEADER_LEN < self@.recovery->0.len()
            <= MAX_VIDEO_FRAGMENT_PAYLOAD
    }

    fn new(fragment: &VideoFragment<'_>, now: u64) -> (pending: Self)
        requires
            protocol::fragment_valid(fragment@),
        ensures
            pending@ == pending_new(fragment@, now),
    {
        let mut chunks: Vec<Option<Vec<u8>>> = Vec::new();
        let mut i: u16 = 0;
        while i < fragment.total
            invariant
                i <= fragment.total,
                chunks@.len() == i,
                forall|k: int| 0 <= k < i ==> (#[trigger] chunks@[k]) is None,
            decreases fragment.total - i,
        {
            chunks.push(None);
            i += 1;
        }
        proof {
            assert(chunk_views(chunks@) =~= pending_new(fragment@, now).chunks);
            lemma_received_none(fragment.total as nat);
        }
        PendingVideoFrame {
            frame_id: fragment.frame_id,
            timestamp_us: fragment.timestamp_us,
            is_keyframe: fragment.is_keyframe,
            total: fragment.total,
            chunks,
            received: 0,
            encoded_size: 0,
            recovery: None,
            last_updated: now,
        }
    }

    fn matches(&self, fragment: &VideoFragment<'_>) -> (same: bool)
        ensures
            same == pending_matches(self@, fragment@),
    {
        self.timestamp_us == fragment.timestamp_us && self.is_keyframe == fragment.is_keyframe
            && self.total == fragment.total
    }

    fn push(self, fragment: VideoFragment<'_>, now: u64) -> (pending: Self)
        requires
            protocol::fragment_valid(fragment@),
            pending_matches(self@, fragment@),
        ensures
            pending@ == pending_push(self@, fragment@, now),
    {
        proof {
            use_type_invariant(&self);
        }
        let ghost before = self@;
        if fragment.is_recovery {
            let recovery = match self.recovery {
                Some(recovery) => Some(recovery),
                None => Some(fragment.into_payload()),
            };
            return PendingVideoFrame { recovery, last_updated: now, ..self };
        }
        let index: usize = fragment.index as usize;
        if self.chunks[index].is_some() {
            return PendingVideoFrame { last_updated: now, ..self };
        }
        let mut chunks = self.chunks;
        let payload = fragment.into_payload();
        proof {
            let ghost places = before.chunks;
            assert(places[index as int] is None);
            lemma_received_update(places, index as int, payload@);
            lemma_received_bound(places.update(index as int, Some(payload@)));
            lemma_joined_update(filled(places), index as int, payload@);
            assert(filled(places.update(index as int, Some(payload@))) =~= filled(places).update(
                index as int,
                payload@,
            ));
            let ghost after = filled(places).update(index as int, payload@);
            assert forall|i: int| 0 <= i < after.len() implies (#[trigger] after[i]).len()
                <= MAX_VIDEO_FRAGMENT_PAYLOAD by {
                assert(filled(places)[i].len() <= MAX_VIDEO_FRAGMENT_PAYLOAD);
            }
            lemma_joined_bound(after, MAX_VIDEO_FRAGMENT_PAYLOAD as nat);
            assert(after.len() * MAX_VIDEO_FRAGMENT_PAYLOAD <= 6124 * 8166) by (nonlinear_arith)
                requires
                    after.len() <= 6124,
                    MAX_VIDEO_FRAGMENT_PAYLOAD == 8166,
            ;
        }
        let encoded_size: usize = self.encoded_size + payload.len();
        chunks[index] = Some(payload);
        proof {
            assert(chunk_views(chunks@) =~= before.chunks.update(index as int, Some(payload@)));
        }
        PendingVideoFrame {
            chunks,
            received: self.received + 1,
            encoded_size,
            last_updated: now,
            ..self
        }
    }

    fn is_complete(&self) -> (complete: bool)
        ensures
            complete == pending_complete(self@),
    {
        proof {
            use_type_invariant(self);
            lemma_received_bound(self@.chunks);
        }
        self.received == self.total as usize || (self.recovery.is_some() && self.received + 1
            == self.total as usize)
    }
}

/// The chunks up to and with chunk `i`, taken together.
proof fn lemma_take_next(chunks: Seq<Seq<u8>>, i: int)
    requires
        0 <= i < chunks.len(),
    ensures
        video::joined(chunks.take(i + 1)) == video::joined(chunks.take(i)) + chunks[i],
        forall|j: int|
            #![trigger video::xor_at(chunks.take(i + 1), j)]
            video::xor_at(chunks.take(i + 1), j) == video::xor_at(chunks.take(i), j)
                ^ video::byte_at(chunks[i], j),
{
    assert(chunks.take(i + 1).drop_last() =~= chunks.take(i));
}

/// Three bytes are exclusive-ored in any order.
pub(crate) proof fn lemma_xor_assoc(a: u8, b: u8, c: u8)
    ensures
        (a ^ b) ^ c == a ^ (b ^ c),
        a ^ 0 == a,
{
    assert((a ^ b) ^ c == a ^ (b ^ c)) by (bit_vector);
    assert(a ^ 0 == a) by (bit_vector);
}

/// All chunks one after the other.
pub(crate) fn join(chunks: &Vec<Option<Vec<u8>>>) -> (whole: Vec<u8>)
    ensures
        whole@ == video::joined(filled(chunk_views(chunks@))),
{
    let ghost parts = filled(chunk_views(chunks@));
    let mut whole: Vec<u8> = Vec::new();
    let mut i: usize = 0;
    assert(parts.take(0) =~= Seq::empty());
    while i < chunks.len()
        invariant
            i <= chunks@.len(),
            parts == filled(chunk_views(chunks@)),
            whole@ == video::joined(parts.take(i as int)),
        decreases chunks@.len() - i,
    {
        proof {
            lemma_take_next(parts, i as int);
        }
        match &chunks[i] {
            Some(chunk) => {
                protocol::push_bytes(&mut whole, chunk.as_slice());
            },
            None => {
                assert(whole@ + parts[i as int] =~= whole@);
            },
        }
        i += 1;
    }
    assert(parts.take(i as int) =~= parts);
    whole
}

/// The first chunk that is missing.
fn first_missing(chunks: &Vec<Option<Vec<u8>>>) -> (missing: usize)
    requires
        received(chunk_views(chunks@)) < chunks@.len(),
    ensures
        missing_at(chunk_views(chunks@), missing as int),
{
    let ghost places = chunk_views(chunks@);
    proof {
        lemma_received_bound(places);
    }
    let mut i: usize = 0;
    while chunks[i].is_some()
        invariant
            i < chunks@.len(),
            places == chunk_views(chunks@),
            received(places) < chunks@.len(),
            forall|k: int| 0 <= k < i ==> (#[trigger] places[k]) is Some,
        decreases chunks@.len() - i,
    {
        proof {
            lemma_received_bound(places);
            if i + 1 == chunks@.len() {
                assert forall|k: int| 0 <= k < places.len() implies (#[trigger] places[k])
                    is Some by {}
            }
            assert(chunks.len() == chunks@.len());
        }
        i += 1;
    }
    i
}

/// Exclusive-ors the chunks that have arrived into `parity`, or says that one of
/// them is too long.
fn xor_chunks(chunks: &Vec<Option<Vec<u8>>>, parity: Vec<u8>) -> (mixed: Option<Vec<u8>>)
    ensures
        ({
            let parts = filled(chunk_views(chunks@));
            match mixed {
                Some(mixed) => {
                    &&& forall|i: int|
                        0 <= i < parts.len() ==> (#[trigger] parts[i]).len() <= parity@.len()
                    &&& mixed@.len() == parity@.len()
                    &&& forall|j: int|
                        0 <= j < mixed@.len() ==> #[trigger] mixed@[j] == parity@[j]
                            ^ video::xor_at(parts, j)
                },
                None => exists|i: int|
                    0 <= i < parts.len() && (#[trigger] parts[i]).len() > parity@.len(),
            }
        }),
{
    let ghost parts = filled(chunk_views(chunks@));
    let mut mixed = parity;
    let mut i: usize = 0;
    proof {
        assert(parts.take(0) =~= Seq::empty());
        assert forall|j: int| 0 <= j < mixed@.len() implies #[trigger] mixed@[j] == parity@[j]
            ^ video::xor_at(parts.take(0), j) by {
            lemma_xor_assoc(parity@[j], 0, 0);
        }
    }
    while i < chunks.len()
        invariant
            i <= chunks@.len(),
            parts == filled(chunk_views(chunks@)),
            mixed@.len() == parity@.len(),
            forall|k: int| 0 <= k < i ==> (#[trigger] parts[k]).len() <= parity@.len(),
            forall|j: int|
                0 <= j < mixed@.len() ==> #[trigger] mixed@[j] == parity@[j] ^ video::xor_at(
                    parts.take(i as int),
                    j,
                ),
        decreases chunks@.len() - i,
    {
        let ghost before = mixed@;
        match &chunks[i] {
            Some(chunk) => {
                if chunk.len() > mixed.len() {
                    assert(parts[i as int].len() > parity@.len());
                    return None;
                }
                xor_into(&mut mixed, 0, chunk.as_slice());
            },
            None => {
                assert forall|j: int| 0 <= j < mixed@.len() implies mixed@[j] == before[j]
                    ^ video::byte_at(parts[i as int], j) by {
                    lemma_xor_assoc(before[j], 0, 0);
                }
            },
        }
        proof {
            lemma_take_next(parts, i as int);
            assert forall|j: int| 0 <= j < mixed@.len() implies #[trigger] mixed@[j] == parity@[j]
                ^ video::xor_at(parts.take(i + 1), j) by {
                lemma_xor_assoc(
                    parity@[j],
                    video::xor_at(parts.take(i as int), j),
                    video::byte_at(parts[i as int], j),
                );
            }
        }
        i += 1;
    }
    assert(parts.take(i as int) =~= parts);
    Some(mixed)
}

impl PendingVideoFrame {
    /// Computes the one chunk that has not arrived and puts it in its place.
    fn recover_missing_fragment(self) -> (outcome: Result<Vec<Option<Vec<u8>>>, VideoReassemblyError>)
        requires
            received(self@.chunks) + 1 == self@.total,
        ensures
            match outcome {
                Ok(chunks) => recovered_chunks(self@) == Ok::<_, VideoReassemblyError>(
                    filled(chunk_views(chunks@)),
                ),
                Err(error) => recovered_chunks(self@) == Err::<Seq<Seq<u8>>, _>(error),
            },
    {
        proof {
            use_type_invariant(&self);
        }
        let ghost pending = self@;
        let recovery = match self.recovery {
            Some(recovery) => recovery,
            None => return Err(VideoReassemblyError::InvalidFragment),
        };
        let declared: usize = read_be(recovery.as_slice(), 0, VIDEO_RECOVERY_HEADER_LEN) as usize;
        let total: usize = self.total as usize;
        let size: usize = recovery.len() - VIDEO_RECOVERY_HEADER_LEN;
        proof {
            bytes::lemma_be_ranges();
            assert(recovery@.subrange(0, VIDEO_RECOVERY_HEADER_LEN as int) =~= recovery@.take(
                VIDEO_RECOVERY_HEADER_LEN as int,
            ));
            assert(0 <= size * (total - 1) <= size * total <= 8166 * 6124) by (nonlinear_arith)
                requires
                    0 < total <= 6124,
                    0 <= size <= 8166,
            ;
        }
        if declared == 0 || declared > MAX_VIDEO_FRAME_SIZE || size == 0 || declared <= size * (
        total - 1) || declared > size * total {
            return Err(VideoReassemblyError::InvalidFragment);
        }
        let missing: usize = first_missing(&self.chunks);
        proof {
            let ghost chosen = choose|i: int| missing_at(pending.chunks, i);
            assert(missing_at(pending.chunks, missing as int));
            assert(missing_at(pending.chunks, chosen));
            assert(chosen == missing) by {
                if chosen < missing {
                    assert(pending.chunks[chosen] is Some);
                }
                if missing < chosen {
                    assert(pending.chunks[missing as int] is Some);
                }
            }
        }
        let missing_size: usize = if missing + 1 == total {
            declared - size * (total - 1)
        } else {
            size
        };
        let parity = vstd::slice::slice_to_vec(
            protocol::tail(recovery.as_slice(), VIDEO_RECOVERY_HEADER_LEN),
        );
        let ghost parts = filled(pending.chunks);
        let mut recovered = match xor_chunks(&self.chunks, parity) {
            Some(mixed) => mixed,
            None => return Err(VideoReassemblyError::InvalidFragment),
        };
        assert(size * total == size * (total - 1) + size) by (nonlinear_arith)
            requires
                0 < total,
        ;
        recovered.truncate(missing_size);
        proof {
            lemma_joined_bound(parts, MAX_VIDEO_FRAGMENT_PAYLOAD as nat);
            assert(parts.len() * MAX_VIDEO_FRAGMENT_PAYLOAD <= 6124 * 8166) by (nonlinear_arith)
                requires
                    parts.len() <= 6124,
                    MAX_VIDEO_FRAGMENT_PAYLOAD == 8166,
            ;
        }
        if self.encoded_size + recovered.len() != declared {
            return Err(VideoReassemblyError::InvalidFragment);
        }
        let mut chunks = self.chunks;
        chunks[missing] = Some(recovered);
        proof {
            let ghost lost = Seq::new(
                missing_size as nat,
                |j: int| parity@[j] ^ video::xor_at(parts, j),
            );
            assert(recovered@ =~= lost);
            assert(filled(chunk_views(chunks@)) =~= parts.update(missing as int, lost));
        }
        Ok(chunks)
    }

    fn finish(self) -> (outcome: Result<VideoFrame, VideoReassemblyError>)
        ensures
            match outcome {
                Ok(frame) => pending_finish(self@) == Ok::<_, VideoReassemblyError>(frame@),
                Err(error) => pending_finish(self@) == Err::<VideoFrameView, _>(error),
            },
    {
        proof {
            use_type_invariant(&self);
            lemma_received_bound(self@.chunks);
        }
        let frame_id: u64 = self.frame_id;
        let timestamp_us: u64 = self.timestamp_us;
        let is_keyframe = self.is_keyframe;
        let total: usize = self.total as usize;
        let received: usize = self.received;
        let chunks = if received + 1 == total {
            match self.recover_missing_fragment() {
                Ok(chunks) => chunks,
                Err(error) => return Err(error),
            }
        } else {
            self.chunks
        };
        let payload = join(&chunks);
        if payload.len() > MAX_VIDEO_FRAME_SIZE || received + 1 < total {
            return Err(VideoReassemblyError::FrameTooLarge);
        }
        Ok(VideoFrame { frame_id, timestamp_us, is_keyframe, payload })
    }
}

/// What a reassembler knows.
#[verifier::ext_equal]
pub struct ReassemblerView {
    /// The frames of which some fragments have arrived.
    pub frames: Map<u64, PendingFrameView>,
    /// The frames that were finished last, in the order in which they were.
    pub completed: Seq<u64>,
    pub max_pending_frames: usize,
    /// How many nanoseconds a frame waits for its next fragment.
    pub max_age: u128,
}

/// The frames that are still waited for.
pub open spec fn recent_frames(state: ReassemblerView, now: u64) -> Map<u64, PendingFrameView> {
    Map::new(
        |id: u64|
            state.frames.contains_key(id) && clock::age(now, state.frames[id].last_updated)
                <= state.max_age,
        |id: u64| state.frames[id],
    )
}

/// Frame `id` has waited longest; of two that have waited as long, it is the one
/// with the smaller identifier.
pub open spec fn waited_longest(frames: Map<u64, PendingFrameView>, id: u64) -> bool {
    frames.contains_key(id) && forall|other: u64| #[trigger]
        frames.contains_key(other) ==> frames[id].last_updated < frames[other].last_updated || (
        frames[id].last_updated == frames[other].last_updated && id <= other)
}

/// The frames, without the one that has waited longest.
pub open spec fn without_longest(frames: Map<u64, PendingFrameView>) -> Map<u64, PendingFrameView> {
    frames.remove(choose|id: u64| waited_longest(frames, id))
}

/// The finished frames that are remembered when `id` is finished.
pub open spec fn remember(completed: Seq<u64>, id: u64) -> Seq<u64> {
    let all = completed.push(id);
    if all.len() > COMPLETED_FRAMES_REMEMBERED {
        all.skip(all.len() - COMPLETED_FRAMES_REMEMBERED)
    } else {
        all
    }
}

/// The reassembler after stale frames have been given up.
pub open spec fn expired(state: ReassemblerView, now: u64) -> ReassemblerView {
    ReassemblerView { frames: recent_frames(state, now), ..state }
}

/// What a fragment does to a reassembler without stale frames, and what comes of it.
pub open spec fn taken_in(state: ReassemblerView, fragment: VideoFragmentView, now: u64) -> (
    ReassemblerView,
    Result<Option<VideoFrameView>, VideoReassemblyError>,
) {
    let id = fragment.frame_id;
    if !protocol::fragment_valid(fragment) {
        (state, Err(VideoReassemblyError::InvalidFragment))
    } else if state.completed.contains(id) {
        (state, Ok(None))
    } else {
        let known = state.frames.contains_key(id);
        let frames = if !known && state.frames.len() >= state.max_pending_frames {
            without_longest(state.frames)
        } else {
            state.frames
        };
        let pending = if known {
            state.frames[id]
        } else {
            pending_new(fragment, now)
        };
        let grown = pending_push(pending, fragment, now);
        if !pending_matches(pending, fragment) {
            (
                ReassemblerView { frames: frames.remove(id), ..state },
                Err(VideoReassemblyError::FrameMetadataChanged),
            )
        } else if !pending_complete(grown) {
            (ReassemblerView { frames: frames.insert(id, grown), ..state }, Ok(None))
        } else {
            match pending_finish(grown) {
                Err(error) => (
                    ReassemblerView { frames: frames.remove(id), ..state },
                    Err(error),
                ),
                Ok(frame) => (
                    ReassemblerView {
                        frames: frames.remove(id),
                        completed: remember(state.completed, id),
                        ..state
                    },
                    Ok(Some(frame)),
                ),
            }
        }
    }
}

/// What a fragment does to a reassembler, and what comes of it.
pub open spec fn pushed(state: ReassemblerView, fragment: VideoFragmentView, now: u64) -> (
    ReassemblerView,
    Result<Option<VideoFrameView>, VideoReassemblyError>,
) {
    taken_in(expired(state, now), fragment, now)
}

/// The outcome of a push, with what the frame holds in place of the frame.
pub open spec fn push_outcome(outcome: Result<Option<VideoFrame>, VideoReassemblyError>) -> Result<
    Option<VideoFrameView>,
    VideoReassemblyError,
> {
    match outcome {
        Ok(Some(frame)) => Ok(Some(frame@)),
        Ok(None) => Ok(None),
        Err(error) => Err(error),
    }
}

pub struct VideoReassembler {
    frames: IdMap<PendingVideoFrame>,
    completed: Vec<u64>,
    max_pending_frames: usize,
    max_age: u128,
    clock: Clock,
}

impl View for VideoReassembler {
    type V = ReassemblerView;

    closed spec fn view(&self) -> ReassemblerView {
        ReassemblerView {
            frames: self.frames@,
            completed: self.completed@,
            max_pending_frames: self.max_pending_frames,
            max_age: self.max_age,
        }
    }
}

impl VideoReassembler {
    /// The clock that `push` and `expire_stale` read.
    pub closed spec fn clock(&self) -> Clock {
        self.clock
    }

    pub fn new(max_pending_frames: usize, max_age: Duration) -> (reassembler: Self)
        requires
            max_pending_frames > 0,
        ensures
            reassembler@ == (ReassemblerView {
                frames: Map::empty(),
                completed: Seq::empty(),
                max_pending_frames,
                max_age: clock::duration_nanos(max_age),
            }),
            call_ensures(Clock::start, (), reassembler.clock()),
    {
        Self::with_age(max_pending_frames, max_age.as_nanos())
    }

    /// A reassembler in which frames wait `max_age` nanoseconds.
    pub fn with_age(max_pending_frames: usize, max_age: u128) -> (reassembler: Self)
        requires
            max_pending_frames > 0,
        ensures
            reassembler@ == (ReassemblerView {
                frames: Map::empty(),
                completed: Seq::empty(),
                max_pending_frames,
                max_age,
            }),
            call_ensures(Clock::start, (), reassembler.clock()),
    {
        VideoReassembler {
            frames: IdMap::new(),
            completed: Vec::new(),
            max_pending_frames,
            max_age,
            clock: Clock::start(),
        }
    }

    /// Takes in a fragment that arrives now. The frame comes back when enough of
    /// its fragments have arrived.
    pub fn push(&mut self, fragment: VideoFragment<'_>) -> (outcome: Result<
        Option<VideoFrame>,
        VideoReassemblyError,
    >)
        ensures
            exists|now: u64|
                {
                    &&& old(self).clock().shows(now)
                    &&& #[trigger] pushed(old(self)@, fragment@, now) == (
                        final(self)@,
                        push_outcome(outcome),
                    )
                },
            final(self).clock() == old(self).clock(),
    {
        let now: u64 = self.clock.now();
        self.push_at(fragment, now)
    }

    /// Takes in a fragment that arrives when the clock shows `now`.
    pub fn push_at(&mut self, fragment: VideoFragment<'_>, now: u64) -> (outcome: Result<
        Option<VideoFrame>,
        VideoReassemblyError,
    >)
        ensures
            (final(self)@, push_outcome(outcome)) == pushed(old(self)@, fragment@, now),
            final(self).clock() == old(self).clock(),
    {
        let _ = self.expire_stale_at(now);
        if !valid_fragment(&fragment) {
            return Err(VideoReassemblyError::InvalidFragment);
        }
        let frame_id: u64 = fragment.frame_id;
        if contains_id(&self.completed, frame_id) {
            return Ok(None);
        }
        if !self.frames.contains(frame_id) && self.frames.len() >= self.max_pending_frames {
            self.drop_oldest();
        }
        let ghost frames = self.frames@;
        let pending = match self.frames.remove(frame_id) {
            Some(pending) => pending,
            None => PendingVideoFrame::new(&fragment, now),
        };
        if !pending.matches(&fragment) {
            return Err(VideoReassemblyError::FrameMetadataChanged);
        }
        let pending = pending.push(fragment, now);
        if !pending.is_complete() {
            let ghost grown = pending@;
            self.frames.insert(frame_id, pending);
            assert(frames.remove(frame_id).insert(frame_id, grown) =~= frames.insert(
                frame_id,
                grown,
            ));
            return Ok(None);
        }
        let frame = match pending.finish() {
            Ok(frame) => frame,
            Err(error) => return Err(error),
        };
        self.completed.push(frame_id);
        if self.completed.len() > COMPLETED_FRAMES_REMEMBERED {
            let surplus: usize = self.completed.len() - COMPLETED_FRAMES_REMEMBERED;
            self.completed = self.completed.split_off(surplus);
        }
        Ok(Some(frame))
    }

    pub fn pending_frames(&self) -> (count: usize)
        ensures
            self@.frames.dom().finite(),
            count == self@.frames.len(),
    {
        self.frames.len()
    }

    /// Gives up the frames that have waited too long, and says how many there were.
    pub fn expire_stale(&mut self) -> (count: usize)
        ensures
            exists|now: u64|
                old(self).clock().shows(now) && #[trigger] expired(old(self)@, now) == final(self)@,
            count == old(self)@.frames.len() - final(self)@.frames.len(),
            final(self).clock() == old(self).clock(),
    {
        let now: u64 = self.clock.now();
        self.expire_stale_at(now)
    }

    /// Gives up the frames that have waited too long when the clock shows `now`.
    pub fn expire_stale_at(&mut self, now: u64) -> (count: usize)
        ensures
            final(self)@ == expired(old(self)@, now),
            old(self)@.frames.dom().finite(),
            final(self)@.frames.dom().finite(),
            count == old(self)@.frames.len() - final(self)@.frames.len(),
            final(self).clock() == old(self).clock(),
    {
        let count: usize = self.frames.retain_recent(now, self.max_age);
        assert(self.frames@ =~= recent_frames(old(self)@, now));
        count
    }

    fn drop_oldest(&mut self)
        ensures
            final(self).clock == old(self).clock,
            final(self)@ == (ReassemblerView {
                frames: without_longest(old(self)@.frames),
                ..old(self)@
            }),
    {
        let ghost before = self.frames@;
        match self.frames.oldest_id() {
            Some(frame_id) => {
                proof {
                    let ghost chosen = choose|id: u64| waited_longest(before, id);
                    assert(waited_longest(before, frame_id));
                    assert(waited_longest(before, chosen));
                    assert(before.contains_key(chosen) && before.contains_key(frame_id));
                }
                let _ = self.frames.remove(frame_id);
            },
            None => {
                assert(without_longest(before) =~= before);
            },
        }
    }
}

fn valid_fragment(fragment: &VideoFragment<'_>) -> (valid: bool)
    ensures
        valid == protocol::fragment_valid(fragment@),
{
    let len: usize = fragment.payload_bytes().len();
    !(fragment.total == 0 || (!fragment.is_recovery && fragment.index >= fragment.total) || (
    fragment.is_recovery && fragment.index != fragment.total) || fragment.total as usize
        > MAX_VIDEO_FRAGMENTS || len == 0 || len > MAX_VIDEO_FRAGMENT_PAYLOAD || (
    fragment.is_recovery && len <= VIDEO_RECOVERY_HEADER_LEN))
}

fn contains_id(ids: &Vec<u64>, id: u64) -> (found: bool)
    ensures
        found == ids@.contains(id),
{
    let mut i: usize = 0;
    while i < ids.len()
        invariant
            i <= ids@.len(),
            forall|k: int| 0 <= k < i ==> ids@[k] != id,
        decreases ids@.len() - i,
    {
        if ids[i] == id {
            return true;
        }
        i += 1;
    }
    false
}

} // verus!
