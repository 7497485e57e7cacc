//! Cutting encoded video frames into datagrams, and putting them together again.
//!
//! A frame is cut into data fragments of one size, but for the last, which may be
//! shorter. A frame of more than one data fragment gets a recovery fragment: the
//! length of the frame and the exclusive or of its data fragments. With it the
//! other end can do without any one of the others.

use crate::bytes;
use crate::bytes::push_be;
use crate::protocol::{
    VideoFragment, VideoFragmentView, HEADER_LEN, MAX_DATAGRAM_SIZE, MAX_VIDEO_FRAGMENTS,
    MAX_VIDEO_FRAME_SIZE, STANDARD_DATAGRAM_SIZE, VIDEO_HEADER_LEN,
    VIDEO_RECOVERY_HEADER_LEN,
};
use std::borrow::Cow;
use vstd::prelude::*;

verus! {

#[derive(Debug, PartialEq, Eq)]
pub struct VideoFrame {
    pub frame_id: u64,
    pub timestamp_us: u64,
    pub is_keyframe: bool,
    pub payload: Vec<u8>,
}

/// What an encoded frame holds.
#[verifier::ext_equal]
pub struct VideoFrameView {
    pub frame_id: u64,
    pub timestamp_us: u64,
    pub is_keyframe: bool,
    pub payload: Seq<u8>,
}

impl View for VideoFrame {
    type V = VideoFrameView;

    open spec fn view(&self) -> VideoFrameView {
        VideoFrameView {
            frame_id: self.frame_id,
            timestamp_us: self.timestamp_us,
            is_keyframe: self.is_keyframe,
            payload: self.payload@,
        }
    }
}

impl Clone for VideoFrame {
    fn clone(&self) -> (copy: Self)
        ensures
            copy@ == self@,
    {
        let payload = self.payload.clone();
        assert(payload@ =~= self.payload@);
        VideoFrame {
            frame_id: self.frame_id,
            timestamp_us: self.timestamp_us,
            is_keyframe: self.is_keyframe,
            payload,
        }
    }
}

#[derive(Clone, Copy, Debug, PartialEq, Eq, Structural)]
pub enum VideoFragmentationError {
    EmptyFrame,
    FrameTooLarge,
    InvalidDatagramSize,
}

impl VideoFragmentationError {
    pub open spec fn message_text(self) -> Seq<char> {
        match self {
            VideoFragmentationError::EmptyFrame => "video frame is empty"@,
            VideoFragmentationError::FrameTooLarge => "video frame exceeds the protocol limit"@,
            VideoFragmentationError::InvalidDatagramSize => "invalid negotiated video datagram size"@,
        }
    }

    /// What to tell the user.
    pub fn message(&self) -> (text: &'static str)
        ensures
            text@ == self.message_text(),
    {
        match self {
            VideoFragmentationError::EmptyFrame => "video frame is empty",
            VideoFragmentationError::FrameTooLarge => "video frame exceeds the protocol limit",
            VideoFragmentationError::InvalidDatagramSize => "invalid negotiated video datagram size",
        }
    }
}

/// How many frame bytes go into one fragment. Four bytes of each datagram stay
/// free, so that the recovery fragment can hold the length of the frame too.
pub open spec fn chunk_size(datagram_size: int) -> int {
    datagram_size - HEADER_LEN - VIDEO_HEADER_LEN - VIDEO_RECOVERY_HEADER_LEN
}

/// How many chunks of `size` bytes hold `len` bytes.
pub open spec fn chunk_count(len: int, size: int) -> int {
    (len + size - 1) / size
}

/// Where the first `n` chunks of `size` bytes end.
pub open spec fn chunk_end(len: int, size: int, n: int) -> int {
    if n * size <= len {
        n * size
    } else {
        len
    }
}

/// The bytes of a frame, cut into chunks of `size` bytes.
pub open spec fn chunks_of(payload: Seq<u8>, size: int) -> Seq<Seq<u8>> {
    Seq::new(
        chunk_count(payload.len() as int, size) as nat,
        |i: int|
            payload.subrange(
                chunk_end(payload.len() as int, size, i),
                chunk_end(payload.len() as int, size, i + 1),
            ),
    )
}

/// Byte `j` of a chunk, which counts as zero beyond the end.
pub open spec fn byte_at(chunk: Seq<u8>, j: int) -> u8 {
    if 0 <= j < chunk.len() {
        chunk[j]
    } else {
        0
    }
}

/// The exclusive or of bytes `j` of all chunks.
pub open spec fn xor_at(chunks: Seq<Seq<u8>>, j: int) -> u8
    decreases chunks.len(),
{
    if chunks.len() == 0 {
        0
    } else {
        xor_at(chunks.drop_last(), j) ^ byte_at(chunks.last(), j)
    }
}

/// All chunks one after the other.
pub open spec fn joined(chunks: Seq<Seq<u8>>) -> Seq<u8>
    decreases chunks.len(),
{
    if chunks.len() == 0 {
        Seq::empty()
    } else {
        joined(chunks.drop_last()) + chunks.last()
    }
}

/// What the recovery fragment of a frame carries.
pub open spec fn recovery_payload(payload: Seq<u8>, size: int) -> Seq<u8> {
    bytes::be_bytes(payload.len(), VIDEO_RECOVERY_HEADER_LEN as nat) + Seq::new(
        size as nat,
        |j: int| xor_at(chunks_of(payload, size), j),
    )
}

/// Fragment `index` of a frame; the one after the last data fragment is the
/// recovery fragment.
pub open spec fn fragment_at(frame: VideoFrameView, size: int, index: int) -> VideoFragmentView {
    let chunks = chunks_of(frame.payload, size);
    VideoFragmentView {
        frame_id: frame.frame_id,
        timestamp_us: frame.timestamp_us,
        index: index as u16,
        total: chunks.len() as u16,
        is_keyframe: frame.is_keyframe,
        is_recovery: index == chunks.len(),
        payload: if index < chunks.len() {
            chunks[index]
        } else {
            recovery_payload(frame.payload, size)
        },
    }
}

/// The fragments that a frame is sent as.
pub open spec fn fragments_of(frame: VideoFrameView, size: int) -> Seq<VideoFragmentView> {
    let count = chunks_of(frame.payload, size).len();
    Seq::new(
        if count > 1 {
            count + 1
        } else {
            count
        },
        |index: int| fragment_at(frame, size, index),
    )
}

/// What fragments hold.
pub open spec fn fragment_views(fragments: Seq<VideoFragment<'_>>) -> Seq<VideoFragmentView> {
    fragments.map_values(|fragment: VideoFragment<'_>| fragment@)
}

/// There are as many chunks as are needed, and none of them is empty.
pub proof fn lemma_chunk_bounds(len: int, size: int)
    requires
        0 <= len,
        0 < size,
    ensures
        0 <= chunk_count(len, size),
        chunk_end(len, size, chunk_count(len, size)) == len,
        forall|i: int|
            0 <= i < chunk_count(len, size) ==> 0 <= #[trigger] (i * size) < len,
        (chunk_count(len, size) - 1) * size < len <= chunk_count(len, size) * size || len == 0,
        len == 0 ==> chunk_count(len, size) == 0,
        len > 0 ==> chunk_count(len, size) > 0,
{
    let n = chunk_count(len, size);
    vstd::arithmetic::div_mod::lemma_fundamental_div_mod(len + size - 1, size);
    vstd::arithmetic::div_mod::lemma_mod_bound(len + size - 1, size);
    vstd::arithmetic::div_mod::lemma_div_pos_is_pos(len + size - 1, size);
    assert(size * n == n * size) by (nonlinear_arith);
    assert((n - 1) * size == n * size - size) by (nonlinear_arith);
    assert forall|i: int| 0 <= i < n implies 0 <= #[trigger] (i * size) < len by {
        assert(0 <= i * size <= (n - 1) * size) by (nonlinear_arith)
            requires
                0 <= i <= n - 1,
                0 < size,
        ;
    }
    if len == 0 {
        assert(n == 0) by (nonlinear_arith)
            requires
                n * size <= size - 1,
                0 <= n,
                0 < size,
        ;
    } else {
        assert(n > 0) by (nonlinear_arith)
            requires
                n * size >= len,
                0 < len,
                0 < size,
        ;
    }
}

/// Chunk `i` of a frame: all but the last are `size` bytes long.
pub proof fn lemma_chunk(payload: Seq<u8>, size: int, i: int)
    requires
        0 < size,
        0 <= i < chunks_of(payload, size).len(),
    ensures
        chunks_of(payload, size).len() == chunk_count(payload.len() as int, size),
        chunks_of(payload, size)[i] == payload.subrange(
            i * size,
            chunk_end(payload.len() as int, size, i + 1),
        ),
        0 <= i * size < payload.len(),
        i * size < chunk_end(payload.len() as int, size, i + 1) <= payload.len(),
        (i + 1) * size == i * size + size,
        i + 1 < chunks_of(payload, size).len() ==> chunks_of(payload, size)[i].len() == size,
        0 < chunks_of(payload, size)[i].len() <= size,
{
    let len = payload.len() as int;
    lemma_chunk_bounds(len, size);
    assert(0 <= i * size < len);
    assert((i + 1) * size == i * size + size) by (nonlinear_arith);
    if i + 1 < chunks_of(payload, size).len() {
        assert(0 <= (i + 1) * size < len);
    }
}

/// Exclusive-ors `chunk` into `target`, from `offset` on.
pub(crate) fn xor_into(target: &mut Vec<u8>, offset: usize, chunk: &[u8])
    requires
        offset + chunk@.len() <= old(target)@.len(),
    ensures
        final(target)@.len() == old(target)@.len(),
        forall|i: int|
            0 <= i < offset ==> #[trigger] final(target)@[i] == old(target)@[i],
        forall|i: int|
            offset <= i < final(target)@.len() ==> #[trigger] final(target)@[i] == old(target)@[i]
                ^ byte_at(chunk@, i - offset),
{
    let mut j: usize = 0;
    while j < chunk.len()
        invariant
            j <= chunk@.len(),
            offset + chunk@.len() <= target@.len(),
            target@.len() == old(target)@.len(),
            forall|i: int| 0 <= i < offset ==> #[trigger] target@[i] == old(target)@[i],
            forall|i: int|
                offset <= i < offset + j ==> #[trigger] target@[i] == old(target)@[i] ^ byte_at(
                    chunk@,
                    i - offset,
                ),
            forall|i: int| offset + j <= i < target@.len() ==> #[trigger] target@[i] == old(target)@[i],
        decreases chunk@.len() - j,
    {
        assert(target.len() == target@.len());
        let mixed: u8 = target[offset + j] ^ chunk[j];
        target[offset + j] = mixed;
        j += 1;
    }
    assert forall|i: int| offset <= i < target@.len() implies #[trigger] target@[i] == old(
        target,
    )@[i] ^ byte_at(chunk@, i - offset) by {
        let byte: u8 = old(target)@[i];
        assert(byte ^ 0 == byte) by (bit_vector);
    }
}

pub fn fragment_video_frame<'a>(
    frame_id: u64,
    timestamp_us: u64,
    is_keyframe: bool,
    payload: &'a [u8],
) -> (outcome: Result<Vec<VideoFragment<'a>>, VideoFragmentationError>)
    ensures
        match outcome {
            Ok(fragments) => {
                &&& 0 < payload@.len() <= MAX_VIDEO_FRAME_SIZE
                &&& fragment_views(fragments@) == fragments_of(
                    VideoFrameView { frame_id, timestamp_us, is_keyframe, payload: payload@ },
                    chunk_size(STANDARD_DATAGRAM_SIZE as int),
                )
            },
            Err(error) => if payload@.len() == 0 {
                error == VideoFragmentationError::EmptyFrame
            } else {
                payload@.len() > MAX_VIDEO_FRAME_SIZE && error
                    == VideoFragmentationError::FrameTooLarge
            },
        },
{
    fragment_video_frame_with_datagram_size(
        frame_id,
        timestamp_us,
        is_keyframe,
        payload,
        STANDARD_DATAGRAM_SIZE,
    )
}

/// Cuts an encoded frame into fragments that fit into datagrams of the
/// negotiated size.
pub fn fragment_video_frame_with_datagram_size<'a>(
    frame_id: u64,
    timestamp_us: u64,
    is_keyframe: bool,
    payload: &'a [u8],
    datagram_size: usize,
) -> (outcome: Result<Vec<VideoFragment<'a>>, VideoFragmentationError>)
    ensures
        match outcome {
            Ok(fragments) => {
                &&& 0 < payload@.len() <= MAX_VIDEO_FRAME_SIZE
                &&& STANDARD_DATAGRAM_SIZE <= datagram_size <= MAX_DATAGRAM_SIZE
                &&& fragment_views(fragments@) == fragments_of(
                    VideoFrameView { frame_id, timestamp_us, is_keyframe, payload: payload@ },
                    chunk_size(datagram_size as int),
                )
            },
            Err(error) => if payload@.len() == 0 {
                error == VideoFragmentationError::EmptyFrame
            } else if payload@.len() > MAX_VIDEO_FRAME_SIZE {
                error == VideoFragmentationError::FrameTooLarge
            } else {
                &&& error == VideoFragmentationError::InvalidDatagramSize
                &&& datagram_size < STANDARD_DATAGRAM_SIZE || datagram_size > MAX_DATAGRAM_SIZE
            },
        },
{
    if payload.len() == 0 {
        return Err(VideoFragmentationError::EmptyFrame);
    }
    if payload.len() > MAX_VIDEO_FRAME_SIZE {
        return Err(VideoFragmentationError::FrameTooLarge);
    }
    if datagram_size < STANDARD_DATAGRAM_SIZE || datagram_size > MAX_DATAGRAM_SIZE {
        return Err(VideoFragmentationError::InvalidDatagramSize);
    }
    let ghost frame = VideoFrameView { frame_id, timestamp_us, is_keyframe, payload: payload@ };
    let size: usize = datagram_size - HEADER_LEN - VIDEO_HEADER_LEN - VIDEO_RECOVERY_HEADER_LEN;
    let total: usize = (payload.len() + size - 1) / size;
    let ghost chunks = chunks_of(payload@, size as int);
    proof {
        lemma_chunk_bounds(payload@.len() as int, size as int);
        lemma_fragment_limit(payload@.len() as int, size as int);
    }
    let mut fragments: Vec<VideoFragment<'a>> = Vec::new();
    let mut recovery: Vec<u8> = Vec::new();
    push_be(&mut recovery, payload.len() as u64, VIDEO_RECOVERY_HEADER_LEN);
    recovery.resize(VIDEO_RECOVERY_HEADER_LEN + size, 0);
    let ghost length = bytes::be_bytes(payload@.len(), VIDEO_RECOVERY_HEADER_LEN as nat);
    proof {
        bytes::lemma_be_bytes_len(payload@.len(), VIDEO_RECOVERY_HEADER_LEN as nat);
        assert(recovery@.subrange(0, VIDEO_RECOVERY_HEADER_LEN as int) =~= length);
        assert(chunks.take(0) =~= Seq::empty());
    }
    let mut index: usize = 0;
    while index < total
        invariant
            index <= total,
            total == chunks.len(),
            0 < total <= MAX_VIDEO_FRAGMENTS,
            chunks == chunks_of(payload@, size as int),
            0 < size < MAX_DATAGRAM_SIZE,
            payload@.len() <= MAX_VIDEO_FRAME_SIZE,
            frame == (VideoFrameView { frame_id, timestamp_us, is_keyframe, payload: payload@ }),
            fragments@.len() == index,
            forall|i: int|
                0 <= i < index ==> (#[trigger] fragments@[i])@ == fragment_at(frame, size as int, i),
            recovery@.len() == VIDEO_RECOVERY_HEADER_LEN + size,
            recovery@.subrange(0, VIDEO_RECOVERY_HEADER_LEN as int) == length,
            forall|j: int|
                0 <= j < size ==> #[trigger] recovery@[VIDEO_RECOVERY_HEADER_LEN + j] == xor_at(
                    chunks.take(index as int),
                    j,
                ),
        decreases total - index,
    {
        proof {
            lemma_chunk(payload@, size as int, index as int);
        }
        let start: usize = index * size;
        let end: usize = if payload.len() - start < size {
            payload.len()
        } else {
            start + size
        };
        let chunk = vstd::slice::slice_subrange(payload, start, end);
        assert(chunk@ == chunks[index as int]);
        let ghost mixed = recovery@;
        xor_into(&mut recovery, VIDEO_RECOVERY_HEADER_LEN, chunk);
        proof {
            assert(recovery@.subrange(0, VIDEO_RECOVERY_HEADER_LEN as int) =~= length) by {
                assert(forall|i: int|
                    0 <= i < VIDEO_RECOVERY_HEADER_LEN ==> mixed[i] == mixed.subrange(
                        0,
                        VIDEO_RECOVERY_HEADER_LEN as int,
                    )[i]);
            }
            assert(chunks.take(index + 1).drop_last() =~= chunks.take(index as int));
        }
        fragments.push(
            VideoFragment {
                frame_id,
                timestamp_us,
                index: index as u16,
                total: total as u16,
                is_keyframe,
                is_recovery: false,
                payload: Cow::Borrowed(chunk),
            },
        );
        index += 1;
    }
    assert(chunks.take(total as int) =~= chunks);
    if total > 1 {
        assert(recovery@ =~= recovery_payload(payload@, size as int)) by {
            assert forall|i: int| 0 <= i < recovery@.len() implies recovery@[i] == recovery_payload(
                payload@,
                size as int,
            )[i] by {
                if i < VIDEO_RECOVERY_HEADER_LEN {
                    assert(recovery@[i] == recovery@.subrange(
                        0,
                        VIDEO_RECOVERY_HEADER_LEN as int,
                    )[i]);
                } else {
                    let j = i - VIDEO_RECOVERY_HEADER_LEN;
                    assert(recovery@[VIDEO_RECOVERY_HEADER_LEN + j] == xor_at(chunks, j));
                }
            }
        }
        fragments.push(
            VideoFragment {
                frame_id,
                timestamp_us,
                index: total as u16,
                total: total as u16,
                is_keyframe,
                is_recovery: true,
                payload: Cow::Owned(recovery),
            },
        );
    }
    assert(fragment_views(fragments@) =~= fragments_of(frame, size as int));
    Ok(fragments)
}

/// No frame has more fragments than the protocol allows.
pub(crate) proof fn lemma_fragment_limit(len: int, size: int)
    requires
        0 < len <= MAX_VIDEO_FRAME_SIZE,
        chunk_size(STANDARD_DATAGRAM_SIZE as int) <= size,
    ensures
        chunk_count(len, size) <= MAX_VIDEO_FRAGMENTS,
{
    lemma_chunk_bounds(len, size);
    let n = chunk_count(len, size);
    assert(n <= 6124) by (nonlinear_arith)
        requires
            (n - 1) * size < len,
            len <= 8388608,
            size >= 1370,
    ;
}

} // verus!
