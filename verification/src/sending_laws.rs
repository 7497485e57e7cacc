//! What a host sends of the pictures that it makes, and when.

use crate::bytes;
use crate::clock;
use crate::encoder::{EncodedKind, EncoderState};
use crate::pacer::{DatagramPacer, PacingWait};
use crate::protocol;
use crate::protocol::{PacketParseError, PacketView};
use crate::sender;
use crate::sender::{EncodedFrame, FrameSender, SendDecisionView};
use crate::video;
use crate::video::{VideoFragmentationError, VideoFrameView};
use crate::video_laws;
use vstd::prelude::*;

verus! {

/// The datagrams are those of the frame: each of them carries one of its fragments, in order,
/// and says which frame that is, when it was captured, and whether it is a keyframe.
pub open spec fn carry_the_frame(
    datagrams: Seq<Seq<u8>>,
    frame: VideoFrameView,
    datagram_size: int,
) -> bool {
    let fragments = video::fragments_of(frame, video::chunk_size(datagram_size));
    &&& datagrams.len() == fragments.len()
    &&& forall|i: int|
        0 <= i < datagrams.len() ==> {
            &&& protocol::parsed_packet(#[trigger] datagrams[i]) == Ok::<
                PacketView,
                PacketParseError,
            >(PacketView::Video(fragments[i]))
            &&& datagrams[i].len() <= datagram_size
            &&& fragments[i].frame_id == frame.frame_id
            &&& fragments[i].timestamp_us == frame.timestamp_us
            &&& fragments[i].is_keyframe == frame.is_keyframe
        }
}

/// A frame of up to eight mebibytes is sent in datagrams that carry it; one that is empty or
/// larger is not, nor one for datagrams of a size that was not agreed on.
pub proof fn frames_are_sent(frame: VideoFrameView, datagram_size: usize)
    ensures
        match sender::packetized(frame, datagram_size) {
            Ok(datagrams) => {
                &&& 0 < frame.payload.len() <= 8_388_608
                &&& 1400 <= datagram_size <= 8192
                &&& carry_the_frame(datagrams, frame, datagram_size as int)
            },
            Err(VideoFragmentationError::EmptyFrame) => frame.payload.len() == 0,
            Err(VideoFragmentationError::FrameTooLarge) => frame.payload.len() > 8_388_608,
            Err(VideoFragmentationError::InvalidDatagramSize) => 0 < frame.payload.len()
                <= 8_388_608 && !(1400 <= datagram_size <= 8192),
        },
{
    if let Ok(datagrams) = sender::packetized(frame, datagram_size) {
        let size = video::chunk_size(datagram_size as int);
        let fragments = video::fragments_of(frame, size);
        assert forall|i: int| 0 <= i < datagrams.len() implies {
            &&& protocol::parsed_packet(#[trigger] datagrams[i]) == Ok::<
                PacketView,
                PacketParseError,
            >(PacketView::Video(fragments[i]))
            &&& datagrams[i].len() <= datagram_size
            &&& fragments[i].frame_id == frame.frame_id
            &&& fragments[i].timestamp_us == frame.timestamp_us
            &&& fragments[i].is_keyframe == frame.is_keyframe
        } by {
            video_laws::fragments_fit(frame, datagram_size as int, i);
        }
    }
}

/// A frame takes as few datagrams as it can: each but the last is filled, up to four bytes
/// that only the recovery fragment uses, which fills its datagram whole. A frame that fits
/// into one datagram has no recovery fragment.
pub proof fn frames_take_few_datagrams(frame: VideoFrameView, datagram_size: int, i: int)
    requires
        video_laws::sendable(frame, datagram_size),
        0 <= i < video::fragments_of(frame, video::chunk_size(datagram_size)).len(),
    ensures
        ({
            let fragments = video::fragments_of(frame, video::chunk_size(datagram_size));
            let datagram = protocol::encode_packet(PacketView::Video(fragments[i]));
            let len = frame.payload.len();
            &&& frame.payload.len() <= datagram_size - 30 ==> fragments.len() == 1
            &&& frame.payload.len() > datagram_size - 30 ==> {
                let data = fragments.len() - 1;
                &&& (data - 1) * (datagram_size - 30) < len <= data * (datagram_size - 30)
                &&& fragments[i].total == data
                &&& i < data - 1 ==> datagram.len() == datagram_size - 4
                &&& i == data ==> datagram.len() == datagram_size && fragments[i].is_recovery
                &&& i < data ==> !fragments[i].is_recovery
            }
        }),
{
    let size = video::chunk_size(datagram_size);
    let len = frame.payload.len() as int;
    let fragments = video::fragments_of(frame, size);
    let chunks = video::chunks_of(frame.payload, size);
    let count = chunks.len() as int;
    assert(size == datagram_size - 30);
    video::lemma_chunk_bounds(len, size);
    video::lemma_fragment_limit(len, size);
    video_laws::fragments_fit(frame, datagram_size, i);
    if len <= size {
        assert(count == 1) by (nonlinear_arith)
            requires
                (count - 1) * size < len,
                len <= size,
                count > 0,
                size > 0,
        ;
    } else {
        assert(count > 1) by (nonlinear_arith)
            requires
                len <= count * size,
                len > size,
                size > 0,
        ;
    }
    if i < count {
        video::lemma_chunk(frame.payload, size, i);
    }
    bytes::lemma_be_bytes_len(frame.payload.len(), 4);
    bytes::lemma_be_bytes_len(fragments[i].frame_id as nat, 8);
    bytes::lemma_be_bytes_len(fragments[i].timestamp_us as nat, 8);
    bytes::lemma_be_bytes_len(fragments[i].index as nat, 2);
    bytes::lemma_be_bytes_len(fragments[i].total as nat, 2);
}

/// Whether the picture needs no other, by its kind.
pub open spec fn needs_no_other(kind: EncodedKind) -> bool {
    match kind {
        EncodedKind::Idr => true,
        EncodedKind::Intra => true,
        EncodedKind::Predicted => false,
        EncodedKind::Mixed => false,
        EncodedKind::Skipped => false,
        EncodedKind::Invalid => false,
    }
}

/// A picture is sent as what it is: under the next number, with the time since the start, and
/// as a keyframe if and only if the encoder made one.
pub proof fn pictures_are_sent_as_what_they_are(
    s: EncoderState,
    kind: EncodedKind,
    data: Seq<u8>,
    captured_at: u64,
    datagram_size: usize,
    now: u64,
)
    requires
        clock::age(now, captured_at) <= 25_000_000,
        kind != EncodedKind::Skipped,
        0 < data.len() <= 8_388_608,
        1400 <= datagram_size <= 8192,
    ensures
        ({
            let (after, outcome) = crate::encoder::picture_judged(
                s,
                kind,
                data,
                captured_at,
                datagram_size,
                now,
            );
            let frame = VideoFrameView {
                frame_id: s.next_frame,
                timestamp_us: if now >= s.started {
                    ((now - s.started) / 1000) as u64
                } else {
                    0
                },
                is_keyframe: needs_no_other(kind),
                payload: data,
            };
            &&& outcome matches Ok(Some(datagrams)) && carry_the_frame(
                datagrams,
                frame,
                datagram_size as int,
            )
            &&& after.next_frame == s.next_frame.wrapping_add(1)
            &&& after.encoded_any
            &&& after.keyframe_wanted == (s.encoded_any && s.keyframe_wanted)
            &&& after.stats == s.stats
            &&& after.started == s.started
        }),
{
    let frame = crate::encoder::frame_of(s, kind, data, now);
    frames_are_sent(frame, datagram_size);
}

/// The fragments of a predicted picture are never announced as those of a keyframe, and those
/// of a keyframe always are.
pub proof fn keyframes_are_told_from_predicted_pictures(
    s: EncoderState,
    kind: EncodedKind,
    data: Seq<u8>,
    captured_at: u64,
    datagram_size: usize,
    now: u64,
    datagram: Seq<u8>,
)
    requires
        crate::encoder::picture_judged(s, kind, data, captured_at, datagram_size, now).1 matches Ok(
            Some(datagrams),
        ) && datagrams.contains(datagram),
    ensures
        protocol::parsed_packet(datagram) matches Ok(PacketView::Video(fragment))
            && fragment.is_keyframe == (kind == EncodedKind::Idr || kind == EncodedKind::Intra),
{
    let frame = crate::encoder::frame_of(s, kind, data, now);
    frames_are_sent(frame, datagram_size);
    let datagrams = crate::encoder::picture_judged(
        s,
        kind,
        data,
        captured_at,
        datagram_size,
        now,
    ).1->Ok_0->0;
    let i = choose|i: int| 0 <= i < datagrams.len() && datagrams[i] == datagram;
    assert(datagrams[i] == datagram);
}

/// What the encoder skipped, or made nothing of, is not sent, and takes no number.
pub proof fn skipped_pictures_are_not_sent(
    s: EncoderState,
    kind: EncodedKind,
    data: Seq<u8>,
    captured_at: u64,
    datagram_size: usize,
    now: u64,
)
    requires
        clock::age(now, captured_at) <= 25_000_000,
        kind == EncodedKind::Skipped || data.len() == 0,
    ensures
        crate::encoder::picture_judged(s, kind, data, captured_at, datagram_size, now) == (
            s,
            Ok::<Option<Seq<Seq<u8>>>, VideoFragmentationError>(None),
        ),
{
}

/// A picture that is 25 milliseconds old is still good; an older one is not encoded, or not
/// sent if it was encoded, takes no number, and the next one has to be a keyframe.
pub proof fn old_pictures_are_not_sent(
    s: EncoderState,
    kind: EncodedKind,
    data: Seq<u8>,
    captured_at: u64,
    peer_active: bool,
    datagram_size: usize,
    now: u64,
)
    ensures
        clock::age(now, captured_at) <= 25_000_000 ==> crate::encoder::capture_judged(
            s,
            captured_at,
            peer_active,
            now,
        ) == (s, peer_active),
        clock::age(now, captured_at) > 25_000_000 ==> {
            &&& crate::encoder::capture_judged(s, captured_at, peer_active, now) == (
                EncoderState { keyframe_wanted: true, ..s },
                false,
            )
            &&& crate::encoder::picture_judged(s, kind, data, captured_at, datagram_size, now) == (
                EncoderState { keyframe_wanted: true, ..s },
                Ok::<Option<Seq<Seq<u8>>>, VideoFragmentationError>(None),
            )
        },
{
}

/// The encoder is told to make a keyframe if one is wanted, once, but not before its first
/// picture, which is one anyway.
pub proof fn keyframe_wishes_are_granted_once(s: EncoderState)
    ensures
        crate::encoder::keyframe_granted(s).1 == (s.encoded_any && s.keyframe_wanted),
        crate::encoder::keyframe_granted(s).1 ==> !crate::encoder::keyframe_granted(s).0.keyframe_wanted,
        !crate::encoder::keyframe_granted(s).1 ==> crate::encoder::keyframe_granted(s).0 == s,
        !crate::encoder::keyframe_granted(crate::encoder::keyframe_granted(s).0).1,
        crate::encoder::keyframe_granted(s).0.next_frame == s.next_frame,
{
}

/// A new encoder wants a keyframe, and counts its pictures from zero.
pub proof fn encoders_start_with_a_keyframe(now: u64)
    ensures
        crate::encoder::new_encoder_state(now).keyframe_wanted,
        !crate::encoder::new_encoder_state(now).encoded_any,
        crate::encoder::new_encoder_state(now).next_frame == 0,
        crate::encoder::new_encoder_state(now).started == now,
{
}

/// A picture that can be used by the viewer is sent: a keyframe, or the one that follows the
/// picture that was sent last, no more than 25 milliseconds old.
pub proof fn usable_pictures_are_sent(
    s: FrameSender,
    frame: EncodedFrame,
    datagram_size: usize,
    now: u64,
)
    requires
        clock::age(now, frame.captured_at) <= 25_000_000,
        frame.is_keyframe || (!s.waiting_for_keyframe && (s.last_sent_frame matches Some(last)
            ==> frame.frame_id == last.wrapping_add(1))),
        0 < frame.data@.len() <= 8_388_608,
        1400 <= datagram_size <= 8192,
    ensures
        ({
            let (after, decision) = sender::judged(s, frame, true, datagram_size, now);
            &&& decision matches SendDecisionView::Send(datagrams) && carry_the_frame(
                datagrams,
                VideoFrameView {
                    frame_id: frame.frame_id,
                    timestamp_us: frame.timestamp_us,
                    is_keyframe: frame.is_keyframe,
                    payload: frame.data@,
                },
                datagram_size as int,
            )
            &&& !after.waiting_for_keyframe
            &&& after.last_sent_frame == s.last_sent_frame
            &&& after.stats == s.stats
            &&& (s.last_sent_frame matches Some(last) ==> frame.frame_id == last.wrapping_add(1))
                ==> after.keyframe_needed == s.keyframe_needed
        }),
{
    frames_are_sent(frame.content(), datagram_size);
}

/// A picture that does not follow the one that was sent last is not sent unless it is a
/// keyframe, and the encoder has to make one.
pub proof fn gaps_need_a_keyframe(
    s: FrameSender,
    frame: EncodedFrame,
    peer_active: bool,
    datagram_size: usize,
    now: u64,
)
    requires
        clock::age(now, frame.captured_at) <= 25_000_000,
        !frame.is_keyframe,
        s.waiting_for_keyframe || (s.last_sent_frame matches Some(last) && frame.frame_id
            != last.wrapping_add(1)),
    ensures
        ({
            let (after, decision) = sender::judged(s, frame, peer_active, datagram_size, now);
            &&& decision is Skip
            &&& after.waiting_for_keyframe
            &&& after.keyframe_needed
            &&& after.last_sent_frame == s.last_sent_frame
            &&& after.stats == s.stats
        }),
{
}

/// A picture that is too old is counted and not sent, and the encoder has to make a keyframe.
pub proof fn stale_pictures_need_a_keyframe(
    s: FrameSender,
    frame: EncodedFrame,
    peer_active: bool,
    datagram_size: usize,
    now: u64,
)
    requires
        clock::age(now, frame.captured_at) > 25_000_000,
    ensures
        ({
            let (after, decision) = sender::judged(s, frame, peer_active, datagram_size, now);
            &&& decision is Skip
            &&& after.waiting_for_keyframe
            &&& after.keyframe_needed
            &&& after.stats.stale_frames == s.stats.stale_frames.wrapping_add(1)
            &&& after.stats.frames == s.stats.frames
            &&& after.stats.bytes == s.stats.bytes
        }),
{
}

/// Without a viewer nothing is sent, and the next viewer starts with a keyframe.
pub proof fn nothing_is_sent_to_nobody(
    s: FrameSender,
    frame: EncodedFrame,
    datagram_size: usize,
    now: u64,
)
    ensures
        sender::judged(s, frame, false, datagram_size, now).1 is Skip,
        sender::judged(s, frame, false, datagram_size, now).0.waiting_for_keyframe,
{
}

/// A picture that went out is counted, with all that it took, and the next one has to follow
/// it; after one that did not, a keyframe is needed.
pub proof fn sent_pictures_are_counted(
    s: FrameSender,
    frame: EncodedFrame,
    bytes: usize,
    send_us: u64,
    encode_queue_us: u64,
)
    requires
        s.stats.frames < u64::MAX,
        s.stats.bytes + bytes <= u64::MAX,
        s.stats.capture_us + frame.capture_us <= u64::MAX,
        s.stats.gpu_wait_us + frame.gpu_wait_us <= u64::MAX,
        s.stats.gpu_lock_us + frame.gpu_lock_us <= u64::MAX,
        s.stats.encode_us + frame.encode_us <= u64::MAX,
        s.stats.send_us + send_us <= u64::MAX,
        s.stats.encode_queue_us + encode_queue_us <= u64::MAX,
    ensures
        sender::datagram_counted(s, bytes).stats.bytes == s.stats.bytes + bytes,
        sender::datagram_counted(s, bytes).stats.frames == s.stats.frames,
        sender::datagram_counted(s, bytes).last_sent_frame == s.last_sent_frame,
        ({
            let after = sender::frame_counted(s, frame, send_us, encode_queue_us);
            &&& after.last_sent_frame == Some(frame.frame_id)
            &&& after.stats.frames == s.stats.frames + 1
            &&& after.stats.bytes == s.stats.bytes
            &&& after.stats.capture_us == s.stats.capture_us + frame.capture_us
            &&& after.stats.gpu_wait_us == s.stats.gpu_wait_us + frame.gpu_wait_us
            &&& after.stats.gpu_lock_us == s.stats.gpu_lock_us + frame.gpu_lock_us
            &&& after.stats.encode_us == s.stats.encode_us + frame.encode_us
            &&& after.stats.send_us == s.stats.send_us + send_us
            &&& after.stats.encode_queue_us == s.stats.encode_queue_us + encode_queue_us
            &&& after.stats.stale_frames == s.stats.stale_frames
            &&& after.waiting_for_keyframe == s.waiting_for_keyframe
        }),
        ({
            let after = sender::chain_ended(s);
            &&& after.last_sent_frame is None
            &&& after.waiting_for_keyframe
            &&& after.keyframe_needed
            &&& after.stats == s.stats
        }),
{
}

/// The datagrams of a frame may go out four times as fast as the bitrate says, or the frame
/// would be late, and no faster.
pub proof fn pacers_send_four_times_as_fast(bits_per_second: u32, now: u64, pacer: DatagramPacer)
    requires
        call_ensures(DatagramPacer::new, (bits_per_second, now), pacer),
    ensures
        bits_per_second > 0 ==> pacer.bits_per_second == 4 * bits_per_second,
        bits_per_second == 0 ==> pacer.bits_per_second == 4,
        pacer.next_batch_at == now,
{
}

/// Nothing is sent before its time: what a pacer tells to wait ends no earlier than that, and
/// no sleep goes beyond half a millisecond before it.
pub proof fn pacers_do_not_send_early(pacer: DatagramPacer, now: u64, wait: PacingWait)
    requires
        call_ensures(DatagramPacer::wait, (&pacer, now), wait),
    ensures
        match wait {
            PacingWait::Done => pacer.next_batch_at < now,
            PacingWait::Sleep(nanos) => now + nanos + 500_000 == pacer.next_batch_at && nanos > 0,
            PacingWait::Yield => now + 25_000 < pacer.next_batch_at <= now + 500_000,
            PacingWait::SpinUntil(time) => time == pacer.next_batch_at && now <= time <= now
                + 25_000,
        },
{
}

/// So many bytes take the time that their bits take at the pacer's rate.
pub proof fn bytes_take_their_time(bytes: usize)
    ensures
        forall|pacer: &mut DatagramPacer| #[trigger]
            call_ensures(DatagramPacer::account, (pacer, bytes), ()) && pacer.bits_per_second > 0
                && pacer.next_batch_at as int + (bytes * 8_000_000_000)
                / pacer.bits_per_second as int <= u64::MAX ==> {
                &&& final(pacer).next_batch_at == pacer.next_batch_at as int + (bytes
                    * 8_000_000_000) / pacer.bits_per_second as int
                &&& final(pacer).bits_per_second == pacer.bits_per_second
            },
{
    assert(bytes * 8 * 1_000_000_000 == bytes * 8_000_000_000);
}

/// A wait comes before each sixteenth datagram of a frame, and none before the first.
pub proof fn waits_come_every_sixteen_datagrams(index: usize, waits: bool)
    requires
        call_ensures(crate::pacer::waits_before, (index,), waits),
    ensures
        waits == (index != 0 && index as int % 16 == 0),
{
}

} // verus!
