//! Sending encoded pictures.
//!
//! A viewer can use a picture only if it has the one before it. So after a gap, a
//! failure or a picture that came too late nothing is sent before the next keyframe,
//! and the encoder is told to make one.

use crate::clock;
use crate::clock::nanos_since;
use crate::protocol;
use crate::protocol::{Packet, PacketView, VideoFragmentView};
use crate::video;
use crate::video::{
    fragment_video_frame_with_datagram_size, VideoFragmentationError, VideoFrameView,
};
use vstd::prelude::*;

verus! {

/// A picture that is older than these nanoseconds is not sent.
pub const VIDEO_SEND_STALE_AGE: u64 = 25_000_000;

/// How long to gather statistics.
pub const STATS_INTERVAL: u64 = 1_000_000_000;

/// An encoded picture, with what it took to make it in microseconds, and when it was
/// captured and encoded.
#[derive(Debug, PartialEq, Eq)]
pub struct EncodedFrame {
    pub frame_id: u64,
    pub timestamp_us: u64,
    pub is_keyframe: bool,
    pub data: Vec<u8>,
    pub capture_us: u64,
    pub gpu_wait_us: u64,
    pub gpu_lock_us: u64,
    pub encode_us: u64,
    pub encoded_at: u64,
    pub captured_at: u64,
}

impl EncodedFrame {
    /// The frame that the viewer is to get.
    pub open spec fn content(&self) -> VideoFrameView {
        VideoFrameView {
            frame_id: self.frame_id,
            timestamp_us: self.timestamp_us,
            is_keyframe: self.is_keyframe,
            payload: self.data@,
        }
    }
}

/// What was sent since the last report.
#[derive(Clone, Copy, Debug, PartialEq, Eq, Structural)]
pub struct SenderStats {
    pub frames: u64,
    pub bytes: u64,
    pub capture_us: u64,
    pub gpu_wait_us: u64,
    pub gpu_lock_us: u64,
    pub encode_us: u64,
    pub send_us: u64,
    pub encode_queue_us: u64,
    pub stale_frames: u64,
}

pub open spec fn no_stats() -> SenderStats {
    SenderStats {
        frames: 0,
        bytes: 0,
        capture_us: 0,
        gpu_wait_us: 0,
        gpu_lock_us: 0,
        encode_us: 0,
        send_us: 0,
        encode_queue_us: 0,
        stale_frames: 0,
    }
}

/// What was sent in the given time.
#[derive(Clone, Copy, Debug, PartialEq, Eq, Structural)]
pub struct SenderReport {
    pub elapsed: u64,
    pub stats: SenderStats,
}

/// What to do with an encoded picture.
#[derive(Debug, PartialEq, Eq)]
pub enum SendDecision {
    /// Nothing.
    Skip,
    /// Send the datagrams, one after the other, to the viewer.
    Send(Vec<Vec<u8>>),
    /// Tell the user that the picture cannot be sent.
    Failed(VideoFragmentationError),
}

/// What to do with an encoded picture.
#[verifier::ext_equal]
pub enum SendDecisionView {
    Skip,
    Send(Seq<Seq<u8>>),
    Failed(VideoFragmentationError),
}

impl View for SendDecision {
    type V = SendDecisionView;

    open spec fn view(&self) -> SendDecisionView {
        match self {
            SendDecision::Skip => SendDecisionView::Skip,
            SendDecision::Send(datagrams) => SendDecisionView::Send(datagram_views(datagrams@)),
            SendDecision::Failed(error) => SendDecisionView::Failed(*error),
        }
    }
}

/// What datagrams hold.
pub open spec fn datagram_views(datagrams: Seq<Vec<u8>>) -> Seq<Seq<u8>> {
    datagrams.map_values(|datagram: Vec<u8>| datagram@)
}

/// The datagrams that carry fragments.
pub open spec fn fragment_datagrams(fragments: Seq<VideoFragmentView>) -> Seq<Seq<u8>> {
    fragments.map_values(
        |fragment: VideoFragmentView| protocol::encode_packet(PacketView::Video(fragment)),
    )
}

/// What a sender knows.
#[derive(Clone, Copy, Debug, PartialEq, Eq, Structural)]
pub struct FrameSender {
    /// The picture that was sent last, if the next one may follow it.
    pub last_sent_frame: Option<u64>,
    pub waiting_for_keyframe: bool,
    /// The encoder has to make a keyframe.
    pub keyframe_needed: bool,
    pub stats: SenderStats,
    pub stats_started: u64,
}

/// The sender when nothing but a keyframe can follow.
pub open spec fn chain_broken(s: FrameSender) -> FrameSender {
    FrameSender { waiting_for_keyframe: true, keyframe_needed: true, ..s }
}

/// The sender when the chain is broken and a new one need not follow anything.
pub open spec fn chain_ended(s: FrameSender) -> FrameSender {
    FrameSender { last_sent_frame: None, ..chain_broken(s) }
}

/// The sender when it sees that pictures are missing before this one.
pub open spec fn gap_noticed(s: FrameSender, frame_id: u64) -> FrameSender {
    match s.last_sent_frame {
        Some(last) => if frame_id != last.wrapping_add(1) {
            chain_broken(s)
        } else {
            s
        },
        None => s,
    }
}

/// What a sender does with an encoded picture, and what it knows then.
pub open spec fn judged(
    s: FrameSender,
    frame: EncodedFrame,
    peer_active: bool,
    datagram_size: usize,
    now: u64,
) -> (FrameSender, SendDecisionView) {
    let t = gap_noticed(s, frame.frame_id);
    if clock::age(now, frame.captured_at) > VIDEO_SEND_STALE_AGE {
        (
            chain_broken(
                FrameSender {
                    stats: SenderStats {
                        stale_frames: t.stats.stale_frames.wrapping_add(1),
                        ..t.stats
                    },
                    ..t
                },
            ),
            SendDecisionView::Skip,
        )
    } else if t.waiting_for_keyframe && !frame.is_keyframe {
        (FrameSender { keyframe_needed: true, ..t }, SendDecisionView::Skip)
    } else if !peer_active {
        (
            FrameSender { waiting_for_keyframe: true, last_sent_frame: None, ..t },
            SendDecisionView::Skip,
        )
    } else {
        let u = FrameSender { waiting_for_keyframe: false, ..t };
        match packetized(frame.content(), datagram_size) {
            Ok(datagrams) => (u, SendDecisionView::Send(datagrams)),
            Err(error) => (chain_ended(u), SendDecisionView::Failed(error)),
        }
    }
}

/// The datagrams that carry a frame, or why it cannot be sent.
pub open spec fn packetized(frame: VideoFrameView, datagram_size: usize) -> Result<
    Seq<Seq<u8>>,
    VideoFragmentationError,
> {
    if frame.payload.len() == 0 {
        Err(VideoFragmentationError::EmptyFrame)
    } else if frame.payload.len() > protocol::MAX_VIDEO_FRAME_SIZE {
        Err(VideoFragmentationError::FrameTooLarge)
    } else if datagram_size < protocol::STANDARD_DATAGRAM_SIZE || datagram_size
        > protocol::MAX_DATAGRAM_SIZE {
        Err(VideoFragmentationError::InvalidDatagramSize)
    } else {
        Ok(fragment_datagrams(video::fragments_of(frame, video::chunk_size(datagram_size as int))))
    }
}

/// The sum of two numbers, or the largest number that there is.
pub open spec fn capped_sum(a: u64, b: u64) -> u64 {
    if a + b > u64::MAX {
        u64::MAX
    } else {
        (a + b) as u64
    }
}

/// A datagram went out.
pub open spec fn datagram_counted(s: FrameSender, bytes: usize) -> FrameSender {
    FrameSender {
        stats: SenderStats { bytes: capped_sum(s.stats.bytes, bytes as u64), ..s.stats },
        ..s
    }
}

/// All datagrams of a picture went out.
pub open spec fn frame_counted(
    s: FrameSender,
    frame: EncodedFrame,
    send_us: u64,
    encode_queue_us: u64,
) -> FrameSender {
    FrameSender {
        last_sent_frame: Some(frame.frame_id),
        stats: SenderStats {
            frames: capped_sum(s.stats.frames, 1),
            capture_us: capped_sum(s.stats.capture_us, frame.capture_us),
            gpu_wait_us: capped_sum(s.stats.gpu_wait_us, frame.gpu_wait_us),
            gpu_lock_us: capped_sum(s.stats.gpu_lock_us, frame.gpu_lock_us),
            encode_us: capped_sum(s.stats.encode_us, frame.encode_us),
            send_us: capped_sum(s.stats.send_us, send_us),
            encode_queue_us: capped_sum(s.stats.encode_queue_us, encode_queue_us),
            ..s.stats
        },
        ..s
    }
}

/// The datagrams that carry a frame, one for each fragment.
pub fn packetize(
    frame_id: u64,
    timestamp_us: u64,
    is_keyframe: bool,
    payload: &[u8],
    datagram_size: usize,
) -> (outcome: Result<Vec<Vec<u8>>, VideoFragmentationError>)
    ensures
        ({
            let frame = VideoFrameView { frame_id, timestamp_us, is_keyframe, payload: payload@ };
            match outcome {
                Ok(datagrams) => packetized(frame, datagram_size) == Ok::<
                    _,
                    VideoFragmentationError,
                >(datagram_views(datagrams@)),
                Err(error) => packetized(frame, datagram_size) == Err::<Seq<Seq<u8>>, _>(error),
            }
        }),
{
    let fragments = match fragment_video_frame_with_datagram_size(
        frame_id,
        timestamp_us,
        is_keyframe,
        payload,
        datagram_size,
    ) {
        Ok(fragments) => fragments,
        Err(error) => return Err(error),
    };
    let ghost views = video::fragment_views(fragments@);
    let mut datagrams: Vec<Vec<u8>> = Vec::new();
    let mut i: usize = 0;
    while i < fragments.len()
        invariant
            i <= fragments@.len(),
            views == video::fragment_views(fragments@),
            datagram_views(datagrams@) == fragment_datagrams(views).take(i as int),
        decreases fragments@.len() - i,
    {
        let mut datagram: Vec<u8> = Vec::new();
        Packet::Video(fragments[i].clone()).encode(&mut datagram);
        let ghost before = datagrams@;
        let ghost all = fragment_datagrams(views);
        assert(datagram@ == all[i as int]);
        datagrams.push(datagram);
        assert(datagram_views(datagrams@) =~= datagram_views(before).push(datagram@));
        assert(all.take(i + 1) =~= all.take(i as int).push(all[i as int]));
        i += 1;
    }
    assert(fragment_datagrams(views).take(i as int) =~= fragment_datagrams(views));
    Ok(datagrams)
}

impl FrameSender {
    pub fn new(now: u64) -> (sender: Self)
        ensures
            sender == (FrameSender {
                last_sent_frame: None,
                waiting_for_keyframe: true,
                keyframe_needed: false,
                stats: no_stats(),
                stats_started: now,
            }),
    {
        FrameSender {
            last_sent_frame: None,
            waiting_for_keyframe: true,
            keyframe_needed: false,
            stats: SenderStats {
                frames: 0,
                bytes: 0,
                capture_us: 0,
                gpu_wait_us: 0,
                gpu_lock_us: 0,
                encode_us: 0,
                send_us: 0,
                encode_queue_us: 0,
                stale_frames: 0,
            },
            stats_started: now,
        }
    }

    /// What to do with an encoded picture when the clock shows `now`.
    pub fn judge(
        &mut self,
        frame: &EncodedFrame,
        peer_active: bool,
        datagram_size: usize,
        now: u64,
    ) -> (decision: SendDecision)
        ensures
            (*final(self), decision@) == judged(*old(self), *frame, peer_active, datagram_size, now),
    {
        let follows = match self.last_sent_frame {
            Some(last) => frame.frame_id == last.wrapping_add(1),
            None => true,
        };
        if !follows {
            self.waiting_for_keyframe = true;
            self.keyframe_needed = true;
        }
        if nanos_since(now, frame.captured_at) > VIDEO_SEND_STALE_AGE {
            self.stats.stale_frames = self.stats.stale_frames.wrapping_add(1);
            self.waiting_for_keyframe = true;
            self.keyframe_needed = true;
            return SendDecision::Skip;
        }
        if self.waiting_for_keyframe && !frame.is_keyframe {
            self.keyframe_needed = true;
            return SendDecision::Skip;
        }
        if !peer_active {
            self.waiting_for_keyframe = true;
            self.last_sent_frame = None;
            return SendDecision::Skip;
        }
        self.waiting_for_keyframe = false;
        match packetize(
            frame.frame_id,
            frame.timestamp_us,
            frame.is_keyframe,
            frame.data.as_slice(),
            datagram_size,
        ) {
            Ok(datagrams) => SendDecision::Send(datagrams),
            Err(error) => {
                self.waiting_for_keyframe = true;
                self.last_sent_frame = None;
                self.keyframe_needed = true;
                SendDecision::Failed(error)
            },
        }
    }

    /// A datagram of so many bytes went out.
    pub fn count_datagram(&mut self, bytes: usize)
        ensures
            *final(self) == datagram_counted(*old(self), bytes),
    {
        self.stats.bytes = self.stats.bytes.saturating_add(bytes as u64);
    }

    /// All datagrams of a picture went out, or one of them could not be sent.
    pub fn conclude(
        &mut self,
        frame: &EncodedFrame,
        sent: bool,
        send_us: u64,
        encode_queue_us: u64,
    )
        ensures
            *final(self) == if sent {
                frame_counted(*old(self), *frame, send_us, encode_queue_us)
            } else {
                chain_ended(*old(self))
            },
    {
        if sent {
            self.last_sent_frame = Some(frame.frame_id);
            self.stats.frames = self.stats.frames.saturating_add(1);
            self.stats.capture_us = self.stats.capture_us.saturating_add(frame.capture_us);
            self.stats.gpu_wait_us = self.stats.gpu_wait_us.saturating_add(frame.gpu_wait_us);
            self.stats.gpu_lock_us = self.stats.gpu_lock_us.saturating_add(frame.gpu_lock_us);
            self.stats.encode_us = self.stats.encode_us.saturating_add(frame.encode_us);
            self.stats.send_us = self.stats.send_us.saturating_add(send_us);
            self.stats.encode_queue_us = self.stats.encode_queue_us.saturating_add(
                encode_queue_us,
            );
        } else {
            self.keyframe_needed = true;
            self.waiting_for_keyframe = true;
            self.last_sent_frame = None;
        }
    }

    /// Whether the encoder has to make a keyframe; it is told once.
    pub fn take_keyframe_demand(&mut self) -> (needed: bool)
        ensures
            needed == old(self).keyframe_needed,
            *final(self) == (FrameSender { keyframe_needed: false, ..*old(self) }),
    {
        let needed = self.keyframe_needed;
        self.keyframe_needed = false;
        needed
    }

    /// What was sent in the last second, once a second.
    pub fn report(&mut self, now: u64) -> (report: Option<SenderReport>)
        ensures
            ({
                let elapsed = clock::age(now, old(self).stats_started);
                if elapsed >= STATS_INTERVAL {
                    &&& report == Some(
                        SenderReport { elapsed: elapsed as u64, stats: old(self).stats },
                    )
                    &&& *final(self) == (FrameSender {
                        stats: no_stats(),
                        stats_started: now,
                        ..*old(self)
                    })
                } else {
                    report is None && *final(self) == *old(self)
                }
            }),
    {
        if now < self.stats_started || now - self.stats_started < STATS_INTERVAL {
            return None;
        }
        let report = SenderReport { elapsed: now - self.stats_started, stats: self.stats };
        self.stats = SenderStats {
            frames: 0,
            bytes: 0,
            capture_us: 0,
            gpu_wait_us: 0,
            gpu_lock_us: 0,
            encode_us: 0,
            send_us: 0,
            encode_queue_us: 0,
            stale_frames: 0,
        };
        self.stats_started = now;
        Some(report)
    }
}

/// What is sent can be used by the viewer: it is a keyframe or follows the picture
/// that was sent last.
pub proof fn pictures_are_sent_in_order(
    s: FrameSender,
    frame: EncodedFrame,
    peer_active: bool,
    datagram_size: usize,
    now: u64,
)
    requires
        s.last_sent_frame is None ==> s.waiting_for_keyframe,
        judged(s, frame, peer_active, datagram_size, now).1 is Send,
    ensures
        frame.is_keyframe || (s.last_sent_frame is Some && frame.frame_id
            == s.last_sent_frame->0.wrapping_add(1)),
        clock::age(now, frame.captured_at) <= VIDEO_SEND_STALE_AGE,
        peer_active,
{
}

/// Whether a keyframe has to come first is kept track of by every step.
pub proof fn senders_stay_in_step(
    s: FrameSender,
    frame: EncodedFrame,
    peer_active: bool,
    datagram_size: usize,
    sent: bool,
    send_us: u64,
    encode_queue_us: u64,
    now: u64,
)
    requires
        s.last_sent_frame is None ==> s.waiting_for_keyframe,
    ensures
        ({
            let (after, decision) = judged(s, frame, peer_active, datagram_size, now);
            let counted = frame_counted(after, frame, send_us, encode_queue_us);
            &&& decision !is Send ==> (after.last_sent_frame is None
                ==> after.waiting_for_keyframe)
            &&& counted.last_sent_frame is Some
            &&& chain_ended(after).waiting_for_keyframe
        }),
{
}

} // verus!
