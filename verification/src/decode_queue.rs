//! The frames that wait for the decoder.
//!
//! Old video is worth nothing: when the decoder falls behind, the queue drops what
//! it holds and takes nothing more until the next keyframe.

use crate::clock;
use crate::clock::nanos_since;
use crate::video::{VideoFrame, VideoFrameView};
use std::collections::VecDeque;
use vstd::prelude::*;

verus! {

pub const VIDEO_DECODE_QUEUE_CAPACITY: usize = 2;

/// A frame that is older than these nanoseconds is not decoded.
pub const VIDEO_STALE_AGE: u64 = 25_000_000;

/// A frame, and when the clock showed that it was complete.
#[derive(Debug, PartialEq, Eq)]
pub struct ReceivedVideoFrame {
    pub frame: VideoFrame,
    pub received_at: u64,
}

#[verifier::ext_equal]
pub struct ReceivedFrameView {
    pub frame: VideoFrameView,
    pub received_at: u64,
}

impl View for ReceivedVideoFrame {
    type V = ReceivedFrameView;

    open spec fn view(&self) -> ReceivedFrameView {
        ReceivedFrameView { frame: self.frame@, received_at: self.received_at }
    }
}

/// What became of a frame that was offered to the queue.
#[derive(Clone, Copy, Debug, PartialEq, Eq, Structural)]
pub enum DecodeQueuePush {
    Queued,
    WaitingForKeyframe,
    Overflowed,
    Stale,
}

/// What a queue holds.
#[verifier::ext_equal]
pub struct DecodeQueueView {
    pub frames: Seq<ReceivedFrameView>,
    pub waiting_for_keyframe: bool,
    /// Changes whenever the decoder has to start anew.
    pub generation: u64,
}

pub struct DecodeQueue {
    frames: VecDeque<ReceivedVideoFrame>,
    waiting_for_keyframe: bool,
    generation: u64,
}

/// What queued frames hold.
pub open spec fn received_views(frames: Seq<ReceivedVideoFrame>) -> Seq<ReceivedFrameView> {
    frames.map_values(|frame: ReceivedVideoFrame| frame@)
}

impl View for DecodeQueue {
    type V = DecodeQueueView;

    closed spec fn view(&self) -> DecodeQueueView {
        DecodeQueueView {
            frames: received_views(self.frames@),
            waiting_for_keyframe: self.waiting_for_keyframe,
            generation: self.generation,
        }
    }
}

/// What a frame that is offered does to a queue, and what becomes of it.
pub open spec fn offered(queue: DecodeQueueView, frame: ReceivedFrameView, now: u64) -> (
    DecodeQueueView,
    DecodeQueuePush,
) {
    let full = queue.frames.len() >= VIDEO_DECODE_QUEUE_CAPACITY;
    let is_keyframe = frame.frame.is_keyframe;
    if clock::age(now, frame.received_at) > VIDEO_STALE_AGE {
        (queue, DecodeQueuePush::Stale)
    } else if queue.waiting_for_keyframe && !is_keyframe {
        (queue, DecodeQueuePush::WaitingForKeyframe)
    } else if full && !is_keyframe {
        (
            DecodeQueueView { frames: Seq::empty(), waiting_for_keyframe: true, ..queue },
            DecodeQueuePush::Overflowed,
        )
    } else {
        (
            DecodeQueueView {
                frames: if full {
                    seq![frame]
                } else {
                    queue.frames.push(frame)
                },
                waiting_for_keyframe: false,
                ..queue
            },
            DecodeQueuePush::Queued,
        )
    }
}

/// The queue when the decoder has to start anew from a keyframe.
pub open spec fn emptied(queue: DecodeQueueView) -> DecodeQueueView {
    DecodeQueueView {
        frames: Seq::empty(),
        waiting_for_keyframe: true,
        generation: queue.generation.wrapping_add(1),
    }
}

impl DecodeQueue {
    pub fn new() -> (queue: Self)
        ensures
            queue@ == (DecodeQueueView {
                frames: Seq::empty(),
                waiting_for_keyframe: false,
                generation: 0,
            }),
    {
        let queue = DecodeQueue {
            frames: VecDeque::new(),
            waiting_for_keyframe: false,
            generation: 0,
        };
        assert(received_views(queue.frames@) =~= Seq::empty());
        queue
    }

    /// Offers a frame to the queue when the clock shows `now`.
    pub fn push(&mut self, frame: ReceivedVideoFrame, now: u64) -> (outcome: DecodeQueuePush)
        ensures
            (final(self)@, outcome) == offered(old(self)@, frame@, now),
    {
        if nanos_since(now, frame.received_at) > VIDEO_STALE_AGE {
            return DecodeQueuePush::Stale;
        }
        if self.waiting_for_keyframe && !frame.frame.is_keyframe {
            return DecodeQueuePush::WaitingForKeyframe;
        }
        if self.frames.len() >= VIDEO_DECODE_QUEUE_CAPACITY {
            self.frames.clear();
            self.waiting_for_keyframe = true;
            assert(received_views(self.frames@) =~= Seq::empty());
            if !frame.frame.is_keyframe {
                return DecodeQueuePush::Overflowed;
            }
        }
        if frame.frame.is_keyframe {
            self.waiting_for_keyframe = false;
        }
        let ghost before = self.frames@;
        self.frames.push_back(frame);
        assert(received_views(self.frames@) =~= received_views(before).push(frame@));
        DecodeQueuePush::Queued
    }

    /// Takes out the frame that has waited longest.
    pub fn pop(&mut self) -> (frame: Option<ReceivedVideoFrame>)
        ensures
            match frame {
                Some(frame) => {
                    &&& old(self)@.frames.len() > 0
                    &&& frame@ == old(self)@.frames[0]
                    &&& final(self)@ == (DecodeQueueView {
                        frames: old(self)@.frames.skip(1),
                        ..old(self)@
                    })
                },
                None => old(self)@.frames.len() == 0 && final(self)@ == old(self)@,
            },
    {
        let ghost before = self.frames@;
        let frame = self.frames.pop_front();
        proof {
            if before.len() > 0 {
                assert(received_views(self.frames@) =~= received_views(before).skip(1));
            } else {
                assert(received_views(self.frames@) =~= received_views(before));
            }
        }
        frame
    }

    /// Drops everything: the decoder has to start anew from a keyframe.
    pub fn require_keyframe(&mut self)
        ensures
            final(self)@ == emptied(old(self)@),
    {
        self.frames.clear();
        self.waiting_for_keyframe = true;
        self.generation = self.generation.wrapping_add(1);
        assert(received_views(self.frames@) =~= Seq::empty());
    }

    pub fn generation(&self) -> (generation: u64)
        ensures
            generation == self@.generation,
    {
        self.generation
    }

    pub fn is_empty(&self) -> (empty: bool)
        ensures
            empty == (self@.frames.len() == 0),
    {
        self.frames.len() == 0
    }
}

/// The queue never holds more than its capacity.
pub proof fn queue_stays_bounded(queue: DecodeQueueView, frame: ReceivedFrameView, now: u64)
    requires
        queue.frames.len() <= VIDEO_DECODE_QUEUE_CAPACITY,
    ensures
        offered(queue, frame, now).0.frames.len() <= VIDEO_DECODE_QUEUE_CAPACITY,
{
}

/// Once frames have been dropped nothing is queued before a keyframe, which is then
/// the first in the queue.
pub proof fn decoding_resumes_with_a_keyframe(
    queue: DecodeQueueView,
    frame: ReceivedFrameView,
    now: u64,
)
    requires
        queue.waiting_for_keyframe,
        queue.frames.len() == 0,
    ensures
        ({
            let (after, outcome) = offered(queue, frame, now);
            if outcome == DecodeQueuePush::Queued {
                after.frames == seq![frame] && frame.frame.is_keyframe
            } else {
                after == queue
            }
        }),
{
    assert(queue.frames.push(frame) =~= seq![frame]);
}

/// Whatever makes the queue drop frames makes it wait for a keyframe.
pub proof fn dropping_makes_it_wait(queue: DecodeQueueView, frame: ReceivedFrameView, now: u64)
    ensures
        offered(queue, frame, now).1 == DecodeQueuePush::Overflowed ==> offered(
            queue,
            frame,
            now,
        ).0.waiting_for_keyframe && offered(queue, frame, now).0.frames.len() == 0,
        emptied(queue).waiting_for_keyframe && emptied(queue).frames.len() == 0,
        emptied(queue).generation != queue.generation,
{
}

} // verus!
