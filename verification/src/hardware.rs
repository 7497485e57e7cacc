//! The pipeline around a hardware encoder.
//!
//! Pictures move through a ring of slots: a slot is taken for a capture, converted,
//! handed to the encoder, and given back when the encoded picture has gone to the
//! sender. The application talks to the driver; what becomes of a picture and its
//! slot is decided here.

use crate::clock;
use crate::clock::nanos_since;
use crate::sender::VIDEO_SEND_STALE_AGE;
use vstd::prelude::*;

verus! {

/// How many pictures can be under way at one time.
pub const SLOT_COUNT: usize = 4;

/// How long the graphics processor may take to finish its work.
pub const GPU_COMPLETION_TIMEOUT: u64 = 1_000_000_000;

/// So often the clock is looked at before others are let run.
pub const GPU_SPIN_LIMIT: u32 = 128;

/// The slots that no picture uses, in the order in which they became free.
pub struct SlotRing {
    free: Vec<usize>,
}

impl View for SlotRing {
    type V = Seq<usize>;

    closed spec fn view(&self) -> Seq<usize> {
        self.free@
    }
}

/// The slots are slots, and none of them is free twice.
pub open spec fn slots_valid(free: Seq<usize>) -> bool {
    &&& free.len() <= SLOT_COUNT
    &&& forall|i: int| 0 <= i < free.len() ==> #[trigger] free[i] < SLOT_COUNT
    &&& free.no_duplicates()
}

impl SlotRing {
    pub fn new() -> (ring: Self)
        ensures
            ring@ == Seq::new(SLOT_COUNT as nat, |i: int| i as usize),
            slots_valid(ring@),
    {
        let mut free: Vec<usize> = Vec::new();
        let mut slot: usize = 0;
        while slot < SLOT_COUNT
            invariant
                slot <= SLOT_COUNT,
                free@ == Seq::new(slot as nat, |i: int| i as usize),
            decreases SLOT_COUNT - slot,
        {
            free.push(slot);
            slot += 1;
            assert(free@ =~= Seq::new(slot as nat, |i: int| i as usize));
        }
        SlotRing { free }
    }

    /// Takes the slot that has been free longest. Nothing waits for a slot: a newer
    /// picture is worth more than an old one.
    pub fn take(&mut self) -> (slot: Option<usize>)
        ensures
            match slot {
                Some(slot) => old(self)@.len() > 0 && slot == old(self)@[0] && final(self)@ == old(
                    self,
                )@.skip(1),
                None => old(self)@.len() == 0 && final(self)@ == old(self)@,
            },
    {
        if self.free.len() == 0 {
            return None;
        }
        let slot: usize = self.free.remove(0);
        assert(self.free@ =~= old(self).free@.skip(1));
        Some(slot)
    }

    /// Gives a slot back. More slots than there are cannot be free.
    pub fn give_back(&mut self, slot: usize)
        ensures
            final(self)@ == if old(self)@.len() < SLOT_COUNT {
                old(self)@.push(slot)
            } else {
                old(self)@
            },
    {
        if self.free.len() < SLOT_COUNT {
            self.free.push(slot);
        }
    }
}

/// Taking a slot and giving it back leaves every slot free once.
pub proof fn slots_stay_valid(free: Seq<usize>, slot: usize)
    requires
        slots_valid(free),
    ensures
        free.len() > 0 ==> slots_valid(free.skip(1)) && !free.skip(1).contains(free[0]),
        slot < SLOT_COUNT && !free.contains(slot) && free.len() < SLOT_COUNT ==> slots_valid(
            free.push(slot),
        ),
{
    if free.len() > 0 {
        let rest = free.skip(1);
        assert forall|i: int| 0 <= i < rest.len() implies #[trigger] rest[i] < SLOT_COUNT by {
            assert(rest[i] == free[i + 1]);
        }
        assert forall|i: int, j: int|
            0 <= i < rest.len() && 0 <= j < rest.len() && i != j implies rest[i] != rest[j] by {
            assert(rest[i] == free[i + 1] && rest[j] == free[j + 1]);
        }
        if rest.contains(free[0]) {
            let i = choose|i: int| 0 <= i < rest.len() && rest[i] == free[0];
            assert(free[i + 1] == free[0]);
        }
    }
    if slot < SLOT_COUNT && !free.contains(slot) && free.len() < SLOT_COUNT {
        let more = free.push(slot);
        assert forall|i: int| 0 <= i < more.len() implies #[trigger] more[i] < SLOT_COUNT by {
            if i < free.len() {
                assert(more[i] == free[i]);
            }
        }
        assert forall|i: int, j: int|
            0 <= i < more.len() && 0 <= j < more.len() && i != j implies more[i] != more[j] by {
            if i < free.len() && j < free.len() {
                assert(more[i] == free[i] && more[j] == free[j]);
            } else if i < free.len() {
                assert(free.contains(more[i]));
            } else {
                assert(free.contains(more[j]));
            }
        }
    }
}

/// What becomes of a captured picture on its way to the encoder.
#[derive(Clone, Copy, Debug, PartialEq, Eq, Structural)]
pub enum SubmissionFate {
    /// The session ends: give the slot back.
    Abandon,
    /// The picture is too old: count it, make the next one a keyframe, and give the
    /// slot back.
    Stale,
    /// Go on with it.
    Proceed,
}

/// What becomes of a captured picture when the clock shows `now`, before it is
/// converted and again before it is handed to the encoder.
pub fn submission_fate(running: bool, captured_at: u64, now: u64) -> (fate: SubmissionFate)
    ensures
        fate == if !running {
            SubmissionFate::Abandon
        } else if clock::age(now, captured_at) > VIDEO_SEND_STALE_AGE {
            SubmissionFate::Stale
        } else {
            SubmissionFate::Proceed
        },
{
    if !running {
        SubmissionFate::Abandon
    } else if nanos_since(now, captured_at) > VIDEO_SEND_STALE_AGE {
        SubmissionFate::Stale
    } else {
        SubmissionFate::Proceed
    }
}

/// How an attempt to hand a picture on ended.
#[derive(Clone, Copy, Debug, PartialEq, Eq, Structural)]
pub enum HandOver {
    Accepted,
    Full,
    Disconnected,
}

/// What to do after an attempt to hand a picture on.
#[derive(Clone, Copy, Debug, PartialEq, Eq, Structural)]
pub struct AfterHandOver {
    /// Give the slot back.
    pub free_slot: bool,
    /// Make the next picture a keyframe.
    pub force_keyframe: bool,
    /// Count a picture for which there was no slot.
    pub count_busy: bool,
    /// End the pipeline.
    pub fail: bool,
}

/// What to do after a captured picture was handed to the conversion.
pub fn after_capture(outcome: HandOver) -> (next: AfterHandOver)
    ensures
        next == (AfterHandOver {
            free_slot: outcome != HandOver::Accepted,
            force_keyframe: outcome != HandOver::Accepted,
            count_busy: outcome == HandOver::Full,
            fail: outcome == HandOver::Disconnected,
        }),
{
    match outcome {
        HandOver::Accepted => AfterHandOver {
            free_slot: false,
            force_keyframe: false,
            count_busy: false,
            fail: false,
        },
        HandOver::Full => AfterHandOver {
            free_slot: true,
            force_keyframe: true,
            count_busy: true,
            fail: false,
        },
        HandOver::Disconnected => AfterHandOver {
            free_slot: true,
            force_keyframe: true,
            count_busy: false,
            fail: true,
        },
    }
}

/// What to do after an attempt to hand an encoded picture to the sender.
#[derive(Clone, Copy, Debug, PartialEq, Eq, Structural)]
pub enum CompletionStep {
    /// Try again in a moment: the sender is busy, and no picture is dropped here.
    Retry,
    /// Give the slot back. `first` says that this was the first picture of all.
    Done { first: bool },
}

/// What to do after an attempt to hand an encoded picture to the sender, when so many
/// pictures had been handed over before.
pub fn after_completion(outcome: HandOver, running: bool, handed_over: u64) -> (step:
    CompletionStep)
    ensures
        step == match outcome {
            HandOver::Accepted => CompletionStep::Done { first: handed_over == 0 },
            HandOver::Full => if running {
                CompletionStep::Retry
            } else {
                CompletionStep::Done { first: false }
            },
            HandOver::Disconnected => CompletionStep::Done { first: false },
        },
{
    match outcome {
        HandOver::Accepted => CompletionStep::Done { first: handed_over == 0 },
        HandOver::Full => {
            if running {
                CompletionStep::Retry
            } else {
                CompletionStep::Done { first: false }
            }
        },
        HandOver::Disconnected => CompletionStep::Done { first: false },
    }
}

/// What to do while the graphics processor works.
#[derive(Clone, Copy, Debug, PartialEq, Eq, Structural)]
pub enum GpuWait {
    Finished,
    /// The session ends.
    Cancelled,
    /// It has taken too long: the encoder must not be used any more.
    TimedOut,
    /// Look again at once.
    Spin,
    /// Let others run, then look again.
    Yield,
}

/// What to do while the graphics processor works, after so many looks. A session that
/// ends does not look at the outcome.
pub fn gpu_wait(running: bool, complete: bool, started: u64, spins: u32, now: u64) -> (wait:
    GpuWait)
    ensures
        wait == if !running {
            GpuWait::Cancelled
        } else if complete {
            GpuWait::Finished
        } else if clock::age(now, started) >= GPU_COMPLETION_TIMEOUT {
            GpuWait::TimedOut
        } else if spins < GPU_SPIN_LIMIT {
            GpuWait::Spin
        } else {
            GpuWait::Yield
        },
{
    if !running {
        GpuWait::Cancelled
    } else if complete {
        GpuWait::Finished
    } else if nanos_since(now, started) >= GPU_COMPLETION_TIMEOUT {
        GpuWait::TimedOut
    } else if spins < GPU_SPIN_LIMIT {
        GpuWait::Spin
    } else {
        GpuWait::Yield
    }
}

/// A version of the encoder interface, as the driver reports it: four bits for the
/// minor number.
pub open spec fn version_parts(version: u32) -> (u32, u32) {
    (version / 16, version % 16)
}

/// Whether a driver that reports `supported` has the required version of the encoder
/// interface, or a later one.
pub fn driver_supports(supported: u32, major: u32, minor: u32) -> (enough: bool)
    ensures
        enough == ({
            let (has_major, has_minor) = version_parts(supported);
            has_major > major || (has_major == major && has_minor >= minor)
        }),
{
    let has_major: u32 = supported / 16;
    let has_minor: u32 = supported % 16;
    has_major > major || (has_major == major && has_minor >= minor)
}

/// The bits that the encoder may spend on one picture, and buffer: at least one.
pub fn frame_budget(bitrate_bps: u32, frames_per_second: u32) -> (bits: u32)
    ensures
        ({
            let share = bitrate_bps as int / if frames_per_second == 0 {
                1
            } else {
                frames_per_second as int
            };
            bits == if share == 0 {
                1
            } else {
                share
            }
        }),
{
    let rate: u32 = if frames_per_second == 0 {
        1
    } else {
        frames_per_second
    };
    let share: u32 = bitrate_bps / rate;
    if share == 0 {
        1
    } else {
        share
    }
}

/// The surface of a slot has to be made anew for pictures of this size.
pub fn needs_rebuild(known: Option<(u32, u32)>, width: u32, height: u32) -> (rebuild: bool)
    ensures
        rebuild == (known != Some((width, height))),
{
    match known {
        Some((known_width, known_height)) => known_width != width || known_height != height,
        None => true,
    }
}

} // verus!
