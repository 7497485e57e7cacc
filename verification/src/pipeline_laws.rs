//! What capturing and encoding on a graphics processor promise.

use crate::capture;
use crate::capture::{
    AccessLossBackoff, CaptureFailure, CaptureStall, CaptureWatchdog, CursorTracker, FramePacer,
    PointerInfo, SessionEnd,
};
use crate::clock;
use crate::hardware;
use crate::hardware::{AfterHandOver, CompletionStep, GpuWait, HandOver, SlotRing, SubmissionFate};
use crate::peer::PeerAddr;
use crate::protocol::CursorPosition;
use vstd::prelude::*;

verus! {

/// A viewer for whom no picture came within two seconds has no picture to hope for; one that
/// waits for less long has.
pub proof fn missing_pictures_are_noticed(w: CaptureWatchdog, since: u64, progress: u64, now: u64)
    requires
        w.viewer_since == Some(since),
        !w.captured_for_viewer,
        !w.moving,
    ensures
        capture::stall_seen(capture::watched(w, false, true, progress, now), now) == if clock::age(
            now,
            since,
        ) >= 2_000_000_000 {
            Some(CaptureStall::NoFirstFrame)
        } else {
            None
        },
{
}

/// A viewer who comes is waited for from then on.
pub proof fn viewers_are_waited_for(w: CaptureWatchdog, progress: u64, now: u64)
    requires
        w.viewer_since is None,
    ensures
        capture::watched(w, false, true, progress, now).viewer_since == Some(now),
        capture::watched(w, true, true, progress, now).viewer_since == Some(now),
        capture::watched(w, true, false, progress, now).viewer_since is None,
        !capture::watched(w, true, false, progress, now).moving,
        !capture::watched(w, true, false, progress, now).captured_for_viewer,
{
}

/// A desktop moves once three pictures came within a second.
pub proof fn moving_desktops_are_noticed(
    w: CaptureWatchdog,
    progress: u64,
    first: u64,
    second: u64,
    third: u64,
)
    requires
        w.viewer_since is Some,
        !w.moving,
        clock::age(first, w.window_started) > 1_000_000_000,
        first <= second <= third,
        third - first <= 1_000_000_000,
    ensures
        ({
            let a = capture::watched(w, true, true, progress, first);
            let b = capture::watched(a, true, true, progress, second);
            let c = capture::watched(b, true, true, progress, third);
            &&& !a.moving
            &&& !b.moving
            &&& c.moving
            &&& c.last_frame == Some(third)
        }),
{
}

/// Pictures that are more than a second apart do not make a desktop move.
pub proof fn rare_pictures_are_no_movement(w: CaptureWatchdog, progress: u64, now: u64)
    requires
        w.viewer_since is Some,
        !w.moving,
        clock::age(now, w.window_started) > 1_000_000_000,
    ensures
        !capture::watched(w, true, true, progress, now).moving,
        capture::watched(w, true, true, progress, now).window_started == now,
        capture::watched(w, true, true, progress, now).window_frames == 1,
{
}

/// A desktop that moved and from which nothing came for two seconds is stuck.
pub proof fn stuck_captures_are_noticed(
    w: CaptureWatchdog,
    since: u64,
    last: u64,
    progress: u64,
    now: u64,
)
    requires
        w.viewer_since == Some(since),
        w.captured_for_viewer,
        w.moving,
        w.last_frame == Some(last),
        progress > w.observed_progress,
    ensures
        capture::stall_seen(capture::watched(w, false, true, progress, now), now) == if clock::age(
            now,
            last,
        ) >= 2_000_000_000 {
            Some(CaptureStall::CaptureStopped)
        } else {
            None
        },
{
}

/// An encoder that made nothing for two seconds of the pictures of a moving desktop is stuck.
pub proof fn stuck_encoders_are_noticed(
    w: CaptureWatchdog,
    since: u64,
    last: u64,
    now: u64,
)
    requires
        w.viewer_since == Some(since),
        w.moving,
        w.last_progress == Some(last),
    ensures
        capture::stall_seen(
            capture::watched(w, true, true, w.observed_progress, now),
            now,
        ) == if clock::age(now, last) >= 2_000_000_000 {
            Some(CaptureStall::EncoderStopped)
        } else {
            None
        },
        forall|progress: u64|
            progress > w.observed_progress ==> capture::stall_seen(
                #[trigger] capture::watched(w, true, true, progress, now),
                now,
            ) is None,
{
}

/// The watchdog remembers how far the encoder has come and since when, and since when there is a
/// viewer.
pub proof fn progress_is_remembered(
    w: CaptureWatchdog,
    acquired: bool,
    progress: u64,
    now: u64,
)
    ensures
        ({
            let v = capture::watched(w, acquired, true, progress, now);
            &&& progress > w.observed_progress ==> v.observed_progress == progress
                && v.last_progress == Some(now)
            &&& progress <= w.observed_progress ==> v.observed_progress == w.observed_progress
                && v.last_progress == w.last_progress
            &&& w.viewer_since is None ==> v.viewer_since == Some(now)
            &&& w.viewer_since is Some ==> v.viewer_since == w.viewer_since
            &&& !acquired ==> v.last_frame == w.last_frame && v.window_frames == w.window_frames
                && v.moving == w.moving && v.captured_for_viewer == w.captured_for_viewer
            &&& acquired ==> v.last_frame == Some(now) && v.captured_for_viewer
        }),
{
}

/// A stuck encoder is told from other failures.
pub proof fn stalls_are_told_apart()
    ensures
        CaptureStall::EncoderStopped.failure_of() == CaptureFailure::EncoderStalled,
        CaptureStall::CaptureStopped.failure_of() == CaptureFailure::Fatal,
        CaptureStall::NoFirstFrame.failure_of() == CaptureFailure::Fatal,
{
}

/// Only where the display was lost is there another attempt: after 25, 50, 100 and from then
/// on 200 milliseconds. The user is told of the first loss in a row.
pub proof fn lost_displays_are_tried_again(failure: CaptureFailure, progressed: bool, end: SessionEnd)
    ensures
        forall|backoff: &mut AccessLossBackoff|
            #![trigger call_ensures(AccessLossBackoff::session_ended, (backoff, failure, progressed), end)]
            call_ensures(AccessLossBackoff::session_ended, (backoff, failure, progressed), end)
                ==> {
                let before = if progressed {
                    0
                } else {
                    backoff.losses as int
                };
                if failure == CaptureFailure::AccessLost && before < u32::MAX {
                    &&& final(backoff).losses == before + 1
                    &&& end matches SessionEnd::Retry { delay_ms, tell_user, warn }
                    &&& tell_user == (before == 0)
                    &&& before == 0 ==> delay_ms == 25 && warn
                    &&& before == 1 ==> delay_ms == 50
                    &&& before == 2 ==> delay_ms == 100
                    &&& before >= 3 ==> delay_ms == 200
                } else if failure != CaptureFailure::AccessLost {
                    end is GiveUp && final(backoff).losses == before
                } else {
                    end is Retry
                }
            },
{
}

/// A part of a text stands in it wherever it is.
pub proof fn parts_are_found(before: Seq<u8>, part: Seq<u8>, after: Seq<u8>)
    ensures
        capture::occurs(before + part + after, part),
{
    let whole = before + part + after;
    let at = before.len() as int;
    assert(whole.subrange(at, at + part.len()) =~= part);
}

/// The part stands there, byte for byte.
pub open spec fn stands_at(whole: Seq<u8>, part: Seq<u8>, at: int) -> bool {
    &&& 0 <= at
    &&& at + part.len() <= whole.len()
    &&& forall|i: int| 0 <= i < part.len() ==> #[trigger] part[i] == whole[at + i]
}

/// Nothing is found in a text but what stands in it.
pub proof fn only_parts_are_found(whole: Seq<u8>, part: Seq<u8>)
    requires
        capture::occurs(whole, part),
    ensures
        exists|at: int| stands_at(whole, part, at),
{
    let at = choose|at: int|
        #![trigger whole.subrange(at, at + part.len())]
        0 <= at <= whole.len() - part.len() && whole.subrange(at, at + part.len()) == part;
    assert forall|i: int| 0 <= i < part.len() implies #[trigger] part[i] == whole[at + i] by {
        assert(whole.subrange(at, at + part.len())[i] == part[i]);
    }
    assert(stands_at(whole, part, at));
}

/// Letters count as the same in upper and lower case, and nothing else does.
pub proof fn case_does_not_matter(a: u8, b: u8)
    ensures
        (capture::upper(a) == capture::upper(b)) == (a == b || (0x41 <= a <= 0x5a && b == a + 0x20)
            || (0x41 <= b <= 0x5a && a == b + 0x20)),
{
}

/// What kind of failure it was is read from the number or the name in the error: that the
/// display was lost, which may be written in any case, or that the device was.
pub proof fn failures_are_told_by_their_numbers(error: &str, failure: CaptureFailure)
    requires
        call_ensures(capture::classify_capture_error, (error,), failure),
    ensures
        ({
            let bytes = vstd::utf8::encode_utf8(error@);
            let upper = bytes.map_values(|byte: u8| capture::upper(byte));
            let lost = capture::occurs(upper, vstd::utf8::encode_utf8("0X887A0026"@))
                || capture::occurs(upper, vstd::utf8::encode_utf8("DXGI_ERROR_ACCESS_LOST"@));
            let removed = capture::occurs(bytes, vstd::utf8::encode_utf8("0x887A0005"@))
                || capture::occurs(bytes, vstd::utf8::encode_utf8("0x887A0006"@))
                || capture::occurs(bytes, vstd::utf8::encode_utf8("0x887A0007"@))
                || capture::occurs(bytes, vstd::utf8::encode_utf8("0x887A0020"@));
            &&& lost ==> failure == CaptureFailure::AccessLost
            &&& !lost && removed ==> failure == CaptureFailure::DeviceLost
            &&& !lost && !removed ==> failure == CaptureFailure::Fatal
        }),
{
    let bytes = vstd::utf8::encode_utf8(error@);
    assert(capture::upper_bytes(bytes) =~= bytes.map_values(|byte: u8| capture::upper(byte)));
}

/// A picture is taken from a millisecond before it is due on, and not before. The next one is
/// due an interval later: after the time at which this one was due, or now if that is past.
pub proof fn pictures_are_taken_when_due(p: FramePacer, now: u64)
    requires
        now + 1_000_000 + p.interval <= u64::MAX,
    ensures
        now + 1_000_000 < p.next_frame_at ==> capture::paced(p, now) == (p, false),
        now + 1_000_000 >= p.next_frame_at ==> {
            let (after, taken) = capture::paced(p, now);
            &&& taken
            &&& after.interval == p.interval
            &&& p.next_frame_at + p.interval > now ==> after.next_frame_at == p.next_frame_at
                + p.interval
            &&& p.next_frame_at + p.interval <= now ==> after.next_frame_at == now + p.interval
        },
{
}

/// A coordinate keeps its place: scaled, it is as far from the edge, in proportion, as it was,
/// to within a pixel.
pub proof fn cursors_keep_their_place(value: i32, output: u32, source: u32)
    requires
        source > 0,
        -0x8000_0000 * source <= value * output <= 0x7fff_ffff * source,
    ensures
        ({
            let scaled = capture::scaled_coordinate(value, output, source);
            &&& value >= 0 ==> 0 <= scaled && scaled * source <= value * output < (scaled + 1)
                * source
            &&& value < 0 ==> scaled <= 0 && (scaled - 1) * source < value * output <= scaled
                * source
        }),
{
    let product = value * output;
    let size = source as int;
    assert(value >= 0 ==> product >= 0) by (nonlinear_arith)
        requires
            product == value * output,
            output >= 0,
    ;
    assert(value < 0 ==> product <= 0) by (nonlinear_arith)
        requires
            product == value * output,
            output >= 0,
    ;
    let magnitude = if product >= 0 {
        product
    } else {
        -product
    };
    let q = magnitude / size;
    vstd::arithmetic::div_mod::lemma_fundamental_div_mod(magnitude, size);
    vstd::arithmetic::div_mod::lemma_mod_bound(magnitude, size);
    assert(q >= 0 && q * size <= magnitude && magnitude < (q + 1) * size) by (nonlinear_arith)
        requires
            magnitude == size * q + magnitude % size,
            0 <= magnitude % size < size,
            magnitude >= 0,
            size > 0,
    ;
    if product >= 0 {
        assert(q <= 0x7fff_ffff) by (nonlinear_arith)
            requires
                q * size <= magnitude,
                magnitude <= 0x7fff_ffff * size,
                size > 0,
        ;
        if value < 0 {
            assert(q == 0) by (nonlinear_arith)
                requires
                    q * size <= 0,
                    q >= 0,
                    size > 0,
            ;
        }
    } else {
        assert(q <= 0x8000_0000) by (nonlinear_arith)
            requires
                q * size <= magnitude,
                magnitude <= 0x8000_0000 * size,
                size > 0,
        ;
        assert((-q) * size == -(q * size) && (-q - 1) * size == -((q + 1) * size))
            by (nonlinear_arith);
    }
}

/// The viewer is told where the cursor is when it moved, when the viewer is new, and every
/// tenth of a second; a hidden cursor is nowhere.
pub proof fn viewers_are_told_of_the_cursor(
    pointer: PointerInfo,
    width: u32,
    height: u32,
    source_width: u32,
    source_height: u32,
    peer: Option<PeerAddr>,
    now: u64,
    message: Option<(PeerAddr, CursorPosition)>,
)
    ensures
        forall|tracker: &mut CursorTracker|
            #![trigger call_ensures(CursorTracker::update, (tracker, pointer, width, height, source_width, source_height, peer, now), message)]
            call_ensures(
                CursorTracker::update,
                (tracker, pointer, width, height, source_width, source_height, peer, now),
                message,
            ) ==> {
                let known = pointer.updated || tracker.position is Some;
                let due = pointer.updated || peer != tracker.peer || tracker.sent_at is None
                    || clock::age(now, tracker.sent_at->0) >= 100_000_000;
                &&& message is Some == (peer is Some && due && known)
                &&& message matches Some((to, position)) ==> {
                    &&& Some(to) == peer
                    &&& !pointer.updated ==> Some(position) == tracker.position
                    &&& pointer.updated ==> position.visible == pointer.visible
                    &&& pointer.updated && pointer.visible ==> position.x
                        == capture::scaled_coordinate(pointer.x, width, source_width) as i32
                        && position.y == capture::scaled_coordinate(
                        pointer.y,
                        height,
                        source_height,
                    ) as i32
                    &&& pointer.updated && !pointer.visible ==> position.x == 0 && position.y == 0
                }
                &&& final(tracker).peer == peer
                &&& !pointer.updated ==> final(tracker).position == tracker.position
            },
{
}

/// A slot is free until it is taken, and taken until it is given back; the one that was free
/// longest is taken first.
pub proof fn slots_are_used_in_turn(slot: Option<usize>, given: usize)
    ensures
        forall|ring: &mut SlotRing| #[trigger]
            call_ensures(SlotRing::take, (ring,), slot) ==> match slot {
                Some(slot) => {
                    &&& (*ring)@.len() > 0
                    &&& slot == (*ring)@[0]
                    &&& (*final(ring))@ == (*ring)@.skip(1)
                },
                None => (*ring)@.len() == 0 && (*final(ring))@ == (*ring)@,
            },
        forall|ring: &mut SlotRing| #[trigger]
            call_ensures(SlotRing::give_back, (ring, given), ()) && (*ring)@.len() < 4
                ==> (*final(ring))@ == (*ring)@.push(given),
{
}

/// There are four slots, and all of them are free at first.
pub proof fn there_are_four_slots(ring: SlotRing)
    requires
        call_ensures(SlotRing::new, (), ring),
    ensures
        ring@ == seq![0usize, 1usize, 2usize, 3usize],
{
    assert(ring@ =~= seq![0usize, 1usize, 2usize, 3usize]);
}

/// A picture that is more than 25 milliseconds old is not encoded, and none is once the
/// session ends.
pub proof fn old_captures_are_not_encoded(
    running: bool,
    captured_at: u64,
    now: u64,
    fate: SubmissionFate,
)
    requires
        call_ensures(hardware::submission_fate, (running, captured_at, now), fate),
    ensures
        fate is Proceed == (running && clock::age(now, captured_at) <= 25_000_000),
        fate is Abandon == !running,
{
}

/// A picture that could not be handed on gives its slot back, and the next one has to be a
/// keyframe; one that was handed on keeps its slot.
pub proof fn slots_are_given_back(outcome: HandOver, next: AfterHandOver)
    requires
        call_ensures(hardware::after_capture, (outcome,), next),
    ensures
        next.free_slot == (outcome is Full || outcome is Disconnected),
        next.force_keyframe == next.free_slot,
        next.count_busy == (outcome is Full),
        next.fail == (outcome is Disconnected),
{
}

/// An encoded picture is not dropped because the sender is busy, as long as the session runs.
pub proof fn encoded_pictures_wait_for_the_sender(
    outcome: HandOver,
    running: bool,
    handed_over: u64,
    step: CompletionStep,
)
    requires
        call_ensures(hardware::after_completion, (outcome, running, handed_over), step),
    ensures
        step is Retry == (outcome is Full && running),
        step matches CompletionStep::Done { first } ==> first == (outcome is Accepted
            && handed_over == 0),
{
}

/// The graphics processor is waited for until it is done, for a second at most.
pub proof fn graphics_processors_are_waited_for(
    running: bool,
    complete: bool,
    started: u64,
    spins: u32,
    now: u64,
    wait: GpuWait,
)
    requires
        call_ensures(hardware::gpu_wait, (running, complete, started, spins, now), wait),
    ensures
        wait is Cancelled == !running,
        wait is Finished == (running && complete),
        wait is TimedOut == (running && !complete && clock::age(now, started) >= 1_000_000_000),
        wait is Spin ==> spins < 128,
        wait is Yield ==> spins >= 128,
{
}

/// A driver is new enough if its version is the required one or a later one.
pub proof fn old_drivers_are_refused(supported: u32, major: u32, minor: u32, enough: bool)
    requires
        call_ensures(hardware::driver_supports, (supported, major, minor), enough),
        minor < 16,
        16 * major + minor <= u32::MAX,
    ensures
        enough == (supported >= 16 * major + minor),
{
}

/// A picture may take its share of a second's bits, rounded down, and one bit at least.
pub proof fn pictures_share_the_bitrate(bitrate_bps: u32, frames_per_second: u32, bits: u32)
    requires
        call_ensures(hardware::frame_budget, (bitrate_bps, frames_per_second), bits),
        frames_per_second > 0,
    ensures
        bits >= 1,
        bitrate_bps >= frames_per_second ==> bits * frames_per_second <= bitrate_bps < (bits + 1)
            * frames_per_second,
        bitrate_bps < frames_per_second ==> bits == 1,
{
    let a = bitrate_bps as int;
    let b = frames_per_second as int;
    vstd::arithmetic::div_mod::lemma_fundamental_div_mod(a, b);
    vstd::arithmetic::div_mod::lemma_mod_bound(a, b);
    let q = a / b;
    assert(q * b <= a && a < (q + 1) * b && q >= 0) by (nonlinear_arith)
        requires
            a == b * q + a % b,
            0 <= a % b < b,
            a >= 0,
    ;
    if a >= b {
        assert(q >= 1) by (nonlinear_arith)
            requires
                a < (q + 1) * b,
                a >= b,
                b > 0,
        ;
    } else {
        vstd::arithmetic::div_mod::lemma_basic_div(a, b);
    }
}

/// A slot is made anew only for pictures of another size.
pub proof fn slots_are_kept_for_their_size(
    known: Option<(u32, u32)>,
    width: u32,
    height: u32,
    rebuild: bool,
)
    requires
        call_ensures(hardware::needs_rebuild, (known, width, height), rebuild),
    ensures
        !rebuild == (known == Some((width, height))),
{
}

/// A cursor that is further out than numbers go stays at the end of them, and one on a screen
/// without a size stays where it is.
pub proof fn far_cursors_stay_at_the_end(value: i32, output: u32, source: u32)
    ensures
        source == 0 ==> capture::scaled_coordinate(value, output, source) == value,
        source > 0 && value * output >= 0x8000_0000 * source ==> capture::scaled_coordinate(
            value,
            output,
            source,
        ) == 0x7fff_ffff,
        source > 0 && value * output <= -0x8000_0001 * source ==> capture::scaled_coordinate(
            value,
            output,
            source,
        ) == -0x8000_0000,
{
    let product = value * output;
    let size = source as int;
    if size > 0 && product >= 0x8000_0000 * size {
        vstd::arithmetic::div_mod::lemma_div_is_ordered(0x8000_0000 * size, product, size);
        vstd::arithmetic::div_mod::lemma_div_by_multiple(0x8000_0000, size);
    }
    if size > 0 && product <= -0x8000_0001 * size {
        assert(-product >= 0x8000_0001 * size && product < 0) by (nonlinear_arith)
            requires
                product <= -0x8000_0001 * size,
                size > 0,
        ;
        vstd::arithmetic::div_mod::lemma_div_is_ordered(0x8000_0001 * size, -product, size);
        vstd::arithmetic::div_mod::lemma_div_by_multiple(0x8000_0001, size);
    }
}

} // verus!
