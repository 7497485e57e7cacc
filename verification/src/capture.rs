//! Capturing the desktop: when to take a picture, when to give a capture session up,
//! and what the viewer is told of the cursor.

use crate::clock;
use crate::clock::nanos_since;
use crate::peer::PeerAddr;
use crate::protocol::CursorPosition;
use vstd::prelude::*;

verus! {

/// After so many nanoseconds without any picture a new session is given up.
pub const CAPTURE_STALL_TIMEOUT: u64 = 2_000_000_000;

/// After so many nanoseconds without a picture a moving desktop is taken to be stuck.
pub const ACTIVE_CAPTURE_STALL_TIMEOUT: u64 = 2_000_000_000;

/// After so many nanoseconds without an encoded picture the encoder is taken to be stuck.
pub const ACTIVE_ENCODE_STALL_TIMEOUT: u64 = 2_000_000_000;

/// A desktop is moving when so many pictures come within the window.
pub const CAPTURE_ACTIVITY_THRESHOLD: u64 = 3;

pub const CAPTURE_ACTIVITY_WINDOW: u64 = 1_000_000_000;

pub const ACCESS_LOST_RETRY_DELAY_MS: u64 = 25;

pub const ACCESS_LOST_MAX_RETRY_DELAY_MS: u64 = 200;

pub const CURSOR_REFRESH_INTERVAL: u64 = 100_000_000;

/// A picture may be taken so many nanoseconds before it is due.
pub const PACING_TOLERANCE: u64 = 1_000_000;

/// Why a capture session ended.
#[derive(Clone, Copy, Debug, PartialEq, Eq, Structural)]
pub enum CaptureFailure {
    /// The display mode changed: start a new session.
    AccessLost,
    /// The graphics device is gone.
    DeviceLost,
    /// The encoder does not go on.
    EncoderStalled,
    /// Anything else.
    Fatal,
}

/// What a capture session that watches for stalls reports.
#[derive(Clone, Copy, Debug, PartialEq, Eq, Structural)]
pub enum CaptureStall {
    /// No picture came although a viewer is there.
    NoFirstFrame,
    /// The desktop was moving and does not any more.
    CaptureStopped,
    /// Pictures come and none of them is encoded.
    EncoderStopped,
}

impl CaptureStall {
    pub open spec fn failure_of(self) -> CaptureFailure {
        match self {
            CaptureStall::EncoderStopped => CaptureFailure::EncoderStalled,
            _ => CaptureFailure::Fatal,
        }
    }

    pub fn failure(&self) -> (failure: CaptureFailure)
        ensures
            failure == self.failure_of(),
    {
        match self {
            CaptureStall::EncoderStopped => CaptureFailure::EncoderStalled,
            _ => CaptureFailure::Fatal,
        }
    }

    pub open spec fn message_text(self) -> Seq<char> {
        match self {
            CaptureStall::NoFirstFrame => {
                "DXGI produced no desktop frames for 2000 ms while a viewer was connected"@
            },
            CaptureStall::CaptureStopped => {
                "DXGI stopped producing an active desktop stream for 2000 ms"@
            },
            CaptureStall::EncoderStopped => {
                "NVENC completed no frames for 2000 ms while DXGI capture remained active"@
            },
        }
    }

    /// What to tell the user.
    pub fn message(&self) -> (text: &'static str)
        ensures
            text@ == self.message_text(),
    {
        match self {
            CaptureStall::NoFirstFrame => {
                "DXGI produced no desktop frames for 2000 ms while a viewer was connected"
            },
            CaptureStall::CaptureStopped => {
                "DXGI stopped producing an active desktop stream for 2000 ms"
            },
            CaptureStall::EncoderStopped => {
                "NVENC completed no frames for 2000 ms while DXGI capture remained active"
            },
        }
    }
}

/// Watches a capture session for stalls while a viewer is there. A desktop on which
/// nothing moves yields no pictures; that is no stall.
#[derive(Clone, Copy, Debug, PartialEq, Eq, Structural)]
pub struct CaptureWatchdog {
    /// Since when a viewer is there.
    pub viewer_since: Option<u64>,
    pub captured_for_viewer: bool,
    pub window_started: u64,
    pub window_frames: u64,
    /// The desktop has been seen to move.
    pub moving: bool,
    pub last_frame: Option<u64>,
    /// How many pictures had been encoded when it was last looked.
    pub observed_progress: u64,
    pub last_progress: Option<u64>,
}

/// A watchdog when no viewer is there.
pub open spec fn idle_watchdog(progress: u64, now: u64) -> CaptureWatchdog {
    CaptureWatchdog {
        viewer_since: None,
        captured_for_viewer: false,
        window_started: now,
        window_frames: 0,
        moving: false,
        last_frame: None,
        observed_progress: progress,
        last_progress: None,
    }
}

/// A viewer is there: since when, and whether pictures are encoded.
pub open spec fn viewer_seen(w: CaptureWatchdog, progress: u64, now: u64) -> CaptureWatchdog {
    let since = match w.viewer_since {
        Some(since) => since,
        None => now,
    };
    if progress > w.observed_progress {
        CaptureWatchdog {
            viewer_since: Some(since),
            observed_progress: progress,
            last_progress: Some(now),
            ..w
        }
    } else {
        CaptureWatchdog { viewer_since: Some(since), ..w }
    }
}

/// A picture came.
pub open spec fn frame_seen(w: CaptureWatchdog, now: u64) -> CaptureWatchdog {
    let new_window = clock::age(now, w.window_started) > CAPTURE_ACTIVITY_WINDOW;
    let frames = if new_window {
        1
    } else if w.window_frames == u64::MAX {
        u64::MAX
    } else {
        (w.window_frames + 1) as u64
    };
    CaptureWatchdog {
        captured_for_viewer: true,
        last_frame: Some(now),
        window_started: if new_window {
            now
        } else {
            w.window_started
        },
        window_frames: frames,
        moving: w.moving || frames >= CAPTURE_ACTIVITY_THRESHOLD,
        ..w
    }
}

/// What a watchdog has to report of a viewer that is there.
pub open spec fn stall_seen(w: CaptureWatchdog, now: u64) -> Option<CaptureStall> {
    match w.viewer_since {
        None => None,
        Some(since) => if !w.captured_for_viewer && clock::age(now, since)
            >= CAPTURE_STALL_TIMEOUT {
            Some(CaptureStall::NoFirstFrame)
        } else if w.moving && w.last_frame is Some && clock::age(now, w.last_frame->0)
            >= ACTIVE_CAPTURE_STALL_TIMEOUT {
            Some(CaptureStall::CaptureStopped)
        } else if w.moving && clock::age(
            now,
            match w.last_progress {
                Some(last) => last,
                None => since,
            },
        ) >= ACTIVE_ENCODE_STALL_TIMEOUT {
            Some(CaptureStall::EncoderStopped)
        } else {
            None
        },
    }
}

/// What an attempt to take a picture does to a watchdog.
pub open spec fn watched(
    w: CaptureWatchdog,
    acquired: bool,
    viewer: bool,
    progress: u64,
    now: u64,
) -> CaptureWatchdog {
    if !viewer {
        idle_watchdog(progress, now)
    } else {
        let v = viewer_seen(w, progress, now);
        if acquired {
            frame_seen(v, now)
        } else {
            v
        }
    }
}

impl CaptureWatchdog {
    /// A watchdog over a session that starts when the clock shows `now`, with so many
    /// pictures encoded before.
    pub fn new(progress: u64, now: u64) -> (watchdog: Self)
        ensures
            watchdog == idle_watchdog(progress, now),
    {
        CaptureWatchdog {
            viewer_since: None,
            captured_for_viewer: false,
            window_started: now,
            window_frames: 0,
            moving: false,
            last_frame: None,
            observed_progress: progress,
            last_progress: None,
        }
    }

    /// An attempt to take a picture was made when the clock shows `now`.
    pub fn observe(&mut self, acquired: bool, viewer: bool, progress: u64, now: u64) -> (stall:
        Option<CaptureStall>)
        ensures
            *final(self) == watched(*old(self), acquired, viewer, progress, now),
            stall == stall_seen(*final(self), now),
    {
        if !viewer {
            *self = CaptureWatchdog::new(progress, now);
            return None;
        }
        let since: u64 = match self.viewer_since {
            Some(since) => since,
            None => now,
        };
        self.viewer_since = Some(since);
        if progress > self.observed_progress {
            self.observed_progress = progress;
            self.last_progress = Some(now);
        }
        if acquired {
            self.captured_for_viewer = true;
            self.last_frame = Some(now);
            if nanos_since(now, self.window_started) > CAPTURE_ACTIVITY_WINDOW {
                self.window_started = now;
                self.window_frames = 1;
            } else {
                self.window_frames = self.window_frames.saturating_add(1);
            }
            if self.window_frames >= CAPTURE_ACTIVITY_THRESHOLD {
                self.moving = true;
            }
        }
        if !self.captured_for_viewer && nanos_since(now, since) >= CAPTURE_STALL_TIMEOUT {
            return Some(CaptureStall::NoFirstFrame);
        }
        let quiet = match self.last_frame {
            Some(last) => nanos_since(now, last) >= ACTIVE_CAPTURE_STALL_TIMEOUT,
            None => false,
        };
        if self.moving && quiet {
            return Some(CaptureStall::CaptureStopped);
        }
        let last_progress: u64 = match self.last_progress {
            Some(last) => last,
            None => since,
        };
        if self.moving && nanos_since(now, last_progress) >= ACTIVE_ENCODE_STALL_TIMEOUT {
            return Some(CaptureStall::EncoderStopped);
        }
        None
    }
}

/// A desktop that was never seen to move may stay still for any length of time.
pub proof fn still_desktops_do_not_stall(
    w: CaptureWatchdog,
    acquired: bool,
    viewer: bool,
    progress: u64,
    now: u64,
)
    requires
        !watched(w, acquired, viewer, progress, now).moving,
        acquired || w.captured_for_viewer,
    ensures
        stall_seen(watched(w, acquired, viewer, progress, now), now) is None,
{
}

/// Without a viewer nothing is a stall.
pub proof fn nobody_watching_is_no_stall(
    w: CaptureWatchdog,
    acquired: bool,
    progress: u64,
    now: u64,
)
    ensures
        stall_seen(watched(w, acquired, false, progress, now), now) is None,
{
}

/// How often in a row the display has been lost.
#[derive(Clone, Copy, Debug, PartialEq, Eq, Structural)]
pub struct AccessLossBackoff {
    pub losses: u32,
}

/// What to do when a capture session has ended.
#[derive(Clone, Copy, Debug, PartialEq, Eq, Structural)]
pub enum SessionEnd {
    /// Start a new one after so many milliseconds. The flags say whether to tell the
    /// user, and whether to write a warning.
    Retry { delay_ms: u64, tell_user: bool, warn: bool },
    /// Give up.
    GiveUp,
}

/// The delay after so many losses in a row: it doubles three times.
pub open spec fn retry_delay_ms(losses: u32) -> u64 {
    if losses <= 1 {
        ACCESS_LOST_RETRY_DELAY_MS
    } else if losses == 2 {
        (2 * ACCESS_LOST_RETRY_DELAY_MS) as u64
    } else if losses == 3 {
        (4 * ACCESS_LOST_RETRY_DELAY_MS) as u64
    } else {
        ACCESS_LOST_MAX_RETRY_DELAY_MS
    }
}

impl AccessLossBackoff {
    pub fn new() -> (backoff: Self)
        ensures
            backoff.losses == 0,
    {
        AccessLossBackoff { losses: 0 }
    }

    /// A capture session has ended with a failure; `progressed` says whether pictures
    /// were encoded in it.
    pub fn session_ended(&mut self, failure: CaptureFailure, progressed: bool) -> (end: SessionEnd)
        ensures
            ({
                let before = if progressed {
                    0
                } else {
                    old(self).losses as int
                };
                if failure == CaptureFailure::AccessLost {
                    let losses = if before == u32::MAX {
                        before
                    } else {
                        before + 1
                    };
                    &&& final(self).losses == losses
                    &&& end == SessionEnd::Retry {
                        delay_ms: retry_delay_ms(losses as u32),
                        tell_user: losses == 1,
                        warn: losses == 1 || losses % 20 == 0,
                    }
                } else {
                    final(self).losses == before && end == SessionEnd::GiveUp
                }
            }),
    {
        if progressed {
            self.losses = 0;
        }
        match failure {
            CaptureFailure::AccessLost => {
                self.losses = self.losses.saturating_add(1);
                let delay_ms: u64 = match self.losses {
                    0 => ACCESS_LOST_RETRY_DELAY_MS,
                    1 => ACCESS_LOST_RETRY_DELAY_MS,
                    2 => 2 * ACCESS_LOST_RETRY_DELAY_MS,
                    3 => 4 * ACCESS_LOST_RETRY_DELAY_MS,
                    _ => ACCESS_LOST_MAX_RETRY_DELAY_MS,
                };
                SessionEnd::Retry {
                    delay_ms,
                    tell_user: self.losses == 1,
                    warn: self.losses == 1 || self.losses % 20 == 0,
                }
            },
            _ => SessionEnd::GiveUp,
        }
    }
}

/// The delay between two attempts grows, and stays bounded.
pub proof fn retries_slow_down(losses: u32, more: u32)
    requires
        losses <= more,
    ensures
        ACCESS_LOST_RETRY_DELAY_MS <= retry_delay_ms(losses) <= retry_delay_ms(more)
            <= ACCESS_LOST_MAX_RETRY_DELAY_MS,
{
}

/// `part` stands in `whole`.
pub open spec fn occurs(whole: Seq<u8>, part: Seq<u8>) -> bool {
    exists|at: int|
        #![trigger whole.subrange(at, at + part.len())]
        0 <= at <= whole.len() - part.len() && whole.subrange(at, at + part.len()) == part
}

/// An ASCII letter in upper case; everything else as it is.
pub open spec fn upper(byte: u8) -> u8 {
    if 0x61 <= byte <= 0x7a {
        (byte - 0x20) as u8
    } else {
        byte
    }
}

pub open spec fn upper_bytes(bytes: Seq<u8>) -> Seq<u8> {
    bytes.map_values(|byte: u8| upper(byte))
}

fn starts_at(whole: &[u8], at: usize, part: &[u8]) -> (found: bool)
    requires
        at + part@.len() <= whole@.len(),
    ensures
        found == (whole@.subrange(at as int, at + part@.len()) == part@),
{
    assert(whole@.len() == whole.len());
    let mut i: usize = 0;
    while i < part.len()
        invariant
            i <= part@.len(),
            at + part@.len() <= whole@.len() <= usize::MAX,
            forall|k: int| 0 <= k < i ==> whole@[at + k] == #[trigger] part@[k],
        decreases part@.len() - i,
    {
        if whole[at + i] != part[i] {
            assert(whole@.subrange(at as int, at + part@.len())[i as int] != part@[i as int]);
            return false;
        }
        i += 1;
    }
    assert(whole@.subrange(at as int, at + part@.len()) =~= part@);
    true
}

/// Whether `part` stands in `whole`.
pub fn contains_bytes(whole: &[u8], part: &[u8]) -> (found: bool)
    ensures
        found == occurs(whole@, part@),
{
    if part.len() > whole.len() {
        return false;
    }
    let last: usize = whole.len() - part.len();
    let mut at: usize = 0;
    while at <= last
        invariant
            at <= last + 1,
            last == whole@.len() - part@.len(),
            last < usize::MAX || part@.len() == 0,
            whole@.len() <= usize::MAX,
            forall|k: int|
                0 <= k < at ==> (#[trigger] whole@.subrange(k, k + part@.len())) != part@,
        decreases last + 1 - at,
    {
        if starts_at(whole, at, part) {
            return true;
        }
        if at == last {
            assert forall|k: int| 0 <= k <= last implies (#[trigger] whole@.subrange(
                k,
                k + part@.len(),
            )) != part@ by {}
            return false;
        }
        at += 1;
    }
    false
}

fn to_upper(bytes: &[u8]) -> (result: Vec<u8>)
    ensures
        result@ == upper_bytes(bytes@),
{
    let mut result: Vec<u8> = Vec::new();
    let mut i: usize = 0;
    while i < bytes.len()
        invariant
            i <= bytes@.len(),
            result@ == upper_bytes(bytes@).take(i as int),
        decreases bytes@.len() - i,
    {
        let byte: u8 = bytes[i];
        let ghost before = result@;
        result.push(
            if 0x61 <= byte && byte <= 0x7a {
                byte - 0x20
            } else {
                byte
            },
        );
        assert(result@ =~= upper_bytes(bytes@).take(i + 1));
        i += 1;
    }
    assert(upper_bytes(bytes@).take(i as int) =~= upper_bytes(bytes@));
    result
}

/// The bytes of a text.
pub open spec fn text_bytes(text: Seq<char>) -> Seq<u8> {
    vstd::utf8::encode_utf8(text)
}

/// The error says that the display was lost, by number or by name.
pub open spec fn says_access_lost(error: Seq<char>) -> bool {
    let upper = upper_bytes(text_bytes(error));
    occurs(upper, text_bytes("0X887A0026"@)) || occurs(upper, text_bytes("DXGI_ERROR_ACCESS_LOST"@))
}

/// The error says that the graphics device was removed, hung or reset, or that its
/// driver failed.
pub open spec fn says_device_lost(error: Seq<char>) -> bool {
    let bytes = text_bytes(error);
    ||| occurs(bytes, text_bytes("0x887A0005"@))
    ||| occurs(bytes, text_bytes("0x887A0006"@))
    ||| occurs(bytes, text_bytes("0x887A0007"@))
    ||| occurs(bytes, text_bytes("0x887A0020"@))
}

/// What kind of failure an error is.
pub fn classify_capture_error(error: &str) -> (failure: CaptureFailure)
    ensures
        failure == if says_access_lost(error@) {
            CaptureFailure::AccessLost
        } else if says_device_lost(error@) {
            CaptureFailure::DeviceLost
        } else {
            CaptureFailure::Fatal
        },
{
    let bytes = error.as_bytes();
    let upper = to_upper(bytes);
    if contains_bytes(upper.as_slice(), "0X887A0026".as_bytes()) || contains_bytes(
        upper.as_slice(),
        "DXGI_ERROR_ACCESS_LOST".as_bytes(),
    ) {
        CaptureFailure::AccessLost
    } else if contains_bytes(bytes, "0x887A0005".as_bytes()) || contains_bytes(
        bytes,
        "0x887A0006".as_bytes(),
    ) || contains_bytes(bytes, "0x887A0007".as_bytes()) || contains_bytes(
        bytes,
        "0x887A0020".as_bytes(),
    ) {
        CaptureFailure::DeviceLost
    } else {
        CaptureFailure::Fatal
    }
}

/// Picks the pictures that are encoded from those that the desktop offers.
#[derive(Clone, Copy, Debug, PartialEq, Eq, Structural)]
pub struct FramePacer {
    /// The nanoseconds between two pictures.
    pub interval: u64,
    pub next_frame_at: u64,
}

/// Whether a picture is taken, and when the next one is due.
pub open spec fn paced(p: FramePacer, now: u64) -> (FramePacer, bool) {
    if now + PACING_TOLERANCE < p.next_frame_at {
        (p, false)
    } else {
        let next = p.next_frame_at + p.interval;
        (
            FramePacer {
                next_frame_at: if next <= now {
                    (now + p.interval) as u64
                } else {
                    next as u64
                },
                ..p
            },
            true,
        )
    }
}

impl FramePacer {
    pub fn new(interval: u64, now: u64) -> (pacer: Self)
        ensures
            pacer == (FramePacer { interval, next_frame_at: now }),
    {
        FramePacer { interval, next_frame_at: now }
    }

    /// Nobody watches: the next picture is due at once.
    pub fn idle(&mut self, now: u64)
        ensures
            *final(self) == (FramePacer { next_frame_at: now, ..*old(self) }),
    {
        self.next_frame_at = now;
    }

    /// Whether to take the picture that the desktop offers when the clock shows `now`.
    pub fn take(&mut self, now: u64) -> (taken: bool)
        requires
            now + PACING_TOLERANCE + old(self).interval <= u64::MAX,
        ensures
            (*final(self), taken) == paced(*old(self), now),
    {
        if now + PACING_TOLERANCE < self.next_frame_at {
            return false;
        }
        self.next_frame_at = self.next_frame_at + self.interval;
        if self.next_frame_at <= now {
            self.next_frame_at = now + self.interval;
        }
        true
    }
}

/// Two pictures are never taken closer together than the interval, but for the tolerance.
pub proof fn pictures_keep_their_distance(p: FramePacer, first: u64, second: u64)
    requires
        paced(p, first).1,
        paced(paced(p, first).0, second).1,
        first + PACING_TOLERANCE + p.interval <= u64::MAX,
        p.next_frame_at >= first,
    ensures
        second + PACING_TOLERANCE >= p.next_frame_at + p.interval,
        second + PACING_TOLERANCE >= first + p.interval,
{
}

/// A coordinate on the source, on a picture of another size. Halves are cut off, and
/// what does not fit is brought to the nearest number that does.
pub open spec fn scaled_coordinate(value: i32, output_size: u32, source_size: u32) -> int {
    if source_size == 0 {
        value as int
    } else {
        let product = value * output_size;
        let quotient = if product >= 0 {
            product / (source_size as int)
        } else {
            -((-product) / (source_size as int))
        };
        if quotient < i32::MIN {
            i32::MIN as int
        } else if quotient > i32::MAX {
            i32::MAX as int
        } else {
            quotient
        }
    }
}

pub fn scale_cursor_coordinate(value: i32, output_size: u32, source_size: u32) -> (scaled: i32)
    ensures
        scaled == scaled_coordinate(value, output_size, source_size),
{
    if source_size == 0 {
        return value;
    }
    let negative = value < 0;
    let magnitude: u64 = if negative {
        (-(value as i64)) as u64
    } else {
        value as u64
    };
    assert(magnitude * output_size <= 0x8000_0000 * 0xffff_ffff) by (nonlinear_arith)
        requires
            magnitude <= 0x8000_0000,
            output_size <= 0xffff_ffff,
    ;
    let product: u64 = magnitude * output_size as u64;
    proof {
        if negative {
            assert(-(value * output_size) == (-value) * output_size) by (nonlinear_arith);
            assert(value * output_size <= 0) by (nonlinear_arith)
                requires
                    value < 0,
                    output_size >= 0,
            ;
            if value * output_size == 0 {
                assert(product == 0);
            }
        } else {
            assert(value * output_size >= 0) by (nonlinear_arith)
                requires
                    value >= 0,
                    output_size >= 0,
            ;
        }
    }
    let quotient: u64 = product / source_size as u64;
    if negative {
        if quotient > 0x8000_0000 {
            i32::MIN
        } else {
            (-(quotient as i64)) as i32
        }
    } else {
        if quotient > 0x7fff_ffff {
            i32::MAX
        } else {
            quotient as i32
        }
    }
}

/// What the system says of the cursor with a picture of the desktop.
#[derive(Clone, Copy, Debug, PartialEq, Eq, Structural)]
pub struct PointerInfo {
    /// Whether the cursor moved or changed.
    pub updated: bool,
    pub x: i32,
    pub y: i32,
    pub visible: bool,
}

/// Tells the viewer where the cursor is: when it moves, when there is a new viewer,
/// and now and then, since datagrams get lost.
pub struct CursorTracker {
    pub position: Option<CursorPosition>,
    pub peer: Option<PeerAddr>,
    pub sent_at: Option<u64>,
}

/// The cursor in a picture of the given size.
pub open spec fn shown_position(
    pointer: PointerInfo,
    width: u32,
    height: u32,
    source_width: u32,
    source_height: u32,
) -> CursorPosition {
    CursorPosition {
        x: if pointer.visible {
            scaled_coordinate(pointer.x, width, source_width) as i32
        } else {
            0
        },
        y: if pointer.visible {
            scaled_coordinate(pointer.y, height, source_height) as i32
        } else {
            0
        },
        visible: pointer.visible,
    }
}

impl CursorTracker {
    pub fn new() -> (tracker: Self)
        ensures
            tracker.position is None,
            tracker.peer is None,
            tracker.sent_at is None,
    {
        CursorTracker { position: None, peer: None, sent_at: None }
    }

    /// A picture was taken of a desktop of the given size; the viewer gets pictures of
    /// `width` by `height`. Says what to send, and to whom.
    pub fn update(
        &mut self,
        pointer: PointerInfo,
        width: u32,
        height: u32,
        source_width: u32,
        source_height: u32,
        peer: Option<PeerAddr>,
        now: u64,
    ) -> (message: Option<(PeerAddr, CursorPosition)>)
        ensures
            final(self).peer == peer,
            final(self).position == if pointer.updated {
                Some(shown_position(pointer, width, height, source_width, source_height))
            } else {
                old(self).position
            },
            final(self).sent_at == if peer is None {
                None
            } else {
                old(self).sent_at
            },
            ({
                let wanted = pointer.updated || peer != old(self).peer || match old(self).sent_at {
                    Some(sent) => clock::age(now, sent) >= CURSOR_REFRESH_INTERVAL,
                    None => true,
                };
                message == if peer is Some && wanted && final(self).position is Some {
                    Some((peer->0, final(self).position->0))
                } else {
                    None
                }
            }),
    {
        if pointer.updated {
            self.position = Some(
                CursorPosition {
                    x: if pointer.visible {
                        scale_cursor_coordinate(pointer.x, width, source_width)
                    } else {
                        0
                    },
                    y: if pointer.visible {
                        scale_cursor_coordinate(pointer.y, height, source_height)
                    } else {
                        0
                    },
                    visible: pointer.visible,
                },
            );
        }
        let peer_changed = match (peer, self.peer) {
            (Some(new), Some(known)) => new != known,
            (None, None) => false,
            _ => true,
        };
        self.peer = peer;
        let receiver = match peer {
            Some(receiver) => receiver,
            None => {
                self.sent_at = None;
                return None;
            },
        };
        let refresh_due = match self.sent_at {
            Some(sent) => nanos_since(now, sent) >= CURSOR_REFRESH_INTERVAL,
            None => true,
        };
        if !pointer.updated && !peer_changed && !refresh_due {
            return None;
        }
        match self.position {
            Some(position) => Some((receiver, position)),
            None => None,
        }
    }

    /// The message went out when the clock shows `now`.
    pub fn sent(&mut self, now: u64)
        ensures
            final(self).sent_at == Some(now),
            final(self).peer == old(self).peer,
            final(self).position == old(self).position,
    {
        self.sent_at = Some(now);
    }
}

/// What the capture of the desktop counted since the last report.
#[derive(Clone, Copy, Debug, PartialEq, Eq, Structural)]
pub struct CaptureMetrics {
    pub source_frames: u64,
    pub timeouts: u64,
    pub backlog: u64,
    pub backlog_max: u64,
    pub pacing_skips: u64,
    pub slot_busy_skips: u64,
    pub cursor_only_frames: u64,
}

impl CaptureMetrics {
    pub fn new() -> (metrics: Self)
        ensures
            metrics == (CaptureMetrics {
                source_frames: 0,
                timeouts: 0,
                backlog: 0,
                backlog_max: 0,
                pacing_skips: 0,
                slot_busy_skips: 0,
                cursor_only_frames: 0,
            }),
    {
        CaptureMetrics {
            source_frames: 0,
            timeouts: 0,
            backlog: 0,
            backlog_max: 0,
            pacing_skips: 0,
            slot_busy_skips: 0,
            cursor_only_frames: 0,
        }
    }

    /// The desktop offered a picture that stands for `accumulated` presentations, or
    /// only a cursor that moved. Says whether there is a picture.
    pub fn count_acquired(&mut self, desktop_updated: bool, accumulated: u32) -> (updated: bool)
        ensures
            updated == desktop_updated,
            ({
                let missed = if accumulated == 0 {
                    0
                } else {
                    (accumulated - 1) as u64
                };
                *final(self) == if desktop_updated {
                    CaptureMetrics {
                        source_frames: old(self).source_frames.wrapping_add(1),
                        backlog: old(self).backlog.wrapping_add(missed),
                        backlog_max: if old(self).backlog_max < missed {
                            missed
                        } else {
                            old(self).backlog_max
                        },
                        ..*old(self)
                    }
                } else {
                    CaptureMetrics {
                        cursor_only_frames: old(self).cursor_only_frames.wrapping_add(1),
                        ..*old(self)
                    }
                }
            }),
    {
        if desktop_updated {
            let missed: u64 = (accumulated as u64).saturating_sub(1);
            self.source_frames = self.source_frames.wrapping_add(1);
            self.backlog = self.backlog.wrapping_add(missed);
            if self.backlog_max < missed {
                self.backlog_max = missed;
            }
        } else {
            self.cursor_only_frames = self.cursor_only_frames.wrapping_add(1);
        }
        desktop_updated
    }
}

} // verus!
