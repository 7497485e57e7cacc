//! Encoding captured pictures with OpenH264.
//!
//! Old pictures are worth nothing: one that waited too long is dropped, before or after
//! it was encoded, and the next one is made a keyframe, which needs no other picture.

use crate::clock;
use crate::clock::{nanos_since, Clock};
use crate::i420;
use crate::i420::{BgraFrame, I420Frame, I420View, Nv12Frame, PictureError};
use crate::resolution::VideoResolution;
use crate::sender;
use crate::sender::{packetize, SenderReport, SenderStats, STATS_INTERVAL, VIDEO_SEND_STALE_AGE};
use crate::video::{VideoFragmentationError, VideoFrameView};
use openh264::encoder::{
    BitRate, Complexity, EncodedBitStream, Encoder, EncoderConfig, FrameRate, FrameType,
    IntraFramePeriod, RateControlMode, UsageType,
};
use openh264::formats::YUVSlices;
use openh264::OpenH264API;
use vstd::prelude::*;

verus! {

#[verifier::external_type_specification]
#[verifier::external_body]
pub struct ExEncoder(Encoder);

#[verifier::external_type_specification]
#[verifier::external_body]
pub struct ExEncodedBitStream<'a>(EncodedBitStream<'a>);

#[verifier::external_type_specification]
#[verifier::external_body]
pub struct ExOpenH264Error(openh264::Error);

/// A captured picture.
pub enum CapturedFrame {
    Nv12(Nv12Frame),
    Bgra(BgraFrame),
}

/// The largest picture that may be made of a captured one.
pub open spec fn capture_limits(frame: &BgraFrame, resolution: VideoResolution) -> (u32, u32) {
    match resolution.limits() {
        Some(limits) => limits,
        None => (frame.width as u32, frame.height as u32),
    }
}

/// Why a captured picture is refused.
pub open spec fn capture_complaint(frame: &CapturedFrame, resolution: VideoResolution) -> Option<
    PictureError,
> {
    match frame {
        CapturedFrame::Nv12(frame) => i420::nv12_complaint(frame),
        CapturedFrame::Bgra(frame) => {
            let (width, height) = capture_limits(frame, resolution);
            i420::bgra_complaint(frame, width, height)
        },
    }
}

/// A captured picture, for the encoder.
pub open spec fn of_capture(frame: &CapturedFrame, scaled: (usize, usize)) -> I420View {
    match frame {
        CapturedFrame::Nv12(frame) => i420::of_nv12(frame),
        CapturedFrame::Bgra(frame) => i420::of_bgra(
            frame,
            i420::encodable(scaled.0 as int),
            i420::encodable(scaled.1 as int),
        ),
    }
}

/// Pictures are never made larger than they were captured.
pub open spec fn scaled_down(frame: &CapturedFrame, scaled: (usize, usize)) -> bool {
    match frame {
        CapturedFrame::Nv12(_) => true,
        CapturedFrame::Bgra(frame) => frame.width > 0 && frame.height > 0 ==> scaled.0
            <= frame.width && scaled.1 <= frame.height,
    }
}

impl CapturedFrame {
    /// Bring the picture into the form that the encoder takes. `scaled` holds the
    /// dimensions of a picture of four bytes a pixel at the largest scale that the
    /// resolution allows, rounded down.
    pub fn update_i420(
        &self,
        destination: &mut I420Frame,
        resolution: VideoResolution,
        scaled: (usize, usize),
    ) -> (outcome: Result<(), PictureError>)
        requires
            scaled_down(self, scaled),
        ensures
            match capture_complaint(self, resolution) {
                Some(error) => outcome == Err::<(), _>(error) && (final(destination)@
                    == old(destination)@),
                None => outcome is Ok && final(destination)@ == of_capture(self, scaled),
            },
    {
        match self {
            CapturedFrame::Nv12(frame) => destination.update_from_nv12(frame),
            CapturedFrame::Bgra(frame) => {
                let (width, height): (u32, u32) = match resolution.dimensions() {
                    Some(dimensions) => dimensions,
                    None => {
                        if frame.width < 0 {
                            return Err(PictureError::NegativeWidth);
                        }
                        if frame.height < 0 {
                            return Err(PictureError::NegativeHeight);
                        }
                        (frame.width as u32, frame.height as u32)
                    },
                };
                destination.update_from_bgra_scaled(frame, width, height, scaled)
            },
        }
    }
}

/// What kind of picture the encoder made.
#[derive(Clone, Copy, Debug, PartialEq, Eq, Structural)]
pub enum EncodedKind {
    Invalid,
    Idr,
    Intra,
    Predicted,
    Skipped,
    Mixed,
}

impl EncodedKind {
    /// The picture needs no other.
    pub open spec fn keyframe(self) -> bool {
        self is Idr || self is Intra
    }

    pub fn is_keyframe(self) -> (keyframe: bool)
        ensures
            keyframe == self.keyframe(),
    {
        match self {
            EncodedKind::Idr => true,
            EncodedKind::Intra => true,
            _ => false,
        }
    }
}

#[verifier::external_type_specification]
#[verifier::external_body]
pub struct ExRateControlMode(RateControlMode);

#[verifier::external_type_specification]
#[verifier::external_body]
pub struct ExUsageType(UsageType);

#[verifier::external_type_specification]
#[verifier::external_body]
pub struct ExComplexity(Complexity);

/// What an OpenH264 encoder keeps to.
#[derive(Clone, Copy, Debug, PartialEq, Eq, Structural)]
pub enum RateControl {
    Quality,
    Bitrate,
    BufferBased,
    Timestamp,
    BitratePostSkip,
    Off,
}

/// What an OpenH264 encoder is used for.
#[derive(Clone, Copy, Debug, PartialEq, Eq, Structural)]
pub enum Usage {
    CameraRealTime,
    ScreenRealTime,
    CameraRecording,
    ScreenRecording,
    Any,
}

/// How hard an OpenH264 encoder works on a picture.
#[derive(Clone, Copy, Debug, PartialEq, Eq, Structural)]
pub enum Effort {
    Low,
    Medium,
    High,
}

/// What an OpenH264 encoder is asked to do.
#[derive(Clone, Copy, Debug, PartialEq, Eq, Structural)]
pub struct EncoderSettings {
    pub bits_per_second: u32,
    pub frames_per_second: u32,
    pub rate_control: RateControl,
    pub usage: Usage,
    pub effort: Effort,
    pub adaptive_quantization: bool,
    pub background_detection: bool,
    /// Pictures may be skipped to keep to the rate.
    pub skip_frames: bool,
    /// A keyframe comes by itself after so many pictures.
    pub intra_period: u32,
}

/// The settings for a screen: the pictures depend on each other for as long as nobody asks
/// for a keyframe, and may be skipped to keep to the rate.
pub open spec fn settings_for_screen(
    frames_per_second: u32,
    bits_per_second: u32,
) -> EncoderSettings {
    EncoderSettings {
        bits_per_second,
        frames_per_second,
        rate_control: RateControl::Bitrate,
        usage: Usage::ScreenRealTime,
        effort: Effort::Low,
        adaptive_quantization: false,
        background_detection: false,
        skip_frames: true,
        intra_period: u32::MAX,
    }
}

/// The settings for a screen.
pub fn screen_settings(frames_per_second: u32, bits_per_second: u32) -> (settings: EncoderSettings)
    ensures
        settings == settings_for_screen(frames_per_second, bits_per_second),
{
    EncoderSettings {
        bits_per_second,
        frames_per_second,
        rate_control: RateControl::Bitrate,
        usage: Usage::ScreenRealTime,
        effort: Effort::Low,
        adaptive_quantization: false,
        background_detection: false,
        skip_frames: true,
        intra_period: u32::MAX,
    }
}

/// The `RateControlMode` of OpenH264 that stands for the rate control, one for each.
#[verifier::external_body]
fn rate_control_mode(rate_control: RateControl) -> (mode: RateControlMode) {
    match rate_control {
        RateControl::Quality => RateControlMode::Quality,
        RateControl::Bitrate => RateControlMode::Bitrate,
        RateControl::BufferBased => RateControlMode::Bufferbased,
        RateControl::Timestamp => RateControlMode::Timestamp,
        RateControl::BitratePostSkip => RateControlMode::BitrateModePostSkip,
        RateControl::Off => RateControlMode::Off,
    }
}

/// The `UsageType` of OpenH264 that stands for the usage, one for each.
#[verifier::external_body]
fn usage_type(usage: Usage) -> (usage_type: UsageType) {
    match usage {
        Usage::CameraRealTime => UsageType::CameraVideoRealTime,
        Usage::ScreenRealTime => UsageType::ScreenContentRealTime,
        Usage::CameraRecording => UsageType::CameraVideoNonRealTime,
        Usage::ScreenRecording => UsageType::ScreenContentNonRealTime,
        Usage::Any => UsageType::InputContentTypeAll,
    }
}

/// The `Complexity` of OpenH264 that stands for the effort, one for each.
#[verifier::external_body]
fn complexity(effort: Effort) -> (complexity: Complexity) {
    match effort {
        Effort::Low => Complexity::Low,
        Effort::Medium => Complexity::Medium,
        Effort::High => Complexity::High,
    }
}

/// `Encoder::with_api_config` makes an encoder with the settings that are handed to it; the
/// rate control, the usage and the effort are handed over as OpenH264 has them. Nothing is
/// claimed of the encoder, or of when there is one.
#[verifier::external_body]
fn open_encoder(
    settings: EncoderSettings,
    mode: RateControlMode,
    usage: UsageType,
    complexity: Complexity,
) -> (outcome: Result<Encoder, openh264::Error>) {
    let config = EncoderConfig::new().rate_control_mode(mode).usage_type(usage).complexity(
        complexity,
    ).bitrate(BitRate::from_bps(settings.bits_per_second)).max_frame_rate(
        FrameRate::from_hz(settings.frames_per_second as _),
    ).adaptive_quantization(settings.adaptive_quantization).background_detection(
        settings.background_detection,
    ).skip_frames(settings.skip_frames).intra_frame_period(
        IntraFramePeriod::from_num_frames(settings.intra_period),
    );
    Encoder::with_api_config(OpenH264API::from_source(), config)
}

/// `Encoder::force_intra_frame` makes the next picture a keyframe. Nothing is claimed of
/// what the encoder then returns.
pub assume_specification[ Encoder::force_intra_frame ](encoder: &mut Encoder);

/// `Encoder::encode` encodes a picture. What it returns depends on the pictures before
/// it, and nothing is claimed of that. `YUVSlices::new` panics unless the planes are as
/// large as the dimensions and the strides say, and the encoder counts in `i32`; hence the
/// precondition.
#[verifier::external_body]
fn encode_picture<'a>(
    encoder: &'a mut Encoder,
    yuv: (&[u8], &[u8], &[u8]),
    dimensions: (usize, usize),
    strides: (usize, usize, usize),
) -> (outcome: Result<EncodedBitStream<'a>, openh264::Error>)
    requires
        0 < dimensions.0 <= i32::MAX,
        0 < dimensions.1 <= i32::MAX,
        dimensions.0 % 2 == 0,
        dimensions.1 % 2 == 0,
        dimensions.0 <= strides.0 <= i32::MAX,
        dimensions.0 / 2 <= strides.1 <= i32::MAX,
        dimensions.0 / 2 <= strides.2 <= i32::MAX,
        dimensions.1 * strides.0 == yuv.0@.len(),
        (dimensions.1 / 2) * strides.1 == yuv.1@.len(),
        (dimensions.1 / 2) * strides.2 == yuv.2@.len(),
{
    encoder.encode(&YUVSlices::new(yuv, dimensions, strides))
}

/// `EncodedBitStream::frame_type` says what kind of picture was made. Nothing is claimed
/// of which.
#[verifier::external_body]
fn kind_of(stream: &EncodedBitStream) -> (kind: EncodedKind) {
    match stream.frame_type() {
        FrameType::Invalid => EncodedKind::Invalid,
        FrameType::IDR => EncodedKind::Idr,
        FrameType::I => EncodedKind::Intra,
        FrameType::P => EncodedKind::Predicted,
        FrameType::Skip => EncodedKind::Skipped,
        FrameType::IPMixed => EncodedKind::Mixed,
    }
}

/// `EncodedBitStream::to_vec` copies the bytes of a picture. Nothing is claimed of what
/// they are.
#[verifier::external_body]
fn bytes_of(stream: &EncodedBitStream) -> (bytes: Vec<u8>) {
    stream.to_vec()
}

/// The `Display` form of what OpenH264 complains of. Nothing is claimed of its text.
#[verifier::external_body]
fn complaint_text(error: &openh264::Error) -> (text: String) {
    format!("{error}")
}

/// The text is what `complaint_text` makes of the error.
pub closed spec fn tells_of(text: String, error: openh264::Error) -> bool {
    call_ensures(complaint_text, (&error,), text)
}

/// What OpenH264 complains of, in words.
pub(crate) fn complaint(error: &openh264::Error) -> (text: String)
    ensures
        tells_of(text, *error),
{
    complaint_text(error)
}

/// The reply is what OpenH264 gives to the wish for an encoder with the settings.
pub closed spec fn encoder_opened(
    settings: EncoderSettings,
    reply: Result<Encoder, openh264::Error>,
) -> bool {
    exists|mode: RateControlMode, usage: UsageType, effort: Complexity|
        {
            &&& call_ensures(rate_control_mode, (settings.rate_control,), mode)
            &&& call_ensures(usage_type, (settings.usage,), usage)
            &&& call_ensures(complexity, (settings.effort,), effort)
            &&& #[trigger] call_ensures(open_encoder, (settings, mode, usage, effort), reply)
        }
}

/// Ask OpenH264 for an encoder.
fn open_with(settings: EncoderSettings) -> (reply: Result<Encoder, openh264::Error>)
    ensures
        encoder_opened(settings, reply),
{
    let mode = rate_control_mode(settings.rate_control);
    let usage = usage_type(settings.usage);
    let effort = complexity(settings.effort);
    open_encoder(settings, mode, usage, effort)
}

/// What the encoder's side of a host knows.
#[derive(Clone, Copy, Debug, PartialEq, Eq, Structural)]
pub struct EncoderState {
    /// The encoder has made a picture.
    pub encoded_any: bool,
    /// The next picture has to be a keyframe.
    pub keyframe_wanted: bool,
    pub next_frame: u64,
    pub started: u64,
    pub stats: SenderStats,
    pub stats_started: u64,
}

/// What it took to make a picture, in microseconds.
#[derive(Clone, Copy, Debug, PartialEq, Eq, Structural)]
pub struct FrameTimes {
    pub capture_us: u64,
    pub encode_us: u64,
    pub encode_queue_us: u64,
}

/// What became of a captured picture.
#[derive(Debug, PartialEq, Eq)]
pub enum EncodeOutcome {
    /// There is nothing to send.
    Nothing,
    /// Send the datagrams, one after the other, to the viewer.
    Send(Vec<Vec<u8>>, FrameTimes),
    /// The captured picture cannot be used.
    NotConverted(PictureError),
    /// The encoder failed, with a text for the user.
    NotEncoded(String),
    /// The encoded picture cannot be sent.
    NotSendable(VideoFragmentationError),
}

/// What became of a captured picture.
#[verifier::ext_equal]
pub enum EncodeOutcomeView {
    Nothing,
    Send(Seq<Seq<u8>>, FrameTimes),
    NotConverted(PictureError),
    NotEncoded(Seq<char>),
    NotSendable(VideoFragmentationError),
}

impl View for EncodeOutcome {
    type V = EncodeOutcomeView;

    open spec fn view(&self) -> EncodeOutcomeView {
        match self {
            EncodeOutcome::Nothing => EncodeOutcomeView::Nothing,
            EncodeOutcome::Send(datagrams, times) => EncodeOutcomeView::Send(
                sender::datagram_views(datagrams@),
                *times,
            ),
            EncodeOutcome::NotConverted(error) => EncodeOutcomeView::NotConverted(*error),
            EncodeOutcome::NotEncoded(text) => EncodeOutcomeView::NotEncoded(text@),
            EncodeOutcome::NotSendable(error) => EncodeOutcomeView::NotSendable(*error),
        }
    }
}

pub open spec fn new_encoder_state(now: u64) -> EncoderState {
    EncoderState {
        encoded_any: false,
        keyframe_wanted: true,
        next_frame: 0,
        started: now,
        stats: sender::no_stats(),
        stats_started: now,
    }
}

/// A picture has waited too long.
pub open spec fn too_late(captured_at: u64, now: u64) -> bool {
    clock::age(now, captured_at) > VIDEO_SEND_STALE_AGE
}

/// Whole microseconds between two readings of the clock.
pub open spec fn micros_between(earlier: u64, later: u64) -> u64 {
    (clock::age(later, earlier) / 1000) as u64
}

/// Whether to encode a captured picture, and what the encoder's side knows then.
pub open spec fn capture_judged(s: EncoderState, captured_at: u64, peer_active: bool, now: u64) -> (
    EncoderState,
    bool,
) {
    if too_late(captured_at, now) {
        (EncoderState { keyframe_wanted: true, ..s }, false)
    } else {
        (s, peer_active)
    }
}

/// Whether the encoder is told to make a keyframe, and what its side knows then. The
/// first picture is a keyframe anyway.
pub open spec fn keyframe_granted(s: EncoderState) -> (EncoderState, bool) {
    if s.encoded_any && s.keyframe_wanted {
        (EncoderState { keyframe_wanted: false, ..s }, true)
    } else {
        (s, false)
    }
}

/// What the encoder's side knows once there are bytes to send.
pub open spec fn encoded(s: EncoderState) -> EncoderState {
    EncoderState { encoded_any: true, keyframe_wanted: s.encoded_any && s.keyframe_wanted, ..s }
}

/// The frame that an encoded picture becomes.
pub open spec fn frame_of(s: EncoderState, kind: EncodedKind, data: Seq<u8>, now: u64) -> VideoFrameView {
    VideoFrameView {
        frame_id: s.next_frame,
        timestamp_us: micros_between(s.started, now),
        is_keyframe: kind.keyframe(),
        payload: data,
    }
}

/// The datagrams of an encoded picture, if any are to be sent.
pub open spec fn picture_judged(
    s: EncoderState,
    kind: EncodedKind,
    data: Seq<u8>,
    captured_at: u64,
    datagram_size: usize,
    now: u64,
) -> (EncoderState, Result<Option<Seq<Seq<u8>>>, VideoFragmentationError>) {
    if too_late(captured_at, now) {
        (EncoderState { keyframe_wanted: true, ..s }, Ok(None))
    } else if kind is Skipped || data.len() == 0 {
        (s, Ok(None))
    } else {
        let t = encoded(s);
        match sender::packetized(frame_of(s, kind, data, now), datagram_size) {
            Ok(datagrams) => (
                EncoderState { next_frame: t.next_frame.wrapping_add(1), ..t },
                Ok(Some(datagrams)),
            ),
            Err(error) => (t, Err(error)),
        }
    }
}

impl EncoderState {
    pub fn new(now: u64) -> (state: EncoderState)
        ensures
            state == new_encoder_state(now),
    {
        EncoderState {
            encoded_any: false,
            keyframe_wanted: true,
            next_frame: 0,
            started: now,
            stats: SenderStats {
                frames: 0,
                bytes: 0,
                capture_us: 0,
                gpu_wait_us: 0,
                gpu_lock_us: 0,
                encode_us: 0,
                send_us: 0,
                encode_queue_us: 0,
                stale_frames: 0,
            },
            stats_started: now,
        }
    }

    /// Somebody needs a keyframe.
    pub fn demand_keyframe(&mut self)
        ensures
            *final(self) == (EncoderState { keyframe_wanted: true, ..*old(self) }),
    {
        self.keyframe_wanted = true;
    }

    /// Whether to encode a picture that was captured at `captured_at`.
    pub fn judge_capture(&mut self, captured_at: u64, peer_active: bool, now: u64) -> (go: bool)
        ensures
            (*final(self), go) == capture_judged(*old(self), captured_at, peer_active, now),
    {
        if is_too_late(captured_at, now) {
            self.keyframe_wanted = true;
            return false;
        }
        peer_active
    }

    /// Whether to tell the encoder to make a keyframe.
    pub fn grant_keyframe(&mut self) -> (force: bool)
        ensures
            (*final(self), force) == keyframe_granted(*old(self)),
    {
        if self.encoded_any && self.keyframe_wanted {
            self.keyframe_wanted = false;
            true
        } else {
            false
        }
    }

    /// The datagrams of an encoded picture, if any are to be sent.
    pub fn judge_picture(
        &mut self,
        kind: EncodedKind,
        data: &[u8],
        captured_at: u64,
        datagram_size: usize,
        now: u64,
    ) -> (outcome: Result<Option<Vec<Vec<u8>>>, VideoFragmentationError>)
        ensures
            ({
                let (after, judgement) = picture_judged(
                    *old(self),
                    kind,
                    data@,
                    captured_at,
                    datagram_size,
                    now,
                );
                &&& *final(self) == after
                &&& match judgement {
                    Ok(Some(datagrams)) => outcome matches Ok(Some(sent))
                        && sender::datagram_views(sent@) == datagrams,
                    Ok(None) => outcome matches Ok(None),
                    Err(error) => outcome matches Err(failure) && failure == error,
                }
            }),
    {
        if is_too_late(captured_at, now) {
            self.keyframe_wanted = true;
            return Ok(None);
        }
        if kind == EncodedKind::Skipped || data.len() == 0 {
            return Ok(None);
        }
        if !self.encoded_any {
            self.keyframe_wanted = false;
        }
        self.encoded_any = true;
        match packetize(
            self.next_frame,
            count_micros(self.started, now),
            kind.is_keyframe(),
            data,
            datagram_size,
        ) {
            Ok(datagrams) => {
                self.next_frame = self.next_frame.wrapping_add(1);
                Ok(Some(datagrams))
            },
            Err(error) => Err(error),
        }
    }

    /// A datagram of so many bytes went out.
    pub fn count_datagram(&mut self, bytes: usize)
        ensures
            *final(self) == (EncoderState {
                stats: SenderStats {
                    bytes: sender::capped_sum(old(self).stats.bytes, bytes as u64),
                    ..old(self).stats
                },
                ..*old(self)
            }),
    {
        self.stats.bytes = self.stats.bytes.saturating_add(bytes as u64);
    }

    /// All datagrams of a picture went out.
    pub fn count_frame(&mut self, times: FrameTimes, send_us: u64)
        ensures
            ({
                let before = old(self).stats;
                *final(self) == (EncoderState {
                    stats: SenderStats {
                        frames: sender::capped_sum(before.frames, 1),
                        capture_us: sender::capped_sum(before.capture_us, times.capture_us),
                        encode_us: sender::capped_sum(before.encode_us, times.encode_us),
                        send_us: sender::capped_sum(before.send_us, send_us),
                        encode_queue_us: sender::capped_sum(
                            before.encode_queue_us,
                            times.encode_queue_us,
                        ),
                        ..before
                    },
                    ..*old(self)
                })
            }),
    {
        self.stats.frames = self.stats.frames.saturating_add(1);
        self.stats.capture_us = self.stats.capture_us.saturating_add(times.capture_us);
        self.stats.encode_us = self.stats.encode_us.saturating_add(times.encode_us);
        self.stats.send_us = self.stats.send_us.saturating_add(send_us);
        self.stats.encode_queue_us = self.stats.encode_queue_us.saturating_add(
            times.encode_queue_us,
        );
    }

    /// What was sent in the last second, once a second.
    pub fn report(&mut self, now: u64) -> (report: Option<SenderReport>)
        ensures
            ({
                let elapsed = clock::age(now, old(self).stats_started);
                if elapsed >= STATS_INTERVAL {
                    &&& report == Some(
                        SenderReport { elapsed: elapsed as u64, stats: old(self).stats },
                    )
                    &&& *final(self) == (EncoderState {
                        stats: sender::no_stats(),
                        stats_started: now,
                        ..*old(self)
                    })
                } else {
                    report is None && *final(self) == *old(self)
                }
            }),
    {
        if now < self.stats_started || now - self.stats_started < STATS_INTERVAL {
            return None;
        }
        let report = SenderReport { elapsed: now - self.stats_started, stats: self.stats };
        self.stats = EncoderState::new(now).stats;
        self.stats_started = now;
        Some(report)
    }
}

fn is_too_late(captured_at: u64, now: u64) -> (late: bool)
    ensures
        late == too_late(captured_at, now),
{
    nanos_since(now, captured_at) > VIDEO_SEND_STALE_AGE
}

fn count_micros(earlier: u64, later: u64) -> (micros: u64)
    ensures
        micros == micros_between(earlier, later),
{
    nanos_since(later, earlier) / 1000
}

/// What OpenH264 returned for a picture: its kind and bytes, or a text for the user.
pub type EncodedView = Result<(EncodedKind, Seq<u8>), Seq<char>>;

/// How the encoder's side comes from one state to the next with a captured picture.
pub open spec fn captured(
    s: EncoderState,
    complaint: Option<PictureError>,
    reply: EncodedView,
    captured_at: u64,
    peer_active: bool,
    datagram_size: usize,
    begun: u64,
    converted: u64,
    finished: u64,
    packed: u64,
) -> (EncoderState, EncodeOutcomeView) {
    let (t, go) = capture_judged(s, captured_at, peer_active, begun);
    if !go {
        (t, EncodeOutcomeView::Nothing)
    } else {
        match complaint {
            Some(error) => (t, EncodeOutcomeView::NotConverted(error)),
            None => {
                let u = keyframe_granted(t).0;
                match reply {
                    Err(text) => (u, EncodeOutcomeView::NotEncoded(text)),
                    Ok((kind, data)) => {
                        let (after, judgement) = picture_judged(
                            u,
                            kind,
                            data,
                            captured_at,
                            datagram_size,
                            finished,
                        );
                        match judgement {
                            Ok(Some(datagrams)) => (
                                after,
                                EncodeOutcomeView::Send(
                                    datagrams,
                                    FrameTimes {
                                        capture_us: micros_between(begun, converted),
                                        encode_us: micros_between(converted, finished),
                                        encode_queue_us: micros_between(finished, packed),
                                    },
                                ),
                            ),
                            Ok(None) => (after, EncodeOutcomeView::Nothing),
                            Err(error) => (after, EncodeOutcomeView::NotSendable(error)),
                        }
                    },
                }
            },
        }
    }
}

/// The planes, the dimensions and the strides are those of the picture.
pub open spec fn laid_out(
    picture: I420View,
    yuv: (&[u8], &[u8], &[u8]),
    dimensions: (usize, usize),
    strides: (usize, usize, usize),
) -> bool {
    &&& yuv.0@ == picture.y
    &&& yuv.1@ == picture.u
    &&& yuv.2@ == picture.v
    &&& dimensions.0 == picture.width
    &&& dimensions.1 == picture.height
    &&& strides.0 == picture.width
    &&& strides.1 == picture.width / 2
    &&& strides.2 == picture.width / 2
}

/// The encoder, handed the picture, gave this.
pub closed spec fn picture_encoded(
    engine: &mut Encoder,
    picture: I420View,
    raw: Result<EncodedBitStream, openh264::Error>,
) -> bool {
    exists|
        yuv: (&[u8], &[u8], &[u8]),
        dimensions: (usize, usize),
        strides: (usize, usize, usize),
    |
        {
            &&& laid_out(picture, yuv, dimensions, strides)
            &&& #[trigger] call_ensures(encode_picture, (engine, yuv, dimensions, strides), raw)
        }
}

/// Whether a captured picture is encoded.
pub open spec fn to_encode(
    s: EncoderState,
    complaint: Option<PictureError>,
    captured_at: u64,
    peer_active: bool,
    begun: u64,
) -> bool {
    capture_judged(s, captured_at, peer_active, begun).1 && complaint is None
}

/// The reply holds what OpenH264 gave: the kind and the bytes of the picture, of which there
/// are none where it was skipped, or what the complaint says.
pub closed spec fn reply_holds(
    raw: Result<EncodedBitStream, openh264::Error>,
    reply: EncodedView,
) -> bool {
    match raw {
        Ok(stream) => {
            &&& reply matches Ok((kind, data))
            &&& call_ensures(kind_of, (&stream,), kind)
            &&& if kind is Skipped {
                data == Seq::<u8>::empty()
            } else {
                exists|bytes: Vec<u8>| #[trigger]
                    call_ensures(bytes_of, (&stream,), bytes) && bytes@ == data
            }
        },
        Err(error) => {
            &&& reply matches Err(text)
            &&& exists|words: String| #[trigger] tells_of(words, error) && words@ == text
        },
    }
}

/// What was encoded, or what was complained of.
pub open spec fn encoded_view(reply: Result<(EncodedKind, Vec<u8>), String>) -> EncodedView {
    match reply {
        Ok((kind, data)) => Ok((kind, data@)),
        Err(text) => Err(text@),
    }
}

/// An OpenH264 encoder, and the last picture that it was given.
pub struct SoftwareEncoder {
    encoder: Encoder,
    picture: I420Frame,
    state: EncoderState,
}

impl SoftwareEncoder {
    pub closed spec fn state(&self) -> EncoderState {
        self.state
    }

    pub closed spec fn picture(&self) -> I420View {
        self.picture@
    }

    /// What does the encoding.
    pub closed spec fn engine(&self) -> Encoder {
        self.encoder
    }

    /// What comes of a reply of OpenH264 to the wish for an encoder: the encoder, which was
    /// given no picture yet, or what the complaint says.
    pub open spec fn made_of(
        reply: Result<Encoder, openh264::Error>,
        now: u64,
        outcome: Result<SoftwareEncoder, String>,
    ) -> bool {
        match reply {
            Ok(engine) => {
                &&& outcome matches Ok(encoder)
                &&& encoder.engine() == engine
                &&& encoder.state() == new_encoder_state(now)
                &&& encoder.picture() == (I420View {
                    width: 0,
                    height: 0,
                    y: Seq::empty(),
                    u: Seq::empty(),
                    v: Seq::empty(),
                })
            },
            Err(error) => outcome matches Err(text) && tells_of(text, error),
        }
    }

    /// An encoder for a screen, with `screen_settings`. Whether there is one is up to
    /// OpenH264: whatever it replies, `made_of` says what comes of it.
    pub fn new(frames_per_second: u32, bits_per_second: u32, now: u64) -> (outcome: Result<
        SoftwareEncoder,
        String,
    >)
        ensures
            exists|reply: Result<Encoder, openh264::Error>|
                {
                    &&& #[trigger] encoder_opened(
                        settings_for_screen(frames_per_second, bits_per_second),
                        reply,
                    )
                    &&& Self::made_of(reply, now, outcome)
                },
    {
        let reply = open_with(screen_settings(frames_per_second, bits_per_second));
        Self::of_reply(reply, now)
    }

    /// What comes of a reply of OpenH264 to the wish for an encoder.
    pub fn of_reply(reply: Result<Encoder, openh264::Error>, now: u64) -> (outcome: Result<
        SoftwareEncoder,
        String,
    >)
        ensures
            Self::made_of(reply, now, outcome),
    {
        match reply {
            Ok(encoder) => Ok(
                SoftwareEncoder {
                    encoder,
                    picture: I420Frame::default(),
                    state: EncoderState::new(now),
                },
            ),
            Err(error) => Err(complaint(&error)),
        }
    }

    /// The bookkeeping, to change.
    pub fn bookkeeping(&mut self) -> (state: &mut EncoderState)
        ensures
            *state == old(self).state(),
            final(self).state() == *final(state),
            final(self).picture() == old(self).picture(),
            final(self).engine() == old(self).engine(),
    {
        &mut self.state
    }

    /// Hand the picture to OpenH264.
    fn encode(&mut self) -> (reply: Result<(EncodedKind, Vec<u8>), String>)
        requires
            old(self).picture@.width > 0,
            old(self).picture@.height > 0,
        ensures
            final(self).state == keyframe_granted(old(self).state).0,
            final(self).picture == old(self).picture,
            exists|engine: &mut Encoder, raw: Result<EncodedBitStream, openh264::Error>|
                {
                    &&& #[trigger] picture_encoded(engine, old(self).picture@, raw)
                    &&& if keyframe_granted(old(self).state).1 {
                        exists|prompted: &mut Encoder|
                            {
                                &&& #[trigger] call_ensures(
                                    Encoder::force_intra_frame,
                                    (prompted,),
                                    (),
                                )
                                &&& *prompted == old(self).encoder
                                &&& *final(prompted) == *engine
                            }
                    } else {
                        *engine == old(self).encoder
                    }
                    &&& *final(engine) == final(self).encoder
                    &&& reply_holds(raw, encoded_view(reply))
                },
    {
        if self.state.grant_keyframe() {
            self.encoder.force_intra_frame();
        }
        let yuv = (self.picture.y(), self.picture.u(), self.picture.v());
        let dimensions = self.picture.dimensions();
        let strides = self.picture.strides();
        proof {
            let picture = self.picture@;
            assert(laid_out(picture, yuv, dimensions, strides));
            assert(picture.height * picture.width == picture.width * picture.height)
                by (nonlinear_arith);
            assert((picture.height / 2) * (picture.width / 2) == (picture.width / 2) * (
            picture.height / 2)) by (nonlinear_arith);
            assert forall|engine: &mut Encoder, raw: Result<EncodedBitStream, openh264::Error>|
                #[trigger] call_ensures(
                encode_picture,
                (engine, yuv, dimensions, strides),
                raw,
            ) implies picture_encoded(engine, picture, raw) by {}
        }
        match encode_picture(&mut self.encoder, yuv, dimensions, strides) {
            Ok(stream) => {
                let kind = kind_of(&stream);
                if kind == EncodedKind::Skipped {
                    Ok((kind, Vec::new()))
                } else {
                    Ok((kind, bytes_of(&stream)))
                }
            },
            Err(error) => Err(complaint(&error)),
        }
    }

    /// Encode a captured picture, and divide it into datagrams.
    ///
    /// What OpenH264 replies to the picture and what the clock shows is not known beforehand;
    /// whatever it is, `captured` says what comes of it. Where a keyframe is granted, the
    /// encoder is told so before it is handed the picture.
    pub fn process(
        &mut self,
        frame: &CapturedFrame,
        resolution: VideoResolution,
        scaled: (usize, usize),
        captured_at: u64,
        peer_active: bool,
        datagram_size: usize,
        clock: &Clock,
    ) -> (outcome: EncodeOutcome)
        requires
            scaled_down(frame, scaled),
        ensures
            exists|reply: EncodedView, begun: u64, converted: u64, finished: u64, packed: u64|
                {
                    &&& clock.shows(begun)
                    &&& (final(self).state(), outcome@) == #[trigger] captured(
                        old(self).state(),
                        capture_complaint(frame, resolution),
                        reply,
                        captured_at,
                        peer_active,
                        datagram_size,
                        begun,
                        converted,
                        finished,
                        packed,
                    )
                    &&& if to_encode(
                        old(self).state(),
                        capture_complaint(frame, resolution),
                        captured_at,
                        peer_active,
                        begun,
                    ) {
                        &&& clock.shows(converted)
                        &&& clock.shows(finished)
                        &&& reply is Ok ==> clock.shows(packed)
                        &&& final(self).picture() == of_capture(frame, scaled)
                        &&& exists|
                            engine: &mut Encoder,
                            raw: Result<EncodedBitStream, openh264::Error>,
                        |
                            {
                                &&& #[trigger] picture_encoded(
                                    engine,
                                    of_capture(frame, scaled),
                                    raw,
                                )
                                &&& if keyframe_granted(old(self).state()).1 {
                                    exists|prompted: &mut Encoder|
                                        {
                                            &&& #[trigger] call_ensures(
                                                Encoder::force_intra_frame,
                                                (prompted,),
                                                (),
                                            )
                                            &&& *prompted == old(self).engine()
                                            &&& *final(prompted) == *engine
                                        }
                                } else {
                                    *engine == old(self).engine()
                                }
                                &&& *final(engine) == final(self).engine()
                                &&& reply_holds(raw, reply)
                            }
                    } else {
                        &&& final(self).picture() == old(self).picture()
                        &&& final(self).engine() == old(self).engine()
                    }
                },
    {
        let ghost first = self.state();
        let ghost complaint = capture_complaint(frame, resolution);
        let begun: u64 = clock.now();
        if !self.state.judge_capture(captured_at, peer_active, begun) {
            assert((self.state, EncodeOutcomeView::Nothing) == captured(
                first,
                complaint,
                Err(Seq::empty()),
                captured_at,
                peer_active,
                datagram_size,
                begun,
                begun,
                begun,
                begun,
            ));
            return EncodeOutcome::Nothing;
        }
        if let Err(error) = frame.update_i420(&mut self.picture, resolution, scaled) {
            assert((self.state, EncodeOutcomeView::NotConverted(error)) == captured(
                first,
                complaint,
                Err(Seq::empty()),
                captured_at,
                peer_active,
                datagram_size,
                begun,
                begun,
                begun,
                begun,
            ));
            return EncodeOutcome::NotConverted(error);
        }
        let converted: u64 = clock.now();
        let encoded = self.encode();
        let ghost reply = encoded_view(encoded);
        let finished: u64 = clock.now();
        let (kind, data) = match encoded {
            Ok(encoded) => encoded,
            Err(text) => {
                assert((self.state, EncodeOutcomeView::NotEncoded(text@)) == captured(
                    first,
                    complaint,
                    reply,
                    captured_at,
                    peer_active,
                    datagram_size,
                    begun,
                    converted,
                    finished,
                    finished,
                ));
                return EncodeOutcome::NotEncoded(text);
            },
        };
        let judgement = self.state.judge_picture(
            kind,
            data.as_slice(),
            captured_at,
            datagram_size,
            finished,
        );
        let packed: u64 = clock.now();
        let outcome = match judgement {
            Ok(Some(datagrams)) => EncodeOutcome::Send(
                datagrams,
                FrameTimes {
                    capture_us: count_micros(begun, converted),
                    encode_us: count_micros(converted, finished),
                    encode_queue_us: count_micros(finished, packed),
                },
            ),
            Ok(None) => EncodeOutcome::Nothing,
            Err(error) => EncodeOutcome::NotSendable(error),
        };
        assert((self.state, outcome@) == captured(
            first,
            complaint,
            reply,
            captured_at,
            peer_active,
            datagram_size,
            begun,
            converted,
            finished,
            packed,
        ));
        outcome
    }
}

/// A picture that waited too long is not sent, and makes the next one a keyframe.
pub proof fn late_pictures_are_dropped(
    s: EncoderState,
    kind: EncodedKind,
    data: Seq<u8>,
    captured_at: u64,
    peer_active: bool,
    datagram_size: usize,
    now: u64,
)
    requires
        too_late(captured_at, now),
    ensures
        !capture_judged(s, captured_at, peer_active, now).1,
        capture_judged(s, captured_at, peer_active, now).0.keyframe_wanted,
        picture_judged(s, kind, data, captured_at, datagram_size, now).1 == Ok::<
            Option<Seq<Seq<u8>>>,
            VideoFragmentationError,
        >(None),
        picture_judged(s, kind, data, captured_at, datagram_size, now).0.keyframe_wanted,
{
}

/// A wish for a keyframe is kept until the encoder is told of it, or has made its first
/// picture, which is one.
pub proof fn keyframe_wishes_are_kept(
    s: EncoderState,
    kind: EncodedKind,
    data: Seq<u8>,
    captured_at: u64,
    peer_active: bool,
    datagram_size: usize,
    now: u64,
)
    requires
        s.keyframe_wanted,
    ensures
        capture_judged(s, captured_at, peer_active, now).0.keyframe_wanted,
        keyframe_granted(s).0.keyframe_wanted || keyframe_granted(s).1,
        s.encoded_any ==> picture_judged(
            s,
            kind,
            data,
            captured_at,
            datagram_size,
            now,
        ).0.keyframe_wanted,
{
}

/// The encoder is told to make a keyframe only where one is wanted, and one is wanted only
/// from the start, where somebody asked for it, and after a picture that came too late.
pub proof fn keyframes_are_made_only_when_wanted(
    s: EncoderState,
    kind: EncodedKind,
    data: Seq<u8>,
    captured_at: u64,
    peer_active: bool,
    datagram_size: usize,
    now: u64,
)
    requires
        !s.keyframe_wanted,
        !too_late(captured_at, now),
    ensures
        !keyframe_granted(s).1,
        !keyframe_granted(s).0.keyframe_wanted,
        !capture_judged(s, captured_at, peer_active, now).0.keyframe_wanted,
        !picture_judged(s, kind, data, captured_at, datagram_size, now).0.keyframe_wanted,
{
}

/// Each picture that is sent has the number after that of the one before it.
pub proof fn pictures_are_numbered_in_order(
    s: EncoderState,
    kind: EncodedKind,
    data: Seq<u8>,
    captured_at: u64,
    datagram_size: usize,
    now: u64,
)
    ensures
        ({
            let (after, judgement) = picture_judged(
                s,
                kind,
                data,
                captured_at,
                datagram_size,
                now,
            );
            after.next_frame == if judgement matches Ok(Some(_)) {
                s.next_frame.wrapping_add(1)
            } else {
                s.next_frame
            }
        }),
{
}

} // verus!
