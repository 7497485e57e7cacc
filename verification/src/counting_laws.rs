//! How things start out, how they are handed out one after the other, and what is counted of
//! them.

use crate::audio::{AudioFramer, AudioOrder};
use crate::capture::{
    AccessLossBackoff, CaptureMetrics, CaptureWatchdog, CursorTracker, FramePacer,
};
use crate::client::{Client, ClientAction};
use crate::clock;
use crate::decode_queue::{DecodeQueue, ReceivedVideoFrame};
use crate::decoder::{DecoderMetrics, DecoderState, HardwareDecoding};
use crate::encoder::{
    CapturedFrame, Effort, EncodedKind, EncoderSettings, EncoderState, FrameTimes, RateControl,
    Usage,
};
use crate::host::{Host, HostAction};
use crate::i420;
use crate::i420::{BgraFrame, I420Frame, PictureError};
use crate::id_map;
use crate::id_map::{IdMap, Timed};
use crate::listen::Listener;
use crate::pacer::DatagramPacer;
use crate::peer::PeerAddr;
use crate::record::EncodeAttempts;
use crate::resolution::VideoResolution;
use crate::sender::{EncodedFrame, FrameSender, SenderReport, SenderStats};
use crate::video::{VideoFragmentationError, VideoFrameView};
use vstd::prelude::*;

verus! {

/// The client hands out what is to be done in order, once.
pub proof fn clients_hand_out_their_actions_once(actions: Vec<ClientAction>)
    ensures
        forall|client: &mut Client| #[trigger]
            call_ensures(Client::take_actions, (client,), actions) ==> {
                &&& actions@.len() == (*client)@.actions.len()
                &&& forall|i: int|
                    0 <= i < actions@.len() ==> (#[trigger] actions@[i])@ == (*client)@.actions[i]
                &&& (*final(client))@.actions.len() == 0
                &&& (*final(client))@.queue == (*client)@.queue
            },
{
    assert forall|client: &mut Client| #[trigger]
        call_ensures(Client::take_actions, (client,), actions) implies {
        &&& actions@.len() == (*client)@.actions.len()
        &&& forall|i: int|
            0 <= i < actions@.len() ==> (#[trigger] actions@[i])@ == (*client)@.actions[i]
    } by {
        assert(crate::client::action_views(actions@).len() == actions@.len());
        assert forall|i: int| 0 <= i < actions@.len() implies (#[trigger] actions@[i])@
            == (*client)@.actions[i] by {
            assert(crate::client::action_views(actions@)[i] == actions@[i]@);
        }
    }
}

/// The host hands out what is to be done in order, once.
pub proof fn hosts_hand_out_their_actions_once(actions: Vec<HostAction>)
    ensures
        forall|host: &mut Host| #[trigger]
            call_ensures(Host::take_actions, (host,), actions) ==> {
                &&& actions@.len() == (*host)@.actions.len()
                &&& forall|i: int|
                    0 <= i < actions@.len() ==> (#[trigger] actions@[i])@ == (*host)@.actions[i]
                &&& (*final(host))@.actions.len() == 0
                &&& (*final(host))@.active_peer == (*host)@.active_peer
            },
{
    assert forall|host: &mut Host| #[trigger]
        call_ensures(Host::take_actions, (host,), actions) implies {
        &&& actions@.len() == (*host)@.actions.len()
        &&& forall|i: int|
            0 <= i < actions@.len() ==> (#[trigger] actions@[i])@ == (*host)@.actions[i]
    } by {
        assert(crate::host::action_views(actions@).len() == actions@.len());
        assert forall|i: int| 0 <= i < actions@.len() implies (#[trigger] actions@[i])@
            == (*host)@.actions[i] by {
            assert(crate::host::action_views(actions@)[i] == actions@[i]@);
        }
    }
}

/// The host says who its viewer is and how large the viewer's datagrams are.
pub proof fn hosts_say_who_watches(host: &Host, peer: Option<PeerAddr>, size: usize)
    requires
        call_ensures(Host::active_peer, (host,), peer),
        call_ensures(Host::active_datagram_size, (host,), size),
    ensures
        peer == host@.active_peer,
        size == host@.active_datagram_size,
{
}

/// A queue hands out the frame that has waited for longest.
pub proof fn queued_frames_come_out_in_order(frame: Option<ReceivedVideoFrame>)
    ensures
        forall|queue: &mut DecodeQueue| #[trigger]
            call_ensures(DecodeQueue::pop, (queue,), frame) ==> {
                &&& frame is Some == ((*queue)@.frames.len() > 0)
                &&& frame is Some ==> (*queue)@.frames == seq![frame->0@] + (*final(queue))@.frames
                &&& frame is None ==> (*final(queue))@.frames == (*queue)@.frames
                &&& (*final(queue))@.waiting_for_keyframe == (*queue)@.waiting_for_keyframe
                &&& (*final(queue))@.generation == (*queue)@.generation
            },
        forall|client: &mut Client| #[trigger]
            call_ensures(Client::pop_frame, (client,), frame) ==> {
                let before = (*client)@.queue;
                let after = (*final(client))@.queue;
                &&& frame is Some == (before.frames.len() > 0)
                &&& frame is Some ==> before.frames == seq![frame->0@] + after.frames
                &&& frame is None ==> after == before
                &&& after.waiting_for_keyframe == before.waiting_for_keyframe
                &&& after.generation == before.generation
            },
{
}

/// A new queue is empty and takes any frame.
pub proof fn queues_start_empty(
    new: DecodeQueue,
    queue: &DecodeQueue,
    empty: bool,
    generation: u64,
    client: &Client,
    current: u64,
)
    requires
        call_ensures(DecodeQueue::new, (), new),
        call_ensures(DecodeQueue::is_empty, (queue,), empty),
        call_ensures(DecodeQueue::generation, (queue,), generation),
        call_ensures(Client::decoder_generation, (client,), current),
    ensures
        new@.frames.len() == 0,
        !new@.waiting_for_keyframe,
        new@.generation == 0,
        empty <==> queue@.frames.len() == 0,
        generation == queue@.generation,
        current == client@.queue.generation,
{
}

/// Where a keyframe is waited for, what is queued is thrown away, and what the decoder made of
/// it is not shown any more.
pub proof fn waiting_for_a_keyframe_empties_the_queue()
    ensures
        forall|queue: &mut DecodeQueue| #[trigger]
            call_ensures(DecodeQueue::require_keyframe, (queue,), ()) ==> {
                &&& (*final(queue))@.frames.len() == 0
                &&& (*final(queue))@.waiting_for_keyframe
                &&& (*final(queue))@.generation == (*queue)@.generation.wrapping_add(1)
            },
{
}

/// A new decoder has counted nothing and needs no keyframe.
pub proof fn decoders_start_anew(generation: u64, state: DecoderState, decoding: HardwareDecoding)
    requires
        call_ensures(DecoderState::new, (generation,), state),
        call_ensures(HardwareDecoding::new, (), decoding),
    ensures
        state == (DecoderState {
            metrics: DecoderMetrics {
                decoded_frames: 0,
                dropped_frames: 0,
                decode_us: 0,
                decode_samples: 0,
                decode_queue_us: 0,
                decode_queue_samples: 0,
            },
            keyframe_needed: false,
            generation,
        }),
        decoding@ is None,
{
}

/// The machine's decoder is used with the parameter sets that it was started with, until it
/// fails.
pub proof fn parameter_sets_are_remembered(sps: Vec<u8>, pps: Vec<u8>)
    ensures
        forall|decoding: &mut HardwareDecoding| #[trigger]
            call_ensures(HardwareDecoding::started, (decoding, sps, pps), ()) ==> (*final(
                decoding))@ == Some((sps@, pps@)),
        forall|decoding: &mut HardwareDecoding| #[trigger]
            call_ensures(HardwareDecoding::rejected, (decoding,), ()) ==> (*final(decoding))@
                is None,
{
}

/// A picture may be decoded for 25 milliseconds, and the time that it waited is counted.
pub proof fn waiting_is_counted(received_at: u64, now: u64, go: bool)
    requires
        received_at <= now,
    ensures
        forall|state: &mut DecoderState| #[trigger]
            call_ensures(DecoderState::judge_arrival, (state, received_at, now), go) ==> {
                let before = state.metrics;
                let after = final(state).metrics;
                let waited = now - received_at;
                &&& go == (waited <= 25_000_000)
                &&& go ==> after == (DecoderMetrics {
                    decode_queue_us: before.decode_queue_us.wrapping_add((waited / 1000) as u64),
                    decode_queue_samples: before.decode_queue_samples.wrapping_add(1),
                    ..before
                }) && final(state).keyframe_needed == state.keyframe_needed
                &&& !go ==> after == (DecoderMetrics {
                    dropped_frames: before.dropped_frames.wrapping_add(1),
                    ..before
                }) && final(state).keyframe_needed
                &&& final(state).generation == state.generation
            },
        forall|state: &mut DecoderState| #[trigger]
            call_ensures(DecoderState::count_shown, (state, received_at, now), ()) ==> {
                let before = state.metrics;
                &&& final(state).metrics == (DecoderMetrics {
                    decoded_frames: before.decoded_frames.wrapping_add(1),
                    decode_us: before.decode_us.wrapping_add(((now - received_at) / 1000) as u64),
                    decode_samples: before.decode_samples.wrapping_add(1),
                    ..before
                })
                &&& final(state).keyframe_needed == state.keyframe_needed
                &&& final(state).generation == state.generation
            },
        forall|state: &mut DecoderState| #[trigger]
            call_ensures(DecoderState::count_dropped, (state,), ()) ==> {
                &&& final(state).metrics == (DecoderMetrics {
                    dropped_frames: state.metrics.dropped_frames.wrapping_add(1),
                    ..state.metrics
                })
                &&& final(state).keyframe_needed
                &&& final(state).generation == state.generation
            },
{
}

/// Nothing has been counted.
pub open spec fn nothing_counted(stats: SenderStats) -> bool {
    &&& stats.frames == 0
    &&& stats.bytes == 0
    &&& stats.capture_us == 0
    &&& stats.gpu_wait_us == 0
    &&& stats.gpu_lock_us == 0
    &&& stats.encode_us == 0
    &&& stats.send_us == 0
    &&& stats.encode_queue_us == 0
    &&& stats.stale_frames == 0
}

/// A sender starts with a keyframe, and a new encoder has to make one.
pub proof fn senders_start_with_a_keyframe(now: u64, sender: FrameSender, state: EncoderState)
    requires
        call_ensures(FrameSender::new, (now,), sender),
        call_ensures(EncoderState::new, (now,), state),
    ensures
        sender.last_sent_frame is None,
        sender.waiting_for_keyframe,
        !sender.keyframe_needed,
        nothing_counted(sender.stats),
        sender.stats_started == now,
        state.keyframe_wanted,
        nothing_counted(state.stats),
        state.stats_started == now,
{
}

/// What was counted is reported after a second, with the time that passed, and counted anew.
pub proof fn reports_come_every_second(now: u64, report: Option<SenderReport>)
    ensures
        forall|sender: &mut FrameSender| #[trigger]
            call_ensures(FrameSender::report, (sender, now), report) && sender.stats_started
                <= now ==> {
                let elapsed = now - sender.stats_started;
                &&& report is Some == (elapsed >= 1_000_000_000)
                &&& report is Some ==> {
                    &&& report->0.elapsed == elapsed
                    &&& report->0.stats == sender.stats
                    &&& nothing_counted(final(sender).stats)
                    &&& final(sender).stats_started == now
                }
                &&& report is None ==> final(sender).stats == sender.stats && final(
                    sender).stats_started == sender.stats_started
                &&& final(sender).last_sent_frame == sender.last_sent_frame
                &&& final(sender).waiting_for_keyframe == sender.waiting_for_keyframe
                &&& final(sender).keyframe_needed == sender.keyframe_needed
            },
        forall|state: &mut EncoderState| #[trigger]
            call_ensures(EncoderState::report, (state, now), report) && state.stats_started
                <= now ==> {
                let elapsed = now - state.stats_started;
                &&& report is Some == (elapsed >= 1_000_000_000)
                &&& report is Some ==> {
                    &&& report->0.elapsed == elapsed
                    &&& report->0.stats == state.stats
                    &&& nothing_counted(final(state).stats)
                    &&& final(state).stats_started == now
                }
                &&& report is None ==> *final(state) == *state
                &&& final(state).keyframe_wanted == state.keyframe_wanted
            },
{
}

/// A wish for a keyframe is handed on once, and a keyframe that is asked for is made.
pub proof fn wishes_are_handed_on(needed: bool)
    ensures
        forall|sender: &mut FrameSender| #[trigger]
            call_ensures(FrameSender::take_keyframe_demand, (sender,), needed) ==> {
                &&& needed == sender.keyframe_needed
                &&& !final(sender).keyframe_needed
                &&& final(sender).last_sent_frame == sender.last_sent_frame
                &&& final(sender).waiting_for_keyframe == sender.waiting_for_keyframe
                &&& final(sender).stats == sender.stats
                &&& final(sender).stats_started == sender.stats_started
            },
        forall|state: &mut EncoderState| #[trigger]
            call_ensures(EncoderState::demand_keyframe, (state,), ()) ==> final(
                state).keyframe_wanted && final(state).stats == state.stats,
{
}

/// A sum that stays at the largest number where there is no larger one.
pub open spec fn added(a: u64, b: u64) -> int {
    if a + b <= 0xffff_ffff_ffff_ffff {
        a + b
    } else {
        0xffff_ffff_ffff_ffff
    }
}

/// What is sent is counted, byte by byte and picture by picture.
pub proof fn everything_sent_is_counted(bytes: usize, times: FrameTimes, send_us: u64)
    ensures
        forall|state: &mut EncoderState| #[trigger]
            call_ensures(EncoderState::count_datagram, (state, bytes), ()) ==> {
                &&& final(state).stats.bytes == added(state.stats.bytes, bytes as u64)
                &&& final(state).stats == (SenderStats {
                    bytes: final(state).stats.bytes,
                    ..state.stats
                })
            },
        forall|sender: &mut FrameSender| #[trigger]
            call_ensures(FrameSender::count_datagram, (sender, bytes), ()) ==> {
                &&& final(sender).stats.bytes == added(sender.stats.bytes, bytes as u64)
                &&& *final(sender) == (FrameSender {
                    stats: SenderStats { bytes: final(sender).stats.bytes, ..sender.stats },
                    ..*sender
                })
            },
        forall|state: &mut EncoderState| #[trigger]
            call_ensures(EncoderState::count_frame, (state, times, send_us), ()) ==> {
                let before = state.stats;
                let after = final(state).stats;
                &&& after.frames == added(before.frames, 1)
                &&& after.capture_us == added(before.capture_us, times.capture_us)
                &&& after.encode_us == added(before.encode_us, times.encode_us)
                &&& after.send_us == added(before.send_us, send_us)
                &&& after.encode_queue_us == added(before.encode_queue_us, times.encode_queue_us)
                &&& after.bytes == before.bytes
                &&& after.stale_frames == before.stale_frames
                &&& after.gpu_wait_us == before.gpu_wait_us
                &&& after.gpu_lock_us == before.gpu_lock_us
            },
{
}

/// After a picture that was sent the next one may follow. After one that was not, a keyframe has
/// to come.
pub proof fn pictures_are_concluded(frame: &EncodedFrame, send_us: u64, encode_queue_us: u64)
    ensures
        forall|sender: &mut FrameSender| #[trigger]
            call_ensures(
                FrameSender::conclude,
                (sender, frame, true, send_us, encode_queue_us),
                (),
            ) ==> {
                let before = sender.stats;
                let after = final(sender).stats;
                &&& final(sender).last_sent_frame == Some(frame.frame_id)
                &&& final(sender).waiting_for_keyframe == sender.waiting_for_keyframe
                &&& final(sender).keyframe_needed == sender.keyframe_needed
                &&& after.frames == added(before.frames, 1)
                &&& after.capture_us == added(before.capture_us, frame.capture_us)
                &&& after.gpu_wait_us == added(before.gpu_wait_us, frame.gpu_wait_us)
                &&& after.gpu_lock_us == added(before.gpu_lock_us, frame.gpu_lock_us)
                &&& after.encode_us == added(before.encode_us, frame.encode_us)
                &&& after.send_us == added(before.send_us, send_us)
                &&& after.encode_queue_us == added(before.encode_queue_us, encode_queue_us)
                &&& after.bytes == before.bytes
                &&& after.stale_frames == before.stale_frames
            },
        forall|sender: &mut FrameSender| #[trigger]
            call_ensures(
                FrameSender::conclude,
                (sender, frame, false, send_us, encode_queue_us),
                (),
            ) ==> {
                &&& final(sender).last_sent_frame is None
                &&& final(sender).waiting_for_keyframe
                &&& final(sender).keyframe_needed
                &&& final(sender).stats == sender.stats
            },
{
}

/// A picture goes out as the datagrams that its fragments make up.
pub proof fn datagrams_are_handed_out(
    frame_id: u64,
    timestamp_us: u64,
    is_keyframe: bool,
    payload: &[u8],
    datagram_size: usize,
    outcome: Result<Vec<Vec<u8>>, VideoFragmentationError>,
)
    requires
        call_ensures(
            crate::sender::packetize,
            (frame_id, timestamp_us, is_keyframe, payload, datagram_size),
            outcome,
        ),
    ensures
        ({
            let frame = VideoFrameView { frame_id, timestamp_us, is_keyframe, payload: payload@ };
            match crate::sender::packetized(frame, datagram_size) {
                Ok(datagrams) => {
                    &&& outcome matches Ok(sent)
                    &&& sent@.len() == datagrams.len()
                    &&& forall|i: int|
                        0 <= i < datagrams.len() ==> (#[trigger] sent@[i])@ == datagrams[i]
                },
                Err(error) => outcome matches Err(failure) && failure == error,
            }
        }),
{
    if let Ok(sent) = outcome {
        assert forall|i: int| 0 <= i < sent@.len() implies (#[trigger] sent@[i])@
            == crate::sender::datagram_views(sent@)[i] by {}
    }
}

/// Pictures that need no other are those that the encoder made on their own.
pub proof fn keyframes_are_made_on_their_own(kind: EncodedKind, keyframe: bool)
    requires
        call_ensures(EncodedKind::is_keyframe, (kind,), keyframe),
    ensures
        kind is Idr || kind is Intra ==> keyframe,
        kind is Predicted || kind is Skipped || kind is Invalid || kind is Mixed ==> !keyframe,
{
}

/// The encoder is set up for screens: at the rates that are asked for, with little effort, and
/// without keyframes that nobody asked for.
pub proof fn encoders_are_set_up_for_screens(
    frames_per_second: u32,
    bits_per_second: u32,
    settings: EncoderSettings,
)
    requires
        call_ensures(
            crate::encoder::screen_settings,
            (frames_per_second, bits_per_second),
            settings,
        ),
    ensures
        settings.bits_per_second == bits_per_second,
        settings.frames_per_second == frames_per_second,
        settings.rate_control == RateControl::Bitrate,
        settings.usage == Usage::ScreenRealTime,
        settings.effort == Effort::Low,
        !settings.adaptive_quantization,
        !settings.background_detection,
        settings.skip_frames,
        settings.intra_period == 0xffff_ffff,
{
}

/// A picture that makes no sense leaves the encoder's picture as it is.
pub proof fn senseless_captures_change_nothing(
    frame: &CapturedFrame,
    resolution: VideoResolution,
    scaled: (usize, usize),
    error: PictureError,
)
    ensures
        forall|destination: &mut I420Frame| #[trigger]
            call_ensures(
                CapturedFrame::update_i420,
                (frame, destination, resolution, scaled),
                Err::<(), _>(error),
            ) ==> {
                &&& (*final(destination))@ == (*destination)@
                &&& match frame {
                    CapturedFrame::Nv12(picture) => i420::nv12_complaint(picture) == Some(error),
                    CapturedFrame::Bgra(picture) => crate::encoder::capture_complaint(
                        frame,
                        resolution,
                    ) == Some(error),
                }
            },
{
}

/// A captured picture becomes the picture for the encoder: as it is where it is brightness and
/// colour already, and scaled where it is not.
pub proof fn captures_become_pictures(
    frame: &CapturedFrame,
    resolution: VideoResolution,
    scaled: (usize, usize),
)
    ensures
        forall|destination: &mut I420Frame| #[trigger]
            call_ensures(
                CapturedFrame::update_i420,
                (frame, destination, resolution, scaled),
                Ok::<(), PictureError>(()),
            ) ==> match frame {
                CapturedFrame::Nv12(picture) => {
                    &&& i420::nv12_complaint(picture) is None
                    &&& (*final(destination))@ == i420::of_nv12(picture)
                },
                CapturedFrame::Bgra(picture) => (*final(destination))@ == i420::of_bgra(
                    picture,
                    i420::encodable(scaled.0 as int),
                    i420::encodable(scaled.1 as int),
                ),
            },
{
}

/// A picture of four bytes a pixel is accepted if it has pixels, holds all of them, and may be
/// two pixels wide and high at least.
pub proof fn senseless_pixels_are_refused(
    frame: &BgraFrame,
    max_width: u32,
    max_height: u32,
)
    ensures
        i420::bgra_complaint(frame, max_width, max_height) is None == (frame.width > 0
            && frame.height > 0 && frame.width * frame.height * 4 <= frame.data@.len()
            && frame.width * frame.height * 4 <= usize::MAX && max_width >= 2 && max_height >= 2),
        frame.width < 0 ==> i420::bgra_complaint(frame, max_width, max_height) == Some(
            PictureError::NegativeWidth,
        ),
        frame.width >= 0 && frame.height < 0 ==> i420::bgra_complaint(frame, max_width, max_height)
            == Some(PictureError::NegativeHeight),
        frame.width >= 0 && frame.height >= 0 && (frame.width == 0 || frame.height == 0)
            ==> i420::bgra_complaint(frame, max_width, max_height) == Some(
            PictureError::NoPixels {
                width: frame.width as usize,
                height: frame.height as usize,
            },
        ),
        frame.width > 0 && frame.height > 0 && frame.width * frame.height * 4 > usize::MAX
            ==> i420::bgra_complaint(frame, max_width, max_height) == Some(PictureError::TooLarge),
        frame.width > 0 && frame.height > 0 && frame.width * frame.height * 4 <= usize::MAX
            && frame.data@.len() >= frame.width * frame.height * 4 && (max_width < 2 || max_height
            < 2) ==> i420::bgra_complaint(frame, max_width, max_height) == Some(
            PictureError::MaximumTooSmall,
        ),
        frame.width > 0 && frame.height > 0 && frame.width * frame.height * 4 <= usize::MAX
            && frame.data@.len() < frame.width * frame.height * 4 ==> i420::bgra_complaint(
            frame,
            max_width,
            max_height,
        ) == Some(PictureError::BufferTooSmall),
{
}

/// Pictures are measured against the limits of the resolution, or against their own size.
pub proof fn captures_have_limits(frame: BgraFrame, resolution: VideoResolution)
    requires
        frame.width >= 0,
        frame.height >= 0,
    ensures
        crate::encoder::capture_limits(&frame, resolution) == match resolution {
            VideoResolution::Native => (frame.width as u32, frame.height as u32),
            VideoResolution::P720 => (1280u32, 720u32),
            VideoResolution::P1080 => (1920u32, 1080u32),
        },
{
}

/// A picture says how large it is, how long its rows are, and what is in its planes.
pub proof fn pictures_are_read_out(
    picture: &I420Frame,
    dimensions: (usize, usize),
    strides: (usize, usize, usize),
    y: &[u8],
    u: &[u8],
    v: &[u8],
)
    requires
        call_ensures(I420Frame::dimensions, (picture,), dimensions),
        call_ensures(I420Frame::strides, (picture,), strides),
        call_ensures(I420Frame::y, (picture,), y),
        call_ensures(I420Frame::u, (picture,), u),
        call_ensures(I420Frame::v, (picture,), v),
    ensures
        dimensions.0 == picture@.width,
        dimensions.1 == picture@.height,
        strides.0 == dimensions.0,
        strides.1 == dimensions.0 as int / 2,
        strides.2 == dimensions.0 as int / 2,
        y@ == picture@.y,
        u@ == picture@.u,
        v@ == picture@.v,
{
}

/// Captures are counted: pictures, with those that were missed in between, and movements of the
/// cursor alone.
pub proof fn captures_are_counted(desktop_updated: bool, accumulated: u32, updated: bool)
    ensures
        forall|metrics: &mut CaptureMetrics| #[trigger]
            call_ensures(
                CaptureMetrics::count_acquired,
                (metrics, desktop_updated, accumulated),
                updated,
            ) ==> {
                let missed = if accumulated > 1 {
                    accumulated - 1
                } else {
                    0
                };
                let before = *metrics;
                let after = *final(metrics);
                &&& updated == desktop_updated
                &&& updated ==> {
                    &&& after.source_frames == before.source_frames.wrapping_add(1)
                    &&& after.backlog == before.backlog.wrapping_add(missed as u64)
                    &&& after.backlog_max >= missed
                    &&& after.backlog_max >= before.backlog_max
                    &&& after.backlog_max == missed || after.backlog_max == before.backlog_max
                    &&& after.cursor_only_frames == before.cursor_only_frames
                }
                &&& !updated ==> {
                    &&& after.cursor_only_frames == before.cursor_only_frames.wrapping_add(1)
                    &&& after.source_frames == before.source_frames
                    &&& after.backlog == before.backlog
                    &&& after.backlog_max == before.backlog_max
                }
                &&& after.timeouts == before.timeouts
                &&& after.pacing_skips == before.pacing_skips
                &&& after.slot_busy_skips == before.slot_busy_skips
            },
{
}

/// A capture starts without a viewer, a loss or a cursor, and its first picture is due at once.
pub proof fn captures_start_anew(
    progress: u64,
    interval: u64,
    now: u64,
    watchdog: CaptureWatchdog,
    backoff: AccessLossBackoff,
    pacer: FramePacer,
    tracker: CursorTracker,
    metrics: CaptureMetrics,
)
    requires
        call_ensures(CaptureWatchdog::new, (progress, now), watchdog),
        call_ensures(AccessLossBackoff::new, (), backoff),
        call_ensures(FramePacer::new, (interval, now), pacer),
        call_ensures(CursorTracker::new, (), tracker),
        call_ensures(CaptureMetrics::new, (), metrics),
    ensures
        watchdog.viewer_since is None,
        !watchdog.captured_for_viewer,
        watchdog.window_started == now,
        watchdog.window_frames == 0,
        !watchdog.moving,
        watchdog.last_frame is None,
        watchdog.observed_progress == progress,
        watchdog.last_progress is None,
        backoff.losses == 0,
        pacer.interval == interval,
        pacer.next_frame_at == now,
        tracker.position is None,
        tracker.peer is None,
        tracker.sent_at is None,
        metrics.source_frames == 0,
        metrics.timeouts == 0,
        metrics.backlog == 0,
        metrics.backlog_max == 0,
        metrics.pacing_skips == 0,
        metrics.slot_busy_skips == 0,
        metrics.cursor_only_frames == 0,
{
}

/// While nothing is captured the next picture is due at once, and where the cursor was sent the
/// time is kept.
pub proof fn idle_captures_are_due(now: u64)
    ensures
        forall|pacer: &mut FramePacer| #[trigger]
            call_ensures(FramePacer::idle, (pacer, now), ()) ==> final(pacer).next_frame_at == now
                && final(pacer).interval == pacer.interval,
        forall|tracker: &mut CursorTracker| #[trigger]
            call_ensures(CursorTracker::sent, (tracker, now), ()) ==> {
                &&& final(tracker).sent_at == Some(now)
                &&& final(tracker).peer == tracker.peer
                &&& final(tracker).position == tracker.position
            },
{
}

/// Time that was not used for sending is not made up for.
pub proof fn unused_time_is_lost(now: u64)
    ensures
        forall|pacer: &mut DatagramPacer| #[trigger]
            call_ensures(DatagramPacer::begin_frame, (pacer, now), ()) ==> {
                &&& final(pacer).bits_per_second == pacer.bits_per_second
                &&& final(pacer).next_batch_at >= now
                &&& final(pacer).next_batch_at >= pacer.next_batch_at
                &&& final(pacer).next_batch_at == now || final(pacer).next_batch_at
                    == pacer.next_batch_at
            },
{
}

/// Sound starts with its first frame at time zero, and any frame may come first.
pub proof fn sound_starts_anew<T: Copy>(
    framer: AudioFramer<T>,
    order: AudioOrder,
    listener: Listener,
    now: u64,
)
    requires
        call_ensures(AudioFramer::<T>::new, (), framer),
        call_ensures(AudioOrder::new, (), order),
        call_ensures(Listener::new, (now,), listener),
    ensures
        framer@.pending.len() == 0,
        framer@.sequence == 0,
        framer@.timestamp_us == 0,
        order.expected is None,
        !listener.configured,
        listener.last_seen == now,
        listener.last_sent is None,
        listener.next_ping == 0,
{
}

/// Each frame of a recording gets its attempts anew, and into the room that the last one needed.
pub proof fn attempts_are_counted_anew(attempts: EncodeAttempts)
    ensures
        forall|held: &mut EncodeAttempts| #[trigger]
            call_ensures(EncodeAttempts::begin_frame, (held,), ()) ==> final(held).retries == 0
                && final(held).output_bytes == held.output_bytes,
        call_ensures(EncodeAttempts::new, (), attempts) ==> attempts.retries == 0,
{
}

/// What is kept under an identifier is found under it, until it is taken out.
pub proof fn kept_values_are_found<V: View>(
    map: &IdMap<V>,
    id: u64,
    value: Option<&V>,
    found: bool,
    len: usize,
)
    requires
        call_ensures(IdMap::<V>::get, (map, id), value),
        call_ensures(IdMap::<V>::contains, (map, id), found),
        call_ensures(IdMap::<V>::len, (map,), len),
    ensures
        found == map@.dom().contains(id),
        value is Some == found,
        value is Some ==> value->0@ == map@[id],
        len == map@.len(),
{
}

/// The smallest and the largest identifier are found.
pub proof fn ends_are_found<V: View>(map: &IdMap<V>, first: Option<u64>, last: Option<u64>)
    requires
        call_ensures(IdMap::<V>::first_id, (map,), first),
        call_ensures(IdMap::<V>::last_id, (map,), last),
    ensures
        forall|id: u64| #[trigger]
            map@.contains_key(id) ==> first is Some && last is Some && first->0 <= id <= last->0,
        first matches Some(id) ==> map@.contains_key(id),
        last matches Some(id) ==> map@.contains_key(id),
{
}

/// What is put under an identifier replaces what was there, unless it is put there only where
/// nothing is; nothing else changes.
pub proof fn other_values_are_kept<V: View>(id: u64, other: u64, value: V, taken: Option<V>)
    requires
        other != id,
    ensures
        forall|map: &mut IdMap<V>| #[trigger]
            call_ensures(IdMap::<V>::insert, (map, id, value), ()) ==> {
                &&& (*final(map))@.contains_key(id) && (*final(map))@[id] == value@
                &&& (*final(map))@.contains_key(other) == (*map)@.contains_key(other)
                &&& (*map)@.contains_key(other) ==> (*final(map))@[other] == (*map)@[other]
            },
        forall|map: &mut IdMap<V>| #[trigger]
            call_ensures(IdMap::<V>::insert_if_absent, (map, id, value), ()) ==> {
                &&& (*final(map))@.contains_key(id)
                &&& (*final(map))@[id] == if (*map)@.contains_key(id) {
                    (*map)@[id]
                } else {
                    value@
                }
                &&& (*final(map))@.contains_key(other) == (*map)@.contains_key(other)
                &&& (*map)@.contains_key(other) ==> (*final(map))@[other] == (*map)@[other]
            },
        forall|map: &mut IdMap<V>| #[trigger]
            call_ensures(IdMap::<V>::remove, (map, id), taken) ==> {
                &&& !(*final(map))@.contains_key(id)
                &&& taken is Some == (*map)@.contains_key(id)
                &&& taken is Some ==> taken->0@ == (*map)@[id]
                &&& (*final(map))@.contains_key(other) == (*map)@.contains_key(other)
                &&& (*map)@.contains_key(other) ==> (*final(map))@[other] == (*map)@[other]
            },
        forall|map: &mut IdMap<V>| #[trigger]
            call_ensures(IdMap::<V>::clear, (map,), ()) ==> !(*final(map))@.contains_key(id),
{
}

/// What was touched first goes first; of values that were touched together, the one with the
/// smallest identifier.
pub proof fn the_oldest_is_found<V: Timed>(map: &IdMap<V>, oldest: Option<u64>, other: u64)
    requires
        call_ensures(IdMap::<V>::oldest_id, (map,), oldest),
        map@.contains_key(other),
    ensures
        oldest matches Some(id) && map@.contains_key(id) && V::stamp_of(map@[id]) <= V::stamp_of(
            map@[other],
        ) && (V::stamp_of(map@[id]) == V::stamp_of(map@[other]) ==> id <= other),
{
}

/// What was touched within the time allowed is kept, and nothing else.
pub proof fn recent_values_are_kept<V: Timed>(now: u64, max_age: u128, removed: usize, id: u64)
    ensures
        forall|map: &mut IdMap<V>| #[trigger]
            call_ensures(IdMap::<V>::retain_recent, (map, now, max_age), removed) ==> {
                &&& (*final(map))@.contains_key(id) == ((*map)@.contains_key(id) && now
                    - V::stamp_of((*map)@[id]) <= max_age)
                &&& (*final(map))@.contains_key(id) ==> (*final(map))@[id] == (*map)@[id]
                &&& removed == (*map)@.len() - (*final(map))@.len()
            },
{
}

/// The difference of two times is none where the second is the later one.
pub proof fn time_does_not_run_backwards(now: u64, stamp: u64, nanos: u64)
    requires
        call_ensures(clock::nanos_since, (now, stamp), nanos),
    ensures
        stamp <= now ==> nanos == now - stamp,
        now <= stamp ==> nanos == 0,
{
}

/// Times that are too long to be counted count as the longest.
pub proof fn long_times_are_cut(duration: std::time::Duration, nanos: u64)
    requires
        call_ensures(clock::nanos_of, (duration,), nanos),
    ensures
        clock::duration_nanos(duration) <= 0xffff_ffff_ffff_ffff ==> nanos
            == clock::duration_nanos(duration),
        clock::duration_nanos(duration) > 0xffff_ffff_ffff_ffff ==> nanos == 0xffff_ffff_ffff_ffff,
{
}

/// A map that holds too many values lets go of the one with the smallest identifier, and a map
/// that does not keeps all of them.
pub proof fn crowded_maps_let_go_of_the_smallest<V: View>(limit: usize, least: u64, id: u64)
    ensures
        forall|map: &mut IdMap<V>| #[trigger]
            call_ensures(IdMap::<V>::cap, (map, limit), ()) ==> {
                &&& (*map)@.len() <= limit ==> (*final(map))@ == (*map)@
                &&& (*map)@.len() > limit && is_least((*map)@, least) ==> {
                    &&& (*final(map))@.contains_key(id) == ((*map)@.contains_key(id) && id != least)
                    &&& (*final(map))@.contains_key(id) ==> (*final(map))@[id] == (*map)@[id]
                }
            },
{
    assert forall|map: &mut IdMap<V>| #[trigger]
        call_ensures(IdMap::<V>::cap, (map, limit), ()) && (*map)@.len() > limit && is_least(
            (*map)@,
            least,
        ) implies id_map::smallest((*map)@) == least by {
        assert((*map)@.contains_key(least));
    }
}

/// No identifier is smaller.
pub open spec fn is_least<W>(held: Map<u64, W>, least: u64) -> bool {
    held.contains_key(least) && forall|other: u64| #[trigger]
        held.contains_key(other) ==> least <= other
}

/// The largest identifier is found.
pub proof fn the_largest_is_found<V: View>(map: &IdMap<V>, largest: u64, other: u64)
    requires
        map@.contains_key(other),
        forall|id: u64| #[trigger] map@.contains_key(id) ==> id <= other,
        call_ensures(IdMap::<V>::largest_id, (map,), largest),
    ensures
        largest == other,
{
}

} // verus!
