//! Decoding what was received.
//!
//! OpenH264 decodes on every machine. Where the machine decodes by itself, the decoder
//! is told the parameter sets before the pictures that need them.

use crate::clock;
use crate::clock::{nanos_since, Clock};
use crate::decode_queue::{ReceivedVideoFrame, VIDEO_STALE_AGE};
use crate::encoder::complaint;
use crate::h264;
use crate::h264::{annex_b_nals, annex_b_to_avcc, h264_parameter_sets, H264Error};
use openh264::decoder::{DecodedYUV, Decoder};
use openh264::formats::YUVSource;
use vstd::prelude::*;

verus! {

#[verifier::external_type_specification]
#[verifier::external_body]
pub struct ExDecoder(Decoder);

#[verifier::external_type_specification]
#[verifier::external_body]
pub struct ExDecodedYUV<'a>(DecodedYUV<'a>);

/// `Decoder::new` makes a decoder that has seen nothing. Nothing is claimed of it, or of
/// when there is one.
pub assume_specification[ Decoder::new ]() -> (outcome: Result<Decoder, openh264::Error>);

/// `Decoder::decode` decodes a picture. What it returns depends on the pictures before
/// it, and nothing is claimed of that. It counts bytes in `i32`; hence the precondition.
#[verifier::external_body]
fn decode_picture<'a>(decoder: &'a mut Decoder, bytes: &[u8]) -> (outcome: Result<
    Option<DecodedYUV<'a>>,
    openh264::Error,
>)
    requires
        bytes@.len() <= i32::MAX,
{
    decoder.decode(bytes)
}

/// A picture to show: red, green, blue and opacity of each pixel.
#[derive(Debug, PartialEq, Eq)]
pub struct DisplayPicture {
    pub width: usize,
    pub height: usize,
    pub rgba: Vec<u8>,
}

/// `DecodedYUV::write_rgba8` fills a buffer that has four bytes for each pixel of
/// `YUVSource::dimensions`, and panics on any other buffer; `YUVSource::rgba8_len` says how
/// many bytes these are. The contract says that the result is of that size; nothing is
/// claimed of the colours.
#[verifier::external_body]
fn rgba_of(decoded: &DecodedYUV) -> (picture: DisplayPicture)
    ensures
        picture.rgba@.len() == picture.width * picture.height * 4,
{
    let (width, height) = decoded.dimensions();
    let mut rgba = vec![0; decoded.rgba8_len()];
    decoded.write_rgba8(&mut rgba);
    DisplayPicture { width, height, rgba }
}

/// What a decoder measured since the last report. The sums wrap around.
#[derive(Clone, Copy, Debug, PartialEq, Eq, Structural)]
pub struct DecoderMetrics {
    pub decoded_frames: u64,
    pub dropped_frames: u64,
    pub decode_us: u64,
    pub decode_samples: u64,
    pub decode_queue_us: u64,
    pub decode_queue_samples: u64,
}

/// What the decoder's side of a client knows.
#[derive(Clone, Copy, Debug, PartialEq, Eq, Structural)]
pub struct DecoderState {
    pub metrics: DecoderMetrics,
    /// The host has to send a keyframe.
    pub keyframe_needed: bool,
    /// The run of pictures that the decoder belongs to.
    pub generation: u64,
}

pub open spec fn no_decoder_metrics() -> DecoderMetrics {
    DecoderMetrics {
        decoded_frames: 0,
        dropped_frames: 0,
        decode_us: 0,
        decode_samples: 0,
        decode_queue_us: 0,
        decode_queue_samples: 0,
    }
}

pub open spec fn new_decoder_state(generation: u64) -> DecoderState {
    DecoderState { metrics: no_decoder_metrics(), keyframe_needed: false, generation }
}

/// A picture is lost, and with it all that follow until a keyframe.
pub open spec fn frame_dropped(s: DecoderState) -> DecoderState {
    DecoderState {
        metrics: DecoderMetrics {
            dropped_frames: s.metrics.dropped_frames.wrapping_add(1),
            ..s.metrics
        },
        keyframe_needed: true,
        ..s
    }
}

/// Whole microseconds.
pub open spec fn micros(nanos: int) -> u64 {
    (nanos / 1000) as u64
}

/// Whether to decode a picture that was complete at `received_at`, and what the
/// decoder's side knows then.
pub open spec fn arrival_judged(s: DecoderState, received_at: u64, now: u64) -> (
    DecoderState,
    bool,
) {
    let waited = clock::age(now, received_at);
    if waited > VIDEO_STALE_AGE {
        (frame_dropped(s), false)
    } else {
        (
            DecoderState {
                metrics: DecoderMetrics {
                    decode_queue_us: s.metrics.decode_queue_us.wrapping_add(micros(waited)),
                    decode_queue_samples: s.metrics.decode_queue_samples.wrapping_add(1),
                    ..s.metrics
                },
                ..s
            },
            true,
        )
    }
}

/// A picture was shown, `nanos` after the decoder got it.
pub open spec fn frame_shown(s: DecoderState, nanos: int) -> DecoderState {
    DecoderState {
        metrics: DecoderMetrics {
            decoded_frames: s.metrics.decoded_frames.wrapping_add(1),
            decode_us: s.metrics.decode_us.wrapping_add(micros(nanos)),
            decode_samples: s.metrics.decode_samples.wrapping_add(1),
            ..s.metrics
        },
        ..s
    }
}

impl DecoderState {
    pub fn new(generation: u64) -> (state: DecoderState)
        ensures
            state == new_decoder_state(generation),
    {
        DecoderState {
            metrics: DecoderMetrics {
                decoded_frames: 0,
                dropped_frames: 0,
                decode_us: 0,
                decode_samples: 0,
                decode_queue_us: 0,
                decode_queue_samples: 0,
            },
            keyframe_needed: false,
            generation,
        }
    }

    /// Whether to decode a picture that was complete at `received_at`.
    pub fn judge_arrival(&mut self, received_at: u64, now: u64) -> (go: bool)
        ensures
            (*final(self), go) == arrival_judged(*old(self), received_at, now),
    {
        let waited: u64 = nanos_since(now, received_at);
        if waited > VIDEO_STALE_AGE {
            self.count_dropped();
            return false;
        }
        self.metrics.decode_queue_us = self.metrics.decode_queue_us.wrapping_add(waited / 1000);
        self.metrics.decode_queue_samples = self.metrics.decode_queue_samples.wrapping_add(1);
        true
    }

    /// A picture could not be decoded.
    pub fn count_dropped(&mut self)
        ensures
            *final(self) == frame_dropped(*old(self)),
    {
        self.metrics.dropped_frames = self.metrics.dropped_frames.wrapping_add(1);
        self.keyframe_needed = true;
    }

    /// A picture was shown.
    pub fn count_shown(&mut self, started: u64, now: u64)
        ensures
            *final(self) == frame_shown(*old(self), clock::age(now, started)),
    {
        let taken: u64 = nanos_since(now, started);
        self.metrics.decoded_frames = self.metrics.decoded_frames.wrapping_add(1);
        self.metrics.decode_us = self.metrics.decode_us.wrapping_add(taken / 1000);
        self.metrics.decode_samples = self.metrics.decode_samples.wrapping_add(1);
    }

    /// Whether the host has to send a keyframe; it is asked once.
    pub fn take_keyframe_demand(&mut self) -> (needed: bool)
        ensures
            needed == old(self).keyframe_needed,
            *final(self) == (DecoderState { keyframe_needed: false, ..*old(self) }),
    {
        let needed = self.keyframe_needed;
        self.keyframe_needed = false;
        needed
    }

    /// What was measured since the last call.
    pub fn take_metrics(&mut self) -> (metrics: DecoderMetrics)
        ensures
            metrics == old(self).metrics,
            *final(self) == (DecoderState { metrics: no_decoder_metrics(), ..*old(self) }),
    {
        let metrics = self.metrics;
        self.metrics = DecoderState::new(self.generation).metrics;
        metrics
    }
}

/// What OpenH264 made of a picture.
#[derive(Clone, Copy, Debug, PartialEq, Eq, Structural)]
pub enum DecodeReply {
    Picture,
    NoPicture,
    Failed,
}

/// How the decoder's side comes from one state to the next with a received picture.
pub open spec fn frame_decoded(
    s: DecoderState,
    received_at: u64,
    reply: DecodeReply,
    begun: u64,
    finished: u64,
) -> (DecoderState, bool) {
    let (t, go) = arrival_judged(s, received_at, begun);
    if !go {
        (t, false)
    } else {
        match reply {
            DecodeReply::Picture => (frame_shown(t, clock::age(finished, begun)), true),
            DecodeReply::NoPicture => (t, false),
            DecodeReply::Failed => (frame_dropped(t), false),
        }
    }
}

/// The decoder, handed the bytes, gave this.
pub closed spec fn picture_decoded(
    engine: &mut Decoder,
    bytes: &[u8],
    raw: Result<Option<DecodedYUV>, openh264::Error>,
) -> bool {
    call_ensures(decode_picture, (engine, bytes), raw)
}

/// The picture is what OpenH264 makes of a decoded one.
pub closed spec fn shows_decoded(decoded: DecodedYUV, picture: DisplayPicture) -> bool {
    call_ensures(rgba_of, (&decoded,), picture)
}

/// What OpenH264 made of a picture, and the picture to show.
pub open spec fn picture_made(
    raw: Result<Option<DecodedYUV>, openh264::Error>,
    reply: DecodeReply,
    picture: Option<DisplayPicture>,
) -> bool {
    match raw {
        Ok(Some(decoded)) => {
            &&& reply is Picture
            &&& picture matches Some(picture)
            &&& shows_decoded(decoded, picture)
        },
        Ok(None) => reply is NoPicture && picture is None,
        Err(_) => reply is Failed && picture is None,
    }
}

/// An OpenH264 decoder.
pub struct SoftwareDecoder {
    decoder: Decoder,
    state: DecoderState,
}

impl SoftwareDecoder {
    pub closed spec fn state(&self) -> DecoderState {
        self.state
    }

    /// What does the decoding.
    pub closed spec fn engine(&self) -> Decoder {
        self.decoder
    }

    /// What comes of a reply of OpenH264 to the wish for a decoder: the decoder, or what the
    /// complaint says.
    pub open spec fn made_of(
        reply: Result<Decoder, openh264::Error>,
        generation: u64,
        outcome: Result<SoftwareDecoder, String>,
    ) -> bool {
        match reply {
            Ok(engine) => {
                &&& outcome matches Ok(decoder)
                &&& decoder.engine() == engine
                &&& decoder.state() == new_decoder_state(generation)
            },
            Err(error) => outcome matches Err(text) && crate::encoder::tells_of(text, error),
        }
    }

    /// A decoder that has seen nothing. Whether there is one is up to OpenH264: whatever
    /// `Decoder::new` gave, `made_of` says what comes of it.
    pub fn new(generation: u64) -> (outcome: Result<SoftwareDecoder, String>)
        ensures
            exists|reply: Result<Decoder, openh264::Error>|
                {
                    &&& #[trigger] call_ensures(Decoder::new, (), reply)
                    &&& Self::made_of(reply, generation, outcome)
                },
    {
        let reply = Decoder::new();
        Self::of_reply(reply, generation)
    }

    /// What comes of a reply of OpenH264 to the wish for a decoder.
    pub fn of_reply(reply: Result<Decoder, openh264::Error>, generation: u64) -> (outcome: Result<
        SoftwareDecoder,
        String,
    >)
        ensures
            Self::made_of(reply, generation, outcome),
    {
        match reply {
            Ok(decoder) => Ok(SoftwareDecoder { decoder, state: DecoderState::new(generation) }),
            Err(error) => Err(complaint(&error)),
        }
    }

    /// The bookkeeping, to change.
    pub fn bookkeeping(&mut self) -> (state: &mut DecoderState)
        ensures
            *state == old(self).state(),
            final(self).state() == *final(state),
            final(self).engine() == old(self).engine(),
    {
        &mut self.state
    }

    /// Start anew, with a decoder that has seen nothing, if the pictures belong to another run.
    pub fn follow(&mut self, generation: u64) -> (outcome: Result<(), String>)
        ensures
            old(self).state().generation == generation ==> {
                &&& outcome is Ok
                &&& final(self).state() == old(self).state()
                &&& final(self).engine() == old(self).engine()
            },
            old(self).state().generation != generation ==> exists|
                reply: Result<Decoder, openh264::Error>,
            |
                {
                    &&& #[trigger] call_ensures(Decoder::new, (), reply)
                    &&& match reply {
                        Ok(engine) => {
                            &&& outcome is Ok
                            &&& final(self).state() == (DecoderState {
                                generation,
                                ..old(self).state()
                            })
                            &&& final(self).engine() == engine
                        },
                        Err(error) => {
                            &&& outcome matches Err(text)
                            &&& crate::encoder::tells_of(text, error)
                            &&& final(self).state() == old(self).state()
                            &&& final(self).engine() == old(self).engine()
                        },
                    }
                },
    {
        if generation != self.state.generation {
            match Decoder::new() {
                Ok(decoder) => {
                    self.decoder = decoder;
                    self.state.generation = generation;
                },
                Err(error) => return Err(complaint(&error)),
            }
        }
        Ok(())
    }

    /// Decode a picture, if it did not wait too long.
    ///
    /// What OpenH264 replies to the bytes and what the clock shows is not known beforehand;
    /// whatever it is, `frame_decoded` says what comes of it.
    pub fn decode(&mut self, received: &ReceivedVideoFrame, clock: &Clock) -> (picture: Option<
        DisplayPicture,
    >)
        requires
            received@.frame.payload.len() <= i32::MAX,
        ensures
            exists|reply: DecodeReply, begun: u64, finished: u64|
                {
                    &&& clock.shows(begun)
                    &&& (final(self).state(), picture is Some) == #[trigger] frame_decoded(
                        old(self).state(),
                        received@.received_at,
                        reply,
                        begun,
                        finished,
                    )
                    &&& if arrival_judged(old(self).state(), received@.received_at, begun).1 {
                        &&& clock.shows(finished)
                        &&& exists|
                            engine: &mut Decoder,
                            bytes: &[u8],
                            raw: Result<Option<DecodedYUV>, openh264::Error>,
                        |
                            {
                                &&& #[trigger] picture_decoded(engine, bytes, raw)
                                &&& *engine == old(self).engine()
                                &&& *final(engine) == final(self).engine()
                                &&& bytes@ == received@.frame.payload
                                &&& picture_made(raw, reply, picture)
                            }
                    } else {
                        final(self).engine() == old(self).engine()
                    }
                },
            picture matches Some(picture) ==> picture.rgba@.len() == picture.width * picture.height
                * 4,
    {
        let ghost first = self.state();
        let begun: u64 = clock.now();
        if !self.state.judge_arrival(received.received_at, begun) {
            assert((self.state, false) == frame_decoded(
                first,
                received@.received_at,
                DecodeReply::NoPicture,
                begun,
                begun,
            ));
            return None;
        }
        proof {
            assert forall|
                engine: &mut Decoder,
                bytes: &[u8],
                raw: Result<Option<DecodedYUV>, openh264::Error>,
            | #[trigger] call_ensures(decode_picture, (engine, bytes), raw) implies picture_decoded(
                engine,
                bytes,
                raw,
            ) by {}
        }
        let (picture, reply) = match decode_picture(
            &mut self.decoder,
            received.frame.payload.as_slice(),
        ) {
            Ok(Some(decoded)) => (Some(rgba_of(&decoded)), DecodeReply::Picture),
            Ok(None) => (None, DecodeReply::NoPicture),
            Err(_) => (None, DecodeReply::Failed),
        };
        let finished: u64 = clock.now();
        match reply {
            DecodeReply::Picture => self.state.count_shown(begun, finished),
            DecodeReply::NoPicture => {},
            DecodeReply::Failed => self.state.count_dropped(),
        }
        assert((self.state, picture is Some) == frame_decoded(
            first,
            received@.received_at,
            reply,
            begun,
            finished,
        ));
        picture
    }
}

/// The parameter sets in a picture.
pub open spec fn parameter_sets(nals: Seq<Seq<u8>>) -> Option<(Seq<u8>, Seq<u8>)> {
    match (h264::first_of_type(nals, h264::NAL_SPS), h264::first_of_type(nals, h264::NAL_PPS)) {
        (Some(sps), Some(pps)) => Some((sps, pps)),
        _ => None,
    }
}

/// What to do with a picture where the machine decodes by itself.
#[derive(Debug, PartialEq, Eq)]
pub enum HardwareStep {
    /// Nothing: the picture is not H.264 video.
    Discard(H264Error),
    /// Nothing, until there is a keyframe.
    AwaitKeyframe,
    /// Start a decoder with these parameter sets, then give it the picture.
    Start(Vec<u8>, Vec<u8>, Result<Vec<u8>, H264Error>),
    /// Give the decoder the picture.
    Continue(Result<Vec<u8>, H264Error>),
}

/// What to do with a picture where the machine decodes by itself.
#[verifier::ext_equal]
pub enum HardwareStepView {
    Discard(H264Error),
    AwaitKeyframe,
    Start(Seq<u8>, Seq<u8>, Result<Seq<u8>, H264Error>),
    Continue(Result<Seq<u8>, H264Error>),
}

/// What bytes, or the lack of them, hold.
pub open spec fn bytes_view(bytes: Result<Vec<u8>, H264Error>) -> Result<Seq<u8>, H264Error> {
    match bytes {
        Ok(bytes) => Ok(bytes@),
        Err(error) => Err(error),
    }
}

impl View for HardwareStep {
    type V = HardwareStepView;

    open spec fn view(&self) -> HardwareStepView {
        match self {
            HardwareStep::Discard(error) => HardwareStepView::Discard(*error),
            HardwareStep::AwaitKeyframe => HardwareStepView::AwaitKeyframe,
            HardwareStep::Start(sps, pps, avcc) => HardwareStepView::Start(
                sps@,
                pps@,
                bytes_view(*avcc),
            ),
            HardwareStep::Continue(avcc) => HardwareStepView::Continue(bytes_view(*avcc)),
        }
    }
}

/// What to do with a picture, where the decoder was started with `active`.
pub open spec fn hardware_step(
    active: Option<(Seq<u8>, Seq<u8>)>,
    payload: Seq<u8>,
    is_keyframe: bool,
) -> HardwareStepView {
    match h264::annex_b_units(payload) {
        Err(error) => HardwareStepView::Discard(error),
        Ok(nals) => {
            let found = parameter_sets(nals);
            let avcc = h264::avcc_written(nals);
            if found is Some && found != active {
                if is_keyframe {
                    let (sps, pps) = found->0;
                    HardwareStepView::Start(sps, pps, avcc)
                } else {
                    HardwareStepView::AwaitKeyframe
                }
            } else if active is None {
                HardwareStepView::AwaitKeyframe
            } else {
                HardwareStepView::Continue(avcc)
            }
        },
    }
}

fn same_bytes(a: &Vec<u8>, b: &Vec<u8>) -> (same: bool)
    ensures
        same == (a@ == b@),
{
    if a.len() != b.len() {
        return false;
    }
    let mut i: usize = 0;
    while i < a.len()
        invariant
            i <= a@.len(),
            a@.len() == b@.len(),
            forall|k: int| 0 <= k < i ==> a@[k] == b@[k],
        decreases a@.len() - i,
    {
        if a[i] != b[i] {
            assert(a@[i as int] != b@[i as int]);
            return false;
        }
        i += 1;
    }
    assert(a@ =~= b@);
    true
}

/// What the machine's decoder was started with, if it is running.
pub struct HardwareDecoding {
    active: Option<(Vec<u8>, Vec<u8>)>,
}

impl View for HardwareDecoding {
    type V = Option<(Seq<u8>, Seq<u8>)>;

    closed spec fn view(&self) -> Option<(Seq<u8>, Seq<u8>)> {
        match self.active {
            Some((sps, pps)) => Some((sps@, pps@)),
            None => None,
        }
    }
}

impl HardwareDecoding {
    pub fn new() -> (decoding: HardwareDecoding)
        ensures
            decoding@ is None,
    {
        HardwareDecoding { active: None }
    }

    /// What to do with a picture.
    pub fn step(&self, payload: &[u8], is_keyframe: bool) -> (step: HardwareStep)
        ensures
            step@ == hardware_step(self@, payload@, is_keyframe),
    {
        let nals = match annex_b_nals(payload) {
            Ok(nals) => nals,
            Err(error) => return HardwareStep::Discard(error),
        };
        let avcc = annex_b_to_avcc(&nals);
        if let Some((sps, pps)) = h264_parameter_sets(&nals) {
            let changed = match &self.active {
                Some((active_sps, active_pps)) => !same_bytes(active_sps, &sps) || !same_bytes(
                    active_pps,
                    &pps,
                ),
                None => true,
            };
            if changed {
                return if is_keyframe {
                    HardwareStep::Start(sps, pps, avcc)
                } else {
                    HardwareStep::AwaitKeyframe
                };
            }
        }
        match &self.active {
            Some(_) => HardwareStep::Continue(avcc),
            None => HardwareStep::AwaitKeyframe,
        }
    }

    /// A decoder was started.
    pub fn started(&mut self, sps: Vec<u8>, pps: Vec<u8>)
        ensures
            final(self)@ == Some((sps@, pps@)),
    {
        self.active = Some((sps, pps));
    }

    /// The decoder rejected a picture, and is given up.
    pub fn rejected(&mut self)
        ensures
            final(self)@ is None,
    {
        self.active = None;
    }
}

/// A decoder that was started with a picture's parameter sets goes on with the next
/// picture that has the same ones, keyframe or not.
pub proof fn decoders_are_kept(payload: Seq<u8>, sps: Seq<u8>, pps: Seq<u8>, is_keyframe: bool)
    requires
        hardware_step(None, payload, true) matches HardwareStepView::Start(a, b, _) && a == sps && b
            == pps,
    ensures
        hardware_step(Some((sps, pps)), payload, is_keyframe) is Continue,
{
}

/// A picture that waited too long is not decoded.
pub proof fn late_arrivals_are_dropped(
    s: DecoderState,
    received_at: u64,
    reply: DecodeReply,
    begun: u64,
    finished: u64,
)
    requires
        clock::age(begun, received_at) > VIDEO_STALE_AGE,
    ensures
        frame_decoded(s, received_at, reply, begun, finished) == (frame_dropped(s), false),
{
}

} // verus!
