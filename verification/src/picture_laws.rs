//! What becomes of pictures between the screen that they are taken of and the one that they
//! are shown on.

use crate::bytes;
use crate::clock;
use crate::clock::Clock;
use crate::decode_queue;
use crate::decode_queue::{
    DecodeQueuePush, DecodeQueueView, ReceivedFrameView, ReceivedVideoFrame,
};
use crate::decoder;
use crate::decoder::{
    DecodeReply, DecoderMetrics, DecoderState, DisplayPicture, HardwareStepView, SoftwareDecoder,
};
use crate::encoder::{EncoderState, SoftwareEncoder};
use crate::h264;
use crate::h264::H264Error;
use crate::i420;
use crate::i420::{BgraFrame, Nv12Frame, PictureError};
use openh264::decoder::{DecodedYUV, Decoder};
use openh264::encoder::Encoder;
use vstd::prelude::*;

verus! {

/// A start code is two zeros and a one, or three zeros and a one.
pub proof fn start_codes_are_zeros_and_a_one(data: Seq<u8>, at: int)
    requires
        0 <= at,
    ensures
        h264::start_code_at(data, at) == 3 <==> at + 3 <= data.len() && data[at] == 0 && data[at
            + 1] == 0 && data[at + 2] == 1,
        h264::start_code_at(data, at) == 4 <==> at + 4 <= data.len() && data[at] == 0 && data[at
            + 1] == 0 && data[at + 2] == 0 && data[at + 3] == 1,
        h264::start_code_at(data, at) == 0 || h264::start_code_at(data, at) == 3
            || h264::start_code_at(data, at) == 4,
{
}

/// The next start code is the first one that there is.
pub proof fn the_first_start_code_is_found(data: Seq<u8>, from: int)
    requires
        0 <= from,
    ensures
        match h264::next_start_code(data, from) {
            Some((at, len)) => {
                &&& from <= at
                &&& at + len <= data.len()
                &&& len > 0
                &&& h264::start_code_at(data, at) == len
                &&& forall|i: int| from <= i < at ==> #[trigger] h264::start_code_at(data, i) == 0
            },
            None => forall|i: int| from <= i ==> #[trigger] h264::start_code_at(data, i) == 0,
        },
    decreases data.len() - from,
{
    if from + 3 <= data.len() && h264::start_code_at(data, from) == 0 {
        the_first_start_code_is_found(data, from + 1);
    }
}

/// The units of a picture stand between its start codes; what is empty is no unit.
pub proof fn units_stand_between_start_codes(data: Seq<u8>, start: int)
    requires
        0 <= start <= data.len(),
    ensures
        match h264::next_start_code(data, start) {
            Some((at, len)) => h264::nals_from(data, start) == if at > start {
                seq![data.subrange(start, at)] + h264::nals_from(data, at + len)
            } else {
                h264::nals_from(data, at + len)
            },
            None => h264::nals_from(data, start) == if start < data.len() {
                seq![data.subrange(start, data.len() as int)]
            } else {
                Seq::empty()
            },
        },
{
    the_first_start_code_is_found(data, start);
    if let Some((at, len)) = h264::next_start_code(data, start) {
        assert(Seq::empty() + h264::nals_from(data, at + len) =~= h264::nals_from(data, at + len));
    }
}

/// A picture without a start code is not Annex B, and one without a unit is empty.
pub proof fn pictures_need_units(data: Seq<u8>)
    ensures
        (forall|i: int| 0 <= i ==> #[trigger] h264::start_code_at(data, i) == 0)
            ==> h264::annex_b_units(data) == Err::<Seq<Seq<u8>>, _>(H264Error::NotAnnexB),
        h264::annex_b_units(data) matches Ok(nals) ==> nals.len() > 0,
        h264::annex_b_units(data) matches Ok(nals) ==> (h264::next_start_code(data, 0) matches Some(
            (at, len),
        ) && nals == h264::nals_from(data, at + len)),
{
    the_first_start_code_is_found(data, 0);
}

/// The first unit of a kind is found, if there is one.
pub proof fn the_first_unit_of_a_kind_is_found(nals: Seq<Seq<u8>>, kind: u8)
    ensures
        match h264::first_of_type(nals, kind) {
            Some(nal) => exists|i: int| #[trigger] is_first_of(nals, kind, i) && nals[i] == nal,
            None => forall|i: int|
                0 <= i < nals.len() ==> (#[trigger] nals[i]).len() == 0 || nals[i][0] % 32 != kind,
        },
    decreases nals.len(),
{
    if nals.len() > 0 {
        if nals[0].len() > 0 && nals[0][0] % 32 == kind {
            assert(is_first_of(nals, kind, 0));
        } else {
            let rest = nals.skip(1);
            the_first_unit_of_a_kind_is_found(rest, kind);
            match h264::first_of_type(rest, kind) {
                Some(nal) => {
                    let i = choose|i: int| #[trigger] is_first_of(rest, kind, i) && rest[i] == nal;
                    assert forall|k: int| 0 <= k < i + 1 implies (#[trigger] nals[k]).len() == 0
                        || nals[k][0] % 32 != kind by {
                        if k > 0 {
                            assert(rest[k - 1] == nals[k]);
                        }
                    }
                    assert(nals[i + 1] == rest[i]);
                    assert(is_first_of(nals, kind, i + 1));
                },
                None => {
                    assert forall|i: int| 0 <= i < nals.len() implies (#[trigger] nals[i]).len()
                        == 0 || nals[i][0] % 32 != kind by {
                        if i > 0 {
                            assert(rest[i - 1] == nals[i]);
                        }
                    }
                },
            }
        }
    }
}

/// Unit `i` is of a kind, by the lower five bits of its first byte, and is the first of it.
pub open spec fn is_first_of(nals: Seq<Seq<u8>>, kind: u8, i: int) -> bool {
    &&& 0 <= i < nals.len()
    &&& nals[i].len() > 0
    &&& nals[i][0] % 32 == kind
    &&& forall|k: int| 0 <= k < i ==> (#[trigger] nals[k]).len() == 0 || nals[k][0] % 32 != kind
}

/// The parameter sets of a picture are its first units of kinds 7 and 8, if it has both.
pub proof fn parameter_sets_are_found(nals: Vec<&[u8]>, sets: Option<(Vec<u8>, Vec<u8>)>)
    requires
        call_ensures(h264::h264_parameter_sets, (&nals,), sets),
    ensures
        ({
            let units = h264::nal_views(nals@);
            match sets {
                Some((sps, pps)) => {
                    &&& exists|i: int| #[trigger] is_first_of(units, 7, i) && units[i] == sps@
                    &&& exists|i: int| #[trigger] is_first_of(units, 8, i) && units[i] == pps@
                },
                None => {
                    ||| forall|i: int|
                        0 <= i < units.len() ==> (#[trigger] units[i]).len() == 0 || units[i][0]
                            % 32 != 7
                    ||| forall|i: int|
                        0 <= i < units.len() ==> (#[trigger] units[i]).len() == 0 || units[i][0]
                            % 32 != 8
                },
            }
        }),
{
    let units = h264::nal_views(nals@);
    the_first_unit_of_a_kind_is_found(units, 7);
    the_first_unit_of_a_kind_is_found(units, 8);
}

/// In AVCC form each unit stands after its length in four bytes; parameter sets and delimiters,
/// of kinds 7, 8 and 9, are left out.
pub proof fn units_stand_after_their_lengths(nals: Seq<Seq<u8>>, nal: Seq<u8>)
    requires
        nal.len() > 0,
    ensures
        h264::avcc_of(Seq::empty()) == Seq::<u8>::empty(),
        h264::avcc_of(nals.push(nal)) == if nal[0] % 32 == 7 || nal[0] % 32 == 8 || nal[0] % 32
            == 9 {
            h264::avcc_of(nals)
        } else {
            h264::avcc_of(nals) + bytes::be_bytes(nal.len(), 4) + nal
        },
{
    assert(nals.push(nal).drop_last() =~= nals);
}

/// In Annex B form each unit stands after three zeros and a one.
pub proof fn units_stand_after_start_codes(nals: Seq<Seq<u8>>, nal: Seq<u8>)
    ensures
        h264::annex_b_of(Seq::empty()) == Seq::<u8>::empty(),
        h264::annex_b_of(nals.push(nal)) == h264::annex_b_of(nals) + seq![0u8, 0u8, 0u8, 1u8] + nal,
{
    assert(nals.push(nal).drop_last() =~= nals);
}

/// A picture is a keyframe if one of its units is of kind 5. It then goes on the wire with its
/// parameter sets in front, and as it is if not.
pub proof fn keyframes_take_their_sets_along(
    data: &[u8],
    sets: Option<(Vec<u8>, Vec<u8>)>,
    outcome: Result<(Vec<u8>, bool), H264Error>,
    nals: Seq<Seq<u8>>,
)
    requires
        call_ensures(h264::avcc_frame_to_annex_b, (data, &sets), outcome),
        data@ == h264::avcc_of(nals),
        forall|i: int|
            0 <= i < nals.len() ==> 0 < (#[trigger] nals[i]).len() <= u32::MAX && nals[i][0] % 32
                != 7 && nals[i][0] % 32 != 8 && nals[i][0] % 32 != 9,
    ensures
        outcome matches Ok((output, is_keyframe)) && on_the_wire(output@, is_keyframe, nals, sets),
{
    assert forall|i: int| 0 <= i < nals.len() implies 0 < (#[trigger] nals[i]).len()
        && !h264::too_long(nals[i]) && h264::is_picture_unit(nals[i]) by {}
    assert(h264::avcc_units(data@, 0) == Ok::<_, H264Error>(nals)) by {
        h264::avcc_round_trip(nals);
        lemma_all_kept(nals);
    }
    lemma_on_the_wire(data, sets, outcome, nals);
}

/// A picture as it goes on the wire.
pub open spec fn on_the_wire(
    output: Seq<u8>,
    is_keyframe: bool,
    nals: Seq<Seq<u8>>,
    sets: Option<(Vec<u8>, Vec<u8>)>,
) -> bool {
    let key = exists|i: int| 0 <= i < nals.len() && (#[trigger] nals[i])[0] % 32 == 5;
    &&& is_keyframe == key
    &&& key && sets is Some ==> {
        let (sps, pps) = sets->0;
        output == h264::annex_b_of(seq![sps@, pps@] + nals)
    }
    &&& !key || sets is None ==> output == h264::annex_b_of(nals)
}

proof fn lemma_on_the_wire(
    data: &[u8],
    sets: Option<(Vec<u8>, Vec<u8>)>,
    outcome: Result<(Vec<u8>, bool), H264Error>,
    nals: Seq<Seq<u8>>,
)
    requires
        call_ensures(h264::avcc_frame_to_annex_b, (data, &sets), outcome),
        h264::avcc_units(data@, 0) == Ok::<_, H264Error>(nals),
    ensures
        outcome matches Ok((output, is_keyframe)) && on_the_wire(output@, is_keyframe, nals, sets),
{
    lemma_idr(nals);
}

proof fn lemma_idr(nals: Seq<Seq<u8>>)
    ensures
        h264::has_idr(nals) == exists|i: int|
            0 <= i < nals.len() && (#[trigger] nals[i])[0] % 32 == 5,
{
    if exists|i: int| 0 <= i < nals.len() && (#[trigger] nals[i])[0] % 32 == 5 {
        let i = choose|i: int| 0 <= i < nals.len() && (#[trigger] nals[i])[0] % 32 == 5;
        assert(h264::nal_type(nals[i]) == 5);
    }
}

proof fn lemma_all_kept(nals: Seq<Seq<u8>>)
    requires
        forall|i: int|
            0 <= i < nals.len() ==> h264::is_picture_unit(#[trigger] nals[i]),
    ensures
        h264::picture_units(nals) == nals,
    decreases nals.len(),
{
    reveal(Seq::filter);
    if nals.len() > 0 {
        let init = nals.drop_last();
        assert forall|i: int| 0 <= i < init.len() implies h264::is_picture_unit(
            #[trigger] init[i],
        ) by {
            assert(init[i] == nals[i]);
        }
        lemma_all_kept(init);
        assert(h264::is_picture_unit(nals[nals.len() - 1]));
        assert(init.push(nals.last()) =~= nals);
    }
}

/// A picture is not decoded if one of its units is too long for a length of four bytes, or if
/// there is nothing in it but parameter sets and delimiters.
pub proof fn pictures_need_something_to_decode(nals: Seq<Seq<u8>>, i: int)
    requires
        0 <= i < nals.len(),
        nals[i].len() > 0,
    ensures
        ({
            let shown = nals[i][0] % 32 != 7 && nals[i][0] % 32 != 8 && nals[i][0] % 32 != 9;
            let written = h264::avcc_written(nals);
            &&& shown && nals[i].len() > 0xffff_ffff ==> written == Err::<Seq<u8>, _>(
                H264Error::NalTooLong,
            )
            &&& shown && (forall|k: int|
                0 <= k < nals.len() ==> (#[trigger] nals[k]).len() <= 0xffff_ffff) ==> written
                == Ok::<_, H264Error>(h264::avcc_of(nals))
            &&& (forall|k: int|
                0 <= k < nals.len() ==> 7 <= (#[trigger] nals[k])[0] % 32 <= 9) ==> written
                == Err::<Seq<u8>, _>(H264Error::NothingDecodable)
        }),
{
    let shown = nals[i][0] % 32 != 7 && nals[i][0] % 32 != 8 && nals[i][0] % 32 != 9;
    if shown {
        assert(h264::is_picture_unit(nals[i]));
        lemma_something_written(nals, i);
        if nals[i].len() > 0xffff_ffff {
            assert(h264::too_long(nals[i]));
        }
    }
    if forall|k: int| 0 <= k < nals.len() ==> 7 <= (#[trigger] nals[k])[0] % 32 <= 9 {
        assert forall|k: int| 0 <= k < nals.len() implies !h264::is_picture_unit(
            #[trigger] nals[k],
        ) by {}
        lemma_nothing_written(nals);
    }
}

proof fn lemma_something_written(nals: Seq<Seq<u8>>, i: int)
    requires
        0 <= i < nals.len(),
        nals[i].len() > 0,
        h264::is_picture_unit(nals[i]),
    ensures
        h264::avcc_of(nals).len() > 0,
    decreases nals.len(),
{
    if i < nals.len() - 1 {
        assert(nals.drop_last()[i] == nals[i]);
        lemma_something_written(nals.drop_last(), i);
    }
}

proof fn lemma_nothing_written(nals: Seq<Seq<u8>>)
    requires
        forall|k: int| 0 <= k < nals.len() ==> !h264::is_picture_unit(#[trigger] nals[k]),
    ensures
        h264::avcc_of(nals).len() == 0,
    decreases nals.len(),
{
    if nals.len() > 0 {
        assert forall|k: int| 0 <= k < nals.len() - 1 implies !h264::is_picture_unit(
            #[trigger] nals.drop_last()[k],
        ) by {
            assert(nals.drop_last()[k] == nals[k]);
        }
        lemma_nothing_written(nals.drop_last());
        assert(!h264::is_picture_unit(nals[nals.len() - 1]));
    }
}

/// A decoder is made with what OpenH264 gave, and there is none where OpenH264 gave none.
pub proof fn decoders_are_made(
    reply: Result<Decoder, openh264::Error>,
    generation: u64,
    outcome: Result<SoftwareDecoder, String>,
)
    requires
        call_ensures(SoftwareDecoder::of_reply, (reply, generation), outcome),
    ensures
        outcome is Ok == reply is Ok,
        reply matches Ok(engine) ==> (outcome matches Ok(made) && made.engine() == engine
            && made.state().generation == generation && !made.state().keyframe_needed
            && made.state().metrics.decoded_frames == 0 && made.state().metrics.dropped_frames
            == 0),
{
}

/// A decoder is kept while the pictures belong together, and made anew where they start anew;
/// what it counted is kept.
pub proof fn decoders_follow_the_queue(generation: u64, outcome: Result<(), String>)
    ensures
        forall|decoder: &mut SoftwareDecoder| #[trigger]
            call_ensures(SoftwareDecoder::follow, (decoder, generation), outcome) ==> {
                let before = (*decoder).state();
                let after = (*final(decoder)).state();
                &&& before.generation == generation ==> outcome is Ok && (*final(decoder)).engine()
                    == (*decoder).engine()
                &&& outcome is Ok ==> after.generation == generation
                &&& outcome is Err ==> after.generation == before.generation && (*final(
                    decoder)).engine() == (*decoder).engine()
                &&& after.metrics == before.metrics
                &&& after.keyframe_needed == before.keyframe_needed
            },
{
}

/// A picture that is shown was decoded and is counted. Where nothing is shown, nothing is
/// counted as shown; and a picture that was dropped needs a keyframe.
pub proof fn shown_pictures_are_counted(
    received: &ReceivedVideoFrame,
    clock: &Clock,
    picture: Option<DisplayPicture>,
)
    ensures
        forall|decoder: &mut SoftwareDecoder| #[trigger]
            call_ensures(SoftwareDecoder::decode, (decoder, received, clock), picture) ==> {
                let before = (*decoder).state();
                let after = (*final(decoder)).state();
                &&& after.generation == before.generation
                &&& picture is Some ==> after.metrics.decoded_frames
                    == before.metrics.decoded_frames.wrapping_add(1) && after.keyframe_needed
                    == before.keyframe_needed
                &&& picture is None ==> after.metrics.decoded_frames
                    == before.metrics.decoded_frames
                &&& after.metrics.dropped_frames != before.metrics.dropped_frames ==> picture
                    is None && after.keyframe_needed
            },
{
}

/// What OpenH264 makes of a picture is shown, and nothing else.
pub proof fn decoded_pictures_are_shown(
    raw: Result<Option<DecodedYUV<'_>>, openh264::Error>,
    reply: DecodeReply,
    picture: Option<DisplayPicture>,
)
    requires
        decoder::picture_made(raw, reply, picture),
    ensures
        raw matches Ok(Some(_)) ==> reply is Picture && picture is Some,
        raw matches Ok(None) ==> reply is NoPicture && picture is None,
        raw is Err ==> reply is Failed && picture is None,
{
}

/// An encoder is made with what OpenH264 gave, and there is none where OpenH264 gave none.
pub proof fn encoders_are_made(
    reply: Result<Encoder, openh264::Error>,
    now: u64,
    outcome: Result<SoftwareEncoder, String>,
)
    requires
        call_ensures(SoftwareEncoder::of_reply, (reply, now), outcome),
    ensures
        outcome is Ok == reply is Ok,
        reply matches Ok(engine) ==> (outcome matches Ok(made) && made.engine() == engine
            && made.state().keyframe_wanted && made.state().stats_started == now
            && made.state().stats.frames == 0 && made.picture().width == 0
            && made.picture().height == 0),
{
}

/// A picture is encoded if somebody watches, if it makes sense, and within 25 milliseconds.
pub proof fn pictures_are_encoded_in_time(
    s: EncoderState,
    complaint: Option<PictureError>,
    captured_at: u64,
    peer_active: bool,
    begun: u64,
)
    ensures
        crate::encoder::to_encode(s, complaint, captured_at, peer_active, begun) == (peer_active
            && complaint is None && clock::age(begun, captured_at) <= 25_000_000),
{
}

/// Where the machine decodes by itself: a keyframe with new parameter sets starts a decoder with
/// them, other pictures with new ones are not decoded, and what follows under the same ones or
/// without any goes to the decoder that is running.
pub proof fn decoders_follow_the_parameter_sets(
    active: Option<(Seq<u8>, Seq<u8>)>,
    payload: Seq<u8>,
    is_keyframe: bool,
    nals: Seq<Seq<u8>>,
    sps: Option<Seq<u8>>,
    pps: Option<Seq<u8>>,
)
    requires
        h264::annex_b_units(payload) == Ok::<Seq<Seq<u8>>, H264Error>(nals),
        h264::first_of_type(nals, 7) == sps,
        h264::first_of_type(nals, 8) == pps,
    ensures
        ({
            let step = decoder::hardware_step(active, payload, is_keyframe);
            let avcc = h264::avcc_written(nals);
            let fresh = sps is Some && pps is Some && active != Some((sps->0, pps->0));
            &&& fresh && is_keyframe ==> step == HardwareStepView::Start(sps->0, pps->0, avcc)
            &&& fresh && !is_keyframe ==> step is AwaitKeyframe
            &&& !fresh && active is None ==> step is AwaitKeyframe
            &&& !fresh && active is Some ==> step == HardwareStepView::Continue(avcc)
        }),
{
}

/// What is not H.264 video is not decoded.
pub proof fn other_video_is_not_decoded(
    active: Option<(Seq<u8>, Seq<u8>)>,
    payload: Seq<u8>,
    is_keyframe: bool,
    error: H264Error,
)
    requires
        h264::annex_b_units(payload) == Err::<Seq<Seq<u8>>, _>(error),
    ensures
        decoder::hardware_step(active, payload, is_keyframe) == HardwareStepView::Discard(error),
{
}

/// A picture that was complete no more than 25 milliseconds ago is decoded. If it can be shown
/// it is counted, with the time that it waited and the time that it took; if the decoder fails,
/// a keyframe is needed; and if there is no picture yet, nothing is lost.
pub proof fn fresh_pictures_are_decoded(
    s: DecoderState,
    received_at: u64,
    begun: u64,
    finished: u64,
)
    requires
        received_at <= begun <= finished,
        begun - received_at <= 25_000_000,
    ensures
        ({
            let m = s.metrics;
            let waited = DecoderMetrics {
                decode_queue_us: m.decode_queue_us.wrapping_add(
                    ((begun - received_at) / 1000) as u64,
                ),
                decode_queue_samples: m.decode_queue_samples.wrapping_add(1),
                ..m
            };
            &&& decoder::frame_decoded(s, received_at, DecodeReply::Picture, begun, finished) == (
                DecoderState {
                    metrics: DecoderMetrics {
                        decoded_frames: m.decoded_frames.wrapping_add(1),
                        decode_us: m.decode_us.wrapping_add(((finished - begun) / 1000) as u64),
                        decode_samples: m.decode_samples.wrapping_add(1),
                        ..waited
                    },
                    ..s
                },
                true,
            )
            &&& decoder::frame_decoded(s, received_at, DecodeReply::NoPicture, begun, finished) == (
                DecoderState { metrics: waited, ..s },
                false,
            )
            &&& decoder::frame_decoded(s, received_at, DecodeReply::Failed, begun, finished) == (
                DecoderState {
                    metrics: DecoderMetrics {
                        dropped_frames: m.dropped_frames.wrapping_add(1),
                        ..waited
                    },
                    keyframe_needed: true,
                    ..s
                },
                false,
            )
        }),
{
}

/// A picture that waited for longer is dropped, and a keyframe is needed.
pub proof fn old_pictures_are_not_decoded(
    s: DecoderState,
    received_at: u64,
    reply: DecodeReply,
    begun: u64,
    finished: u64,
)
    requires
        begun - received_at > 25_000_000,
    ensures
        decoder::frame_decoded(s, received_at, reply, begun, finished) == (
            DecoderState {
                metrics: DecoderMetrics {
                    dropped_frames: s.metrics.dropped_frames.wrapping_add(1),
                    ..s.metrics
                },
                keyframe_needed: true,
                ..s
            },
            false,
        ),
{
}

/// The host is asked for a keyframe once, and what was measured is reported once.
pub proof fn decoders_report_once(needed: bool, metrics: DecoderMetrics)
    ensures
        forall|state: &mut DecoderState| #[trigger]
            call_ensures(DecoderState::take_keyframe_demand, (state,), needed) ==> {
                &&& needed == state.keyframe_needed
                &&& !final(state).keyframe_needed
                &&& final(state).metrics == state.metrics
                &&& final(state).generation == state.generation
            },
        forall|state: &mut DecoderState| #[trigger]
            call_ensures(DecoderState::take_metrics, (state,), metrics) ==> {
                &&& metrics == state.metrics
                &&& final(state).metrics == (DecoderMetrics {
                    decoded_frames: 0,
                    dropped_frames: 0,
                    decode_us: 0,
                    decode_samples: 0,
                    decode_queue_us: 0,
                    decode_queue_samples: 0,
                })
                &&& final(state).keyframe_needed == state.keyframe_needed
                &&& final(state).generation == state.generation
            },
{
}

/// A frame that is no more than 25 milliseconds old is queued where there is room for it: two
/// frames have. Where there is not, a keyframe takes the place of what waits, and another frame
/// is dropped together with it.
pub proof fn fresh_frames_are_queued(queue: DecodeQueueView, frame: ReceivedFrameView, now: u64)
    requires
        clock::age(now, frame.received_at) <= 25_000_000,
        frame.frame.is_keyframe || !queue.waiting_for_keyframe,
    ensures
        ({
            let (after, outcome) = decode_queue::offered(queue, frame, now);
            &&& queue.frames.len() < 2 ==> outcome == DecodeQueuePush::Queued && after.frames
                == queue.frames.push(frame) && !after.waiting_for_keyframe
            &&& queue.frames.len() >= 2 && frame.frame.is_keyframe ==> outcome
                == DecodeQueuePush::Queued && after.frames == seq![frame]
                && !after.waiting_for_keyframe
            &&& queue.frames.len() >= 2 && !frame.frame.is_keyframe ==> outcome
                == DecodeQueuePush::Overflowed && after.frames.len() == 0
                && after.waiting_for_keyframe
            &&& after.generation == queue.generation
        }),
{
}

/// A frame that is older, or no keyframe while one is waited for, changes nothing.
pub proof fn useless_frames_are_not_queued(
    queue: DecodeQueueView,
    frame: ReceivedFrameView,
    now: u64,
)
    ensures
        clock::age(now, frame.received_at) > 25_000_000 ==> decode_queue::offered(
            queue,
            frame,
            now,
        ) == (queue, DecodeQueuePush::Stale),
        clock::age(now, frame.received_at) <= 25_000_000 && queue.waiting_for_keyframe
            && !frame.frame.is_keyframe ==> decode_queue::offered(queue, frame, now) == (
            queue,
            DecodeQueuePush::WaitingForKeyframe,
        ),
{
}

/// A picture of brightness and interleaved colour is taken over pixel by pixel: the brightness
/// of each, and for each square of four the first and the second colour.
pub proof fn captured_pictures_are_taken_over(frame: &Nv12Frame, row: int, column: int)
    requires
        i420::nv12_complaint(frame) is None,
    ensures
        i420::of_nv12(frame).width == frame.width,
        i420::of_nv12(frame).height == frame.height,
        0 <= row < frame.height && 0 <= column < frame.width ==> i420::of_nv12(frame).y[row
            * frame.width + column] == frame.luminance_bytes@[row * frame.luminance_stride
            + column],
        0 <= row < frame.height as int / 2 && 0 <= column < frame.width as int / 2 ==> {
            let at = row * (frame.width as int / 2) + column;
            &&& i420::of_nv12(frame).u[at] == frame.chrominance_bytes@[row
                * frame.chrominance_stride + 2 * column]
            &&& i420::of_nv12(frame).v[at] == frame.chrominance_bytes@[row
                * frame.chrominance_stride + 2 * column + 1]
        },
{
    let width = frame.width as int;
    let height = frame.height as int;
    if 0 <= row < height && 0 <= column < width {
        i420::lemma_row_of(row, column, width);
        i420::lemma_place(row, column, width, height);
    }
    if 0 <= row < height / 2 && 0 <= column < width / 2 {
        i420::lemma_row_of(row, column, width / 2);
        i420::lemma_place(row, column, width / 2, height / 2);
    }
}

/// A picture that makes sense is accepted, and others are refused: dimensions must be positive
/// and even, rows as long as they are wide, and planes as large as they say.
pub proof fn senseless_pictures_are_refused(frame: &Nv12Frame)
    ensures
        i420::nv12_complaint(frame) is None == (frame.width > 0 && frame.height > 0 && frame.width
            as int % 2 == 0 && frame.height as int % 2 == 0 && frame.luminance_stride >= frame.width
            && frame.chrominance_stride >= frame.width && frame.luminance_bytes@.len()
            >= frame.luminance_stride * frame.height && frame.chrominance_bytes@.len()
            >= frame.chrominance_stride * (frame.height as int / 2)),
        frame.width < 0 ==> i420::nv12_complaint(frame) == Some(PictureError::NegativeWidth),
        frame.width >= 0 && frame.height < 0 ==> i420::nv12_complaint(frame) == Some(
            PictureError::NegativeHeight,
        ),
        frame.width >= 0 && frame.height >= 0 && frame.luminance_stride < 0
            ==> i420::nv12_complaint(frame) == Some(PictureError::NegativeLuminanceStride),
        frame.width >= 0 && frame.height >= 0 && frame.luminance_stride >= 0
            && frame.chrominance_stride < 0 ==> i420::nv12_complaint(frame) == Some(
            PictureError::NegativeChrominanceStride,
        ),
        frame.width >= 0 && frame.height >= 0 && frame.luminance_stride >= 0
            && frame.chrominance_stride >= 0 ==> {
            let even = frame.width > 0 && frame.height > 0 && frame.width as int % 2 == 0
                && frame.height as int % 2 == 0;
            let wide = frame.luminance_stride >= frame.width && frame.chrominance_stride
                >= frame.width;
            &&& !even ==> i420::nv12_complaint(frame) == Some(
                PictureError::OddDimensions {
                    width: frame.width as usize,
                    height: frame.height as usize,
                },
            )
            &&& even && !wide ==> i420::nv12_complaint(frame) == Some(PictureError::StrideTooSmall)
            &&& even && wide && i420::nv12_complaint(frame) is Some ==> i420::nv12_complaint(frame)
                == Some(PictureError::PlanesTooSmall)
        },
{
}

/// Colours are turned into brightness and two differences as studio video has them.
pub proof fn colours_are_converted(red: int, green: int, blue: int)
    requires
        0 <= red <= 255,
        0 <= green <= 255,
        0 <= blue <= 255,
    ensures
        ({
            let pixel = (red, green, blue);
            let four = i420::summed(pixel, pixel, pixel, pixel);
            &&& i420::luma(pixel) == (66 * red + 129 * green + 25 * blue + 128) / 256 + 16
            &&& i420::blueness(four) == (-38 * red - 74 * green + 112 * blue + 128) / 256 + 128
            &&& i420::redness(four) == (112 * red - 94 * green - 18 * blue + 128) / 256 + 128
        }),
        i420::luma((0, 0, 0)) == 16,
        i420::luma((255, 255, 255)) == 235,
{
    assert((4 * (-38 * red - 74 * green + 112 * blue) + 512) / 1024 == (-38 * red - 74 * green
        + 112 * blue + 128) / 256);
    assert((4 * (112 * red - 94 * green - 18 * blue) + 512) / 1024 == (112 * red - 94 * green - 18
        * blue + 128) / 256);
}

/// A pixel has its blue first, then its green and its red, and the colour of four pixels is
/// that of all of them together.
pub proof fn pixels_are_read(data: Seq<u8>, pixel: int, a: (int, int, int), b: (int, int, int))
    ensures
        i420::pixel_at(data, pixel) == (
            data[4 * pixel + 2] as int,
            data[4 * pixel + 1] as int,
            data[4 * pixel] as int,
        ),
        i420::summed(a, b, a, b) == (2 * (a.0 + b.0), 2 * (a.1 + b.1), 2 * (a.2 + b.2)),
        i420::summed(a, a, b, b) == i420::summed(a, b, a, b),
{
}

/// A picture that is brought to another size shows at each place what was at the same place, in
/// proportion: its brightness there, and for each square of four pixels their colour.
pub proof fn scaled_pictures_keep_their_content(
    frame: &BgraFrame,
    width: int,
    height: int,
    row: int,
    column: int,
)
    requires
        0 < width,
        0 < height,
    ensures
        ({
            let picture = i420::of_bgra(frame, width, height);
            let source = |r: int, c: int|
                i420::pixel_at(
                    frame.data@,
                    (r * frame.height / height) * frame.width + c * frame.width / width,
                );
            &&& picture.width == width
            &&& picture.height == height
            &&& 0 <= row < height && 0 <= column < width ==> picture.y[row * width + column]
                == i420::luma(source(row, column))
            &&& 0 <= row < height / 2 && 0 <= column < width / 2 ==> {
                let four = i420::summed(
                    source(2 * row, 2 * column),
                    source(2 * row, 2 * column + 1),
                    source(2 * row + 1, 2 * column),
                    source(2 * row + 1, 2 * column + 1),
                );
                &&& picture.u[row * (width / 2) + column] == i420::blueness(four)
                &&& picture.v[row * (width / 2) + column] == i420::redness(four)
            }
        }),
{
    if 0 <= row < height && 0 <= column < width {
        i420::lemma_row_of(row, column, width);
        i420::lemma_place(row, column, width, height);
    }
    if 0 <= row < height / 2 && 0 <= column < width / 2 {
        i420::lemma_row_of(row, column, width / 2);
        i420::lemma_place(row, column, width / 2, height / 2);
    }
}

/// The dimensions of a picture for the encoder are even, smaller by one at most than those that
/// it was scaled to, and two at least.
pub proof fn encoders_get_even_dimensions(dimension: int)
    requires
        0 <= dimension,
    ensures
        i420::encodable(dimension) % 2 == 0,
        i420::encodable(dimension) >= 2,
        dimension >= 2 ==> dimension - 1 <= i420::encodable(dimension) <= dimension,
{
}

} // verus!
