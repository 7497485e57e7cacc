//! The two ways in which H.264 video is written down.
//!
//! On the wire a picture is a sequence of units, each after a start code (Annex B).
//! Apple's coders put the length of each unit in front of it instead (AVCC), and take
//! the parameter sets apart from the picture.

use crate::bytes;
use crate::bytes::{push_be, read_be};
use crate::protocol::push_bytes;
use vstd::prelude::*;

verus! {

pub const NAL_LENGTH_BYTES: usize = 4;

pub const NAL_IDR: u8 = 5;

pub const NAL_SPS: u8 = 7;

pub const NAL_PPS: u8 = 8;

pub const NAL_AUD: u8 = 9;

/// Why a picture cannot be read.
#[derive(Clone, Copy, Debug, PartialEq, Eq, Structural)]
pub enum H264Error {
    NotAnnexB,
    NoNals,
    NalTooLong,
    NothingDecodable,
    TruncatedLength,
    InvalidNal,
}

impl H264Error {
    pub open spec fn message_text(self) -> Seq<char> {
        match self {
            H264Error::NotAnnexB => "H.264 frame is not Annex B"@,
            H264Error::NoNals => "H.264 frame contains no NAL units"@,
            H264Error::NalTooLong => "H.264 NAL unit exceeds AVCC limits"@,
            H264Error::NothingDecodable => "H.264 frame contains no decodable NAL units"@,
            H264Error::TruncatedLength => "VideoToolbox returned a truncated AVCC length"@,
            H264Error::InvalidNal => "VideoToolbox returned an invalid AVCC NAL unit"@,
        }
    }

    /// What to tell the user.
    pub fn message(&self) -> (text: &'static str)
        ensures
            text@ == self.message_text(),
    {
        match self {
            H264Error::NotAnnexB => "H.264 frame is not Annex B",
            H264Error::NoNals => "H.264 frame contains no NAL units",
            H264Error::NalTooLong => "H.264 NAL unit exceeds AVCC limits",
            H264Error::NothingDecodable => "H.264 frame contains no decodable NAL units",
            H264Error::TruncatedLength => "VideoToolbox returned a truncated AVCC length",
            H264Error::InvalidNal => "VideoToolbox returned an invalid AVCC NAL unit",
        }
    }
}

/// The kind of a unit, from its first byte.
pub open spec fn nal_type(nal: Seq<u8>) -> u8 {
    nal[0] % 32
}

/// The length of the start code at a position: three or four bytes, or none.
pub open spec fn start_code_at(data: Seq<u8>, at: int) -> int {
    if at + 3 <= data.len() && data[at] == 0 && data[at + 1] == 0 && data[at + 2] == 1 {
        3
    } else if at + 4 <= data.len() && data[at] == 0 && data[at + 1] == 0 && data[at + 2] == 0
        && data[at + 3] == 1 {
        4
    } else {
        0
    }
}

/// The first start code from `from` on: where it stands, and its length.
pub open spec fn next_start_code(data: Seq<u8>, from: int) -> Option<(int, int)>
    decreases data.len() - from,
{
    if from + 3 > data.len() {
        None
    } else if start_code_at(data, from) > 0 {
        Some((from, start_code_at(data, from)))
    } else {
        next_start_code(data, from + 1)
    }
}

/// The units of a picture from `start` on, where the first of them begins. Empty ones
/// are left out.
pub open spec fn nals_from(data: Seq<u8>, start: int) -> Seq<Seq<u8>>
    decreases data.len() - start,
{
    let next = next_start_code(data, start);
    let end = match next {
        Some((at, _)) => at,
        None => data.len() as int,
    };
    let first = if end > start {
        seq![data.subrange(start, end)]
    } else {
        Seq::empty()
    };
    match next {
        Some((at, len)) => if at >= start && len > 0 && at + len <= data.len() {
            first + nals_from(data, at + len)
        } else {
            first
        },
        None => first,
    }
}

/// The units of a picture in Annex B form, or why there are none.
pub open spec fn annex_b_units(data: Seq<u8>) -> Result<Seq<Seq<u8>>, H264Error> {
    match next_start_code(data, 0) {
        None => Err(H264Error::NotAnnexB),
        Some((at, len)) => if nals_from(data, at + len).len() == 0 {
            Err(H264Error::NoNals)
        } else {
            Ok(nals_from(data, at + len))
        },
    }
}

/// What borrowed units hold.
pub open spec fn nal_views(nals: Seq<&[u8]>) -> Seq<Seq<u8>> {
    nals.map_values(|nal: &[u8]| nal@)
}

proof fn lemma_next_start_code(data: Seq<u8>, from: int)
    requires
        0 <= from,
    ensures
        match next_start_code(data, from) {
            Some((at, len)) => {
                &&& from <= at
                &&& len == start_code_at(data, at)
                &&& 3 <= len <= 4
                &&& at + len <= data.len()
            },
            None => true,
        },
    decreases data.len() - from,
{
    if from + 3 <= data.len() && start_code_at(data, from) == 0 {
        lemma_next_start_code(data, from + 1);
    }
}

/// The first start code from `from` on: where it stands, and its length.
pub fn find_start_code(data: &[u8], from: usize) -> (found: Option<(usize, usize)>)
    ensures
        match found {
            Some((at, len)) => {
                &&& next_start_code(data@, from as int) == Some((at as int, len as int))
                &&& from <= at
                &&& 3 <= len <= 4
                &&& at + len <= data@.len()
            },
            None => next_start_code(data@, from as int) is None,
        },
{
    let mut position: usize = from;
    while position < data.len() && data.len() - position >= 3
        invariant
            from <= position,
            data@.len() == data.len(),
            next_start_code(data@, position as int) == next_start_code(data@, from as int),
        decreases data.len() - position,
    {
        proof {
            lemma_next_start_code(data@, position as int);
        }
        if data[position] == 0 && data[position + 1] == 0 {
            if data[position + 2] == 1 {
                return Some((position, 3));
            }
            if data.len() - position >= 4 && data[position + 2] == 0 && data[position + 3] == 1 {
                return Some((position, 4));
            }
        }
        position += 1;
    }
    None
}

/// The units of a picture in Annex B form.
pub fn annex_b_nals<'a>(data: &'a [u8]) -> (outcome: Result<Vec<&'a [u8]>, H264Error>)
    ensures
        match outcome {
            Ok(nals) => {
                &&& annex_b_units(data@) == Ok::<_, H264Error>(nal_views(nals@))
                &&& forall|i: int| 0 <= i < nals@.len() ==> (#[trigger] nals@[i])@.len() > 0
            },
            Err(error) => annex_b_units(data@) == Err::<Seq<Seq<u8>>, _>(error),
        },
{
    let (at, len): (usize, usize) = match find_start_code(data, 0) {
        Some(found) => found,
        None => return Err(H264Error::NotAnnexB),
    };
    let ghost first = at + len;
    assert(data.len() == data@.len());
    let mut nals: Vec<&'a [u8]> = Vec::new();
    let mut start: usize = at + len;
    assert(nal_views(nals@) =~= Seq::empty());
    assert(nal_views(nals@) + nals_from(data@, first) =~= nals_from(data@, first));
    loop
        invariant_except_break
            nal_views(nals@) + nals_from(data@, start as int) == nals_from(data@, first),
        invariant
            start <= data@.len(),
            data@.len() == data.len(),
            forall|i: int| 0 <= i < nals@.len() ==> (#[trigger] nals@[i])@.len() > 0,
        ensures
            nal_views(nals@) == nals_from(data@, first),
        decreases data@.len() - start,
    {
        let next = find_start_code(data, start);
        let end: usize = match next {
            Some((position, _)) => position,
            None => data.len(),
        };
        let ghost before = nals@;
        if end > start {
            let nal = vstd::slice::slice_subrange(data, start, end);
            nals.push(nal);
            assert(nal_views(nals@) =~= nal_views(before) + seq![nal@]);
        } else {
            assert(nal_views(nals@) =~= nal_views(before) + Seq::empty());
        }
        match next {
            Some((position, prefix)) => {
                proof {
                    let ghost rest = nals_from(data@, position + prefix);
                    let ghost here = if end > start {
                        seq![data@.subrange(start as int, end as int)]
                    } else {
                        Seq::empty()
                    };
                    assert(nals_from(data@, start as int) == here + rest);
                    assert(nal_views(before) + (here + rest) =~= nal_views(before) + here + rest);
                }
                start = position + prefix;
            },
            None => {
                break;
            },
        }
    }
    if nals.len() == 0 {
        Err(H264Error::NoNals)
    } else {
        Ok(nals)
    }
}

/// The first unit of a kind.
pub open spec fn first_of_type(nals: Seq<Seq<u8>>, kind: u8) -> Option<Seq<u8>>
    decreases nals.len(),
{
    if nals.len() == 0 {
        None
    } else if nals[0].len() > 0 && nal_type(nals[0]) == kind {
        Some(nals[0])
    } else {
        first_of_type(nals.skip(1), kind)
    }
}

fn find_of_type(nals: &Vec<&[u8]>, kind: u8) -> (found: Option<usize>)
    ensures
        match found {
            Some(i) => i < nals@.len() && first_of_type(nal_views(nals@), kind) == Some(
                nals@[i as int]@,
            ),
            None => first_of_type(nal_views(nals@), kind) is None,
        },
{
    let ghost views = nal_views(nals@);
    let mut i: usize = 0;
    assert(views.skip(0) =~= views);
    while i < nals.len()
        invariant
            i <= nals@.len(),
            views == nal_views(nals@),
            first_of_type(views, kind) == first_of_type(views.skip(i as int), kind),
        decreases nals@.len() - i,
    {
        let nal = nals[i];
        assert(views.skip(i as int)[0] == nal@);
        assert(views.skip(i as int).skip(1) =~= views.skip(i + 1));
        if nal.len() > 0 && nal[0] % 32 == kind {
            return Some(i);
        }
        i += 1;
    }
    None
}

/// The parameter sets among the units of a picture, if both are there.
pub fn h264_parameter_sets(nals: &Vec<&[u8]>) -> (sets: Option<(Vec<u8>, Vec<u8>)>)
    ensures
        match sets {
            Some((sps, pps)) => {
                &&& first_of_type(nal_views(nals@), NAL_SPS) == Some(sps@)
                &&& first_of_type(nal_views(nals@), NAL_PPS) == Some(pps@)
            },
            None => first_of_type(nal_views(nals@), NAL_SPS) is None || first_of_type(
                nal_views(nals@),
                NAL_PPS,
            ) is None,
        },
{
    match (find_of_type(nals, NAL_SPS), find_of_type(nals, NAL_PPS)) {
        (Some(sps), Some(pps)) => Some(
            (vstd::slice::slice_to_vec(nals[sps]), vstd::slice::slice_to_vec(nals[pps])),
        ),
        _ => None,
    }
}

/// A unit that is part of the picture: no parameter set and no delimiter.
pub open spec fn is_picture_unit(nal: Seq<u8>) -> bool {
    !(NAL_SPS <= nal_type(nal) <= NAL_AUD)
}

/// Units in AVCC form: each after its length.
pub open spec fn avcc_of(nals: Seq<Seq<u8>>) -> Seq<u8>
    decreases nals.len(),
{
    if nals.len() == 0 {
        Seq::empty()
    } else {
        let init = avcc_of(nals.drop_last());
        if is_picture_unit(nals.last()) {
            init + bytes::be_bytes(nals.last().len(), NAL_LENGTH_BYTES as nat) + nals.last()
        } else {
            init
        }
    }
}

/// A picture unit whose length cannot be written down.
pub open spec fn too_long(nal: Seq<u8>) -> bool {
    is_picture_unit(nal) && nal.len() > u32::MAX
}

/// The units of a picture in AVCC form, or why they cannot be written down.
pub open spec fn avcc_written(nals: Seq<Seq<u8>>) -> Result<Seq<u8>, H264Error> {
    if exists|i: int| 0 <= i < nals.len() && too_long(#[trigger] nals[i]) {
        Err(H264Error::NalTooLong)
    } else if avcc_of(nals).len() == 0 {
        Err(H264Error::NothingDecodable)
    } else {
        Ok(avcc_of(nals))
    }
}

/// The units of a picture in AVCC form, without parameter sets and delimiters.
pub fn annex_b_to_avcc(nals: &Vec<&[u8]>) -> (outcome: Result<Vec<u8>, H264Error>)
    requires
        forall|i: int| 0 <= i < nals@.len() ==> (#[trigger] nals@[i])@.len() > 0,
    ensures
        match avcc_written(nal_views(nals@)) {
            Ok(bytes) => outcome matches Ok(output) && output@ == bytes,
            Err(error) => outcome == Err::<Vec<u8>, _>(error),
        },
{
    let ghost views = nal_views(nals@);
    let mut output: Vec<u8> = Vec::new();
    let mut i: usize = 0;
    assert(views.take(0) =~= Seq::empty());
    while i < nals.len()
        invariant
            i <= nals@.len(),
            views == nal_views(nals@),
            output@ == avcc_of(views.take(i as int)),
            forall|k: int| 0 <= k < nals@.len() ==> (#[trigger] nals@[k])@.len() > 0,
            forall|k: int| 0 <= k < i ==> !too_long(#[trigger] views[k]),
        decreases nals@.len() - i,
    {
        let nal = nals[i];
        assert(views.take(i + 1).drop_last() =~= views.take(i as int));
        assert(views.take(i + 1).last() == nal@);
        let kind: u8 = nal[0] % 32;
        if kind < NAL_SPS || kind > NAL_AUD {
            if nal.len() as u64 > u32::MAX as u64 {
                assert(too_long(views[i as int]));
                return Err(H264Error::NalTooLong);
            }
            push_be(&mut output, nal.len() as u64, NAL_LENGTH_BYTES);
            push_bytes(&mut output, nal);
        }
        i += 1;
    }
    assert(views.take(i as int) =~= views);
    if output.len() == 0 {
        return Err(H264Error::NothingDecodable);
    }
    Ok(output)
}

/// The length of the unit at `at`, or why there is none.
pub open spec fn avcc_length(data: Seq<u8>, at: int) -> Result<int, H264Error> {
    if at + 4 > data.len() {
        Err(H264Error::TruncatedLength)
    } else {
        let length = bytes::be_value(data.subrange(at, at + 4)) as int;
        if length == 0 || at + 4 + length > data.len() {
            Err(H264Error::InvalidNal)
        } else {
            Ok(length)
        }
    }
}

pub fn read_avcc_length(data: &[u8], position: usize) -> (outcome: Result<usize, H264Error>)
    ensures
        match outcome {
            Ok(length) => {
                &&& avcc_length(data@, position as int) == Ok::<int, H264Error>(length as int)
                &&& 0 < length
                &&& position + 4 + length <= data@.len()
            },
            Err(error) => avcc_length(data@, position as int) == Err::<int, _>(error),
        },
{
    if position > data.len() || data.len() - position < 4 {
        return Err(H264Error::TruncatedLength);
    }
    let length: u64 = read_be(data, position, 4);
    if length == 0 || length > (data.len() - position - 4) as u64 {
        return Err(H264Error::InvalidNal);
    }
    Ok(length as usize)
}

/// The units of a picture in AVCC form from `at` on.
pub open spec fn avcc_units(data: Seq<u8>, at: int) -> Result<Seq<Seq<u8>>, H264Error>
    decreases data.len() - at,
{
    if at >= data.len() {
        Ok(Seq::empty())
    } else {
        match avcc_length(data, at) {
            Err(error) => Err(error),
            Ok(length) => if length > 0 {
                match avcc_units(data, at + 4 + length) {
                    Err(error) => Err(error),
                    Ok(rest) => Ok(seq![data.subrange(at + 4, at + 4 + length)] + rest),
                }
            } else {
                Err(H264Error::InvalidNal)
            },
        }
    }
}

/// One of the units starts a picture that needs no other.
pub open spec fn has_idr(nals: Seq<Seq<u8>>) -> bool {
    exists|i: int| 0 <= i < nals.len() && nal_type(#[trigger] nals[i]) == NAL_IDR
}

/// Whether a picture in AVCC form needs no other picture.
pub fn avcc_contains_idr(data: &[u8]) -> (outcome: Result<bool, H264Error>)
    ensures
        match avcc_units(data@, 0) {
            Ok(nals) => outcome == Ok::<bool, H264Error>(has_idr(nals)),
            Err(error) => outcome == Err::<bool, _>(error),
        },
{
    let mut position: usize = 0;
    let mut is_keyframe = false;
    let ghost mut seen: Seq<Seq<u8>> = Seq::empty();
    proof {
        if let Ok(rest) = avcc_units(data@, 0) {
            assert(seen + rest =~= rest);
        }
    }
    while position < data.len()
        invariant
            position <= data@.len(),
            data@.len() == data.len(),
            is_keyframe == has_idr(seen),
            match avcc_units(data@, 0) {
                Ok(all) => avcc_units(data@, position as int) matches Ok(rest) && all == seen + rest,
                Err(error) => avcc_units(data@, position as int) == Err::<Seq<Seq<u8>>, _>(error),
            },
        decreases data@.len() - position,
    {
        let length: usize = match read_avcc_length(data, position) {
            Ok(length) => length,
            Err(error) => return Err(error),
        };
        let ghost nal = data@.subrange(position + 4, position + 4 + length);
        let ghost before = seen;
        position = position + 4;
        assert(nal[0] == data@[position as int]);
        if data[position] % 32 == NAL_IDR {
            is_keyframe = true;
        }
        position = position + length;
        proof {
            seen = before.push(nal);
            assert(has_idr(seen) == (has_idr(before) || nal_type(nal) == NAL_IDR)) by {
                if has_idr(before) {
                    let i = choose|i: int| 0 <= i < before.len() && nal_type(
                        #[trigger] before[i],
                    ) == NAL_IDR;
                    assert(seen[i] == before[i]);
                }
                if nal_type(nal) == NAL_IDR {
                    assert(seen[before.len() as int] == nal);
                }
                if has_idr(seen) {
                    let i = choose|i: int| 0 <= i < seen.len() && nal_type(#[trigger] seen[i])
                        == NAL_IDR;
                    if i < before.len() {
                        assert(seen[i] == before[i]);
                    }
                }
            }
            if let Ok(rest) = avcc_units(data@, position as int) {
                assert(before + (seq![nal] + rest) =~= seen + rest);
            }
        }
    }
    proof {
        if let Ok(all) = avcc_units(data@, 0) {
            assert(seen + Seq::empty() =~= seen);
        }
    }
    Ok(is_keyframe)
}

/// Units in Annex B form: each after a start code of four bytes.
pub open spec fn annex_b_of(nals: Seq<Seq<u8>>) -> Seq<u8>
    decreases nals.len(),
{
    if nals.len() == 0 {
        Seq::empty()
    } else {
        annex_b_of(nals.drop_last()) + seq![0u8, 0u8, 0u8, 1u8] + nals.last()
    }
}

fn append_annex_b_nal(output: &mut Vec<u8>, nal: &[u8])
    ensures
        final(output)@ == old(output)@ + seq![0u8, 0u8, 0u8, 1u8] + nal@,
{
    output.push(0);
    output.push(0);
    output.push(0);
    output.push(1);
    push_bytes(output, nal);
    assert(output@ =~= old(output)@ + seq![0u8, 0u8, 0u8, 1u8] + nal@);
}

/// The units that go on the wire: a picture that needs no other takes the parameter
/// sets with it.
pub open spec fn wire_units(nals: Seq<Seq<u8>>, sets: Option<(Seq<u8>, Seq<u8>)>) -> Seq<Seq<u8>> {
    match sets {
        Some((sps, pps)) => if has_idr(nals) {
            seq![sps, pps] + nals
        } else {
            nals
        },
        None => nals,
    }
}

/// What parameter sets hold.
pub open spec fn set_views(sets: &Option<(Vec<u8>, Vec<u8>)>) -> Option<(Seq<u8>, Seq<u8>)> {
    match sets {
        Some((sps, pps)) => Some((sps@, pps@)),
        None => None,
    }
}

proof fn lemma_annex_b_push(nals: Seq<Seq<u8>>, nal: Seq<u8>)
    ensures
        annex_b_of(nals.push(nal)) == annex_b_of(nals) + seq![0u8, 0u8, 0u8, 1u8] + nal,
{
    assert(nals.push(nal).drop_last() =~= nals);
}

/// A picture in AVCC form, with the parameter sets that the coder gives apart from it,
/// in Annex B form, and whether it needs no other picture.
pub fn avcc_frame_to_annex_b(data: &[u8], sets: &Option<(Vec<u8>, Vec<u8>)>) -> (outcome: Result<
    (Vec<u8>, bool),
    H264Error,
>)
    ensures
        match avcc_units(data@, 0) {
            Ok(nals) => {
                &&& outcome matches Ok((output, is_keyframe))
                &&& output@ == annex_b_of(wire_units(nals, set_views(sets)))
                &&& is_keyframe == has_idr(nals)
            },
            Err(error) => outcome == Err::<(Vec<u8>, bool), _>(error),
        },
{
    let is_keyframe = match avcc_contains_idr(data) {
        Ok(is_keyframe) => is_keyframe,
        Err(error) => return Err(error),
    };
    let ghost all = avcc_units(data@, 0)->Ok_0;
    let mut output: Vec<u8> = Vec::new();
    let ghost mut written: Seq<Seq<u8>> = Seq::empty();
    if is_keyframe {
        match sets {
            Some((sps, pps)) => {
                append_annex_b_nal(&mut output, sps.as_slice());
                append_annex_b_nal(&mut output, pps.as_slice());
                proof {
                    lemma_annex_b_push(Seq::empty(), sps@);
                    lemma_annex_b_push(Seq::empty().push(sps@), pps@);
                    written = seq![sps@, pps@];
                    assert(written =~= Seq::empty().push(sps@).push(pps@));
                    assert(output@ =~= annex_b_of(written));
                }
            },
            None => {},
        }
    }
    let ghost goal = wire_units(all, set_views(sets));
    let mut position: usize = 0;
    assert(written + all =~= goal);
    while position < data.len()
        invariant
            position <= data@.len(),
            data@.len() == data.len(),
            output@ == annex_b_of(written),
            avcc_units(data@, position as int) matches Ok(rest) && written + rest == goal,
        decreases data@.len() - position,
    {
        let length: usize = match read_avcc_length(data, position) {
            Ok(length) => length,
            Err(error) => return Err(error),
        };
        position = position + 4;
        let nal = vstd::slice::slice_subrange(data, position, position + length);
        append_annex_b_nal(&mut output, nal);
        position = position + length;
        proof {
            let ghost before = written;
            lemma_annex_b_push(before, nal@);
            written = before.push(nal@);
            let ghost rest = avcc_units(data@, position as int)->Ok_0;
            assert(before + (seq![nal@] + rest) =~= written + rest);
        }
    }
    assert(written + Seq::empty() =~= written);
    Ok((output, is_keyframe))
}

/// A unit that can stand between start codes: it has a header, and no start code in it.
pub open spec fn is_unit(nal: Seq<u8>) -> bool {
    &&& nal.len() > 0
    &&& forall|i: int|
        0 <= i && i + 3 <= nal.len() ==> !(#[trigger] nal[i] == 0 && nal[i + 1] == 0 && nal[i + 2]
            == 1)
}

proof fn lemma_no_start_code(data: Seq<u8>, from: int, to: int)
    requires
        0 <= from <= to <= data.len(),
        forall|i: int| from <= i < to ==> #[trigger] start_code_at(data, i) == 0,
    ensures
        next_start_code(data, from) == next_start_code(data, to),
    decreases to - from,
{
    if from < to {
        assert(start_code_at(data, from) == 0);
        lemma_no_start_code(data, from + 1, to);
        if from + 3 > data.len() {
            assert(next_start_code(data, to) is None);
        }
    }
}

/// Units in Annex B form, the first of them in front.
proof fn lemma_annex_b_first(nals: Seq<Seq<u8>>)
    requires
        nals.len() > 0,
    ensures
        annex_b_of(nals) == seq![0u8, 0u8, 0u8, 1u8] + nals[0] + annex_b_of(nals.skip(1)),
    decreases nals.len(),
{
    let code = seq![0u8, 0u8, 0u8, 1u8];
    if nals.len() == 1 {
        assert(nals.drop_last() =~= Seq::empty());
        assert(nals.skip(1) =~= Seq::empty());
        reveal_with_fuel(annex_b_of, 2);
        assert(annex_b_of(nals) =~= code + nals[0] + annex_b_of(nals.skip(1)));
    } else {
        lemma_annex_b_first(nals.drop_last());
        assert(nals.skip(1).drop_last() =~= nals.drop_last().skip(1));
        assert(annex_b_of(nals) =~= code + nals[0] + annex_b_of(nals.skip(1)));
    }
}

/// No start code begins in a unit that is followed by the end of the picture or by the
/// zeros of the next start code.
proof fn lemma_no_code_in_unit(data: Seq<u8>, start: int, nal: Seq<u8>)
    requires
        0 <= start,
        start + nal.len() <= data.len(),
        is_unit(nal),
        data.subrange(start, start + nal.len()) == nal,
        start + nal.len() == data.len() || (start + nal.len() + 3 <= data.len() && data[start
            + nal.len()] == 0 && data[start + nal.len() + 1] == 0 && data[start + nal.len() + 2]
            == 0),
    ensures
        next_start_code(data, start) == next_start_code(data, start + nal.len()),
{
    let end = start + nal.len();
    assert forall|i: int| start <= i < end implies #[trigger] data[i] == nal[i - start] by {
        assert(data.subrange(start, end)[i - start] == nal[i - start]);
    }
    assert forall|i: int| start <= i < end implies #[trigger] start_code_at(data, i) == 0 by {
        assert(data[i] == nal[i - start]);
        if i + 3 <= end {
            assert(data[i + 1] == nal[i + 1 - start]);
            assert(data[i + 2] == nal[i + 2 - start]);
        }
        if i + 4 <= end {
            assert(nal[i + 1 - start] == data[i + 1]);
            assert(data[i + 3] == nal[i + 3 - start]);
        }
    }
    lemma_no_start_code(data, start, end);
}

/// Where the first unit stands in Annex B form, and what stands after it.
proof fn lemma_first_unit_placed(data: Seq<u8>, at: int, nals: Seq<Seq<u8>>)
    requires
        0 <= at <= data.len(),
        nals.len() > 0,
        data.skip(at) == annex_b_of(nals),
    ensures
        at + 4 + nals[0].len() <= data.len(),
        start_code_at(data, at) == 4,
        data[at] == 0 && data[at + 1] == 0 && data[at + 2] == 0,
        data.subrange(at + 4, at + 4 + nals[0].len()) == nals[0],
        data.skip(at + 4 + nals[0].len()) == annex_b_of(nals.skip(1)),
{
    let code = seq![0u8, 0u8, 0u8, 1u8];
    let nal = nals[0];
    let rest = annex_b_of(nals.skip(1));
    lemma_annex_b_first(nals);
    let whole = code + nal + rest;
    assert(data.len() == at + whole.len());
    assert forall|k: int| 0 <= k < whole.len() implies #[trigger] data[at + k] == whole[k] by {
        assert(data.skip(at)[k] == whole[k]);
    }
    assert(data[at + 0] == 0 && data[at + 1] == 0 && data[at + 2] == 0 && data[at + 3] == 1);
    assert forall|k: int| 0 <= k < nal.len() implies data.subrange(
        at + 4,
        at + 4 + nal.len(),
    )[k] == nal[k] by {
        assert(data[at + (4 + k)] == whole[4 + k]);
    }
    assert(data.subrange(at + 4, at + 4 + nal.len()) =~= nal);
    assert forall|k: int| 0 <= k < rest.len() implies data.skip(at + 4 + nal.len())[k]
        == rest[k] by {
        assert(data[at + (4 + nal.len() + k)] == whole[4 + nal.len() + k]);
    }
    assert(data.skip(at + 4 + nal.len()) =~= rest);
}

proof fn lemma_nals_of_annex_b(data: Seq<u8>, at: int, nals: Seq<Seq<u8>>)
    requires
        0 <= at <= data.len(),
        nals.len() > 0,
        forall|i: int| 0 <= i < nals.len() ==> is_unit(#[trigger] nals[i]),
        data.skip(at) == annex_b_of(nals),
    ensures
        start_code_at(data, at) == 4,
        nals_from(data, at + 4) == nals,
    decreases nals.len(),
{
    let nal = nals[0];
    let rest = nals.skip(1);
    let start = at + 4;
    let end = start + nal.len();
    lemma_first_unit_placed(data, at, nals);
    assert(is_unit(nal));
    if rest.len() > 0 {
        assert forall|i: int| 0 <= i < rest.len() implies is_unit(#[trigger] rest[i]) by {
            assert(rest[i] == nals[i + 1]);
        }
        lemma_first_unit_placed(data, end, rest);
        lemma_nals_of_annex_b(data, end, rest);
        lemma_no_code_in_unit(data, start, nal);
        assert(next_start_code(data, start) == Some((end, 4int)));
        assert(nals_from(data, start) == seq![nal] + nals_from(data, end + 4));
        assert(seq![nal] + rest =~= nals);
    } else {
        assert(annex_b_of(rest).len() == 0);
        assert(data.skip(end).len() == 0);
        lemma_no_code_in_unit(data, start, nal);
        assert(next_start_code(data, start) is None);
        assert(nals =~= seq![nal]);
    }
}

/// Units that are written down in Annex B form are read back as they were.
pub proof fn annex_b_round_trip(nals: Seq<Seq<u8>>)
    requires
        nals.len() > 0,
        forall|i: int| 0 <= i < nals.len() ==> is_unit(#[trigger] nals[i]),
    ensures
        annex_b_units(annex_b_of(nals)) == Ok::<_, H264Error>(nals),
{
    let data = annex_b_of(nals);
    assert(data.skip(0) =~= data);
    lemma_nals_of_annex_b(data, 0, nals);
}

/// The units of a picture without parameter sets and delimiters.
pub open spec fn picture_units(nals: Seq<Seq<u8>>) -> Seq<Seq<u8>> {
    nals.filter(|nal: Seq<u8>| is_picture_unit(nal))
}

proof fn lemma_avcc_units_append(data: Seq<u8>, at: int, nal: Seq<u8>)
    requires
        0 <= at <= data.len(),
        avcc_units(data, at) is Ok,
        0 < nal.len() <= u32::MAX,
    ensures
        avcc_units(data + bytes::be_bytes(nal.len(), 4) + nal, at) == Ok::<_, H264Error>(
            avcc_units(data, at)->Ok_0.push(nal),
        ),
    decreases data.len() - at,
{
    let length = bytes::be_bytes(nal.len(), 4);
    let whole = data + length + nal;
    bytes::lemma_be_bytes_len(nal.len(), 4);
    if at == data.len() {
        bytes::lemma_be_ranges();
        bytes::lemma_be_read_write(nal.len(), 4);
        assert(whole.subrange(at, at + 4) =~= length);
        assert(whole.subrange(at + 4, at + 4 + nal.len()) =~= nal);
        assert(avcc_units(whole, whole.len() as int) == Ok::<_, H264Error>(Seq::<Seq<u8>>::empty()));
        assert(seq![nal] + Seq::empty() =~= Seq::empty().push(nal));
    } else {
        let here = avcc_length(data, at)->Ok_0;
        assert(whole.subrange(at, at + 4) =~= data.subrange(at, at + 4));
        assert(whole.subrange(at + 4, at + 4 + here) =~= data.subrange(at + 4, at + 4 + here));
        lemma_avcc_units_append(data, at + 4 + here, nal);
        let rest = avcc_units(data, at + 4 + here)->Ok_0;
        let first = data.subrange(at + 4, at + 4 + here);
        assert((seq![first] + rest).push(nal) =~= seq![first] + rest.push(nal));
    }
}

/// The units of a picture that are written down in AVCC form are read back as they were.
pub proof fn avcc_round_trip(nals: Seq<Seq<u8>>)
    requires
        forall|i: int|
            0 <= i < nals.len() ==> 0 < (#[trigger] nals[i]).len() && !too_long(nals[i]),
    ensures
        avcc_units(avcc_of(nals), 0) == Ok::<_, H264Error>(picture_units(nals)),
    decreases nals.len(),
{
    reveal(Seq::filter);
    if nals.len() == 0 {
        assert(picture_units(nals) =~= Seq::empty());
        assert(avcc_units(Seq::empty(), 0) == Ok::<_, H264Error>(Seq::<Seq<u8>>::empty()));
    } else {
        let init = nals.drop_last();
        assert forall|i: int| 0 <= i < init.len() implies 0 < (#[trigger] init[i]).len()
            && !too_long(init[i]) by {
            assert(init[i] == nals[i]);
        }
        avcc_round_trip(init);
        assert(nals.last() == nals[nals.len() - 1]);
        if is_picture_unit(nals.last()) {
            lemma_avcc_units_append(avcc_of(init), 0, nals.last());
        }
    }
}

} // verus!
