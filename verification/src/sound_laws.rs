//! What becomes of sound between the device that records it and the one that plays it.

use crate::audio;
use crate::audio::{AudioFramer, AudioOrder, FormatRange, PlaybackBuffer};
use crate::config::{AudioConfig, BufferSize, SampleFormat};
use crate::protocol;
use crate::protocol::{AudioFrameView, PacketParseError, PacketView};
use crate::protocol_laws;
use vstd::prelude::*;

verus! {

/// Recorded sound is kept in order for as long as somebody listens, and not at all if not.
pub proof fn recorded_sound_is_kept<T: Copy>(samples: &[T], listener: bool)
    ensures
        forall|framer: &mut AudioFramer<T>| #[trigger]
            call_ensures(AudioFramer::<T>::record, (framer, samples, listener), ()) ==> {
                &&& listener ==> (*final(framer))@.pending == (*framer)@.pending + samples@
                &&& !listener ==> (*final(framer))@.pending.len() == 0
                &&& (*final(framer))@.sequence == (*framer)@.sequence
                &&& (*final(framer))@.timestamp_us == (*framer)@.timestamp_us
            },
{
}

/// Frames are cut from the sound in order, each of the length that was asked for, and nothing
/// of the sound is lost or heard twice.
pub proof fn frames_are_cut_in_order<T: Copy>(frame_len: usize, frame: Option<Vec<T>>)
    ensures
        forall|framer: &mut AudioFramer<T>| #[trigger]
            call_ensures(AudioFramer::<T>::take_frame, (framer, frame_len), frame) ==> match frame {
                Some(frame) => {
                    &&& frame@.len() == frame_len
                    &&& frame@ + (*final(framer))@.pending == (*framer)@.pending
                },
                None => (*framer)@.pending.len() < frame_len && (*final(framer))@ == (*framer)@,
            },
{
    assert forall|framer: &mut AudioFramer<T>| #[trigger]
        call_ensures(
            AudioFramer::<T>::take_frame,
            (framer, frame_len),
            frame,
        ) implies match frame {
        Some(frame) => {
            &&& frame@.len() == frame_len
            &&& frame@ + (*final(framer))@.pending == (*framer)@.pending
        },
        None => (*framer)@.pending.len() < frame_len && (*final(framer))@ == (*framer)@,
    } by {
        if let Some(frame) = frame {
            assert(frame@ + (*final(framer))@.pending =~= (*framer)@.pending);
        }
    }
}

/// A frame is sent with its number and its time: each has the number after that of the frame
/// before, and comes ten milliseconds later.
pub proof fn frames_are_numbered_and_timed<T: Copy>(payload: &[u8], datagram: Vec<u8>)
    requires
        0 < payload@.len() <= 1383,
    ensures
        forall|framer: &mut AudioFramer<T>| #[trigger]
            call_ensures(AudioFramer::<T>::packet, (framer, payload), datagram) ==> {
                &&& protocol::parsed_packet(datagram@) == Ok::<PacketView, PacketParseError>(
                    PacketView::Audio(
                        AudioFrameView {
                            sequence: (*framer)@.sequence,
                            timestamp_us: (*framer)@.timestamp_us,
                            payload: payload@,
                        },
                    ),
                )
                &&& datagram@.len() <= 1400
                &&& (*final(framer))@.sequence == (*framer)@.sequence.wrapping_add(1)
                &&& (*final(framer))@.timestamp_us == (*framer)@.timestamp_us.wrapping_add(10_000)
                &&& (*final(framer))@.pending == (*framer)@.pending
            },
{
    assert forall|framer: &mut AudioFramer<T>| #[trigger]
        call_ensures(AudioFramer::<T>::packet, (framer, payload), datagram) implies {
        &&& protocol::parsed_packet(datagram@) == Ok::<PacketView, PacketParseError>(
            PacketView::Audio(
                AudioFrameView {
                    sequence: (*framer)@.sequence,
                    timestamp_us: (*framer)@.timestamp_us,
                    payload: payload@,
                },
            ),
        )
        &&& datagram@.len() <= 1400
        &&& (*final(framer))@.sequence == (*framer)@.sequence.wrapping_add(1)
        &&& (*final(framer))@.timestamp_us == (*framer)@.timestamp_us.wrapping_add(10_000)
        &&& (*final(framer))@.pending == (*framer)@.pending
    } by {
        let frame = AudioFrameView {
            sequence: (*framer)@.sequence,
            timestamp_us: (*framer)@.timestamp_us,
            payload: payload@,
        };
        protocol_laws::packets_round_trip(PacketView::Audio(frame));
        crate::bytes::lemma_be_bytes_len(frame.sequence as nat, 4);
        crate::bytes::lemma_be_bytes_len(frame.timestamp_us as nat, 8);
    }
}

/// A frame is played if it is the one that is expected or comes after it, by less than half of
/// all numbers; the first one always is.
pub proof fn late_sound_is_not_played(expected: u32, ahead: u32)
    ensures
        (AudioOrder { expected: None }).timely(expected),
        (AudioOrder { expected: Some(expected) }).timely(expected.wrapping_add(ahead)) == (ahead
            < 0x8000_0000),
{
    assert(expected.wrapping_add(ahead).wrapping_sub(expected) == ahead);
}

/// Once a frame was decoded, the next one is expected.
pub proof fn the_next_frame_is_expected(sequence: u32)
    ensures
        forall|order: &mut AudioOrder| #[trigger]
            call_ensures(AudioOrder::decoded, (order, sequence), ()) ==> final(order).expected
                == Some(sequence.wrapping_add(1)),
{
}

/// New sound is played after the sound that waits. Where there is room for all of it nothing
/// is lost; where there is not, the oldest sound goes, and no more of it than a frame of all
/// channels above what has to.
pub proof fn the_newest_sound_is_kept<T: Copy>(samples: &[T], capacity: usize, channels: usize)
    requires
        0 < channels,
        samples@.len() <= capacity,
    ensures
        forall|buffer: &mut PlaybackBuffer<T>| #[trigger]
            call_ensures(PlaybackBuffer::<T>::push, (buffer, samples, capacity, channels), ())
                ==> {
                let before = (*buffer)@.samples;
                let after = (*final(buffer))@.samples;
                let dropped = before.len() + samples@.len() - after.len();
                &&& 0 <= dropped <= before.len()
                &&& after == before.skip(dropped) + samples@
                &&& after.len() <= capacity
                &&& before.len() + samples@.len() <= capacity ==> dropped == 0
                &&& before.len() + samples@.len() > capacity ==> dropped < before.len()
                    + samples@.len() - capacity + channels
                &&& (*final(buffer))@.started == (*buffer)@.started
            },
{
    assert forall|buffer: &mut PlaybackBuffer<T>| #[trigger]
        call_ensures(
            PlaybackBuffer::<T>::push,
            (buffer, samples, capacity, channels),
            (),
        ) implies {
        let before = (*buffer)@.samples;
        let after = (*final(buffer))@.samples;
        let dropped = before.len() + samples@.len() - after.len();
        &&& 0 <= dropped <= before.len()
        &&& after == before.skip(dropped) + samples@
        &&& after.len() <= capacity
        &&& before.len() + samples@.len() <= capacity ==> dropped == 0
        &&& before.len() + samples@.len() > capacity ==> dropped < before.len() + samples@.len()
            - capacity + channels
        &&& (*final(buffer))@.started == (*buffer)@.started
    } by {
        lemma_dropped(
            (*buffer)@.samples.len() as int,
            samples@.len() as int,
            capacity as int,
            channels as int,
        );
    }
}

proof fn lemma_dropped(held: int, added: int, capacity: int, channels: int)
    requires
        0 <= held,
        0 <= added <= capacity,
        0 < channels,
    ensures
        ({
            let dropped = audio::samples_dropped(held, added, capacity, channels);
            &&& 0 <= dropped <= held
            &&& held - dropped + added <= capacity
            &&& held + added <= capacity ==> dropped == 0
            &&& held + added > capacity ==> dropped < held + added - capacity + channels
        }),
{
    let excess = held + added - capacity;
    if excess > 0 {
        let frames = (excess + channels - 1) / channels;
        assert(excess <= frames * channels < excess + channels) by (nonlinear_arith)
            requires
                frames == (excess + channels - 1) / channels,
                channels > 0,
        ;
    }
}

/// Playing starts once enough sound waits, and goes on until there is too little of it to
/// interpolate; what was played is gone, and nothing else.
pub proof fn playing_starts_and_stops<T: Copy>(
    start_frames: usize,
    channels: usize,
    ready: (bool, bool),
    more: bool,
    frames: usize,
)
    requires
        0 < channels,
    ensures
        forall|buffer: &mut PlaybackBuffer<T>| #[trigger]
            call_ensures(PlaybackBuffer::<T>::ready, (buffer, start_frames, channels), ready) ==> {
                let enough = (*buffer)@.samples.len() / (channels as nat) >= start_frames;
                &&& ready.0 == ((*buffer)@.started || enough)
                &&& ready.1 == (!(*buffer)@.started && enough)
                &&& (*final(buffer))@.started == ready.0
                &&& (*final(buffer))@.samples == (*buffer)@.samples
            },
        forall|buffer: &mut PlaybackBuffer<T>| #[trigger]
            call_ensures(PlaybackBuffer::<T>::continues, (buffer, channels), more) ==> {
                &&& more == ((*buffer)@.samples.len() >= 2 * channels)
                &&& !more ==> !(*final(buffer))@.started
                &&& more ==> (*final(buffer))@.started == (*buffer)@.started
                &&& (*final(buffer))@.samples == (*buffer)@.samples
            },
        forall|buffer: &mut PlaybackBuffer<T>| #[trigger]
            call_ensures(PlaybackBuffer::<T>::consume, (buffer, frames, channels), ()) && frames
                * channels <= (*buffer)@.samples.len() ==> (*final(buffer))@.samples
                == (*buffer)@.samples.skip(frames * channels),
        forall|buffer: &mut PlaybackBuffer<T>| #[trigger]
            call_ensures(PlaybackBuffer::<T>::clear, (buffer,), ())
                ==> (*final(buffer))@.samples.len() == 0,
{
}

/// Opus works at five rates, and no others.
pub proof fn opus_works_at_five_rates(rate: u32)
    ensures
        audio::opus_rate(rate) == (rate == 8_000 || rate == 12_000 || rate == 16_000 || rate
            == 24_000 || rate == 48_000),
{
}

/// The device offers sound in this format at this rate.
pub open spec fn is_offered(
    ranges: Seq<FormatRange>,
    channels: u16,
    format: SampleFormat,
    rate: u32,
) -> bool {
    exists|i: int|
        0 <= i < ranges.len() && (#[trigger] ranges[i]).channels == channels
            && ranges[i].sample_format == format && ranges[i].min_rate <= rate
            && rate <= ranges[i].max_rate
}

/// Sound is recorded at the best rate of Opus that the device offers in its format.
pub proof fn the_best_rate_is_taken(
    ranges: &Vec<FormatRange>,
    channels: u16,
    format: SampleFormat,
    choice: Option<(usize, u32)>,
)
    requires
        call_ensures(audio::select_opus_rate, (ranges, channels, format), choice),
    ensures
        choice matches Some((index, rate)) ==> {
            &&& index < ranges@.len()
            &&& ranges@[index as int].channels == channels
            &&& ranges@[index as int].sample_format == format
            &&& ranges@[index as int].min_rate <= rate <= ranges@[index as int].max_rate
            &&& forall|i: int|
                0 <= i < index ==> (#[trigger] ranges@[i]).channels != channels
                    || ranges@[i].sample_format != format || rate < ranges@[i].min_rate || rate
                    > ranges@[i].max_rate
        },
        choice is None == !(is_offered(ranges@, channels, format, 48_000) || is_offered(
            ranges@,
            channels,
            format,
            24_000,
        ) || is_offered(ranges@, channels, format, 16_000) || is_offered(
            ranges@,
            channels,
            format,
            12_000,
        ) || is_offered(ranges@, channels, format, 8_000)),
        is_offered(ranges@, channels, format, 48_000) ==> choice is Some && ({
            let (_, rate) = choice->0;
            rate == 48_000
        }),
        choice matches Some((_, rate)) ==> is_offered(ranges@, channels, format, rate) && (rate
            == 48_000 || rate == 24_000 || rate == 16_000 || rate == 12_000 || rate == 8_000),
        choice matches Some((_, rate)) ==> (rate < 24_000 ==> !is_offered(
            ranges@,
            channels,
            format,
            24_000,
        )) && (rate < 16_000 ==> !is_offered(ranges@, channels, format, 16_000)) && (rate < 12_000
            ==> !is_offered(ranges@, channels, format, 12_000)),
{
    assert forall|rate: u32| #[trigger] audio::no_offer(ranges@, channels, format, rate) implies
        !is_offered(ranges@, channels, format, rate) by {
        if is_offered(ranges@, channels, format, rate) {
            let i = choose|i: int|
                0 <= i < ranges@.len() && (#[trigger] ranges@[i]).channels == channels
                    && ranges@[i].sample_format == format && ranges@[i].min_rate <= rate && rate
                    <= ranges@[i].max_rate;
            assert(ranges@[i].offers(channels, format, rate));
        }
    }
    if let Some((index, rate)) = choice {
        assert forall|i: int| 0 <= i < index implies (#[trigger] ranges@[i]).channels != channels
            || ranges@[i].sample_format != format || rate < ranges@[i].min_rate || rate
            > ranges@[i].max_rate by {
            assert(!ranges@[i].offers(channels, format, rate));
        }
        assert(ranges@[index as int].offers(channels, format, rate));
        assert(is_offered(ranges@, channels, format, rate));
        assert(rate < 48_000 ==> audio::no_offer(ranges@, channels, format, 48_000));
        assert(rate < 24_000 ==> audio::no_offer(ranges@, channels, format, 24_000));
        assert(rate < 16_000 ==> audio::no_offer(ranges@, channels, format, 16_000));
        assert(rate < 12_000 ==> audio::no_offer(ranges@, channels, format, 12_000));
    } else {
        assert(audio::no_offer(ranges@, channels, format, 48_000));
        assert(audio::no_offer(ranges@, channels, format, 24_000));
        assert(audio::no_offer(ranges@, channels, format, 16_000));
        assert(audio::no_offer(ranges@, channels, format, 12_000));
        assert(audio::no_offer(ranges@, channels, format, 8_000));
    }
}

/// Sound is played in a format of as many channels, at its own rate if the device has it in
/// any of them, and at the device's highest one of that format if not.
pub proof fn sound_is_played_at_its_rate(
    ranges: &Vec<FormatRange>,
    channels: u16,
    rate: u32,
    choice: Option<usize>,
    other: int,
    chosen: u32,
)
    requires
        call_ensures(audio::nearest_range, (ranges, channels, rate), choice),
        rate <= i32::MAX,
        0 <= other < ranges@.len(),
        ranges@[other].channels == channels,
        ranges@[other].min_rate <= rate <= ranges@[other].max_rate <= i32::MAX,
        choice matches Some(index) ==> ranges@[index as int].min_rate
            <= ranges@[index as int].max_rate <= i32::MAX && call_ensures(
            audio::output_rate,
            (ranges@[index as int], rate),
            chosen,
        ),
    ensures
        choice is Some,
        choice->0 < ranges@.len(),
        ranges@[choice->0 as int].channels == channels,
        chosen == rate,
{
    assert(audio::rate_distance(ranges@[other], rate) == 0);
    let index = choice->0 as int;
    let range = ranges@[index];
    assert(audio::rate_distance(range, rate) <= 0);
    assert(audio::signed_rate(range.max_rate) == range.max_rate);
    assert(audio::signed_rate(range.min_rate) == range.min_rate);
}

/// What a host tells its viewer of its sound: that it comes from Opus, its rate, and one or
/// two channels.
pub proof fn hosts_describe_their_sound(
    sample_rate: u32,
    channels: u16,
    buffer_size: BufferSize,
    config: AudioConfig,
)
    requires
        call_ensures(audio::session_audio, (sample_rate, channels, buffer_size), config),
    ensures
        config.sample_format@ == "opus_f32"@,
        config.sample_rate == sample_rate,
        config.channels == if channels == 1 {
            1u16
        } else {
            2u16
        },
        config.buffer_size == buffer_size,
{
}

/// A frame of so many milliseconds has the samples of that time, for each channel.
pub proof fn frames_have_their_length(kilohertz: u32, channels: u16, milliseconds: int)
    requires
        kilohertz <= 4_000_000,
        0 <= milliseconds,
    ensures
        audio::samples_in((kilohertz * 1000) as u32, channels, milliseconds) == kilohertz
            * milliseconds * channels,
{
    let rate = (kilohertz * 1000) as u32;
    assert(rate * milliseconds / 1000 == kilohertz * milliseconds) by (nonlinear_arith)
        requires
            rate == kilohertz * 1000,
            milliseconds >= 0,
    ;
}

/// How far a rate is from those of a range.
pub open spec fn off_by(range: FormatRange, rate: u32) -> int {
    if rate < range.min_rate {
        range.min_rate - rate
    } else if rate > range.max_rate {
        rate - range.max_rate
    } else {
        0
    }
}

/// Where no range has the rate, one of those that come closest to it is taken.
pub proof fn the_closest_range_is_taken(
    ranges: &Vec<FormatRange>,
    channels: u16,
    rate: u32,
    index: usize,
    other: int,
)
    requires
        call_ensures(audio::nearest_range, (ranges, channels, rate), Some(index)),
        rate <= 0x7fff_ffff,
        0 <= other < ranges@.len(),
        ranges@[other].channels == channels,
        ranges@[other].min_rate <= ranges@[other].max_rate <= 0x7fff_ffff,
        ranges@[index as int].min_rate <= ranges@[index as int].max_rate <= 0x7fff_ffff,
    ensures
        off_by(ranges@[index as int], rate) <= off_by(ranges@[other], rate),
        other < index ==> off_by(ranges@[index as int], rate) < off_by(ranges@[other], rate),
{
    rates_have_distances(ranges@[other], rate);
    rates_have_distances(ranges@[index as int], rate);
}

/// A rate is as far from a range as from the nearer of its ends, and rates are compared as
/// signed numbers.
pub proof fn rates_have_distances(range: FormatRange, rate: u32)
    ensures
        rate <= 0x7fff_ffff && range.min_rate <= range.max_rate <= 0x7fff_ffff
            ==> audio::rate_distance(range, rate) == off_by(range, rate),
        rate <= 0x7fff_ffff ==> audio::signed_rate(rate) == rate,
        rate > 0x7fff_ffff ==> audio::signed_rate(rate) == rate - 0x1_0000_0000,
{
}

} // verus!
