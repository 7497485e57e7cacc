//! Recording and playing sound.
//!
//! Opus works on frames of a few milliseconds and at few rates. What a sample is does not
//! matter here: the functions work on samples of any type.

use crate::config::{AudioConfig, BufferSize, SampleFormat};
use crate::protocol;
use crate::protocol::{AudioFrame, AudioFrameView, Packet, PacketView};
use std::collections::VecDeque;
use vstd::prelude::*;

verus! {

/// The milliseconds of sound in a frame that a desktop host sends.
pub const OPUS_FRAME_MS: usize = 10;

/// The milliseconds of sound in a frame that a recording sends.
pub const RECORD_FRAME_MS: usize = 20;

pub const PLAYBACK_BUFFER_MS: usize = 100;

pub const PLAYBACK_START_MS: usize = 30;

/// The milliseconds of sound that a connected player keeps.
pub const MAX_BUFFER_MS: u32 = 250;

pub const MAX_RETRIES: usize = 3;

/// The bytes that a recording gives Opus for a frame at first.
pub const OUTPUT_BYTES: usize = 2048;

/// A rate that Opus can work at.
pub open spec fn opus_rate(rate: u32) -> bool {
    rate == 48_000 || rate == 24_000 || rate == 16_000 || rate == 12_000 || rate == 8_000
}

pub fn is_opus_rate(rate: u32) -> (yes: bool)
    ensures
        yes == opus_rate(rate),
{
    rate == 48_000 || rate == 24_000 || rate == 16_000 || rate == 12_000 || rate == 8_000
}

/// A format that a device offers, at any rate of a range.
#[derive(Clone, Copy, Debug, PartialEq, Eq, Structural)]
pub struct FormatRange {
    pub channels: u16,
    pub sample_format: SampleFormat,
    pub min_rate: u32,
    pub max_rate: u32,
}

impl FormatRange {
    /// The device offers this format at this rate.
    pub open spec fn offers(self, channels: u16, format: SampleFormat, rate: u32) -> bool {
        &&& self.channels == channels
        &&& self.sample_format == format
        &&& self.min_rate <= rate <= self.max_rate
    }
}

/// A range, and it is the first, that offers a format at a rate.
pub open spec fn first_offer(
    ranges: Seq<FormatRange>,
    channels: u16,
    format: SampleFormat,
    rate: u32,
    index: int,
) -> bool {
    &&& 0 <= index < ranges.len()
    &&& ranges[index].offers(channels, format, rate)
    &&& forall|i: int| 0 <= i < index ==> !(#[trigger] ranges[i]).offers(channels, format, rate)
}

/// No range offers a format at a rate.
pub open spec fn no_offer(
    ranges: Seq<FormatRange>,
    channels: u16,
    format: SampleFormat,
    rate: u32,
) -> bool {
    forall|i: int| 0 <= i < ranges.len() ==> !(#[trigger] ranges[i]).offers(channels, format, rate)
}

/// No range offers a format at a rate of Opus above the given one.
pub open spec fn none_above(
    ranges: Seq<FormatRange>,
    channels: u16,
    format: SampleFormat,
    rate: u32,
) -> bool {
    forall|higher: u32|
        opus_rate(higher) && rate < higher ==> #[trigger] no_offer(
            ranges,
            channels,
            format,
            higher,
        )
}

fn find_offer(ranges: &Vec<FormatRange>, channels: u16, format: SampleFormat, rate: u32) -> (index:
    Option<usize>)
    ensures
        match index {
            Some(index) => first_offer(ranges@, channels, format, rate, index as int),
            None => no_offer(ranges@, channels, format, rate),
        },
{
    let mut i: usize = 0;
    while i < ranges.len()
        invariant
            i <= ranges@.len(),
            forall|k: int| 0 <= k < i ==> !(#[trigger] ranges@[k]).offers(channels, format, rate),
        decreases ranges@.len() - i,
    {
        let range = ranges[i];
        if range.channels == channels && range.sample_format == format && range.min_rate <= rate
            && rate <= range.max_rate {
            return Some(i);
        }
        i += 1;
    }
    None
}

/// The range and the rate at which to record for Opus, where a device does not record at a
/// rate of Opus by itself: the highest rate that it offers in its own format, and the
/// first range that has it.
pub fn select_opus_rate(ranges: &Vec<FormatRange>, channels: u16, format: SampleFormat) -> (choice:
    Option<(usize, u32)>)
    ensures
        match choice {
            Some((index, rate)) => {
                &&& opus_rate(rate)
                &&& first_offer(ranges@, channels, format, rate, index as int)
                &&& none_above(ranges@, channels, format, rate)
            },
            None => none_above(ranges@, channels, format, 0),
        },
{
    if let Some(index) = find_offer(ranges, channels, format, 48_000) {
        return Some((index, 48_000));
    }
    if let Some(index) = find_offer(ranges, channels, format, 24_000) {
        return Some((index, 24_000));
    }
    if let Some(index) = find_offer(ranges, channels, format, 16_000) {
        return Some((index, 16_000));
    }
    if let Some(index) = find_offer(ranges, channels, format, 12_000) {
        return Some((index, 12_000));
    }
    match find_offer(ranges, channels, format, 8_000) {
        Some(index) => Some((index, 8_000)),
        None => None,
    }
}

/// The number of channels that are sent.
pub open spec fn channels_sent(channels: u16) -> u16 {
    if channels == 1 {
        1
    } else {
        2
    }
}

pub fn encoded_channels(channels: u16) -> (encoded: u16)
    ensures
        encoded == channels_sent(channels),
{
    if channels == 1 {
        1
    } else {
        2
    }
}

pub open spec fn channel_name(channels: u16) -> Seq<char> {
    if channels == 1 {
        "mono"@
    } else {
        "stereo"@
    }
}

pub fn channel_label(channels: u16) -> (label: &'static str)
    ensures
        label@ == channel_name(channels),
{
    if channels == 1 {
        "mono"
    } else {
        "stereo"
    }
}

/// The bits per second that Opus may use.
pub fn opus_bitrate(channels: u16) -> (bits: i32)
    ensures
        bits == if channels == 1 {
            64_000i32
        } else {
            128_000i32
        },
{
    if channels == 1 {
        64_000
    } else {
        128_000
    }
}

/// What a host tells its viewer of the sound that it sends.
pub fn session_audio(sample_rate: u32, channels: u16, buffer_size: BufferSize) -> (config:
    AudioConfig)
    ensures
        config.sample_format@ == "opus_f32"@,
        config.sample_rate == sample_rate,
        config.channels == channels_sent(channels),
        config.buffer_size == buffer_size,
{
    AudioConfig {
        sample_format: "opus_f32".to_owned(),
        sample_rate,
        channels: encoded_channels(channels),
        buffer_size,
    }
}

/// The samples of so many milliseconds of sound, all channels together. The number of
/// samples of one channel is rounded down.
pub open spec fn samples_in(sample_rate: u32, channels: u16, milliseconds: int) -> int {
    (sample_rate * milliseconds / 1000) * channels
}

/// The samples of so many milliseconds of sound, all channels together.
pub fn frame_len(sample_rate: u32, channels: u16, milliseconds: usize) -> (samples: usize)
    requires
        sample_rate * milliseconds <= usize::MAX,
        samples_in(sample_rate, channels, milliseconds as int) <= usize::MAX,
    ensures
        samples == samples_in(sample_rate, channels, milliseconds as int),
{
    (sample_rate as usize * milliseconds / 1000) * channels as usize
}

/// Cuts recorded sound into frames, and numbers them.
pub struct AudioFramer<T> {
    pending: Vec<T>,
    sequence: u32,
    timestamp_us: u64,
}

/// What a framer holds.
#[verifier::ext_equal]
pub struct AudioFramerView<T> {
    pub pending: Seq<T>,
    pub sequence: u32,
    pub timestamp_us: u64,
}

impl<T> View for AudioFramer<T> {
    type V = AudioFramerView<T>;

    closed spec fn view(&self) -> AudioFramerView<T> {
        AudioFramerView {
            pending: self.pending@,
            sequence: self.sequence,
            timestamp_us: self.timestamp_us,
        }
    }
}

impl<T: Copy> AudioFramer<T> {
    pub fn new() -> (framer: Self)
        ensures
            framer@ == (AudioFramerView::<T> {
                pending: Seq::empty(),
                sequence: 0,
                timestamp_us: 0,
            }),
    {
        AudioFramer { pending: Vec::new(), sequence: 0, timestamp_us: 0 }
    }

    /// Sound was recorded. Without a listener nothing is kept.
    pub fn record(&mut self, samples: &[T], listener: bool)
        ensures
            final(self)@ == (AudioFramerView {
                pending: if listener {
                    old(self)@.pending + samples@
                } else {
                    Seq::empty()
                },
                ..old(self)@
            }),
    {
        if !listener {
            self.pending.clear();
            return;
        }
        let mut i: usize = 0;
        while i < samples.len()
            invariant
                i <= samples@.len(),
                self@ == (AudioFramerView {
                    pending: old(self)@.pending + samples@.take(i as int),
                    ..old(self)@
                }),
            decreases samples@.len() - i,
        {
            assert(samples@.take(i + 1) =~= samples@.take(i as int).push(samples@[i as int]));
            self.pending.push(samples[i]);
            assert(self@.pending =~= old(self)@.pending + samples@.take(i + 1));
            i += 1;
        }
        assert(samples@.take(i as int) =~= samples@);
    }

    /// The next frame, once there is enough sound for it.
    pub fn take_frame(&mut self, frame_len: usize) -> (frame: Option<Vec<T>>)
        ensures
            match frame {
                Some(frame) => {
                    &&& old(self)@.pending.len() >= frame_len
                    &&& frame@ == old(self)@.pending.take(frame_len as int)
                    &&& final(self)@ == (AudioFramerView {
                        pending: old(self)@.pending.skip(frame_len as int),
                        ..old(self)@
                    })
                },
                None => old(self)@.pending.len() < frame_len && final(self)@ == old(self)@,
            },
    {
        if self.pending.len() < frame_len {
            return None;
        }
        let mut rest = self.pending.split_off(frame_len);
        std::mem::swap(&mut rest, &mut self.pending);
        assert(rest@ =~= old(self)@.pending.take(frame_len as int));
        assert(self.pending@ =~= old(self)@.pending.skip(frame_len as int));
        Some(rest)
    }

    /// The datagram for an encoded frame.
    pub fn packet(&mut self, payload: &[u8]) -> (datagram: Vec<u8>)
        ensures
            datagram@ == protocol::encode_packet(
                PacketView::Audio(
                    AudioFrameView {
                        sequence: old(self)@.sequence,
                        timestamp_us: old(self)@.timestamp_us,
                        payload: payload@,
                    },
                ),
            ),
            final(self)@ == (AudioFramerView {
                sequence: old(self)@.sequence.wrapping_add(1),
                timestamp_us: old(self)@.timestamp_us.wrapping_add(10_000),
                ..old(self)@
            }),
    {
        let mut datagram: Vec<u8> = Vec::new();
        Packet::Audio(
            AudioFrame { sequence: self.sequence, timestamp_us: self.timestamp_us, payload },
        ).encode(&mut datagram);
        self.sequence = self.sequence.wrapping_add(1);
        self.timestamp_us = self.timestamp_us.wrapping_add((OPUS_FRAME_MS * 1000) as u64);
        datagram
    }
}

/// Which frames of sound are still to come.
#[derive(Clone, Copy, Debug, PartialEq, Eq, Structural)]
pub struct AudioOrder {
    pub expected: Option<u32>,
}

impl AudioOrder {
    /// A frame is expected, or later than expected: less than half of all numbers ahead.
    pub open spec fn timely(self, sequence: u32) -> bool {
        match self.expected {
            None => true,
            Some(expected) => sequence.wrapping_sub(expected) <= u32::MAX / 2,
        }
    }

    pub fn new() -> (order: Self)
        ensures
            order.expected is None,
    {
        AudioOrder { expected: None }
    }

    /// Whether to play a frame.
    pub fn admits(&self, sequence: u32) -> (play: bool)
        ensures
            play == self.timely(sequence),
    {
        match self.expected {
            None => true,
            Some(expected) => sequence.wrapping_sub(expected) <= u32::MAX / 2,
        }
    }

    /// A frame was decoded.
    pub fn decoded(&mut self, sequence: u32)
        ensures
            final(self).expected == Some(sequence.wrapping_add(1)),
    {
        self.expected = Some(sequence.wrapping_add(1));
    }
}

/// After a frame its successor is played, and neither the frame again nor the one before it.
pub proof fn sound_is_played_in_order(sequence: u32)
    ensures
        ({
            let order = AudioOrder { expected: Some(sequence.wrapping_add(1)) };
            &&& order.timely(sequence.wrapping_add(1))
            &&& !order.timely(sequence)
            &&& !order.timely(sequence.wrapping_sub(1))
        }),
{
}

/// Sound that waits to be played.
pub struct PlaybackBuffer<T> {
    samples: VecDeque<T>,
    started: bool,
}

/// What a buffer holds.
#[verifier::ext_equal]
pub struct PlaybackView<T> {
    pub samples: Seq<T>,
    pub started: bool,
}

impl<T> View for PlaybackBuffer<T> {
    type V = PlaybackView<T>;

    closed spec fn view(&self) -> PlaybackView<T> {
        PlaybackView { samples: self.samples@, started: self.started }
    }
}

/// How many samples have to go so that as many as `added` find room: as few as will do, but
/// frames of all channels stay whole.
pub open spec fn samples_dropped(held: int, added: int, capacity: int, channels: int) -> int {
    let excess = held + added - capacity;
    if excess <= 0 {
        0
    } else {
        let whole = (excess + channels - 1) / channels * channels;
        if whole <= held {
            whole
        } else {
            held
        }
    }
}

proof fn lemma_drop_step(held: int, added: int, capacity: int, channels: int)
    requires
        0 <= held,
        0 <= added <= capacity,
        0 < channels,
        held + added > capacity,
    ensures
        held >= channels ==> samples_dropped(held, added, capacity, channels) == channels
            + samples_dropped(held - channels, added, capacity, channels),
        held < channels ==> samples_dropped(held, added, capacity, channels) == held,
        0 < samples_dropped(held, added, capacity, channels) <= held,
        samples_dropped(0, added, capacity, channels) == 0,
{
    let excess = held + added - capacity;
    let frames = (excess + channels - 1) / channels;
    assert(frames >= 1 && frames * channels >= excess) by (nonlinear_arith)
        requires
            frames == (excess + channels - 1) / channels,
            excess >= 1,
            channels > 0,
    ;
    assert(frames * channels >= channels) by (nonlinear_arith)
        requires
            frames >= 1,
            channels > 0,
    ;
    if held >= channels {
        let rest = excess - channels;
        if rest <= 0 {
            assert(frames == 1) by (nonlinear_arith)
                requires
                    frames == (excess + channels - 1) / channels,
                    1 <= excess <= channels,
            ;
            assert(frames * channels == channels) by (nonlinear_arith)
                requires
                    frames == 1,
            ;
        } else {
            assert((rest + channels - 1) / channels == frames - 1) by (nonlinear_arith)
                requires
                    frames == (excess + channels - 1) / channels,
                    rest == excess - channels,
                    channels > 0,
            ;
            assert((frames - 1) * channels == frames * channels - channels) by (nonlinear_arith);
        }
    }
}

impl<T: Copy> PlaybackBuffer<T> {
    pub fn new() -> (buffer: Self)
        ensures
            buffer@ == (PlaybackView::<T> { samples: Seq::empty(), started: false }),
    {
        PlaybackBuffer { samples: VecDeque::new(), started: false }
    }

    pub fn len(&self) -> (len: usize)
        ensures
            len == self@.samples.len(),
    {
        self.samples.len()
    }

    pub fn samples(&self) -> (samples: &VecDeque<T>)
        ensures
            samples@ == self@.samples,
    {
        &self.samples
    }

    /// Sound was decoded. Where there is no room for it, the oldest sound goes.
    pub fn push(&mut self, samples: &[T], capacity: usize, channels: usize)
        requires
            0 < channels,
            samples@.len() <= capacity,
        ensures
            final(self)@ == (PlaybackView {
                samples: old(self)@.samples.skip(
                    samples_dropped(
                        old(self)@.samples.len() as int,
                        samples@.len() as int,
                        capacity as int,
                        channels as int,
                    ),
                ) + samples@,
                ..old(self)@
            }),
    {
        let ghost first = self.samples@;
        let ghost total = samples_dropped(
            first.len() as int,
            samples@.len() as int,
            capacity as int,
            channels as int,
        );
        let ghost mut gone: int = 0;
        assert(first.skip(0) =~= first);
        while self.samples.len() > capacity - samples.len()
            invariant
                0 < channels,
                samples@.len() == samples.len(),
                samples@.len() <= capacity,
                0 <= gone <= first.len(),
                self.samples@ == first.skip(gone),
                self.started == old(self).started,
                total == gone + samples_dropped(
                    self.samples@.len() as int,
                    samples@.len() as int,
                    capacity as int,
                    channels as int,
                ),
            decreases self.samples@.len(),
        {
            proof {
                lemma_drop_step(
                    self.samples@.len() as int,
                    samples@.len() as int,
                    capacity as int,
                    channels as int,
                );
            }
            let ghost before = self.samples@;
            self.drop_front(channels);
            proof {
                let dropped = before.len() - self.samples@.len();
                assert(before.skip(dropped) =~= first.skip(gone + dropped));
                gone = gone + dropped;
            }
        }
        let ghost kept = self.samples@;
        let mut i: usize = 0;
        assert(samples@.take(0) =~= Seq::empty());
        assert(kept + samples@.take(0) =~= kept);
        while i < samples.len()
            invariant
                i <= samples@.len(),
                self.samples@ == kept + samples@.take(i as int),
                self.started == old(self).started,
            decreases samples@.len() - i,
        {
            assert(samples@.take(i + 1) =~= samples@.take(i as int).push(samples@[i as int]));
            self.samples.push_back(samples[i]);
            assert(self.samples@ =~= kept + samples@.take(i + 1));
            i += 1;
        }
        assert(samples@.take(i as int) =~= samples@);
    }

    /// Drop the oldest samples, as many as there are.
    fn drop_front(&mut self, count: usize)
        ensures
            final(self)@ == (PlaybackView {
                samples: old(self)@.samples.skip(
                    if count <= old(self)@.samples.len() {
                        count as int
                    } else {
                        old(self)@.samples.len() as int
                    },
                ),
                ..old(self)@
            }),
    {
        let ghost first = self.samples@;
        let mut i: usize = 0;
        assert(first.skip(0) =~= first);
        while i < count && self.samples.len() > 0
            invariant
                i <= count,
                i <= first.len(),
                self.samples@ == first.skip(i as int),
                self.started == old(self).started,
            decreases count - i,
        {
            let _ = self.samples.pop_front();
            assert(self.samples@ =~= first.skip(i + 1));
            i += 1;
        }
    }

    /// Drop all sound.
    pub fn clear(&mut self)
        ensures
            final(self)@ == (PlaybackView { samples: Seq::empty(), ..old(self)@ }),
    {
        self.samples.clear();
    }

    /// Whether to play: from the start only once there is enough sound, and from then on
    /// until it runs out. `restarted` tells whether playing starts with this call.
    pub fn ready(&mut self, start_frames: usize, channels: usize) -> (ready: (bool, bool))
        requires
            0 < channels,
        ensures
            ({
                let enough = old(self)@.samples.len() / channels as nat >= start_frames;
                &&& ready.0 == (old(self)@.started || enough)
                &&& ready.1 == (!old(self)@.started && enough)
                &&& final(self)@ == (PlaybackView { started: ready.0, ..old(self)@ })
            }),
    {
        if self.started {
            return (true, false);
        }
        if self.samples.len() / channels < start_frames {
            return (false, false);
        }
        self.started = true;
        (true, true)
    }

    /// Whether there is sound for another moment; if not, playing stops.
    pub fn continues(&mut self, channels: usize) -> (more: bool)
        requires
            2 * channels <= usize::MAX,
        ensures
            more == (old(self)@.samples.len() >= 2 * channels),
            final(self)@ == (PlaybackView {
                started: old(self)@.started && more,
                ..old(self)@
            }),
    {
        if self.samples.len() < 2 * channels {
            self.started = false;
            return false;
        }
        true
    }

    /// So many moments of sound were played.
    pub fn consume(&mut self, frames: usize, channels: usize)
        requires
            frames * channels <= usize::MAX,
        ensures
            final(self)@ == (PlaybackView {
                samples: old(self)@.samples.skip(
                    if frames * channels <= old(self)@.samples.len() {
                        frames * channels
                    } else {
                        old(self)@.samples.len() as int
                    },
                ),
                ..old(self)@
            }),
    {
        self.drop_front(frames * channels);
    }
}

/// A buffer never holds more than its capacity, keeps the sound that came last, and keeps
/// frames of all channels whole.
pub proof fn buffers_stay_bounded(held: int, added: int, capacity: int, channels: int)
    requires
        0 <= held,
        0 <= added <= capacity,
        0 < channels,
        held % channels == 0,
    ensures
        ({
            let dropped = samples_dropped(held, added, capacity, channels);
            &&& 0 <= dropped <= held
            &&& held - dropped + added <= capacity
            &&& dropped % channels == 0
        }),
{
    let excess = held + added - capacity;
    if excess > 0 {
        lemma_drop_step(held, added, capacity, channels);
        let frames = (excess + channels - 1) / channels;
        assert(frames * channels >= excess && (frames * channels) % channels == 0)
            by (nonlinear_arith)
            requires
                frames == (excess + channels - 1) / channels,
                channels > 0,
        ;
    } else {
        assert(0int % channels == 0) by (nonlinear_arith)
            requires
                channels > 0,
        ;
    }
}

/// The two samples between which an output channel is interpolated: this moment's and the
/// next one's. `mean` mixes two channels into one.
pub fn interpolated_source_pair<T: Copy, F: Fn(T, T) -> T>(
    samples: &VecDeque<T>,
    source_channels: usize,
    output_channels: usize,
    output_channel: usize,
    silence: T,
    mean: F,
) -> (pair: (T, T))
    requires
        1 <= source_channels,
        2 * source_channels <= samples@.len(),
        forall|a: T, b: T| call_requires(mean, (a, b)),
    ensures
        if source_channels == 1 {
            pair == (samples@[0], samples@[1])
        } else if output_channels == 1 {
            &&& call_ensures(mean, (samples@[0], samples@[1]), pair.0)
            &&& call_ensures(
                mean,
                (samples@[source_channels as int], samples@[source_channels + 1]),
                pair.1,
            )
        } else if output_channel < 2 {
            pair == (samples@[output_channel as int], samples@[source_channels + output_channel])
        } else {
            pair == (silence, silence)
        },
{
    assert(samples@.len() == samples.len());
    if source_channels == 1 {
        return (samples[0], samples[source_channels]);
    }
    if output_channels == 1 {
        return (
            mean(samples[0], samples[1]),
            mean(samples[source_channels], samples[source_channels + 1]),
        );
    }
    if output_channel < 2 {
        return (samples[output_channel], samples[source_channels + output_channel]);
    }
    (silence, silence)
}

/// A rate as the device's signed number: those that do not fit are negative.
pub open spec fn signed_rate(rate: u32) -> int {
    if rate <= i32::MAX {
        rate as int
    } else {
        rate - 0x1_0000_0000
    }
}

pub open spec fn gap(a: int, b: int) -> int {
    if a >= b {
        a - b
    } else {
        b - a
    }
}

/// How far a range is from a rate.
pub open spec fn rate_distance(range: FormatRange, rate: u32) -> int {
    let min = signed_rate(range.min_rate);
    let max = signed_rate(range.max_rate);
    let want = signed_rate(rate);
    if min <= want <= max {
        0
    } else if gap(min, want) <= gap(max, want) {
        gap(min, want)
    } else {
        gap(max, want)
    }
}

fn to_signed(rate: u32) -> (signed: i64)
    ensures
        signed == signed_rate(rate),
{
    if rate <= i32::MAX as u32 {
        rate as i64
    } else {
        rate as i64 - 0x1_0000_0000
    }
}

fn distance_to(range: FormatRange, rate: u32) -> (distance: i64)
    ensures
        distance == rate_distance(range, rate),
{
    let min: i64 = to_signed(range.min_rate);
    let max: i64 = to_signed(range.max_rate);
    let want: i64 = to_signed(rate);
    if min <= want && want <= max {
        return 0;
    }
    let below: i64 = if min >= want {
        min - want
    } else {
        want - min
    };
    let above: i64 = if max >= want {
        max - want
    } else {
        want - max
    };
    if below <= above {
        below
    } else {
        above
    }
}

/// The format in which to play sound of a rate: of those with as many channels the one whose
/// rates are nearest, the first of them if there are several.
pub fn nearest_range(ranges: &Vec<FormatRange>, channels: u16, rate: u32) -> (choice: Option<
    usize,
>)
    ensures
        match choice {
            Some(index) => {
                &&& index < ranges@.len()
                &&& ranges@[index as int].channels == channels
                &&& forall|i: int|
                    0 <= i < ranges@.len() && (#[trigger] ranges@[i]).channels == channels
                        ==> rate_distance(ranges@[index as int], rate) <= rate_distance(
                        ranges@[i],
                        rate,
                    )
                &&& forall|i: int|
                    0 <= i < index && (#[trigger] ranges@[i]).channels == channels
                        ==> rate_distance(ranges@[index as int], rate) < rate_distance(
                        ranges@[i],
                        rate,
                    )
            },
            None => forall|i: int|
                0 <= i < ranges@.len() ==> (#[trigger] ranges@[i]).channels != channels,
        },
{
    let mut best: Option<usize> = None;
    let mut i: usize = 0;
    while i < ranges.len()
        invariant
            i <= ranges@.len(),
            match best {
                Some(index) => {
                    &&& index < i
                    &&& ranges@[index as int].channels == channels
                    &&& forall|k: int|
                        0 <= k < i && (#[trigger] ranges@[k]).channels == channels
                            ==> rate_distance(ranges@[index as int], rate) <= rate_distance(
                            ranges@[k],
                            rate,
                        )
                    &&& forall|k: int|
                        0 <= k < index && (#[trigger] ranges@[k]).channels == channels
                            ==> rate_distance(ranges@[index as int], rate) < rate_distance(
                            ranges@[k],
                            rate,
                        )
                },
                None => forall|k: int|
                    0 <= k < i ==> (#[trigger] ranges@[k]).channels != channels,
            },
        decreases ranges@.len() - i,
    {
        if ranges[i].channels == channels {
            let nearer = match best {
                Some(index) => distance_to(ranges[i], rate) < distance_to(ranges[index], rate),
                None => true,
            };
            if nearer {
                best = Some(i);
            }
        }
        i += 1;
    }
    best
}

/// The rate at which to play: that of the sound where the device can, else its highest.
pub fn output_rate(range: FormatRange, rate: u32) -> (chosen: u32)
    ensures
        chosen == if range.min_rate <= rate <= range.max_rate {
            rate
        } else {
            range.max_rate
        },
{
    if range.min_rate <= rate && rate <= range.max_rate {
        rate
    } else {
        range.max_rate
    }
}

} // verus!
