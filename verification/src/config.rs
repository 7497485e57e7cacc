//! What a host tells a client of the streams that it offers.

use crate::protocol::{JUMBO_DATAGRAM_SIZE, STANDARD_DATAGRAM_SIZE};
use crate::text::same_text;
use vstd::prelude::*;

verus! {

/// The audio stream of a host, and its video stream if it has one.
#[derive(Debug, PartialEq, Eq)]
pub struct Config {
    pub sample_format: String,
    pub sample_rate: u32,
    pub channels: u16,
    pub buffer_size: BufferSize,
    pub video: Option<VideoConfig>,
}

#[derive(Clone, Copy, Debug, PartialEq, Eq, Structural)]
pub struct BufferSize {
    pub min: u32,
    pub max: u32,
}

#[derive(Clone, Copy, Debug, PartialEq, Eq, Structural)]
pub struct VideoConfig {
    pub codec: VideoCodec,
    pub width: u32,
    pub height: u32,
    pub frame_rate: FrameRate,
    pub bitrate_bps: u32,
    /// The largest video datagram that the host sends.
    pub datagram_size: u16,
}

#[derive(Clone, Copy, Debug, PartialEq, Eq, Structural)]
pub enum VideoCodec {
    H264,
    H265,
    Av1,
}

#[derive(Clone, Copy, Debug, PartialEq, Eq, Structural)]
pub struct FrameRate {
    pub numerator: u32,
    pub denominator: u32,
}

/// The format of the audio that a desktop session carries.
#[derive(Debug, PartialEq, Eq)]
pub struct AudioConfig {
    pub sample_format: String,
    pub sample_rate: u32,
    pub channels: u16,
    pub buffer_size: BufferSize,
}

impl Clone for AudioConfig {
    fn clone(&self) -> (copy: Self)
        ensures
            copy == *self,
    {
        AudioConfig {
            sample_format: self.sample_format.clone(),
            sample_rate: self.sample_rate,
            channels: self.channels,
            buffer_size: self.buffer_size,
        }
    }
}

/// The streams of a desktop session.
#[derive(Debug, PartialEq, Eq)]
pub struct SessionConfig {
    pub audio: Option<AudioConfig>,
    pub video: Option<VideoConfig>,
}

/// The streams of a desktop host, in standard or in jumbo datagrams.
pub fn host_session(
    audio: Option<AudioConfig>,
    dimensions: (u32, u32),
    frames_per_second: u32,
    bitrate_bps: u32,
    jumbo: bool,
) -> (config: SessionConfig)
    ensures
        config == (SessionConfig {
            audio,
            video: Some(
                VideoConfig {
                    codec: VideoCodec::H264,
                    width: dimensions.0,
                    height: dimensions.1,
                    frame_rate: FrameRate { numerator: frames_per_second, denominator: 1 },
                    bitrate_bps,
                    datagram_size: if jumbo {
                        JUMBO_DATAGRAM_SIZE as u16
                    } else {
                        STANDARD_DATAGRAM_SIZE as u16
                    },
                },
            ),
        }),
{
    SessionConfig {
        audio,
        video: Some(
            VideoConfig {
                codec: VideoCodec::H264,
                width: dimensions.0,
                height: dimensions.1,
                frame_rate: FrameRate { numerator: frames_per_second, denominator: 1 },
                bitrate_bps,
                datagram_size: if jumbo {
                    JUMBO_DATAGRAM_SIZE as u16
                } else {
                    STANDARD_DATAGRAM_SIZE as u16
                },
            },
        ),
    }
}

/// How an audio device represents a sample.
#[derive(Clone, Copy, Debug, PartialEq, Eq, Structural)]
pub enum SampleFormat {
    I8,
    I16,
    I32,
    I64,
    U8,
    U16,
    U32,
    U64,
    F32,
    F64,
}

/// How many channels a compressed audio stream has.
#[derive(Clone, Copy, Debug, PartialEq, Eq, Structural)]
pub enum Channels {
    Mono,
    Stereo,
}

/// The format in which an audio device plays or records.
#[derive(Clone, Copy, Debug, PartialEq, Eq, Structural)]
pub struct StreamSettings {
    pub channels: u16,
    pub sample_rate: u32,
    pub buffer_size: BufferSize,
    pub sample_format: SampleFormat,
}

/// The sample format that a config names.
pub open spec fn named_format(name: Seq<char>) -> Option<SampleFormat> {
    if name == "i8"@ {
        Some(SampleFormat::I8)
    } else if name == "i16"@ {
        Some(SampleFormat::I16)
    } else if name == "i32"@ {
        Some(SampleFormat::I32)
    } else if name == "i64"@ {
        Some(SampleFormat::I64)
    } else if name == "f32"@ {
        Some(SampleFormat::F32)
    } else if name == "f64"@ {
        Some(SampleFormat::F64)
    } else {
        None
    }
}

/// The sample format that a config names, if there is one of that name.
pub fn format_of_name(name: &str) -> (format: Option<SampleFormat>)
    ensures
        format == named_format(name@),
{
    if same_text(name, "i8") {
        Some(SampleFormat::I8)
    } else if same_text(name, "i16") {
        Some(SampleFormat::I16)
    } else if same_text(name, "i32") {
        Some(SampleFormat::I32)
    } else if same_text(name, "i64") {
        Some(SampleFormat::I64)
    } else if same_text(name, "f32") {
        Some(SampleFormat::F32)
    } else if same_text(name, "f64") {
        Some(SampleFormat::F64)
    } else {
        None
    }
}

impl Config {
    /// The device settings that a config asks for. Its format must have a name.
    pub fn stream_settings(&self) -> (settings: StreamSettings)
        requires
            named_format(self.sample_format@) is Some,
        ensures
            settings == (StreamSettings {
                channels: self.channels,
                sample_rate: self.sample_rate,
                buffer_size: self.buffer_size,
                sample_format: named_format(self.sample_format@)->0,
            }),
    {
        let sample_format = format_of_name(self.sample_format.as_str()).unwrap();
        StreamSettings {
            channels: self.channels,
            sample_rate: self.sample_rate,
            buffer_size: self.buffer_size,
            sample_format,
        }
    }
}

/// The layout of a stream of one or two channels.
pub fn count_to_channels(count: u16) -> (channels: Channels)
    requires
        1 <= count <= 2,
    ensures
        channels == if count == 1 {
            Channels::Mono
        } else {
            Channels::Stereo
        },
{
    if count == 1 {
        Channels::Mono
    } else {
        Channels::Stereo
    }
}

} // verus!
