//! The resolution in which a screen is shared.

use vstd::prelude::*;

verus! {

#[derive(Clone, Copy, Debug, PartialEq, Eq, Structural)]
pub enum VideoResolution {
    Native,
    P720,
    P1080,
}

impl VideoResolution {
    /// The largest picture that is sent; none where the screen's own size is kept.
    pub open spec fn limits(self) -> Option<(u32, u32)> {
        match self {
            VideoResolution::Native => None,
            VideoResolution::P720 => Some((1280, 720)),
            VideoResolution::P1080 => Some((1920, 1080)),
        }
    }

    pub fn dimensions(self) -> (limits: Option<(u32, u32)>)
        ensures
            limits == self.limits(),
    {
        match self {
            VideoResolution::Native => None,
            VideoResolution::P720 => Some((1280, 720)),
            VideoResolution::P1080 => Some((1920, 1080)),
        }
    }

    pub open spec fn label_text(self) -> Seq<char> {
        match self {
            VideoResolution::Native => "Native"@,
            VideoResolution::P720 => "720p"@,
            VideoResolution::P1080 => "1080p"@,
        }
    }

    pub fn label(self) -> (text: &'static str)
        ensures
            text@ == self.label_text(),
    {
        match self {
            VideoResolution::Native => "Native",
            VideoResolution::P720 => "720p",
            VideoResolution::P1080 => "1080p",
        }
    }
}

/// The largest even number that is not above `value`.
pub open spec fn even_part(value: u32) -> u32 {
    (value - value % 2) as u32
}

pub fn round_down_to_even(value: u32) -> (even: u32)
    ensures
        even == even_part(value),
{
    value - value % 2
}

/// The size of the pictures that are sent: the size `fitted` that the limits of
/// the resolution leave of the screen, or the screen's own size, made even; none
/// if that is empty. Video coding takes chroma samples from squares of two by two
/// pixels, hence the even numbers.
pub fn stream_dimensions(
    resolution: VideoResolution,
    native: (u32, u32),
    fitted: (u32, u32),
) -> (dimensions: Option<(u32, u32)>)
    ensures
        ({
            let chosen = match resolution {
                VideoResolution::Native => (even_part(native.0), even_part(native.1)),
                _ => fitted,
            };
            dimensions == if chosen.0 == 0 || chosen.1 == 0 {
                None
            } else {
                Some(chosen)
            }
        }),
{
    let (width, height): (u32, u32) = match resolution {
        VideoResolution::Native => (round_down_to_even(native.0), round_down_to_even(native.1)),
        _ => fitted,
    };
    if width == 0 || height == 0 {
        None
    } else {
        Some((width, height))
    }
}

} // verus!
