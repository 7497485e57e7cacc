//! Pictures as the H.264 encoder takes them: a plane of brightness, and two planes of
//! colour at half the width and height.

use crate::text;
use crate::text::decimal;
use rayon::iter::{IndexedParallelIterator, ParallelIterator};
use rayon::slice::ParallelSliceMut;
use vstd::arithmetic::div_mod;
use vstd::prelude::*;

verus! {

/// A captured picture with a plane of brightness and a plane of interleaved colour. Rows
/// may be padded.
pub struct Nv12Frame {
    pub width: i32,
    pub height: i32,
    pub luminance_bytes: Vec<u8>,
    pub luminance_stride: i32,
    pub chrominance_bytes: Vec<u8>,
    pub chrominance_stride: i32,
}

/// A captured picture of four bytes a pixel: blue, green, red, opacity.
pub struct BgraFrame {
    pub width: i32,
    pub height: i32,
    pub data: Vec<u8>,
}

/// Why a captured picture cannot be used.
#[derive(Clone, Copy, Debug, PartialEq, Eq, Structural)]
pub enum PictureError {
    NegativeWidth,
    NegativeHeight,
    NegativeLuminanceStride,
    NegativeChrominanceStride,
    /// The dimensions must be positive and even.
    OddDimensions { width: usize, height: usize },
    /// The dimensions must be positive.
    NoPixels { width: usize, height: usize },
    StrideTooSmall,
    PlanesTooSmall,
    TooLarge,
    BufferTooSmall,
    MaximumTooSmall,
}

/// Dimensions, in words.
pub open spec fn dimensions_text(width: usize, height: usize) -> Seq<char> {
    text::decimal_text(width as nat) + "x"@ + text::decimal_text(height as nat)
}

/// The text, and the dimensions after it.
fn with_dimensions(before: &str, width: usize, height: usize) -> (text: String)
    ensures
        text@ == before@ + dimensions_text(width, height),
{
    let mut text = before.to_owned();
    text.append(decimal(width as u64).as_str());
    text.append("x");
    text.append(decimal(height as u64).as_str());
    assert(text@ =~= before@ + dimensions_text(width, height));
    text
}

impl PictureError {
    pub open spec fn message_text(self) -> Seq<char> {
        match self {
            PictureError::NegativeWidth => "negative capture width"@,
            PictureError::NegativeHeight => "negative capture height"@,
            PictureError::NegativeLuminanceStride => "negative luminance stride"@,
            PictureError::NegativeChrominanceStride => "negative chrominance stride"@,
            PictureError::OddDimensions { width, height } => {
                "capture dimensions must be positive and even, got "@ + dimensions_text(
                    width,
                    height,
                )
            },
            PictureError::NoPixels { width, height } => {
                "capture dimensions must be positive, got "@ + dimensions_text(width, height)
            },
            PictureError::StrideTooSmall => "capture stride is smaller than its visible width"@,
            PictureError::PlanesTooSmall => {
                "capture planes are smaller than their declared dimensions"@
            },
            PictureError::TooLarge => "capture dimensions overflow the address space"@,
            PictureError::BufferTooSmall => {
                "BGRA capture buffer is smaller than its declared dimensions"@
            },
            PictureError::MaximumTooSmall => "maximum video dimensions must be at least 2x2"@,
        }
    }

    /// What to tell the user.
    pub fn message(&self) -> (text: String)
        ensures
            text@ == self.message_text(),
    {
        let text: &'static str = match self {
            PictureError::NegativeWidth => "negative capture width",
            PictureError::NegativeHeight => "negative capture height",
            PictureError::NegativeLuminanceStride => "negative luminance stride",
            PictureError::NegativeChrominanceStride => "negative chrominance stride",
            PictureError::OddDimensions { width, height } => {
                return with_dimensions(
                    "capture dimensions must be positive and even, got ",
                    *width,
                    *height,
                );
            },
            PictureError::NoPixels { width, height } => {
                return with_dimensions(
                    "capture dimensions must be positive, got ",
                    *width,
                    *height,
                );
            },
            PictureError::StrideTooSmall => "capture stride is smaller than its visible width",
            PictureError::PlanesTooSmall => {
                "capture planes are smaller than their declared dimensions"
            },
            PictureError::TooLarge => "capture dimensions overflow the address space",
            PictureError::BufferTooSmall => {
                "BGRA capture buffer is smaller than its declared dimensions"
            },
            PictureError::MaximumTooSmall => "maximum video dimensions must be at least 2x2",
        };
        text.to_owned()
    }
}

/// The bytes of a plane, row by row.
pub open spec fn plane(width: int, height: int, at: spec_fn(int, int) -> u8) -> Seq<u8> {
    Seq::new((width * height) as nat, |i: int| at(i / width, i % width))
}

/// What a picture for the encoder holds.
#[verifier::ext_equal]
pub struct I420View {
    pub width: int,
    pub height: int,
    pub y: Seq<u8>,
    pub u: Seq<u8>,
    pub v: Seq<u8>,
}

impl I420View {
    /// The planes are as large as the dimensions say.
    pub open spec fn valid(self) -> bool {
        &&& 0 <= self.width <= i32::MAX
        &&& 0 <= self.height <= i32::MAX
        &&& self.width % 2 == 0
        &&& self.height % 2 == 0
        &&& self.y.len() == self.width * self.height
        &&& self.u.len() == (self.width / 2) * (self.height / 2)
        &&& self.v.len() == (self.width / 2) * (self.height / 2)
    }
}

/// A picture for the encoder.
pub struct I420Frame {
    width: usize,
    height: usize,
    y: Vec<u8>,
    u: Vec<u8>,
    v: Vec<u8>,
}

impl View for I420Frame {
    type V = I420View;

    closed spec fn view(&self) -> I420View {
        I420View {
            width: self.width as int,
            height: self.height as int,
            y: self.y@,
            u: self.u@,
            v: self.v@,
        }
    }
}

/// Why a picture of brightness and interleaved colour is refused.
pub open spec fn nv12_complaint(frame: &Nv12Frame) -> Option<PictureError> {
    if frame.width < 0 {
        Some(PictureError::NegativeWidth)
    } else if frame.height < 0 {
        Some(PictureError::NegativeHeight)
    } else if frame.luminance_stride < 0 {
        Some(PictureError::NegativeLuminanceStride)
    } else if frame.chrominance_stride < 0 {
        Some(PictureError::NegativeChrominanceStride)
    } else if frame.width == 0 || frame.height == 0 || frame.width % 2 != 0 || frame.height % 2
        != 0 {
        Some(
            PictureError::OddDimensions {
                width: frame.width as usize,
                height: frame.height as usize,
            },
        )
    } else if frame.luminance_stride < frame.width || frame.chrominance_stride < frame.width {
        Some(PictureError::StrideTooSmall)
    } else if frame.luminance_bytes@.len() < frame.luminance_stride * frame.height
        || frame.chrominance_bytes@.len() < frame.chrominance_stride * (frame.height as int / 2) {
        Some(PictureError::PlanesTooSmall)
    } else {
        None
    }
}

/// A picture of brightness and interleaved colour, for the encoder.
pub open spec fn of_nv12(frame: &Nv12Frame) -> I420View {
    let width = frame.width as int;
    let height = frame.height as int;
    I420View {
        width,
        height,
        y: plane(
            width,
            height,
            |row: int, column: int| frame.luminance_bytes@[row * frame.luminance_stride + column],
        ),
        u: plane(
            width / 2,
            height / 2,
            |row: int, column: int|
                frame.chrominance_bytes@[row * frame.chrominance_stride + 2 * column],
        ),
        v: plane(
            width / 2,
            height / 2,
            |row: int, column: int|
                frame.chrominance_bytes@[row * frame.chrominance_stride + 2 * column + 1],
        ),
    }
}

/// The rows of a padded plane, every `step`-th byte from `first` on.
pub open spec fn sampled(
    source: Seq<u8>,
    stride: int,
    step: int,
    first: int,
    width: int,
    height: int,
) -> Seq<u8> {
    plane(width, height, |row: int, column: int| source[row * stride + step * column + first])
}

pub(crate) proof fn lemma_row_of(row: int, column: int, width: int)
    requires
        0 <= column < width,
        0 <= row,
    ensures
        (row * width + column) / width == row,
        (row * width + column) % width == column,
{
    div_mod::lemma_fundamental_div_mod_converse(row * width + column, width, row, column);
}

/// A row and a column of a plane are a place in it.
pub(crate) proof fn lemma_place(row: int, column: int, width: int, height: int)
    requires
        0 <= row < height,
        0 <= column < width,
    ensures
        0 <= row * width + column < width * height,
{
    assert(0 <= row * width && row * width + width <= width * height) by (nonlinear_arith)
        requires
            0 <= row,
            row + 1 <= height,
            0 < width,
    ;
}

proof fn lemma_quotient_bound(i: int, width: int, height: int)
    requires
        0 <= i < width * height,
        0 < width,
    ensures
        0 <= i / width < height,
{
    div_mod::lemma_div_pos_is_pos(i, width);
    div_mod::lemma_fundamental_div_mod(i, width);
    let quotient = i / width;
    if quotient >= height {
        assert(width * quotient >= width * height) by (nonlinear_arith)
            requires
                quotient >= height,
                0 < width,
        ;
    }
}

/// Take every `step`-th byte of each row, from `first` on.
fn sample(
    source: &Vec<u8>,
    stride: usize,
    step: usize,
    first: usize,
    width: usize,
    height: usize,
) -> (bytes: Vec<u8>)
    requires
        0 < step,
        0 < width,
        first < step,
        step * width <= stride,
        stride * height <= source@.len(),
    ensures
        bytes@ == sampled(
            source@,
            stride as int,
            step as int,
            first as int,
            width as int,
            height as int,
        ),
{
    let ghost goal = sampled(
        source@,
        stride as int,
        step as int,
        first as int,
        width as int,
        height as int,
    );
    let mut bytes: Vec<u8> = Vec::new();
    let mut row: usize = 0;
    let mut start: usize = 0;
    assert(source.len() == source@.len());
    while row < height
        invariant
            row <= height,
            start == row * stride,
            0 < step,
            0 < width,
            first < step,
            step * width <= stride,
            stride * height <= source@.len(),
            source@.len() == source.len(),
            bytes@.len() == row * width,
            goal == sampled(
                source@,
                stride as int,
                step as int,
                first as int,
                width as int,
                height as int,
            ),
            forall|i: int| 0 <= i < bytes@.len() ==> bytes@[i] == goal[i],
            bytes@.len() <= goal.len(),
        decreases height - row,
    {
        assert(row * stride + stride <= stride * height) by (nonlinear_arith)
            requires
                row + 1 <= height,
        ;
        assert(step <= step * width) by (nonlinear_arith)
            requires
                0 < width,
        ;
        let mut column: usize = 0;
        let mut at: usize = start + first;
        while column < width
            invariant
                row < height,
                column <= width,
                start == row * stride,
                start + stride <= source@.len(),
                0 < step,
                0 < width,
                first < step,
                step * width <= stride,
                column < width ==> at == start + step * column + first,
                source@.len() == source.len(),
                bytes@.len() == row * width + column,
                goal == sampled(
                    source@,
                    stride as int,
                    step as int,
                    first as int,
                    width as int,
                    height as int,
                ),
                forall|i: int| 0 <= i < bytes@.len() ==> bytes@[i] == goal[i],
            decreases width - column,
        {
            assert(step * column + step <= step * width) by (nonlinear_arith)
                requires
                    column + 1 <= width,
                    0 < step,
            ;
            proof {
                lemma_row_of(row as int, column as int, width as int);
                assert(row * width + column < width * height) by (nonlinear_arith)
                    requires
                        column < width,
                        row + 1 <= height,
                ;
                assert(goal[row * width + column] == source@[at as int]);
            }
            bytes.push(source[at]);
            column += 1;
            if column < width {
                assert(step * column + step <= step * width) by (nonlinear_arith)
                    requires
                        column + 1 <= width,
                        0 < step,
                ;
                assert(step * (column - 1) + step == step * column) by (nonlinear_arith);
                at = at + step;
            }
        }
        assert(row * width + width == (row + 1) * width) by (nonlinear_arith);
        assert(row * stride + stride == (row + 1) * stride) by (nonlinear_arith);
        assert((row + 1) * width <= width * height) by (nonlinear_arith)
            requires
                row + 1 <= height,
        ;
        row += 1;
        start = start + stride;
    }
    assert(height * width == width * height) by (nonlinear_arith);
    assert(bytes@ =~= goal);
    bytes
}

proof fn lemma_half(width: int, height: int)
    requires
        0 <= width,
        0 <= height,
    ensures
        (width / 2) * (height / 2) <= width * height,
        0 <= (width / 2) * (height / 2),
        0 <= width * height,
{
    assert((width / 2) * (height / 2) <= width * height) by (nonlinear_arith)
        requires
            0 <= width / 2 <= width,
            0 <= height / 2 <= height,
    ;
    assert(0 <= (width / 2) * (height / 2)) by (nonlinear_arith)
        requires
            0 <= width / 2,
            0 <= height / 2,
    ;
    assert(0 <= width * height) by (nonlinear_arith)
        requires
            0 <= width,
            0 <= height,
    ;
}

impl Default for I420Frame {
    fn default() -> (frame: I420Frame)
        ensures
            frame@ == (I420View {
                width: 0,
                height: 0,
                y: Seq::empty(),
                u: Seq::empty(),
                v: Seq::empty(),
            }),
    {
        I420Frame { width: 0, height: 0, y: Vec::new(), u: Vec::new(), v: Vec::new() }
    }
}

impl I420Frame {
    #[verifier::type_invariant]
    spec fn well_formed(&self) -> bool {
        self@.valid()
    }

    /// The width and the height. The planes are as large as these say.
    pub fn dimensions(&self) -> (dimensions: (usize, usize))
        ensures
            dimensions.0 == self@.width,
            dimensions.1 == self@.height,
            self@.valid(),
    {
        proof {
            use_type_invariant(self);
        }
        (self.width, self.height)
    }

    pub fn strides(&self) -> (strides: (usize, usize, usize))
        ensures
            strides.0 == self@.width,
            strides.1 == self@.width / 2,
            strides.2 == self@.width / 2,
    {
        (self.width, self.width / 2, self.width / 2)
    }

    pub fn y(&self) -> (bytes: &[u8])
        ensures
            bytes@ == self@.y,
    {
        self.y.as_slice()
    }

    pub fn u(&self) -> (bytes: &[u8])
        ensures
            bytes@ == self@.u,
    {
        self.u.as_slice()
    }

    pub fn v(&self) -> (bytes: &[u8])
        ensures
            bytes@ == self@.v,
    {
        self.v.as_slice()
    }

    /// Take over a picture of brightness and interleaved colour.
    pub fn update_from_nv12(&mut self, frame: &Nv12Frame) -> (outcome: Result<(), PictureError>)
        ensures
            match nv12_complaint(frame) {
                Some(error) => outcome == Err::<(), _>(error) && final(self)@ == old(self)@,
                None => outcome is Ok && final(self)@ == of_nv12(frame),
            },
    {
        if frame.width < 0 {
            return Err(PictureError::NegativeWidth);
        }
        if frame.height < 0 {
            return Err(PictureError::NegativeHeight);
        }
        if frame.luminance_stride < 0 {
            return Err(PictureError::NegativeLuminanceStride);
        }
        if frame.chrominance_stride < 0 {
            return Err(PictureError::NegativeChrominanceStride);
        }
        let width: usize = frame.width as usize;
        let height: usize = frame.height as usize;
        let y_stride: usize = frame.luminance_stride as usize;
        let uv_stride: usize = frame.chrominance_stride as usize;
        if width == 0 || height == 0 || width % 2 != 0 || height % 2 != 0 {
            return Err(PictureError::OddDimensions { width, height });
        }
        if y_stride < width || uv_stride < width {
            return Err(PictureError::StrideTooSmall);
        }
        assert(y_stride * height <= u64::MAX && uv_stride * (height / 2) <= u64::MAX)
            by (nonlinear_arith)
            requires
                y_stride <= i32::MAX,
                uv_stride <= i32::MAX,
                0 <= height / 2 <= height <= i32::MAX,
        ;
        if (frame.luminance_bytes.len() as u64) < y_stride as u64 * height as u64 || (
        frame.chrominance_bytes.len() as u64) < uv_stride as u64 * (height / 2) as u64 {
            return Err(PictureError::PlanesTooSmall);
        }
        let chroma_width: usize = width / 2;
        let chroma_height: usize = height / 2;
        let y = sample(&frame.luminance_bytes, y_stride, 1, 0, width, height);
        let u = sample(&frame.chrominance_bytes, uv_stride, 2, 0, chroma_width, chroma_height);
        let v = sample(&frame.chrominance_bytes, uv_stride, 2, 1, chroma_width, chroma_height);
        proof {
            lemma_half(width as int, height as int);
        }
        let ghost goal = of_nv12(frame);
        assert(y@ =~= goal.y);
        assert(u@ =~= goal.u);
        assert(v@ =~= goal.v);
        *self = I420Frame { width, height, y, u, v };
        Ok(())
    }
}

/// The source row or column that stands for a row or column of the picture.
pub open spec fn scaled_index(i: int, from: int, to: int) -> int {
    i * from / to
}

/// Red, green and blue of a pixel.
pub open spec fn pixel_at(data: Seq<u8>, pixel: int) -> (int, int, int) {
    (data[4 * pixel + 2] as int, data[4 * pixel + 1] as int, data[4 * pixel] as int)
}

/// The nearest value that a byte can hold.
pub open spec fn clamped(value: int) -> u8 {
    if value < 0 {
        0
    } else if value > 255 {
        255
    } else {
        value as u8
    }
}

/// The brightness of a pixel.
pub open spec fn luma(pixel: (int, int, int)) -> u8 {
    clamped((66 * pixel.0 + 129 * pixel.1 + 25 * pixel.2 + 128) / 256 + 16)
}

/// Red, green and blue of four pixels together.
pub open spec fn summed(
    a: (int, int, int),
    b: (int, int, int),
    c: (int, int, int),
    d: (int, int, int),
) -> (int, int, int) {
    (a.0 + b.0 + c.0 + d.0, a.1 + b.1 + c.1 + d.1, a.2 + b.2 + c.2 + d.2)
}

/// How blue four pixels are.
pub open spec fn blueness(sum: (int, int, int)) -> u8 {
    clamped((-38 * sum.0 - 74 * sum.1 + 112 * sum.2 + 512) / 1024 + 128)
}

/// How red four pixels are.
pub open spec fn redness(sum: (int, int, int)) -> u8 {
    clamped((112 * sum.0 - 94 * sum.1 - 18 * sum.2 + 512) / 1024 + 128)
}

/// A picture that is being brought to another size: which source row and column stands
/// for each row and column.
pub struct Scaling<'a> {
    source: &'a [u8],
    source_width: usize,
    columns: Vec<usize>,
    rows: Vec<usize>,
}

impl<'a> Scaling<'a> {
    spec fn valid(&self) -> bool {
        &&& self.columns@.len() % 2 == 0
        &&& self.rows@.len() % 2 == 0
        &&& self.columns@.len() > 0
        &&& 2 * self.columns@.len() <= usize::MAX
        &&& forall|row: int, column: int|
            0 <= row < self.rows@.len() && 0 <= column < self.columns@.len() ==> 4 * (
            #[trigger] self.rows@[row] * self.source_width + #[trigger] self.columns@[column]) + 3
                < self.source@.len()
    }

    spec fn pixel(&self, row: int, column: int) -> (int, int, int) {
        pixel_at(self.source@, self.rows@[row] * self.source_width + self.columns@[column])
    }

    spec fn block(&self, row: int, column: int) -> (int, int, int) {
        summed(
            self.pixel(2 * row, 2 * column),
            self.pixel(2 * row, 2 * column + 1),
            self.pixel(2 * row + 1, 2 * column),
            self.pixel(2 * row + 1, 2 * column + 1),
        )
    }

    /// Two rows of brightness.
    spec fn y_rows(&self, pair: int) -> Seq<u8> {
        let width = self.columns@.len() as int;
        plane(width, 2, |row: int, column: int| luma(self.pixel(2 * pair + row, column)))
    }

    /// The row of colour that belongs to two rows of brightness.
    spec fn u_row(&self, pair: int) -> Seq<u8> {
        Seq::new(self.columns@.len() / 2, |column: int| blueness(self.block(pair, column)))
    }

    spec fn v_row(&self, pair: int) -> Seq<u8> {
        Seq::new(self.columns@.len() / 2, |column: int| redness(self.block(pair, column)))
    }

    fn components(&self, row: usize, column: usize) -> (pixel: (i32, i32, i32))
        requires
            self.valid(),
            row < self.rows@.len(),
            column < self.columns@.len(),
        ensures
            pixel.0 == self.pixel(row as int, column as int).0,
            pixel.1 == self.pixel(row as int, column as int).1,
            pixel.2 == self.pixel(row as int, column as int).2,
            0 <= pixel.0 <= 255,
            0 <= pixel.1 <= 255,
            0 <= pixel.2 <= 255,
    {
        assert(self.source@.len() == self.source.len());
        let source_row: usize = self.rows[row];
        let source_column: usize = self.columns[column];
        assert(4 * (self.rows@[row as int] * self.source_width + self.columns@[column as int]) + 3
            < self.source@.len());
        let pixel: usize = source_row * self.source_width + source_column;
        let offset: usize = 4 * pixel;
        (
            self.source[offset + 2] as i32,
            self.source[offset + 1] as i32,
            self.source[offset] as i32,
        )
    }
}

fn clamp_u8(value: i32) -> (byte: u8)
    ensures
        byte == clamped(value as int),
{
    if value < 0 {
        0
    } else if value > 255 {
        255
    } else {
        value as u8
    }
}

fn rgb_to_y(pixel: (i32, i32, i32)) -> (byte: u8)
    requires
        0 <= pixel.0 <= 255,
        0 <= pixel.1 <= 255,
        0 <= pixel.2 <= 255,
    ensures
        byte == luma((pixel.0 as int, pixel.1 as int, pixel.2 as int)),
{
    clamp_u8((66 * pixel.0 + 129 * pixel.1 + 25 * pixel.2 + 128) / 256 + 16)
}

/// The quotient by a power of two, rounded down.
fn floor_1024(value: i32) -> (quotient: i32)
    requires
        -131072 <= value <= 1000000,
    ensures
        quotient == value as int / 1024,
{
    (value + 131072) / 1024 - 128
}

/// Two rows of brightness.
fn convert_luma(scaling: &Scaling, pair: usize, y_rows: &mut [u8])
    requires
        scaling.valid(),
        2 * pair + 1 < scaling.rows@.len(),
        old(y_rows)@.len() == 2 * scaling.columns@.len(),
    ensures
        final(y_rows)@ == scaling.y_rows(pair as int),
{
    assert(scaling.rows@.len() == scaling.rows.len());
    let width: usize = scaling.columns.len();
    let ghost goal = scaling.y_rows(pair as int);
    let top: usize = 2 * pair;
    let mut column: usize = 0;
    while column < width
        invariant
            scaling.valid(),
            width == scaling.columns@.len(),
            2 * width <= usize::MAX,
            column <= width,
            top == 2 * pair,
            top + 1 < scaling.rows@.len(),
            scaling.rows@.len() == scaling.rows.len(),
            y_rows@.len() == 2 * width,
            goal == scaling.y_rows(pair as int),
            forall|i: int| 0 <= i < column ==> y_rows@[i] == goal[i],
            forall|i: int| width <= i < width + column ==> y_rows@[i] == goal[i],
        decreases width - column,
    {
        let upper = scaling.components(top, column);
        let lower = scaling.components(top + 1, column);
        proof {
            lemma_row_of(0, column as int, width as int);
            lemma_row_of(1, column as int, width as int);
            assert(goal[column as int] == luma(scaling.pixel(top as int, column as int)));
            assert(goal[width + column] == luma(scaling.pixel(top + 1, column as int)));
        }
        y_rows[column] = rgb_to_y(upper);
        y_rows[width + column] = rgb_to_y(lower);
        column += 1;
    }
    assert(y_rows@ =~= goal);
}

/// Red, green and blue of the four pixels that share their colour.
fn block_sum(scaling: &Scaling, pair: usize, half: usize) -> (sum: (i32, i32, i32))
    requires
        scaling.valid(),
        2 * pair + 1 < scaling.rows@.len(),
        half < scaling.columns@.len() / 2,
    ensures
        scaling.block(pair as int, half as int) == (sum.0 as int, sum.1 as int, sum.2 as int),
        0 <= sum.0 <= 1020,
        0 <= sum.1 <= 1020,
        0 <= sum.2 <= 1020,
{
    assert(scaling.rows@.len() == scaling.rows.len());
    assert(scaling.columns@.len() == scaling.columns.len());
    let top: usize = 2 * pair;
    let left: usize = 2 * half;
    let a = scaling.components(top, left);
    let b = scaling.components(top, left + 1);
    let c = scaling.components(top + 1, left);
    let d = scaling.components(top + 1, left + 1);
    (a.0 + b.0 + c.0 + d.0, a.1 + b.1 + c.1 + d.1, a.2 + b.2 + c.2 + d.2)
}

/// Two rows of brightness, and the row of colour that belongs to them.
fn convert_row_pair(
    scaling: &Scaling,
    pair: usize,
    y_rows: &mut [u8],
    u_row: &mut [u8],
    v_row: &mut [u8],
)
    requires
        scaling.valid(),
        2 * pair + 1 < scaling.rows@.len(),
        old(y_rows)@.len() == 2 * scaling.columns@.len(),
        old(u_row)@.len() == scaling.columns@.len() / 2,
        old(v_row)@.len() == scaling.columns@.len() / 2,
    ensures
        final(y_rows)@ == scaling.y_rows(pair as int),
        final(u_row)@ == scaling.u_row(pair as int),
        final(v_row)@ == scaling.v_row(pair as int),
{
    convert_luma(scaling, pair, y_rows);
    let chroma_width: usize = scaling.columns.len() / 2;
    let ghost u_goal = scaling.u_row(pair as int);
    let ghost v_goal = scaling.v_row(pair as int);
    let mut half: usize = 0;
    while half < chroma_width
        invariant
            scaling.valid(),
            2 * pair + 1 < scaling.rows@.len(),
            chroma_width == scaling.columns@.len() / 2,
            half <= chroma_width,
            u_row@.len() == chroma_width,
            v_row@.len() == chroma_width,
            u_goal == scaling.u_row(pair as int),
            v_goal == scaling.v_row(pair as int),
            forall|i: int| 0 <= i < half ==> u_row@[i] == u_goal[i],
            forall|i: int| 0 <= i < half ==> v_row@[i] == v_goal[i],
        decreases chroma_width - half,
    {
        let (red, green, blue): (i32, i32, i32) = block_sum(scaling, pair, half);
        assert(u_goal[half as int] == blueness(scaling.block(pair as int, half as int)));
        assert(v_goal[half as int] == redness(scaling.block(pair as int, half as int)));
        u_row[half] = clamp_u8(floor_1024(-38 * red - 74 * green + 112 * blue + 512) + 128);
        v_row[half] = clamp_u8(floor_1024(112 * red - 94 * green - 18 * blue + 512) + 128);
        half += 1;
    }
    assert(u_row@ =~= u_goal);
    assert(v_row@ =~= v_goal);
}

/// A piece of a plane: as many bytes as the others, after `i` of them.
pub open spec fn chunk(bytes: Seq<u8>, size: int, i: int) -> Seq<u8> {
    bytes.subrange(i * size, i * size + size)
}

/// The rows of a picture, two by two, by the threads of `rayon`.
///
/// `ParallelSliceMut::par_chunks_mut` cuts a slice into pieces of a given size, in order,
/// `IndexedParallelIterator::zip` and `enumerate` keep that order, and
/// `ParallelIterator::for_each` calls the function once for each. The contract says that
/// afterwards each piece holds what `convert_row_pair` leaves in it, and that the planes
/// are as long as they were.
#[verifier::external_body]
fn convert_rows(
    scaling: &Scaling,
    y: &mut Vec<u8>,
    u: &mut Vec<u8>,
    v: &mut Vec<u8>,
    y_size: usize,
    chroma_size: usize,
)
    requires
        scaling.valid(),
        y_size == 2 * scaling.columns@.len(),
        chroma_size == scaling.columns@.len() / 2,
        chroma_size > 0,
        old(y)@.len() == (scaling.rows@.len() / 2) * y_size,
        old(u)@.len() == (scaling.rows@.len() / 2) * chroma_size,
        old(v)@.len() == (scaling.rows@.len() / 2) * chroma_size,
    ensures
        final(y)@.len() == old(y)@.len(),
        final(u)@.len() == old(u)@.len(),
        final(v)@.len() == old(v)@.len(),
        forall|pair: int|
            0 <= pair < scaling.rows@.len() / 2 ==> #[trigger] chunk(
                final(y)@,
                y_size as int,
                pair,
            ) == scaling.y_rows(pair),
        forall|pair: int|
            0 <= pair < scaling.rows@.len() / 2 ==> #[trigger] chunk(
                final(u)@,
                chroma_size as int,
                pair,
            ) == scaling.u_row(pair),
        forall|pair: int|
            0 <= pair < scaling.rows@.len() / 2 ==> #[trigger] chunk(
                final(v)@,
                chroma_size as int,
                pair,
            ) == scaling.v_row(pair),
{
    y.par_chunks_mut(y_size)
        .zip(u.par_chunks_mut(chroma_size))
        .zip(v.par_chunks_mut(chroma_size))
        .enumerate()
        .for_each(
            |(pair, ((y_rows, u_row), v_row))|
                convert_row_pair(scaling, pair, y_rows, u_row, v_row),
        );
}

/// Why a picture of four bytes a pixel is refused.
pub open spec fn bgra_complaint(frame: &BgraFrame, max_width: u32, max_height: u32) -> Option<
    PictureError,
> {
    if frame.width < 0 {
        Some(PictureError::NegativeWidth)
    } else if frame.height < 0 {
        Some(PictureError::NegativeHeight)
    } else if frame.width == 0 || frame.height == 0 {
        Some(
            PictureError::NoPixels {
                width: frame.width as usize,
                height: frame.height as usize,
            },
        )
    } else if frame.width * frame.height * 4 > usize::MAX {
        Some(PictureError::TooLarge)
    } else if frame.data@.len() < frame.width * frame.height * 4 {
        Some(PictureError::BufferTooSmall)
    } else if max_width < 2 || max_height < 2 {
        Some(PictureError::MaximumTooSmall)
    } else {
        None
    }
}

/// A dimension for the encoder: even, and at least two.
pub open spec fn encodable(dimension: int) -> int {
    if dimension < 2 {
        2
    } else {
        dimension - dimension % 2
    }
}

/// The source pixel that stands for a pixel of the picture.
pub open spec fn scaled_pixel(frame: &BgraFrame, width: int, height: int, row: int, column: int) -> (
    int,
    int,
    int,
) {
    pixel_at(
        frame.data@,
        scaled_index(row, frame.height as int, height) * frame.width + scaled_index(
            column,
            frame.width as int,
            width,
        ),
    )
}

/// The four source pixels that share their colour, together.
pub open spec fn scaled_block(frame: &BgraFrame, width: int, height: int, row: int, column: int) -> (
    int,
    int,
    int,
) {
    summed(
        scaled_pixel(frame, width, height, 2 * row, 2 * column),
        scaled_pixel(frame, width, height, 2 * row, 2 * column + 1),
        scaled_pixel(frame, width, height, 2 * row + 1, 2 * column),
        scaled_pixel(frame, width, height, 2 * row + 1, 2 * column + 1),
    )
}

/// A picture of four bytes a pixel, brought to a size, for the encoder.
pub open spec fn of_bgra(frame: &BgraFrame, width: int, height: int) -> I420View {
    I420View {
        width,
        height,
        y: plane(
            width,
            height,
            |row: int, column: int| luma(scaled_pixel(frame, width, height, row, column)),
        ),
        u: plane(
            width / 2,
            height / 2,
            |row: int, column: int| blueness(scaled_block(frame, width, height, row, column)),
        ),
        v: plane(
            width / 2,
            height / 2,
            |row: int, column: int| redness(scaled_block(frame, width, height, row, column)),
        ),
    }
}

fn encodable_dimension(dimension: usize) -> (even: usize)
    ensures
        even == encodable(dimension as int),
{
    if dimension < 2 {
        2
    } else {
        dimension - dimension % 2
    }
}

/// The source row or column for each row or column.
fn scaled_indices(from: usize, to: usize) -> (indices: Vec<usize>)
    requires
        0 < from <= i32::MAX,
        0 < to <= u32::MAX,
    ensures
        indices@.len() == to,
        forall|i: int|
            0 <= i < to ==> #[trigger] indices@[i] == scaled_index(i, from as int, to as int)
                && indices@[i] < from,
{
    let mut indices: Vec<usize> = Vec::new();
    let mut i: usize = 0;
    while i < to
        invariant
            i <= to,
            0 < from <= i32::MAX,
            0 < to <= u32::MAX,
            indices@.len() == i,
            forall|k: int|
                0 <= k < i ==> #[trigger] indices@[k] == scaled_index(k, from as int, to as int)
                    && indices@[k] < from,
        decreases to - i,
    {
        assert(i * from <= u64::MAX && i * from < to * from) by (nonlinear_arith)
            requires
                i < to <= u32::MAX,
                0 < from <= i32::MAX,
        ;
        let product: u64 = i as u64 * from as u64;
        let index: u64 = product / to as u64;
        proof {
            lemma_quotient_bound(product as int, to as int, from as int);
        }
        indices.push(index as usize);
        i += 1;
    }
    indices
}

/// Pieces that each hold their part of a plane of half the width and height make it up.
proof fn lemma_chroma_rows(bytes: Seq<u8>, width: int, height: int, at: spec_fn(int, int) -> u8)
    requires
        width > 0,
        height >= 0,
        bytes.len() == height * width,
        forall|row: int|
            0 <= row < height ==> #[trigger] chunk(bytes, width, row) == Seq::new(
                width as nat,
                |column: int| at(row, column),
            ),
    ensures
        bytes == plane(width, height, at),
{
    assert(height * width == width * height) by (nonlinear_arith);
    assert forall|i: int| 0 <= i < bytes.len() implies bytes[i] == at(i / width, i % width) by {
        let row = i / width;
        let column = i % width;
        div_mod::lemma_fundamental_div_mod(i, width);
        lemma_quotient_bound(i, width, height);
        assert(width * row == row * width) by (nonlinear_arith);
        assert(row * width + width <= height * width) by (nonlinear_arith)
            requires
                row + 1 <= height,
                width > 0,
        ;
        assert(0 <= row * width) by (nonlinear_arith)
            requires
                0 <= row,
                0 < width,
        ;
        assert(chunk(bytes, width, row)[column] == bytes[i]);
    }
    assert(bytes =~= plane(width, height, at));
}

/// Pairs of rows that each hold their part of a plane make it up.
proof fn lemma_luma_rows(bytes: Seq<u8>, width: int, height: int, at: spec_fn(int, int) -> u8)
    requires
        width > 0,
        height >= 0,
        height % 2 == 0,
        bytes.len() == (height / 2) * (2 * width),
        forall|pair: int|
            0 <= pair < height / 2 ==> #[trigger] chunk(bytes, 2 * width, pair) == plane(
                width,
                2,
                |row: int, column: int| at(2 * pair + row, column),
            ),
    ensures
        bytes == plane(width, height, at),
{
    assert((height / 2) * (2 * width) == width * height) by (nonlinear_arith)
        requires
            height == 2 * (height / 2),
    ;
    assert forall|i: int| 0 <= i < bytes.len() implies bytes[i] == at(i / width, i % width) by {
        let row = i / width;
        let column = i % width;
        let pair = row / 2;
        let k = (row % 2) * width + column;
        div_mod::lemma_fundamental_div_mod(i, width);
        assert(height * width == width * height) by (nonlinear_arith);
        lemma_quotient_bound(i, width, height);
        lemma_row_of(row % 2, column, width);
        assert(i == pair * (2 * width) + k) by (nonlinear_arith)
            requires
                i == width * row + column,
                row == 2 * pair + row % 2,
                k == (row % 2) * width + column,
        ;
        assert(0 <= k < 2 * width) by (nonlinear_arith)
            requires
                k == (row % 2) * width + column,
                0 <= row % 2 <= 1,
                0 <= column < width,
        ;
        assert(pair * (2 * width) + 2 * width <= (height / 2) * (2 * width)) by (nonlinear_arith)
            requires
                pair + 1 <= height / 2,
                width > 0,
        ;
        assert(0 <= pair * (2 * width)) by (nonlinear_arith)
            requires
                0 <= pair,
                0 < width,
        ;
        assert(chunk(bytes, 2 * width, pair)[k] == bytes[i]);
        assert(width * 2 == 2 * width);
    }
    assert(bytes =~= plane(width, height, at));
}

impl I420Frame {
    /// Take over a picture of four bytes a pixel, brought to a size that `max_width` and
    /// `max_height` allow.
    ///
    /// `scaled` holds the dimensions at the largest scale that fits, rounded down.
    pub fn update_from_bgra_scaled(
        &mut self,
        frame: &BgraFrame,
        max_width: u32,
        max_height: u32,
        scaled: (usize, usize),
    ) -> (outcome: Result<(), PictureError>)
        requires
            bgra_complaint(frame, max_width, max_height) is None ==> scaled.0 <= frame.width
                && scaled.1 <= frame.height,
        ensures
            match bgra_complaint(frame, max_width, max_height) {
                Some(error) => outcome == Err::<(), _>(error) && final(self)@ == old(self)@,
                None => {
                    &&& outcome is Ok
                    &&& final(self)@ == of_bgra(
                        frame,
                        encodable(scaled.0 as int),
                        encodable(scaled.1 as int),
                    )
                },
            },
    {
        if frame.width < 0 {
            return Err(PictureError::NegativeWidth);
        }
        if frame.height < 0 {
            return Err(PictureError::NegativeHeight);
        }
        let source_width: usize = frame.width as usize;
        let source_height: usize = frame.height as usize;
        if source_width == 0 || source_height == 0 {
            return Err(
                PictureError::NoPixels { width: source_width, height: source_height },
            );
        }
        let required: usize = match source_width.checked_mul(source_height) {
            Some(pixels) => match pixels.checked_mul(4) {
                Some(required) => required,
                None => return Err(PictureError::TooLarge),
            },
            None => return Err(PictureError::TooLarge),
        };
        if frame.data.len() < required {
            return Err(PictureError::BufferTooSmall);
        }
        if max_width < 2 || max_height < 2 {
            return Err(PictureError::MaximumTooSmall);
        }
        let width: usize = encodable_dimension(scaled.0);
        let height: usize = encodable_dimension(scaled.1);
        assert(width * height <= required) by (nonlinear_arith)
            requires
                required == source_width * source_height * 4,
                0 <= width <= 2 * source_width,
                0 <= height <= 2 * source_height,
        ;
        assert(2 * width <= width * height) by (nonlinear_arith)
            requires
                2 <= height,
                0 <= width,
        ;
        let scaling = Scaling {
            source: frame.data.as_slice(),
            source_width,
            columns: scaled_indices(source_width, width),
            rows: scaled_indices(source_height, height),
        };
        let chroma_width: usize = width / 2;
        let pairs: usize = height / 2;
        proof {
            lemma_half(width as int, height as int);
            assert(pairs * (2 * width) == width * height) by (nonlinear_arith)
                requires
                    height == 2 * pairs,
            ;
            assert forall|row: int, column: int|
                0 <= row < scaling.rows@.len() && 0 <= column < scaling.columns@.len() implies 4 * (
            #[trigger] scaling.rows@[row] * scaling.source_width
                + #[trigger] scaling.columns@[column]) + 3 < scaling.source@.len() by {
                let r = scaling.rows@[row] as int;
                let c = scaling.columns@[column] as int;
                assert(4 * (r * source_width + c) + 3 < source_width * source_height * 4)
                    by (nonlinear_arith)
                    requires
                        0 <= r < source_height,
                        0 <= c < source_width,
                ;
            }
            assert(chroma_width * pairs == pairs * chroma_width) by (nonlinear_arith);
        }
        let mut y: Vec<u8> = vec![0u8; width * height];
        let mut u: Vec<u8> = vec![0u8; chroma_width * pairs];
        let mut v: Vec<u8> = vec![0u8; chroma_width * pairs];
        convert_rows(&scaling, &mut y, &mut u, &mut v, 2 * width, chroma_width);
        proof {
            let goal = of_bgra(frame, width as int, height as int);
            let w = width as int;
            let h = height as int;
            let y_at = |row: int, column: int| luma(scaled_pixel(frame, w, h, row, column));
            let u_at = |row: int, column: int| blueness(scaled_block(frame, w, h, row, column));
            let v_at = |row: int, column: int| redness(scaled_block(frame, w, h, row, column));
            assert forall|row: int, column: int|
                0 <= row < h && 0 <= column < w implies #[trigger] scaling.pixel(row, column)
                == scaled_pixel(frame, w, h, row, column) by {
                assert(scaling.rows@[row] == scaled_index(row, source_height as int, h));
                assert(scaling.columns@[column] == scaled_index(column, source_width as int, w));
            }
            assert forall|pair: int| 0 <= pair < h / 2 implies #[trigger] chunk(y@, 2 * w, pair)
                == plane(w, 2, |row: int, column: int| y_at(2 * pair + row, column)) by {
                lemma_pair_plane(w, |row: int, column: int| luma(
                    scaling.pixel(2 * pair + row, column),
                ), |row: int, column: int| y_at(2 * pair + row, column));
            }
            lemma_luma_rows(y@, w, h, y_at);
            assert forall|row: int| 0 <= row < h / 2 implies #[trigger] chunk(u@, w / 2, row)
                == Seq::new((w / 2) as nat, |column: int| u_at(row, column)) by {
                assert(scaling.u_row(row) =~= Seq::new(
                    (w / 2) as nat,
                    |column: int| u_at(row, column),
                ));
            }
            lemma_chroma_rows(u@, w / 2, h / 2, u_at);
            assert forall|row: int| 0 <= row < h / 2 implies #[trigger] chunk(v@, w / 2, row)
                == Seq::new((w / 2) as nat, |column: int| v_at(row, column)) by {
                assert(scaling.v_row(row) =~= Seq::new(
                    (w / 2) as nat,
                    |column: int| v_at(row, column),
                ));
            }
            lemma_chroma_rows(v@, w / 2, h / 2, v_at);
            assert(y@ =~= goal.y);
            assert(u@ =~= goal.u);
            assert(v@ =~= goal.v);
        }
        *self = I420Frame { width, height, y, u, v };
        Ok(())
    }
}

/// Two rows that agree everywhere are the same.
proof fn lemma_pair_plane(
    width: int,
    a: spec_fn(int, int) -> u8,
    b: spec_fn(int, int) -> u8,
)
    requires
        width > 0,
        forall|row: int, column: int|
            0 <= row < 2 && 0 <= column < width ==> #[trigger] a(row, column) == b(row, column),
    ensures
        plane(width, 2, a) == plane(width, 2, b),
{
    let first = plane(width, 2, a);
    let second = plane(width, 2, b);
    assert forall|i: int| 0 <= i < first.len() implies #[trigger] first[i] == second[i] by {
        div_mod::lemma_fundamental_div_mod(i, width);
        lemma_quotient_bound(i, width, 2);
        assert(a(i / width, i % width) == b(i / width, i % width));
    }
    assert(first =~= second);
}

/// The planes keep to the range of broadcast video, so nothing is ever cut off.
pub proof fn conversion_keeps_to_video_range(
    pixel: (int, int, int),
    a: (int, int, int),
    b: (int, int, int),
    c: (int, int, int),
)
    requires
        is_colour(pixel),
        is_colour(a),
        is_colour(b),
        is_colour(c),
    ensures
        16 <= luma(pixel) <= 235,
        16 <= blueness(summed(pixel, a, b, c)) <= 240,
        16 <= redness(summed(pixel, a, b, c)) <= 240,
{
}

/// Gray has no colour.
pub proof fn gray_is_neutral(level: int)
    requires
        0 <= level <= 255,
    ensures
        ({
            let gray = (level, level, level);
            &&& blueness(summed(gray, gray, gray, gray)) == 128
            &&& redness(summed(gray, gray, gray, gray)) == 128
        }),
{
}

/// Red, green and blue, each of a byte.
pub open spec fn is_colour(pixel: (int, int, int)) -> bool {
    0 <= pixel.0 <= 255 && 0 <= pixel.1 <= 255 && 0 <= pixel.2 <= 255
}

} // verus!
