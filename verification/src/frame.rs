use std::marker::PhantomData;
use vstd::prelude::*;

use crate::converter::TerminalPixel;

verus! {

/// How the bytes of a raw frame are laid out.
#[derive(Clone, Copy, Debug, PartialEq, Eq, Structural)]
pub enum PixelFormat {
    /// One byte of luminance per pixel.
    Gray8,
    /// Three bytes per pixel: red, green, blue.
    Rgb24,
}

impl PixelFormat {
    pub open spec fn spec_channels(self) -> nat {
        match self {
            PixelFormat::Gray8 => 1,
            PixelFormat::Rgb24 => 3,
        }
    }

    /// The number of bytes that one pixel takes.
    pub fn channels(self) -> (count: usize)
        ensures
            count == self.spec_channels(),
    {
        match self {
            PixelFormat::Gray8 => 1,
            PixelFormat::Rgb24 => 3,
        }
    }
}

/// A colour sampled from a raw frame.
#[derive(Clone, Copy, Debug, PartialEq, Eq, Structural)]
pub struct Rgb {
    pub r: u8,
    pub g: u8,
    pub b: u8,
}

/// The byte offset of the pixel at column `x` of row `y`, rows stored one after another.
pub open spec fn pixel_offset(channels: nat, width: nat, x: int, y: int) -> int {
    (y * width + x) * channels
}

/// The colour of the pixel at column `x` of row `y`. A grey pixel has its luminance in
/// all three channels.
pub open spec fn pixel_at(pixels: Seq<u8>, format: PixelFormat, width: nat, x: int, y: int) -> Rgb {
    let at = pixel_offset(format.spec_channels(), width, x, y);
    match format {
        PixelFormat::Gray8 => Rgb { r: pixels[at], g: pixels[at], b: pixels[at] },
        PixelFormat::Rgb24 => Rgb { r: pixels[at], g: pixels[at + 1], b: pixels[at + 2] },
    }
}

/// The last byte of every pixel of a `width` by `height` image lies inside a buffer that
/// holds at least `channels * width * height` bytes.
pub proof fn lemma_pixel_offset_in_bounds(channels: nat, width: nat, height: nat, x: int, y: int)
    requires
        0 <= x < width,
        0 <= y < height,
    ensures
        0 <= pixel_offset(channels, width, x, y),
        pixel_offset(channels, width, x, y) + channels <= channels * width * height,
{
    assert(0 <= y * width + x && y * width + x + 1 <= height * width) by (nonlinear_arith)
        requires
            0 <= x < width,
            0 <= y < height,
    ;
    assert(0 <= (y * width + x) * channels && (y * width + x) * channels + channels <= channels
        * width * height) by (nonlinear_arith)
        requires
            0 <= y * width + x,
            y * width + x + 1 <= height * width,
            0 <= channels,
    ;
}

/// One decoded video frame as the source hands it over.
#[derive(Clone, Debug)]
pub struct Frame {
    pub data: Vec<u8>,
    pub width: u32,
    pub height: u32,
    pub format: PixelFormat,
}

impl Frame {
    pub fn new(data: Vec<u8>, width: u32, height: u32, format: PixelFormat) -> (frame: Self)
        ensures
            frame.data == data,
            frame.width == width,
            frame.height == height,
            frame.format == format,
    {
        Frame { data, width, height, format }
    }

    /// The number of bytes that the declared dimensions call for.
    pub open spec fn required_len(&self) -> nat {
        self.format.spec_channels() * (self.width as nat) * (self.height as nat)
    }

    /// The buffer holds every pixel that the declared dimensions promise.
    pub open spec fn is_consistent(&self) -> bool {
        self.required_len() <= self.data@.len()
    }

    pub open spec fn spec_pixel(&self, x: int, y: int) -> Rgb {
        pixel_at(self.data@, self.format, self.width as nat, x, y)
    }

    /// Whether the buffer is large enough for the declared dimensions.
    pub fn has_all_pixels(&self) -> (consistent: bool)
        ensures
            consistent == self.is_consistent(),
    {
        let channels: u128 = self.format.channels() as u128;
        let width: u128 = self.width as u128;
        let height: u128 = self.height as u128;
        assert(channels * width * height <= 3 * 0xffff_ffff * 0xffff_ffff) by (nonlinear_arith)
            requires
                channels <= 3,
                width <= 0xffff_ffff,
                height <= 0xffff_ffff,
        ;
        assert(channels * width <= 3 * 0xffff_ffff) by (nonlinear_arith)
            requires
                channels <= 3,
                width <= 0xffff_ffff,
        ;
        channels * width * height <= self.data.len() as u128
    }

    /// The colour of the pixel at column `x` of row `y`.
    pub fn get_pixel(&self, x: u32, y: u32) -> (pixel: Rgb)
        requires
            self.is_consistent(),
            x < self.width,
            y < self.height,
        ensures
            pixel == self.spec_pixel(x as int, y as int),
    {
        let channels: usize = self.format.channels();
        proof {
            lemma_pixel_offset_in_bounds(
                channels as nat,
                self.width as nat,
                self.height as nat,
                x as int,
                y as int,
            );
            let row_start = y as int * self.width as int;
            assert(0 <= row_start) by (nonlinear_arith)
                requires
                    row_start == y as int * self.width as int,
            ;
            assert(row_start + x <= (row_start + x) * channels) by (nonlinear_arith)
                requires
                    0 <= row_start + x,
                    1 <= channels,
            ;
            assert((row_start + x) * channels + channels <= self.data.len());
        }
        let at: usize = (y as usize * self.width as usize + x as usize) * channels;
        match self.format {
            PixelFormat::Gray8 => Rgb { r: self.data[at], g: self.data[at], b: self.data[at] },
            PixelFormat::Rgb24 => Rgb {
                r: self.data[at],
                g: self.data[at + 1],
                b: self.data[at + 2],
            },
        }
    }
}

/// Marks a glyph frame that is still being built.
#[derive(Clone, Copy, Debug, PartialEq, Eq, Structural)]
pub enum Empty {
    Building,
}

/// Marks a glyph frame that has been sealed.
#[derive(Clone, Copy, Debug, PartialEq, Eq, Structural)]
pub enum Full {
    Sealed,
}

/// The rows of a glyph buffer as sequences.
pub open spec fn grid_view(buffer: Vec<Vec<TerminalPixel>>) -> Seq<Seq<TerminalPixel>> {
    Seq::new(buffer@.len(), |y: int| buffer@[y]@)
}

/// `cells` has `height` rows of `width` cells each.
pub open spec fn is_grid(cells: Seq<Seq<TerminalPixel>>, width: nat, height: nat) -> bool {
    &&& cells.len() == height
    &&& forall|y: int| 0 <= y < height ==> (#[trigger] cells[y]).len() == width
}

/// The length of the first row of a grid, or zero where it has no row. In a grid whose
/// rows all have one length this is its width.
pub open spec fn first_row_len(cells: Seq<Seq<TerminalPixel>>) -> nat {
    if cells.len() == 0 {
        0
    } else {
        cells[0].len()
    }
}

/// A copy of `rows`, cell for cell.
fn copy_rows(rows: &Vec<Vec<TerminalPixel>>) -> (copy: Vec<Vec<TerminalPixel>>)
    ensures
        grid_view(copy) == grid_view(*rows),
{
    let mut copy: Vec<Vec<TerminalPixel>> = Vec::new();
    let mut y: usize = 0;
    while y < rows.len()
        invariant
            y <= rows@.len(),
            copy@.len() == y,
            forall|i: int| 0 <= i < y ==> (#[trigger] copy@[i])@ == rows@[i]@,
        decreases rows@.len() - y,
    {
        let source = &rows[y];
        let mut row: Vec<TerminalPixel> = Vec::new();
        let mut x: usize = 0;
        while x < source.len()
            invariant
                x <= source@.len(),
                row@ == source@.take(x as int),
            decreases source@.len() - x,
        {
            row.push(source[x]);
            x += 1;
            assert(source@.take(x as int) == source@.take(x as int - 1).push(
                source@[x as int - 1],
            ));
        }
        assert(source@.take(x as int) == source@);
        copy.push(row);
        y += 1;
    }
    assert(grid_view(copy) == grid_view(*rows));
    copy
}

/// A grid of terminal cells, row by row; widths and heights count characters.
///
/// A frame starts out `Empty` and has no readers; sealing it yields a `Full` frame that
/// has readers and no way to change.
pub struct AsciiFrame<State = Empty> {
    char_buffer: Vec<Vec<TerminalPixel>>,
    state: PhantomData<State>,
}

impl<State> View for AsciiFrame<State> {
    type V = Seq<Seq<TerminalPixel>>;

    closed spec fn view(&self) -> Seq<Seq<TerminalPixel>> {
        grid_view(self.char_buffer)
    }
}

impl<State> Clone for AsciiFrame<State> {
    fn clone(&self) -> (copy: Self)
        ensures
            copy@ == self@,
    {
        AsciiFrame { char_buffer: copy_rows(&self.char_buffer), state: PhantomData }
    }
}

impl AsciiFrame<Empty> {
    /// Seals the frame over `char_buffer`.
    pub fn send_char_buffer(&self, char_buffer: Vec<Vec<TerminalPixel>>) -> (frame: AsciiFrame<Full>)
        ensures
            frame@ == grid_view(char_buffer),
    {
        AsciiFrame { char_buffer, state: PhantomData }
    }
}

impl AsciiFrame<Full> {
    /// The number of rows.
    pub fn height(&self) -> (height: usize)
        ensures
            height == self@.len(),
    {
        self.char_buffer.len()
    }

    /// The number of cells in the first row, or zero where there is no row.
    pub fn width(&self) -> (width: usize)
        ensures
            width == first_row_len(self@),
    {
        if self.char_buffer.len() == 0 {
            0
        } else {
            self.char_buffer[0].len()
        }
    }

    /// A copy of the cells. The frame itself never changes, so every call returns the
    /// same content.
    pub fn get_buffer(&self) -> (buffer: Vec<Vec<TerminalPixel>>)
        ensures
            grid_view(buffer) == self@,
    {
        copy_rows(&self.char_buffer)
    }
}

impl AsciiFrame {
    /// A frame in the building state, with no cells.
    pub fn new() -> (frame: AsciiFrame<Empty>)
        ensures
            frame@.len() == 0,
    {
        Self { char_buffer: Vec::new(), state: PhantomData }
    }
}

} // verus!
