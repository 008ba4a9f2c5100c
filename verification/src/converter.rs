use image::imageops::FilterType;
use image::{DynamicImage, GrayImage, RgbImage};
use std::collections::HashMap;
use std::sync::atomic::AtomicBool;
use std::sync::Arc;
use vstd::prelude::*;

use crate::args::{DetailLevel, Mode};
use crate::ascii_set::AsciiCharset;
use crate::frame::{is_grid, pixel_at, AsciiFrame, Frame, Full, PixelFormat, Rgb};
use crate::queues::GenericSharedQueue;
use crate::shutdown::{advance, stop_requested, StageAction, StageState};
use crate::term::TermSize;

verus! {

broadcast use vstd::std_specs::hash::group_hash_axioms;

/// One terminal cell: a glyph, and in colour mode the colour that was sampled for it.
#[derive(Clone, Copy, Debug, PartialEq, Eq, Structural)]
pub enum TerminalPixel {
    Gray(char),
    Colored(char, Rgb),
}

impl TerminalPixel {
    pub open spec fn spec_glyph(self) -> char {
        match self {
            TerminalPixel::Gray(glyph) => glyph,
            TerminalPixel::Colored(glyph, _) => glyph,
        }
    }

    pub open spec fn spec_color(self) -> Option<Rgb> {
        match self {
            TerminalPixel::Gray(_) => None,
            TerminalPixel::Colored(_, color) => Some(color),
        }
    }

    /// The glyph of the cell.
    pub fn glyph(self) -> (glyph: char)
        ensures
            glyph == self.spec_glyph(),
    {
        match self {
            TerminalPixel::Gray(glyph) => glyph,
            TerminalPixel::Colored(glyph, _) => glyph,
        }
    }

    /// The colour of the cell, where it carries one.
    pub fn color(self) -> (color: Option<Rgb>)
        ensures
            color == self.spec_color(),
    {
        match self {
            TerminalPixel::Gray(_) => None,
            TerminalPixel::Colored(_, color) => Some(color),
        }
    }
}

/// The position in a ramp of `ramp_len` glyphs that a luminance selects: luminance 0
/// selects the first glyph, 255 the last, and the values between are spread evenly and
/// rounded to the nearest position.
pub open spec fn ramp_index(luminance: u8, ramp_len: nat) -> int {
    (2 * luminance * (ramp_len - 1) + 255) / 510
}

/// The glyph of `ramp` that stands for `luminance`.
pub open spec fn glyph_for(ramp: Seq<char>, luminance: u8) -> char {
    ramp[ramp_index(luminance, ramp.len())]
}

/// Every luminance selects a position inside the ramp; the darkest selects the first
/// and the brightest the last.
pub proof fn lemma_ramp_index_in_range(luminance: u8, ramp_len: nat)
    requires
        ramp_len > 0,
    ensures
        0 <= ramp_index(luminance, ramp_len) < ramp_len,
        ramp_index(0, ramp_len) == 0,
        ramp_index(255, ramp_len) == ramp_len - 1,
{
    let steps = ramp_len - 1;
    assert(0 <= 2 * luminance * steps <= 510 * steps) by (nonlinear_arith)
        requires
            0 <= luminance <= 255,
            0 <= steps,
    ;
    assert(2 * 0u8 * steps == 0) by (nonlinear_arith);
    assert(2 * 255u8 * steps == 510 * steps) by (nonlinear_arith);
}

/// A brighter luminance never selects an earlier glyph.
pub proof fn lemma_ramp_index_monotonic(darker: u8, brighter: u8, ramp_len: nat)
    requires
        ramp_len > 0,
        darker <= brighter,
    ensures
        ramp_index(darker, ramp_len) <= ramp_index(brighter, ramp_len),
{
    let steps = ramp_len - 1;
    assert(2 * darker * steps <= 2 * brighter * steps) by (nonlinear_arith)
        requires
            0 <= darker <= brighter,
            0 <= steps,
    ;
}

/// Maps luminance to the glyphs of a ramp and remembers each answer it has given.
#[derive(Debug)]
pub struct CharsetMapper {
    charset: Vec<char>,
    cache: HashMap<u8, char>,
}

impl Clone for CharsetMapper {
    fn clone(&self) -> (copy: Self)
        ensures
            copy.ramp() == self.ramp(),
            copy.cached() == self.cached(),
    {
        proof {
            use_type_invariant(self);
        }
        let charset = self.charset.clone();
        assert(charset@ == self.charset@);
        Self { charset, cache: self.cache.clone() }
    }
}

impl CharsetMapper {
    #[verifier::type_invariant]
    spec fn well_formed(self) -> bool {
        &&& self.charset@.len() > 0
        &&& forall|luminance: u8| #[trigger]
            self.cache@.contains_key(luminance) ==> self.cache@[luminance] == glyph_for(
                self.charset@,
                luminance,
            )
    }

    /// The glyphs of the ramp, in order.
    pub closed spec fn ramp(&self) -> Seq<char> {
        self.charset@
    }

    /// The luminance values whose glyph is remembered.
    pub closed spec fn cached(&self) -> Set<u8> {
        self.cache@.dom()
    }

    pub fn new(charset: &str) -> (mapper: Self)
        requires
            charset@.len() > 0,
        ensures
            mapper.ramp() == charset@,
            mapper.cached() == Set::<u8>::empty(),
    {
        let mut ramp: Vec<char> = Vec::new();
        let length = charset.unicode_len();
        let mut position: usize = 0;
        while position < length
            invariant
                length == charset@.len(),
                position <= length,
                ramp@ == charset@.take(position as int),
            decreases length - position,
        {
            ramp.push(charset.get_char(position));
            position += 1;
            assert(charset@.take(position as int) == charset@.take(position as int - 1).push(
                charset@[position as int - 1],
            ));
        }
        assert(charset@.take(position as int) == charset@);
        Self { charset: ramp, cache: HashMap::new() }
    }

    /// The glyph for `luminance`: looked up if it was asked for before, else computed
    /// from the ramp and remembered.
    pub fn map_luminance_to_char(&mut self, luminance: u8) -> (glyph: char)
        ensures
            glyph == glyph_for(old(self).ramp(), luminance),
            final(self).ramp() == old(self).ramp(),
            final(self).cached() == old(self).cached().insert(luminance),
    {
        proof {
            use_type_invariant(&*self);
        }
        match self.cache.get(&luminance) {
            Some(glyph) => {
                let glyph = *glyph;
                assert(self.cache@.dom().insert(luminance) == self.cache@.dom());
                glyph
            },
            None => {
                let steps: u128 = (self.charset.len() - 1) as u128;
                proof {
                    lemma_ramp_index_in_range(luminance, self.charset@.len());
                    assert(2 * luminance * steps <= 510 * steps) by (nonlinear_arith)
                        requires
                            0 <= luminance <= 255,
                            0 <= steps,
                    ;
                }
                let index: usize = ((2 * (luminance as u128) * steps + 255) / 510) as usize;
                let glyph = self.charset[index];
                let mut cache: HashMap<u8, char> = HashMap::new();
                std::mem::swap(&mut self.cache, &mut cache);
                cache.insert(luminance, glyph);
                std::mem::swap(&mut self.cache, &mut cache);
                glyph
            },
        }
    }
}

/// The bytes that `image::DynamicImage::resize_exact` with the nearest-neighbour filter
/// gives for an image of `width` by `height` pixels of `channels` bytes each, stored in
/// `pixels`, when asked for `new_width` by `new_height` pixels.
pub uninterp spec fn nearest_resized(
    pixels: Seq<u8>,
    channels: nat,
    width: nat,
    height: nat,
    new_width: nat,
    new_height: nat,
) -> Seq<u8>;

/// The buffers that resampling allocates can be counted and addressed on this machine.
/// A row of the source, counted in bytes, fits the machine's word. Unless the size stays
/// the same, so do a row of the intermediate image of four channels and a row of the
/// resampled image, and neither image, the first of 32-bit channels, is larger than the
/// largest allocation.
pub open spec fn resample_within_limits(
    channels: nat,
    width: nat,
    height: nat,
    new_width: nat,
    new_height: nat,
) -> bool {
    &&& channels * width <= usize::MAX
    &&& (new_width == width && new_height == height) || {
        &&& 4 * width <= usize::MAX
        &&& channels * new_width <= usize::MAX
        &&& 16 * width * new_height <= isize::MAX
        &&& channels * new_width * new_height <= isize::MAX
    }
}

/// Calls `image::DynamicImage::resize_exact` with `FilterType::Nearest` on the image that
/// `image::ImageBuffer::from_raw` makes of `pixels`, and hands back the bytes of the
/// resized image.
///
/// Trusted: `from_raw` accepts the buffer exactly when it holds at least
/// `channels * width * height` bytes; the resized image has the dimensions asked for, so
/// `channels * new_width * new_height` bytes; its content depends on the arguments
/// alone, which `nearest_resized` names; and where the size asked for is the size of the
/// image, the pixels are copied one by one, so the content is that of the image.
#[verifier::external_body]
fn resize_exact_nearest(
    format: PixelFormat,
    pixels: &Vec<u8>,
    width: u32,
    height: u32,
    new_width: u32,
    new_height: u32,
) -> (resized: Option<Vec<u8>>)
    requires
        resample_within_limits(
            format.spec_channels(),
            width as nat,
            height as nat,
            new_width as nat,
            new_height as nat,
        ),
    ensures
        resized is Some <==> format.spec_channels() * width * height <= pixels@.len(),
        resized matches Some(bytes) ==> {
            &&& bytes@ == nearest_resized(
                pixels@,
                format.spec_channels(),
                width as nat,
                height as nat,
                new_width as nat,
                new_height as nat,
            )
            &&& bytes@.len() == format.spec_channels() * new_width * new_height
            &&& new_width == width && new_height == height ==> bytes@ == pixels@.take(
                format.spec_channels() * width * height,
            )
        },
{
    let source = match format {
        PixelFormat::Gray8 => DynamicImage::ImageLuma8(
            GrayImage::from_raw(width, height, pixels.clone())?,
        ),
        PixelFormat::Rgb24 => DynamicImage::ImageRgb8(
            RgbImage::from_raw(width, height, pixels.clone())?,
        ),
    };
    Some(source.resize_exact(new_width, new_height, FilterType::Nearest).into_bytes())
}

/// The cell that stands for `pixel`. Its glyph is chosen by the red channel, which for a
/// grey pixel is its luminance; in colour mode the cell also carries the pixel's colour.
pub open spec fn cell_for(pixel: Rgb, mode: Mode, ramp: Seq<char>) -> TerminalPixel {
    let glyph = glyph_for(ramp, pixel.r);
    match mode {
        Mode::Gray => TerminalPixel::Gray(glyph),
        Mode::Color => TerminalPixel::Colored(glyph, pixel),
    }
}

/// The row of cells that stands for row `y` of an image.
pub open spec fn glyph_row(
    pixels: Seq<u8>,
    format: PixelFormat,
    width: nat,
    y: int,
    mode: Mode,
    ramp: Seq<char>,
) -> Seq<TerminalPixel> {
    Seq::new(width, |x: int| cell_for(pixel_at(pixels, format, width, x, y), mode, ramp))
}

/// The grid of cells that stands for an image: one row of cells for each row of pixels,
/// one cell for each pixel.
pub open spec fn glyph_grid(
    pixels: Seq<u8>,
    format: PixelFormat,
    width: nat,
    height: nat,
    mode: Mode,
    ramp: Seq<char>,
) -> Seq<Seq<TerminalPixel>> {
    Seq::new(height, |y: int| glyph_row(pixels, format, width, y, mode, ramp))
}

/// The glyph grid of an image reads only the pixels that its dimensions declare: bytes
/// after the last pixel make no difference.
pub proof fn lemma_glyph_grid_reads_declared_pixels(
    pixels: Seq<u8>,
    format: PixelFormat,
    width: nat,
    height: nat,
    mode: Mode,
    ramp: Seq<char>,
)
    requires
        format.spec_channels() * width * height <= pixels.len(),
    ensures
        glyph_grid(
            pixels.take((format.spec_channels() * width * height) as int),
            format,
            width,
            height,
            mode,
            ramp,
        ) == glyph_grid(pixels, format, width, height, mode, ramp),
{
    let declared = pixels.take((format.spec_channels() * width * height) as int);
    assert forall|y: int| 0 <= y < height implies glyph_row(declared, format, width, y, mode, ramp)
        == glyph_row(pixels, format, width, y, mode, ramp) by {
        assert forall|x: int| 0 <= x < width implies pixel_at(declared, format, width, x, y)
            == pixel_at(pixels, format, width, x, y) by {
            crate::frame::lemma_pixel_offset_in_bounds(format.spec_channels(), width, height, x, y);
        }
        assert(glyph_row(declared, format, width, y, mode, ramp) =~= glyph_row(
            pixels,
            format,
            width,
            y,
            mode,
            ramp,
        ));
    }
    assert(glyph_grid(declared, format, width, height, mode, ramp) =~= glyph_grid(
        pixels,
        format,
        width,
        height,
        mode,
        ramp,
    ));
}

/// Whether `frame` can be resampled to `terminal_size`: its buffer holds every pixel it
/// declares, and the buffers that resampling needs fit this machine.
pub open spec fn can_resample(frame: Frame, terminal_size: TermSize) -> bool {
    &&& frame.is_consistent()
    &&& resample_within_limits(
        frame.format.spec_channels(),
        frame.width as nat,
        frame.height as nat,
        terminal_size.width as nat,
        terminal_size.height as nat,
    )
}

/// The cells of the glyph frame that `frame` converts to on a surface of `terminal_size`:
/// the glyph grid of the resampled image, or no cells where the frame cannot be
/// resampled.
pub open spec fn converted(
    frame: Frame,
    mode: Mode,
    terminal_size: TermSize,
    ramp: Seq<char>,
) -> Seq<Seq<TerminalPixel>> {
    if can_resample(frame, terminal_size) {
        glyph_grid(
            nearest_resized(
                frame.data@,
                frame.format.spec_channels(),
                frame.width as nat,
                frame.height as nat,
                terminal_size.width as nat,
                terminal_size.height as nat,
            ),
            frame.format,
            terminal_size.width as nat,
            terminal_size.height as nat,
            mode,
            ramp,
        )
    } else {
        Seq::empty()
    }
}

/// The cells of each frame of a sequence of glyph frames.
pub open spec fn frame_views(frames: Seq<AsciiFrame<Full>>) -> Seq<Seq<Seq<TerminalPixel>>> {
    Seq::new(frames.len(), |i: int| frames[i]@)
}

/// The cells of the glyph frames that a sequence of raw frames converts to, frame by
/// frame and in the same order.
pub open spec fn converted_all(
    frames: Seq<Frame>,
    mode: Mode,
    terminal_size: TermSize,
    ramp: Seq<char>,
) -> Seq<Seq<Seq<TerminalPixel>>> {
    Seq::new(frames.len(), |i: int| converted(frames[i], mode, terminal_size, ramp))
}

/// The state in which the conversion stage is after it has worked through its queue:
/// stopped if a stop was requested, else still running.
pub open spec fn state_after_queue(stop_requested: bool) -> StageState {
    if stop_requested {
        StageState::Stopped
    } else {
        StageState::Running
    }
}

/// How many of `frames` cannot be resampled to `terminal_size`, and so are replaced by a
/// frame without cells.
pub open spec fn replaced_count(frames: Seq<Frame>, terminal_size: TermSize) -> nat
    decreases frames.len(),
{
    if frames.len() == 0 {
        0
    } else {
        replaced_count(frames.drop_last(), terminal_size) + if can_resample(
            frames.last(),
            terminal_size,
        ) {
            0nat
        } else {
            1nat
        }
    }
}

/// What one turn of the conversion stage came to.
#[derive(Clone, Copy, Debug, PartialEq, Eq, Structural)]
pub struct ConversionReport {
    /// The state in which the turn left the stage.
    pub state: StageState,
    /// How many frames could not be resampled and were replaced by a frame without
    /// cells; the caller makes them known.
    pub replaced: usize,
}

/// The conversion stage: it turns raw frames into sealed glyph frames.
pub struct FrameToAsciiFrameConverter {
    should_stop: Arc<AtomicBool>,
}

/// The stage that would turn glyph frames back into raw frames; it has no behaviour yet.
pub struct AsciiFrameToFrameConverter {}

impl FrameToAsciiFrameConverter {
    /// The flag that tells this stage that its source has no more frames.
    pub closed spec fn stop_flag(&self) -> Arc<AtomicBool> {
        self.should_stop
    }

    pub fn new(should_stop: Arc<AtomicBool>) -> (converter: Self)
        ensures
            converter.stop_flag() == should_stop,
    {
        Self { should_stop }
    }

    /// Whether the buffers that resampling needs fit this machine.
    fn within_limits(frame: &Frame, terminal_size: &TermSize) -> (fits: bool)
        ensures
            fits == resample_within_limits(
                frame.format.spec_channels(),
                frame.width as nat,
                frame.height as nat,
                terminal_size.width as nat,
                terminal_size.height as nat,
            ),
    {
        let channels: u128 = frame.format.channels() as u128;
        let width: u128 = frame.width as u128;
        let new_width: u128 = terminal_size.width as u128;
        let new_height: u128 = terminal_size.height as u128;
        assert(16 * width * new_height <= 16 * 0xffff_ffff * 0xffff_ffff && channels * new_width
            * new_height <= 3 * 0xffff_ffff * 0xffff_ffff && channels * new_width <= 3
            * 0xffff_ffff && 16 * width <= 16 * 0xffff_ffff) by (nonlinear_arith)
            requires
                channels <= 3,
                width <= 0xffff_ffff,
                new_width <= 0xffff_ffff,
                new_height <= 0xffff_ffff,
        ;
        let same_size = terminal_size.width == frame.width && terminal_size.height == frame.height;
        channels * width <= usize::MAX as u128 && (same_size || (4 * width <= usize::MAX as u128
            && channels * new_width <= usize::MAX as u128 && 16 * width * new_height
            <= isize::MAX as u128 && channels * new_width * new_height <= isize::MAX as u128))
    }

    /// Resamples `frame` to the size of the terminal, by nearest neighbour. A frame that
    /// cannot be resampled gives nothing.
    pub fn process_frame(frame: &Frame, terminal_size: &TermSize) -> (image: Option<Frame>)
        ensures
            image is Some <==> can_resample(*frame, *terminal_size),
            image matches Some(resampled) ==> {
                &&& resampled.width == terminal_size.width
                &&& resampled.height == terminal_size.height
                &&& resampled.format == frame.format
                &&& resampled.data@.len() == resampled.required_len()
                &&& resampled.data@ == nearest_resized(
                    frame.data@,
                    frame.format.spec_channels(),
                    frame.width as nat,
                    frame.height as nat,
                    terminal_size.width as nat,
                    terminal_size.height as nat,
                )
                &&& terminal_size.width == frame.width && terminal_size.height == frame.height
                    ==> resampled.data@ == frame.data@.take(frame.required_len() as int)
            },
    {
        if !Self::within_limits(frame, terminal_size) {
            return None;
        }
        match resize_exact_nearest(
            frame.format,
            &frame.data,
            frame.width,
            frame.height,
            terminal_size.width,
            terminal_size.height,
        ) {
            Some(bytes) => Some(
                Frame::new(bytes, terminal_size.width, terminal_size.height, frame.format),
            ),
            None => None,
        }
    }

    /// The glyph frame that stands for `image`, cell for pixel. An image whose buffer is
    /// too short for its dimensions gives a frame without cells.
    pub fn glyph_frame(image: &Frame, mode: Mode, charset_mapper: &mut CharsetMapper) -> (frame:
        AsciiFrame<Full>)
        ensures
            final(charset_mapper).ramp() == old(charset_mapper).ramp(),
            image.is_consistent() ==> frame@ == glyph_grid(
                image.data@,
                image.format,
                image.width as nat,
                image.height as nat,
                mode,
                old(charset_mapper).ramp(),
            ),
            !image.is_consistent() ==> frame@ == Seq::<Seq<TerminalPixel>>::empty(),
    {
        let ghost ramp = charset_mapper.ramp();
        let mut char_buffer: Vec<Vec<TerminalPixel>> = Vec::new();
        if !image.has_all_pixels() {
            let frame = AsciiFrame::new().send_char_buffer(char_buffer);
            assert(frame@ == Seq::<Seq<TerminalPixel>>::empty());
            return frame;
        }
        let mut y: u32 = 0;
        while y < image.height
            invariant
                image.is_consistent(),
                y <= image.height,
                charset_mapper.ramp() == ramp,
                char_buffer@.len() == y,
                forall|i: int|
                    0 <= i < y ==> (#[trigger] char_buffer@[i])@ == glyph_row(
                        image.data@,
                        image.format,
                        image.width as nat,
                        i,
                        mode,
                        ramp,
                    ),
            decreases image.height - y,
        {
            let mut row: Vec<TerminalPixel> = Vec::new();
            let mut x: u32 = 0;
            while x < image.width
                invariant
                    image.is_consistent(),
                    y < image.height,
                    x <= image.width,
                    charset_mapper.ramp() == ramp,
                    row@.len() == x,
                    forall|i: int|
                        0 <= i < x ==> #[trigger] row@[i] == cell_for(
                            image.spec_pixel(i, y as int),
                            mode,
                            ramp,
                        ),
                decreases image.width - x,
            {
                let pixel = image.get_pixel(x, y);
                let glyph = charset_mapper.map_luminance_to_char(pixel.r);
                match mode {
                    Mode::Color => row.push(TerminalPixel::Colored(glyph, pixel)),
                    Mode::Gray => row.push(TerminalPixel::Gray(glyph)),
                }
                x += 1;
            }
            assert(row@ == glyph_row(
                image.data@,
                image.format,
                image.width as nat,
                y as int,
                mode,
                ramp,
            ));
            char_buffer.push(row);
            y += 1;
        }
        let frame = AsciiFrame::new().send_char_buffer(char_buffer);
        assert(frame@ == glyph_grid(
            image.data@,
            image.format,
            image.width as nat,
            image.height as nat,
            mode,
            ramp,
        ));
        frame
    }

    /// Converts one raw frame, and says whether it had to be replaced by a frame without
    /// cells.
    fn convert_or_replace(
        frame: &Frame,
        mode: Mode,
        terminal_size: &TermSize,
        charset_mapper: &mut CharsetMapper,
    ) -> (outcome: (AsciiFrame<Full>, bool))
        ensures
            outcome.1 == !can_resample(*frame, *terminal_size),
            final(charset_mapper).ramp() == old(charset_mapper).ramp(),
            outcome.0@ == converted(
                *frame,
                mode,
                *terminal_size,
                old(charset_mapper).ramp(),
            ),
            can_resample(*frame, *terminal_size) ==> is_grid(
                outcome.0@,
                terminal_size.width as nat,
                terminal_size.height as nat,
            ),
            can_resample(*frame, *terminal_size) && terminal_size.width == frame.width
                && terminal_size.height == frame.height ==> outcome.0@ == glyph_grid(
                frame.data@,
                frame.format,
                frame.width as nat,
                frame.height as nat,
                mode,
                old(charset_mapper).ramp(),
            ),
    {
        match Self::process_frame(frame, terminal_size) {
            Some(image) => {
                proof {
                    lemma_glyph_grid_reads_declared_pixels(
                        frame.data@,
                        frame.format,
                        frame.width as nat,
                        frame.height as nat,
                        mode,
                        charset_mapper.ramp(),
                    );
                }
                (Self::glyph_frame(&image, mode, charset_mapper), false)
            },
            None => {
                let empty = AsciiFrame::new().send_char_buffer(Vec::new());
                assert(empty@ == Seq::<Seq<TerminalPixel>>::empty());
                (empty, true)
            },
        }
    }

    /// Converts one raw frame: resamples it to the terminal's size and maps every pixel
    /// to a cell. A frame that cannot be resampled gives a frame without cells.
    pub fn convert_frame(
        frame: &Frame,
        mode: Mode,
        terminal_size: &TermSize,
        charset_mapper: &mut CharsetMapper,
    ) -> (converted_frame: AsciiFrame<Full>)
        ensures
            final(charset_mapper).ramp() == old(charset_mapper).ramp(),
            converted_frame@ == converted(
                *frame,
                mode,
                *terminal_size,
                old(charset_mapper).ramp(),
            ),
            can_resample(*frame, *terminal_size) ==> is_grid(
                converted_frame@,
                terminal_size.width as nat,
                terminal_size.height as nat,
            ),
            can_resample(*frame, *terminal_size) && terminal_size.width == frame.width
                && terminal_size.height == frame.height ==> converted_frame@ == glyph_grid(
                frame.data@,
                frame.format,
                frame.width as nat,
                frame.height as nat,
                mode,
                old(charset_mapper).ramp(),
            ),
    {
        Self::convert_or_replace(frame, mode, terminal_size, charset_mapper).0
    }

    /// The mapper that a run with this level of detail uses.
    pub fn charset_mapper(detail_level: DetailLevel) -> (charset_mapper: CharsetMapper)
        ensures
            detail_level == DetailLevel::Basic ==> charset_mapper.ramp() == crate::ascii_set::LOW@,
            detail_level == DetailLevel::Detailed ==> charset_mapper.ramp()
                == crate::ascii_set::BASIC@,
            charset_mapper.cached() == Set::<u8>::empty(),
    {
        let charset = AsciiCharset::for_detail(detail_level);
        CharsetMapper::new(charset.as_str())
    }

    /// Works through the input queue for a given reading of the stop flag: converts every
    /// queued raw frame, in order, and appends the glyph frames to the output queue. With
    /// the input queue empty the stage stops if a stop was requested, and else goes on
    /// running, to be called again when frames may have come. The report also counts the
    /// frames that could not be resampled.
    pub fn convert_queued(
        input: &mut GenericSharedQueue<Frame>,
        output: &mut GenericSharedQueue<AsciiFrame<Full>>,
        mode: Mode,
        terminal_size: &TermSize,
        charset_mapper: &mut CharsetMapper,
        stop_requested: bool,
    ) -> (report: ConversionReport)
        ensures
            final(charset_mapper).ramp() == old(charset_mapper).ramp(),
            final(input)@.len() == 0,
            final(output)@.len() == old(output)@.len() + old(input)@.len(),
            frame_views(final(output)@) == frame_views(old(output)@) + converted_all(
                old(input)@,
                mode,
                *terminal_size,
                old(charset_mapper).ramp(),
            ),
            report.state == state_after_queue(stop_requested),
            report.replaced == replaced_count(old(input)@, *terminal_size),
    {
        let ghost ramp = charset_mapper.ramp();
        let ghost frames = input@;
        let ghost delivered = output@;
        let ghost mut done: int = 0;
        let queued = input.len();
        let mut replaced: usize = 0;
        let mut state = StageState::Running;
        let mut waiting = false;
        assert(frames.skip(0) == frames);
        assert(frames.take(0).len() == 0);
        assert(frame_views(output@) == frame_views(delivered) + converted_all(
            frames.take(0),
            mode,
            *terminal_size,
            ramp,
        ));
        while !waiting && state != StageState::Stopped
            invariant
                charset_mapper.ramp() == ramp,
                0 <= done <= frames.len(),
                frames.len() == queued,
                replaced <= done,
                replaced == replaced_count(frames.take(done), *terminal_size),
                input@ == frames.skip(done),
                output@.len() == delivered.len() + done,
                frame_views(output@) == frame_views(delivered) + converted_all(
                    frames.take(done),
                    mode,
                    *terminal_size,
                    ramp,
                ),
                waiting ==> state == StageState::Running && !stop_requested && done == frames.len(),
                state == StageState::Draining ==> stop_requested && done == frames.len(),
                state == StageState::Stopped ==> stop_requested && done == frames.len(),
            decreases
                frames.len() - done,
                crate::shutdown::steps_left(state),
                if waiting {
                    0int
                } else {
                    1int
                },
        {
            let (next, action) = advance(state, input, stop_requested);
            state = next;
            match action {
                StageAction::Process(frame) => {
                    let (glyphs, unfit) = Self::convert_or_replace(
                        &frame,
                        mode,
                        terminal_size,
                        charset_mapper,
                    );
                    let ghost before = output@;
                    output.push(glyphs);
                    proof {
                        assert(frame == frames[done]);
                        assert(done < frames.len());
                        assert(frames.take(done + 1).drop_last() == frames.take(done));
                        assert(frames.take(done + 1).last() == frames[done]);
                        assert(frames.skip(done).drop_first() == frames.skip(done + 1));
                        assert(frames.take(done + 1) == frames.take(done).push(frames[done]));
                        assert(frame_views(output@) == frame_views(before).push(glyphs@));
                        assert(converted_all(frames.take(done + 1), mode, *terminal_size, ramp)
                            == converted_all(frames.take(done), mode, *terminal_size, ramp).push(
                            converted(frames[done], mode, *terminal_size, ramp),
                        ));
                        done = done + 1;
                    }
                    if unfit {
                        replaced += 1;
                    }
                },
                StageAction::Wait => {
                    waiting = true;
                },
                StageAction::Poll => {},
                StageAction::Terminate => {},
            }
        }
        assert(frames.take(done) == frames);
        ConversionReport { state, replaced }
    }

    /// One turn of the stage while it holds both queues: reads the stop flag, then works
    /// through the input queue as `convert_queued` does for that reading. Every frame
    /// that was queued is converted and delivered, and those that had to be replaced are
    /// counted, whatever the flag held; only the state that comes back depends on it.
    pub fn step(
        &self,
        input: &mut GenericSharedQueue<Frame>,
        output: &mut GenericSharedQueue<AsciiFrame<Full>>,
        mode: Mode,
        terminal_size: &TermSize,
        charset_mapper: &mut CharsetMapper,
    ) -> (report: ConversionReport)
        ensures
            final(charset_mapper).ramp() == old(charset_mapper).ramp(),
            final(input)@.len() == 0,
            final(output)@.len() == old(output)@.len() + old(input)@.len(),
            frame_views(final(output)@) == frame_views(old(output)@) + converted_all(
                old(input)@,
                mode,
                *terminal_size,
                old(charset_mapper).ramp(),
            ),
            report.state == StageState::Running || report.state == StageState::Stopped,
            report.replaced == replaced_count(old(input)@, *terminal_size),
    {
        let stop = stop_requested(&self.should_stop);
        Self::convert_queued(input, output, mode, terminal_size, charset_mapper, stop)
    }
}

/// A frame that can be resampled converts to a grid of exactly the surface's size.
pub proof fn lemma_converted_matches_surface(
    frame: Frame,
    mode: Mode,
    terminal_size: TermSize,
    ramp: Seq<char>,
)
    requires
        can_resample(frame, terminal_size),
    ensures
        is_grid(
            converted(frame, mode, terminal_size, ramp),
            terminal_size.width as nat,
            terminal_size.height as nat,
        ),
{
}

/// Conversion keeps count and order: a sequence of raw frames converts to as many glyph
/// frames, and the glyph frame at each place is the conversion of the raw frame at that
/// place.
pub proof fn lemma_conversion_keeps_order(
    frames: Seq<Frame>,
    mode: Mode,
    terminal_size: TermSize,
    ramp: Seq<char>,
)
    ensures
        converted_all(frames, mode, terminal_size, ramp).len() == frames.len(),
        forall|i: int|
            0 <= i < frames.len() ==> #[trigger] converted_all(frames, mode, terminal_size, ramp)[i]
                == converted(frames[i], mode, terminal_size, ramp),
{
}

/// Frames that reach the stage in two batches convert to what they would convert to in
/// one: the frames of the first batch, then those of the second.
pub proof fn lemma_conversion_of_batches(
    first: Seq<Frame>,
    second: Seq<Frame>,
    mode: Mode,
    terminal_size: TermSize,
    ramp: Seq<char>,
)
    ensures
        converted_all(first + second, mode, terminal_size, ramp) == converted_all(
            first,
            mode,
            terminal_size,
            ramp,
        ) + converted_all(second, mode, terminal_size, ramp),
{
}

} // verus!
