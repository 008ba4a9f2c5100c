use std::sync::atomic::AtomicBool;
use std::sync::Arc;
use vstd::prelude::*;

use crate::converter::TerminalPixel;
use crate::frame::{first_row_len, AsciiFrame, Full, Rgb};
use crate::queues::GenericSharedQueue;
use crate::shutdown::{next_action, next_queue, next_state, poll, StageAction, StageState};
use crate::sink::{all_within, place_cells, placed_all, DrawCommand};

verus! {

/// The largest offset at which a glyph can be drawn into an image.
pub const MAX_IMAGE_OFFSET: u32 = 0x7fff_ffff;

/// The most pixels that an image may have to be drawn.
pub const MAX_IMAGE_PIXELS: u64 = 268_435_456;

/// The image that stands for one glyph frame, before its glyphs are drawn.
#[derive(Clone, Debug)]
pub struct RasterPlan {
    /// The width of the image in pixels.
    pub width: u32,
    /// The height of the image in pixels.
    pub height: u32,
    /// The glyphs to draw, each at the top-left corner of its cell.
    pub glyphs: Vec<DrawCommand>,
}

impl RasterPlan {
    /// The image has pixels, and no more of them than an image may have.
    pub open spec fn spec_drawable(&self) -> bool {
        &&& self.width > 0
        &&& self.height > 0
        &&& self.width * self.height <= MAX_IMAGE_PIXELS
    }

    /// Whether the image is to be drawn. One that is not is left out of the video.
    #[verifier::when_used_as_spec(spec_drawable)]
    pub fn drawable(&self) -> (ok: bool)
        ensures
            ok == self.spec_drawable(),
    {
        assert(self.width * self.height <= 0xffff_ffff * 0xffff_ffff) by (nonlinear_arith)
            requires
                0 <= self.width <= 0xffff_ffff,
                0 <= self.height <= 0xffff_ffff,
        ;
        self.width > 0 && self.height > 0 && (self.width as u64) * (self.height as u64)
            <= MAX_IMAGE_PIXELS
    }
}

/// The colour of the glyphs of cells that carry none: black.
pub open spec fn default_ink() -> Rgb {
    Rgb { r: 0, g: 0, b: 0 }
}

/// The glyphs of the image for a grid of cells: every glyph at the pixel where its cell
/// begins, in the cell's colour, or in black where the cell has none.
pub open spec fn image_commands(cells: Seq<Seq<TerminalPixel>>, scale_x: u32, scale_y: u32) -> Seq<
    DrawCommand,
> {
    placed_all(cells, scale_x, scale_y, Some(default_ink()))
}

/// The image for the grid can be made: every cell begins at an offset that can be drawn
/// at, and the width and the height of the image can be counted.
pub open spec fn fits_image(cells: Seq<Seq<TerminalPixel>>, scale_x: u32, scale_y: u32) -> bool {
    &&& all_within(cells, scale_x, scale_y, MAX_IMAGE_OFFSET)
    &&& first_row_len(cells) * scale_x <= u32::MAX
    &&& cells.len() * scale_y <= u32::MAX
}

/// The sink that turns glyph frames into images for a video file.
pub struct Encoder {
    should_stop: Arc<AtomicBool>,
    scale_x: u32,
    scale_y: u32,
}

impl Encoder {
    /// The flag that tells this stage that no more frames will come.
    pub closed spec fn stop_flag(&self) -> Arc<AtomicBool> {
        self.should_stop
    }

    /// The width of a cell in pixels.
    pub closed spec fn scale_x(&self) -> u32 {
        self.scale_x
    }

    /// The height of a cell in pixels.
    pub closed spec fn scale_y(&self) -> u32 {
        self.scale_y
    }

    pub fn new(should_stop: Arc<AtomicBool>, scale_x: u32, scale_y: u32) -> (encoder: Self)
        ensures
            encoder.stop_flag() == should_stop,
            encoder.scale_x() == scale_x,
            encoder.scale_y() == scale_y,
    {
        Self { should_stop, scale_x, scale_y }
    }

    /// Whether the width and the height of the image for `frame` can be counted.
    fn canvas_fits(&self, frame: &AsciiFrame<Full>) -> (fits: bool)
        ensures
            fits == (first_row_len(frame@) * self.scale_x() <= u32::MAX && frame@.len()
                * self.scale_y() <= u32::MAX),
    {
        let columns: u128 = frame.width() as u128;
        let rows: u128 = frame.height() as u128;
        assert(columns * self.scale_x <= 0xffff_ffff_ffff_ffff * 0xffff_ffff && rows
            * self.scale_y <= 0xffff_ffff_ffff_ffff * 0xffff_ffff) by (nonlinear_arith)
            requires
                0 <= columns <= 0xffff_ffff_ffff_ffff,
                0 <= rows <= 0xffff_ffff_ffff_ffff,
                0 <= self.scale_x <= 0xffff_ffff,
                0 <= self.scale_y <= 0xffff_ffff,
        ;
        columns * (self.scale_x as u128) <= u32::MAX as u128 && rows * (self.scale_y as u128)
            <= u32::MAX as u128
    }

    /// The image for `frame`: as wide as the first row of cells and as high as the rows,
    /// with one glyph for every cell, in reading order. A frame whose image cannot be
    /// made gives nothing, and the stage goes on with the next frame.
    pub fn encode_frame(&self, frame: &AsciiFrame<Full>) -> (plan: Option<RasterPlan>)
        ensures
            plan is Some <==> fits_image(frame@, self.scale_x(), self.scale_y()),
            plan matches Some(image) ==> {
                &&& image.width == first_row_len(frame@) * self.scale_x()
                &&& image.height == frame@.len() * self.scale_y()
                &&& image.glyphs@ == image_commands(frame@, self.scale_x(), self.scale_y())
            },
    {
        if !self.canvas_fits(frame) {
            return None;
        }
        let ink = Rgb { r: 0, g: 0, b: 0 };
        match place_cells(frame, self.scale_x, self.scale_y, MAX_IMAGE_OFFSET, Some(ink)) {
            Some(glyphs) => {
                let width: u32 = ((frame.width() as u128) * (self.scale_x as u128)) as u32;
                let height: u32 = ((frame.height() as u128) * (self.scale_y as u128)) as u32;
                Some(RasterPlan { width, height, glyphs })
            },
            None => None,
        }
    }

    /// One step of the stage while it holds its queue: it reads the stop flag and either
    /// takes the next frame to encode, or says to wait, to ask again, or to end.
    pub fn poll(&self, state: StageState, queue: &mut GenericSharedQueue<AsciiFrame<Full>>) -> (step:
        (StageState, StageAction<AsciiFrame<Full>>))
        ensures
            exists|stop: bool|
                {
                    &&& step.0 == #[trigger] next_state(state, old(queue)@, stop)
                    &&& step.1 == next_action(state, old(queue)@, stop)
                },
            final(queue)@ == next_queue(state, old(queue)@),
    {
        poll(state, queue, &self.should_stop)
    }
}

} // verus!
