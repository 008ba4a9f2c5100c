use std::sync::atomic::AtomicBool;
use std::sync::Arc;
use vstd::prelude::*;

use crate::converter::TerminalPixel;
use crate::frame::{AsciiFrame, Full};
use crate::queues::GenericSharedQueue;
use crate::shutdown::{next_action, next_queue, next_state, poll, StageAction, StageState};
use crate::sink::{all_within, place, place_cells, placed, placed_all, DrawCommand};

verus! {

/// The largest column or row that a terminal can be told to move to.
pub const MAX_TERMINAL_POSITION: u32 = 65535;

/// The pause between two frames, in milliseconds, at `frame_rate` frames a second: the
/// whole milliseconds of a thousand divided by the rate. A rate of zero gives the longest
/// pause there is.
pub open spec fn frame_delta(frame_rate: usize) -> u64 {
    if frame_rate == 0 {
        u64::MAX
    } else {
        (1000int / (frame_rate as int)) as u64
    }
}

/// The commands that show a grid of cells in a terminal: every glyph at the column and
/// row of its cell, in the cell's colour where it has one.
pub open spec fn terminal_commands(cells: Seq<Seq<TerminalPixel>>) -> Seq<DrawCommand> {
    placed_all(cells, 1, 1, None)
}

/// Every cell of the grid lies at a column and a row that a terminal can address.
pub open spec fn fits_terminal(cells: Seq<Seq<TerminalPixel>>) -> bool {
    all_within(cells, 1, 1, MAX_TERMINAL_POSITION)
}

/// The sink that shows glyph frames in the terminal, at a fixed pace.
pub struct Player {
    should_stop: Arc<AtomicBool>,
    delta: u64,
}

impl Player {
    /// The flag that tells this stage that no more frames will come.
    pub closed spec fn stop_flag(&self) -> Arc<AtomicBool> {
        self.should_stop
    }

    pub closed spec fn spec_delta(&self) -> u64 {
        self.delta
    }

    pub fn new(should_stop: Arc<AtomicBool>, frame_rate: usize) -> (player: Self)
        ensures
            player.stop_flag() == should_stop,
            player.spec_delta() == frame_delta(frame_rate),
    {
        let delta: u64 = if frame_rate == 0 {
            u64::MAX
        } else {
            1000 / (frame_rate as u64)
        };
        Self { should_stop, delta }
    }

    /// The pause before each frame, in milliseconds.
    #[verifier::when_used_as_spec(spec_delta)]
    pub fn delta(&self) -> (delta: u64)
        ensures
            delta == self.spec_delta(),
    {
        self.delta
    }

    /// The command that shows one cell at column `x` of row `y`.
    pub fn print_char(x: u16, y: u16, terminal_pixel: TerminalPixel) -> (command: DrawCommand)
        ensures
            command == placed(x as int, y as int, terminal_pixel, 1, 1, None),
            command.position.x == x,
            command.position.y == y,
            command.glyph == terminal_pixel.spec_glyph(),
            command.color == terminal_pixel.spec_color(),
    {
        place(x as u32, y as u32, terminal_pixel, None)
    }

    /// The commands that show `frame`, in reading order; to be written in one go and
    /// flushed once. A frame with a cell that no terminal can address gives nothing.
    pub fn print_frame(frame: &AsciiFrame<Full>) -> (commands: Option<Vec<DrawCommand>>)
        ensures
            commands is Some <==> fits_terminal(frame@),
            commands matches Some(drawn) ==> drawn@ == terminal_commands(frame@),
    {
        place_cells(frame, 1, 1, MAX_TERMINAL_POSITION, None)
    }

    /// One step of the stage while it holds its queue: it reads the stop flag and either
    /// takes the next frame to show, or says to wait, to ask again, or to end.
    pub fn poll(&self, state: StageState, queue: &mut GenericSharedQueue<AsciiFrame<Full>>) -> (step:
        (StageState, StageAction<AsciiFrame<Full>>))
        ensures
            exists|stop: bool|
                {
                    &&& step.0 == #[trigger] next_state(state, old(queue)@, stop)
                    &&& step.1 == next_action(state, old(queue)@, stop)
                },
            final(queue)@ == next_queue(state, old(queue)@),
    {
        poll(state, queue, &self.should_stop)
    }
}

} // verus!
