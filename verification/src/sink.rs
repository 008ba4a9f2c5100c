use vstd::prelude::*;

use crate::converter::TerminalPixel;
use crate::frame::{AsciiFrame, Full, Rgb};
use crate::utils::Coordinate;

verus! {

/// One glyph to put on an output surface.
#[derive(Clone, Copy, Debug, PartialEq, Eq)]
pub struct DrawCommand {
    /// Where the glyph goes, in the units of the surface.
    pub position: Coordinate,
    pub glyph: char,
    /// The colour to draw in; without one the glyph keeps the surface's own colour.
    pub color: Option<Rgb>,
}

/// The command for the cell at column `x` of row `y` on a surface where a cell is
/// `scale_x` units wide and `scale_y` units high. A cell without a colour is drawn in
/// `default_color`.
pub open spec fn placed(
    x: int,
    y: int,
    cell: TerminalPixel,
    scale_x: u32,
    scale_y: u32,
    default_color: Option<Rgb>,
) -> DrawCommand {
    DrawCommand {
        position: Coordinate { x: (x * scale_x) as u32, y: (y * scale_y) as u32 },
        glyph: cell.spec_glyph(),
        color: match cell.spec_color() {
            Some(color) => Some(color),
            None => default_color,
        },
    }
}

/// The commands for the cells of row `y`, from the first column on.
pub open spec fn placed_row(
    row: Seq<TerminalPixel>,
    y: int,
    scale_x: u32,
    scale_y: u32,
    default_color: Option<Rgb>,
) -> Seq<DrawCommand> {
    Seq::new(row.len(), |x: int| placed(x, y, row[x], scale_x, scale_y, default_color))
}

/// The commands for the first `rows` rows of a grid, each row's commands as a sequence.
pub open spec fn placed_rows(
    cells: Seq<Seq<TerminalPixel>>,
    rows: nat,
    scale_x: u32,
    scale_y: u32,
    default_color: Option<Rgb>,
) -> Seq<Seq<DrawCommand>> {
    Seq::new(rows, |y: int| placed_row(cells[y], y, scale_x, scale_y, default_color))
}

/// The commands for a whole grid: one for every cell, row after row, and inside a row
/// column after column.
pub open spec fn placed_all(
    cells: Seq<Seq<TerminalPixel>>,
    scale_x: u32,
    scale_y: u32,
    default_color: Option<Rgb>,
) -> Seq<DrawCommand> {
    placed_rows(cells, cells.len(), scale_x, scale_y, default_color).flatten()
}

/// Every cell of row `y` has a position of at most `limit` in both directions.
pub open spec fn row_within(row: Seq<TerminalPixel>, y: int, scale_x: u32, scale_y: u32, limit: u32)
    -> bool {
    row.len() > 0 ==> (row.len() - 1) * scale_x <= limit && y * scale_y <= limit
}

/// Every cell of the grid has a position of at most `limit` in both directions.
pub open spec fn all_within(
    cells: Seq<Seq<TerminalPixel>>,
    scale_x: u32,
    scale_y: u32,
    limit: u32,
) -> bool {
    forall|y: int| 0 <= y < cells.len() ==> row_within(#[trigger] cells[y], y, scale_x, scale_y, limit)
}

/// The command for one cell.
pub fn place(x: u32, y: u32, cell: TerminalPixel, default_color: Option<Rgb>) -> (command:
    DrawCommand)
    ensures
        command == placed(x as int, y as int, cell, 1, 1, default_color),
        command.position.x == x,
        command.position.y == y,
{
    DrawCommand {
        position: Coordinate::new(x, y),
        glyph: cell.glyph(),
        color: match cell.color() {
            Some(color) => Some(color),
            None => default_color,
        },
    }
}

/// Whether every cell of a row has a position of at most `limit`.
fn row_fits(length: usize, y: usize, scale_x: u32, scale_y: u32, limit: u32) -> (fits: bool)
    ensures
        fits == (length > 0 ==> (length - 1) * scale_x <= limit && y * scale_y <= limit),
{
    if length == 0 {
        return true;
    }
    let last: u128 = (length - 1) as u128;
    let row: u128 = y as u128;
    assert(last * scale_x <= 0xffff_ffff_ffff_ffff * 0xffff_ffff && row * scale_y
        <= 0xffff_ffff_ffff_ffff * 0xffff_ffff) by (nonlinear_arith)
        requires
            0 <= last <= 0xffff_ffff_ffff_ffff,
            0 <= row <= 0xffff_ffff_ffff_ffff,
            0 <= scale_x <= 0xffff_ffff,
            0 <= scale_y <= 0xffff_ffff,
    ;
    last * (scale_x as u128) <= limit as u128 && row * (scale_y as u128) <= limit as u128
}

/// The commands that draw `frame`, one for every cell in reading order, on a surface
/// where a cell is `scale_x` units wide and `scale_y` units high. Nothing comes back
/// where a cell would lie beyond `limit` in either direction.
pub fn place_cells(
    frame: &AsciiFrame<Full>,
    scale_x: u32,
    scale_y: u32,
    limit: u32,
    default_color: Option<Rgb>,
) -> (commands: Option<Vec<DrawCommand>>)
    ensures
        commands is Some <==> all_within(frame@, scale_x, scale_y, limit),
        commands matches Some(drawn) ==> drawn@ == placed_all(
            frame@,
            scale_x,
            scale_y,
            default_color,
        ),
{
    let buffer = frame.get_buffer();
    let ghost cells = frame@;
    let mut commands: Vec<DrawCommand> = Vec::new();
    let mut y: usize = 0;
    assert(placed_rows(cells, 0, scale_x, scale_y, default_color).flatten() == Seq::<
        DrawCommand,
    >::empty());
    while y < buffer.len()
        invariant
            cells == frame@,
            cells == crate::frame::grid_view(buffer),
            y <= buffer@.len(),
            forall|i: int| 0 <= i < y ==> row_within(#[trigger] cells[i], i, scale_x, scale_y, limit),
            commands@ == placed_rows(cells, y as nat, scale_x, scale_y, default_color).flatten(),
        decreases buffer@.len() - y,
    {
        let row = &buffer[y];
        assert(row@ == cells[y as int]);
        if !row_fits(row.len(), y, scale_x, scale_y, limit) {
            assert(!row_within(cells[y as int], y as int, scale_x, scale_y, limit));
            return None;
        }
        let ghost before = commands@;
        let mut x: usize = 0;
        while x < row.len()
            invariant
                0 <= y < cells.len(),
                row@ == cells[y as int],
                x <= row@.len(),
                row_within(row@, y as int, scale_x, scale_y, limit),
                commands@ == before + placed_row(row@, y as int, scale_x, scale_y, default_color).take(
                    x as int,
                ),
            decreases row@.len() - x,
        {
            proof {
                assert(x * scale_x <= (row@.len() - 1) * scale_x) by (nonlinear_arith)
                    requires
                        0 <= x <= row@.len() - 1,
                        0 <= scale_x,
                ;
                assert(scale_x > 0 ==> x <= x * scale_x) by (nonlinear_arith)
                    requires
                        0 <= x,
                        0 <= scale_x,
                ;
                assert(scale_y > 0 ==> y <= y * scale_y) by (nonlinear_arith)
                    requires
                        0 <= y,
                        0 <= scale_y,
                ;
                assert(scale_x == 0 ==> x * scale_x == 0) by (nonlinear_arith);
                assert(scale_y == 0 ==> y * scale_y == 0) by (nonlinear_arith);
            }
            let column: u32 = if scale_x == 0 {
                0
            } else {
                ((x as u64) * (scale_x as u64)) as u32
            };
            let line: u32 = if scale_y == 0 {
                0
            } else {
                ((y as u64) * (scale_y as u64)) as u32
            };
            let cell = row[x];
            let command = DrawCommand {
                position: Coordinate::new(column, line),
                glyph: cell.glyph(),
                color: match cell.color() {
                    Some(color) => Some(color),
                    None => default_color,
                },
            };
            assert(command == placed(x as int, y as int, cell, scale_x, scale_y, default_color));
            commands.push(command);
            proof {
                let whole = placed_row(row@, y as int, scale_x, scale_y, default_color);
                assert(whole.take(x as int + 1) == whole.take(x as int).push(whole[x as int]));
            }
            x += 1;
        }
        proof {
            let whole = placed_row(row@, y as int, scale_x, scale_y, default_color);
            assert(whole.take(x as int) == whole);
            let done = placed_rows(cells, y as nat, scale_x, scale_y, default_color);
            let next = placed_rows(cells, (y + 1) as nat, scale_x, scale_y, default_color);
            assert(next == done.push(whole));
            done.lemma_flatten_push(whole);
        }
        y += 1;
    }
    Some(commands)
}

/// A grid gives one command for each of its cells: as many as its rows hold together.
pub proof fn lemma_placed_all_len(
    cells: Seq<Seq<TerminalPixel>>,
    width: nat,
    height: nat,
    scale_x: u32,
    scale_y: u32,
    default_color: Option<Rgb>,
)
    requires
        crate::frame::is_grid(cells, width, height),
    ensures
        placed_all(cells, scale_x, scale_y, default_color).len() == width * height,
{
    lemma_placed_rows_len(cells, width, height, height, scale_x, scale_y, default_color);
}

proof fn lemma_placed_rows_len(
    cells: Seq<Seq<TerminalPixel>>,
    width: nat,
    height: nat,
    rows: nat,
    scale_x: u32,
    scale_y: u32,
    default_color: Option<Rgb>,
)
    requires
        crate::frame::is_grid(cells, width, height),
        rows <= height,
    ensures
        placed_rows(cells, rows, scale_x, scale_y, default_color).flatten().len() == width * rows,
    decreases rows,
{
    if rows == 0 {
        assert(width * rows == 0) by (nonlinear_arith)
            requires
                rows == 0,
        ;
    } else {
        let before = placed_rows(cells, (rows - 1) as nat, scale_x, scale_y, default_color);
        let last = placed_row(cells[rows - 1], rows - 1, scale_x, scale_y, default_color);
        lemma_placed_rows_len(cells, width, height, (rows - 1) as nat, scale_x, scale_y, default_color);
        assert(placed_rows(cells, rows, scale_x, scale_y, default_color) == before.push(last));
        before.lemma_flatten_push(last);
        assert(width * (rows - 1) + width == width * rows) by (nonlinear_arith);
    }
}

} // verus!
