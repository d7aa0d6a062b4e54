//! Reading a terminal state machine's visible grid into a snapshot.
//!
//! The terminal state machine is an outside collaborator: it parses the
//! byte stream and owns the live grid. The library reads the grid cell by
//! cell through trusted accessors into a plain `TermSnapshot` value, which
//! the verified encoder then works on. What the grid holds is abstract:
//! the accessors' results are named as readings of the screen value, and a
//! finished snapshot is proved to hold exactly those readings, position by
//! position.

use vstd::prelude::*;
use crate::encoder::{ColorSpec, TermCell, TermSnapshot};

verus! {

#[verifier::external_type_specification]
#[verifier::external_body]
pub struct ExScreen(vt100::Screen);

#[verifier::external_type_specification]
#[verifier::external_body]
pub struct ExVtCell(vt100::Cell);

/// Why a snapshot could not be taken.
#[derive(Clone, Copy, PartialEq, Eq, Structural, Debug)]
pub enum SnapshotError {
    /// The grid exceeds the 256-by-256 ceiling.
    Oversized,
    /// The screen failed to supply a cell inside its own reported size.
    MissingCell,
}

/// The grid size the screen reports: rows, then columns.
pub uninterp spec fn screen_size_spec(screen: &vt100::Screen) -> (u16, u16);

/// The plain reading of one cell value: its first character (a space for
/// an empty cell), its colors, and its style flags. Every cell accessor's
/// result is a field of this reading.
pub uninterp spec fn cell_reading_spec(cell: &vt100::Cell) -> TermCell;

/// What the screen's visible grid holds: the plain reading of each
/// position the screen can supply a cell for. A screen resized while
/// scrolled back may lack cells even inside its reported size, so the
/// domain is not promised to cover the whole grid.
pub uninterp spec fn screen_cells_spec(screen: &vt100::Screen) -> Map<(u16, u16), TermCell>;

/// Relies on `Screen::size`: the grid's rows and columns.
#[verifier::external_body]
fn screen_size(screen: &vt100::Screen) -> (r: (u16, u16))
    ensures
        r == screen_size_spec(screen),
{
    screen.size()
}

/// Relies on `Screen::cell`: the cell at `(row, col)` of the visible grid
/// where the screen holds one, and nothing where it does not.
#[verifier::external_body]
fn screen_cell<'a>(screen: &'a vt100::Screen, row: u16, col: u16) -> (r: Option<&'a vt100::Cell>)
    ensures
        r is Some <==> screen_cells_spec(screen).dom().contains((row, col)),
        r matches Some(cell) ==> cell_reading_spec(cell) == screen_cells_spec(screen)[(row, col)],
{
    screen.cell(row, col)
}

/// Relies on `Cell::contents`: the first character of the cell's text; an
/// empty cell reads as a space.
#[verifier::external_body]
fn cell_first_char(cell: &vt100::Cell) -> (r: char)
    ensures
        r == cell_reading_spec(cell).ch,
{
    cell.contents().chars().next().unwrap_or(' ')
}

/// Relies on `Cell::fgcolor`: the cell's foreground color, variant for
/// variant.
#[verifier::external_body]
fn cell_fg(cell: &vt100::Cell) -> (r: ColorSpec)
    ensures
        r == cell_reading_spec(cell).fg,
{
    match cell.fgcolor() {
        vt100::Color::Default => ColorSpec::Default,
        vt100::Color::Idx(i) => ColorSpec::Idx(i),
        vt100::Color::Rgb(red, green, blue) => ColorSpec::Rgb(red, green, blue),
    }
}

/// Relies on `Cell::bgcolor`: the cell's background color, variant for
/// variant.
#[verifier::external_body]
fn cell_bg(cell: &vt100::Cell) -> (r: ColorSpec)
    ensures
        r == cell_reading_spec(cell).bg,
{
    match cell.bgcolor() {
        vt100::Color::Default => ColorSpec::Default,
        vt100::Color::Idx(i) => ColorSpec::Idx(i),
        vt100::Color::Rgb(red, green, blue) => ColorSpec::Rgb(red, green, blue),
    }
}

/// Relies on `Cell::bold`.
#[verifier::external_body]
fn cell_bold(cell: &vt100::Cell) -> (r: bool)
    ensures
        r == cell_reading_spec(cell).bold,
{
    cell.bold()
}

/// Relies on `Cell::dim`.
#[verifier::external_body]
fn cell_dim(cell: &vt100::Cell) -> (r: bool)
    ensures
        r == cell_reading_spec(cell).dim,
{
    cell.dim()
}

/// Relies on `Cell::italic`.
#[verifier::external_body]
fn cell_italic(cell: &vt100::Cell) -> (r: bool)
    ensures
        r == cell_reading_spec(cell).italic,
{
    cell.italic()
}

/// Relies on `Cell::inverse`.
#[verifier::external_body]
fn cell_inverse(cell: &vt100::Cell) -> (r: bool)
    ensures
        r == cell_reading_spec(cell).inverse,
{
    cell.inverse()
}

/// A position already visited by the row-major read lies strictly before
/// the read cursor's flat index.
proof fn lemma_snapshot_index(rr: int, cc: int, row: int, col: int, cols: int)
    requires
        0 <= rr,
        0 <= cc < cols,
        0 <= col,
        rr < row || (rr == row && cc < col),
    ensures
        0 <= rr * cols + cc < row * cols + col,
{
    if rr < row {
        assert(rr * cols + cc < row * cols) by (nonlinear_arith)
            requires
                0 <= rr < row,
                0 <= cc < cols,
        ;
    } else {
        assert(rr * cols + cc < row * cols + col) by (nonlinear_arith)
            requires
                rr == row,
                cc < col,
        ;
    }
}

/// Reads the screen's visible grid, row-major, into one coherent snapshot
/// holding, cell for cell, the screen's readings. A cell with no text
/// stands for a space. Grids beyond the 256-by-256 ceiling are rejected;
/// the read succeeds exactly when the grid fits the ceiling and the screen
/// supplies every cell inside its reported size.
pub fn snapshot_from_screen(screen: &vt100::Screen) -> (r: Result<TermSnapshot, SnapshotError>)
    ensures
        r matches Ok(s) ==> {
            &&& s.wf()
            &&& s.rows == screen_size_spec(screen).0 as usize
            &&& s.cols == screen_size_spec(screen).1 as usize
            &&& forall|rr: u16, cc: u16|
                rr < screen_size_spec(screen).0 && cc < screen_size_spec(screen).1
                    ==> s.cells@[rr as int * (s.cols as int) + cc as int]
                    == #[trigger] screen_cells_spec(screen)[(rr, cc)]
        },
        r is Ok <==> (screen_size_spec(screen).0 <= 256 && screen_size_spec(screen).1 <= 256
            && forall|rr: u16, cc: u16|
            rr < screen_size_spec(screen).0 && cc < screen_size_spec(screen).1
                ==> #[trigger] screen_cells_spec(screen).dom().contains((rr, cc))),
        r == Err::<TermSnapshot, SnapshotError>(SnapshotError::Oversized) <==> (
        screen_size_spec(screen).0 > 256 || screen_size_spec(screen).1 > 256),
{
    let (rows16, cols16) = screen_size(screen);
    let rows = rows16 as usize;
    let cols = cols16 as usize;
    if rows > 256 || cols > 256 {
        return Err(SnapshotError::Oversized);
    }
    let mut cells: Vec<TermCell> = Vec::new();
    let mut row: usize = 0;
    while row < rows
        invariant
            row <= rows,
            rows <= 256,
            cols <= 256,
            rows == screen_size_spec(screen).0 as usize,
            cols == screen_size_spec(screen).1 as usize,
            cells@.len() == row * cols,
            forall|rr: u16, cc: u16|
                (rr as int) < row && (cc as int) < cols
                    ==> #[trigger] screen_cells_spec(screen).dom().contains((rr, cc)),
            forall|rr: u16, cc: u16|
                (rr as int) < row && (cc as int) < cols ==> cells@[(rr as int) * (cols as int) + (
                cc as int)] == #[trigger] screen_cells_spec(screen)[(rr, cc)],
        decreases rows - row,
    {
        let mut col: usize = 0;
        while col < cols
            invariant
                col <= cols,
                row < rows,
                rows <= 256,
                cols <= 256,
                rows == screen_size_spec(screen).0 as usize,
                cols == screen_size_spec(screen).1 as usize,
                cells@.len() == row * cols + col,
                forall|rr: u16, cc: u16|
                    (cc as int) < cols && ((rr as int) < row || ((rr as int) == row && (cc as int)
                        < col)) ==> #[trigger] screen_cells_spec(screen).dom().contains((rr, cc)),
                forall|rr: u16, cc: u16|
                    (cc as int) < cols && ((rr as int) < row || ((rr as int) == row && (cc as int)
                        < col)) ==> cells@[(rr as int) * (cols as int) + (cc as int)]
                        == #[trigger] screen_cells_spec(screen)[(rr, cc)],
            decreases cols - col,
        {
            let cell = match screen_cell(screen, row as u16, col as u16) {
                Some(c) => c,
                None => {
                    return Err(SnapshotError::MissingCell);
                },
            };
            let ch = cell_first_char(cell);
            let fg = cell_fg(cell);
            let bg = cell_bg(cell);
            let bold = cell_bold(cell);
            let dim = cell_dim(cell);
            let italic = cell_italic(cell);
            let inverse = cell_inverse(cell);
            proof {
                assert(TermCell { ch, fg, bg, bold, dim, italic, inverse } == cell_reading_spec(
                    cell,
                ));
            }
            cells.push(TermCell { ch, fg, bg, bold, dim, italic, inverse });
            proof {
                assert forall|rr: u16, cc: u16|
                    (cc as int) < cols && ((rr as int) < row || ((rr as int) == row && (cc as int)
                        < col + 1)) implies cells@[(rr as int) * (cols as int) + (cc as int)]
                    == #[trigger] screen_cells_spec(screen)[(rr, cc)] by {
                    lemma_snapshot_index(rr as int, cc as int, row as int, col as int + 1, cols as int);
                    if (rr as int) < row || ((rr as int) == row && (cc as int) < col) {
                        lemma_snapshot_index(rr as int, cc as int, row as int, col as int, cols as int);
                    } else {
                        assert(rr == row as u16 && cc == col as u16);
                        assert((rr as int) * (cols as int) + (cc as int) == row * cols + col);
                    }
                }
            }
            col = col + 1;
        }
        proof {
            assert(row * cols + cols == (row + 1) * cols) by (nonlinear_arith);
        }
        row = row + 1;
    }
    match TermSnapshot::new(rows, cols, cells) {
        Ok(snap) => Ok(snap),
        Err(_) => {
            proof {
                assert(false);
            }
            Err(SnapshotError::Oversized)
        },
    }
}

} // verus!
