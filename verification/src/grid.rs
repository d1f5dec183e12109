//! The grid of gauges: two columns wide, as many rows as the samples need.
//!
//! Sample `i` has its place in row `i / 2`, column `i % 2`. The number of
//! samples may change from one frame to the next, so the grid is computed
//! anew each time from the area and the count alone.

use crate::geometry::{Axis, Rectangle};
use crate::layout::{
    even_shares, even_split, half_split, halves, even_shares_in_closed_form, halves_in_closed_form, slot_geometry,
    partition, partitioned, slot_rect, Constraint,
};
use vstd::prelude::*;

verus! {

/// Number of columns of the grid.
pub const COLUMNS: usize = 2;

/// Where a sample has its place in the grid.
#[derive(Clone, Copy, Debug, PartialEq, Eq, Structural)]
pub struct CellPosition {
    /// Row, counted from the top.
    pub row: usize,
    /// Column, counted from the left.
    pub column: usize,
}

/// One cell of the grid.
#[derive(Clone, Copy, Debug, PartialEq, Eq)]
pub struct GridCell {
    /// The cells of the terminal that the grid cell covers.
    pub area: Rectangle,
    /// Index of the sample that is shown here. A cell without one is left
    /// undrawn.
    pub sample: Option<usize>,
}

/// One row of the grid.
#[derive(Clone, Debug, PartialEq, Eq)]
pub struct GridRow {
    /// The cells of the terminal that the row covers.
    pub area: Rectangle,
    /// The cells of the row, from left to right.
    pub cells: Vec<GridCell>,
}

/// Number of rows that `n` samples need: half of `n`, rounded up.
pub open spec fn row_count(n: int) -> int {
    (n + 1) / 2
}

/// The sample that has its place in a cell, if there is one.
pub open spec fn sample_in(n: int, row: int, column: int) -> Option<usize> {
    if 0 <= row && 0 <= column < 2 && 2 * row + column < n {
        Some((2 * row + column) as usize)
    } else {
        None
    }
}

/// Number of cells of a row that hold a sample.
pub open spec fn populated(n: int, row: int) -> int {
    (if sample_in(n, row, 0) is Some {
        1int
    } else {
        0int
    }) + (if sample_in(n, row, 1) is Some {
        1int
    } else {
        0int
    })
}

/// The area of row `row` where `area` holds the grid for `n` samples.
pub open spec fn row_area(area: Rectangle, n: int, row: int) -> Rectangle {
    slot_rect(area, Axis::Vertical, even_shares(row_count(n) as nat), row)
}

/// The area of a cell of that grid.
pub open spec fn cell_area(area: Rectangle, n: int, row: int, column: int) -> Rectangle {
    slot_rect(row_area(area, n, row), Axis::Horizontal, halves(), column)
}

/// `grid` is the grid for `n` samples on `area`: `area` cut from top to bottom
/// into rows of even height, each row cut into a left and a right half, and
/// the samples set into the cells row by row.
pub open spec fn is_grid(grid: Seq<GridRow>, area: Rectangle, n: int) -> bool {
    &&& grid.len() == row_count(n)
    &&& forall|r: int|
        0 <= r < grid.len() ==> {
            &&& (#[trigger] grid[r]).area == row_area(area, n, r)
            &&& grid[r].cells@.len() == 2
            &&& grid[r].cells@[0] == (GridCell {
                area: cell_area(area, n, r, 0),
                sample: sample_in(n, r, 0),
            })
            &&& grid[r].cells@[1] == (GridCell {
                area: cell_area(area, n, r, 1),
                sample: sample_in(n, r, 1),
            })
        }
}

/// Lays out the grid for `n` samples on `area`.
pub fn cpu_grid(area: Rectangle, n: usize) -> (grid: Vec<GridRow>)
    requires
        area.wf(),
    ensures
        is_grid(grid@, area, n as int),
{
    let rows: usize = grid_rows(n);
    let shares: Vec<Constraint> = even_split(rows);
    let bands: Vec<Rectangle> = partition(area, Axis::Vertical, shares.as_slice());
    let pair: [Constraint; 2] = half_split();
    let mut grid: Vec<GridRow> = Vec::new();
    let mut r: usize = 0;
    while r < rows
        invariant
            area.wf(),
            rows == row_count(n as int),
            bands@ == partitioned(area, Axis::Vertical, even_shares(rows as nat)),
            pair@ == halves(),
            r <= rows,
            grid@.len() == r,
            forall|k: int|
                0 <= k < r ==> {
                    &&& (#[trigger] grid@[k]).area == row_area(area, n as int, k)
                    &&& grid@[k].cells@.len() == 2
                    &&& grid@[k].cells@[0] == (GridCell {
                        area: cell_area(area, n as int, k, 0),
                        sample: sample_in(n as int, k, 0),
                    })
                    &&& grid@[k].cells@[1] == (GridCell {
                        area: cell_area(area, n as int, k, 1),
                        sample: sample_in(n as int, k, 1),
                    })
                },
        decreases rows - r,
    {
        let band: Rectangle = bands[r];
        proof {
            slot_geometry(area, Axis::Vertical, even_shares(rows as nat), r as int);
        }
        let sides: Vec<Rectangle> = partition(band, Axis::Horizontal, pair.as_slice());
        let mut cells: Vec<GridCell> = Vec::new();
        cells.push(GridCell { area: sides[0], sample: sample_at(n, r, 0) });
        cells.push(GridCell { area: sides[1], sample: sample_at(n, r, 1) });
        grid.push(GridRow { area: band, cells });
        r = r + 1;
    }
    grid
}

/// Number of rows of the grid for `n` samples.
pub fn grid_rows(n: usize) -> (rows: usize)
    ensures
        rows == row_count(n as int),
{
    n / 2 + n % 2
}

/// The cell of sample `index`.
pub fn cell_of(index: usize) -> (position: CellPosition)
    ensures
        position.row == index / 2,
        position.column == index % 2,
{
    CellPosition { row: index / 2, column: index % 2 }
}

/// The sample that has its place in the cell at `row` and `column` when there
/// are `n` samples.
pub fn sample_at(n: usize, row: usize, column: usize) -> (sample: Option<usize>)
    ensures
        sample == sample_in(n as int, row as int, column as int),
{
    if column < COLUMNS && row < grid_rows(n) {
        let index: usize = 2 * row + column;
        if index < n {
            Some(index)
        } else {
            None
        }
    } else {
        None
    }
}

/// Number of cells of `row` that hold a sample when there are `n` samples.
pub fn populated_columns(n: usize, row: usize) -> (count: usize)
    ensures
        count == populated(n as int, row as int),
{
    let left: usize = if sample_at(n, row, 0).is_some() {
        1
    } else {
        0
    };
    let right: usize = if sample_at(n, row, 1).is_some() {
        1
    } else {
        0
    };
    left + right
}

/// The shape of the grid: it has half as many rows as samples, rounded up,
/// and none for no sample; every row before the last is full, and the last
/// holds one sample where their number is odd and two where it is even; each
/// sample `i` has the cell in row `i / 2`, column `i % 2`, and no cell holds
/// anything else.
pub proof fn grid_shape(n: int)
    requires
        0 <= n,
    ensures
        n <= 2 * row_count(n) <= n + 1,
        n == 0 ==> row_count(n) == 0,
        forall|r: int| 0 <= r < n / 2 ==> #[trigger] populated(n, r) == 2,
        n > 0 ==> populated(n, row_count(n) - 1) == if n % 2 == 1 {
            1int
        } else {
            2int
        },
        forall|r: int| r >= row_count(n) ==> #[trigger] populated(n, r) == 0,
        forall|i: int|
            0 <= i < n ==> i / 2 < row_count(n) && #[trigger] sample_in(n, i / 2, i % 2) == Some(
                i as usize,
            ),
        forall|r: int, col: int|
            (#[trigger] sample_in(n, r, col)) is Some ==> 0 <= r < row_count(n) && 0 <= col < 2
                && sample_in(n, r, col) == Some((2 * r + col) as usize) && 2 * r + col < n,
{
}

/// The cells of the grid in closed form. Row `row` starts `row` even shares
/// of the height below the top of `area`, one cell lower for each earlier row
/// that got a spare cell; its left cell has half its width, rounded down, and
/// its right cell the rest.
pub proof fn grid_cell_areas(area: Rectangle, n: int, row: int)
    requires
        area.wf(),
        0 <= row < row_count(n),
    ensures
        ({
            let rows = row_count(n);
            let share = area.height as int / rows;
            let spare = area.height as int % rows;
            let band = row_area(area, n, row);
            &&& band.wf()
            &&& area.encloses(band)
            &&& band.x == area.x
            &&& band.width == area.width
            &&& band.y == area.y + row * share + if row < spare {
                row
            } else {
                spare
            }
            &&& band.height == share + if row < spare {
                1int
            } else {
                0int
            }
            &&& cell_area(area, n, row, 0) == (Rectangle {
                x: band.x,
                y: band.y,
                width: (band.width / 2) as u16,
                height: band.height,
            })
            &&& cell_area(area, n, row, 1) == (Rectangle {
                x: (band.x + band.width / 2) as u16,
                y: band.y,
                width: (band.width - band.width / 2) as u16,
                height: band.height,
            })
        }),
{
    let rows: nat = row_count(n) as nat;
    even_shares_in_closed_form(rows, area.height as int, row);
    slot_geometry(area, Axis::Vertical, even_shares(rows), row);
    let band = row_area(area, n, row);
    halves_in_closed_form(band.width as int);
    slot_geometry(band, Axis::Horizontal, halves(), 0);
    slot_geometry(band, Axis::Horizontal, halves(), 1);
}

/// Every cell of the grid lies within its row, and every row within the area
/// of the grid.
pub proof fn grid_cells_lie_within(area: Rectangle, n: int, row: int, column: int)
    requires
        area.wf(),
        0 <= row < row_count(n),
        0 <= column < 2,
    ensures
        row_area(area, n, row).wf(),
        area.encloses(row_area(area, n, row)),
        cell_area(area, n, row, column).wf(),
        row_area(area, n, row).encloses(cell_area(area, n, row, column)),
        area.encloses(cell_area(area, n, row, column)),
{
    slot_geometry(area, Axis::Vertical, even_shares(row_count(n) as nat), row);
    slot_geometry(row_area(area, n, row), Axis::Horizontal, halves(), column);
}

} // verus!
