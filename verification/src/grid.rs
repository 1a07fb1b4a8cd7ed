//! The 8×8 grid of cells and the fixed orientation that maps a screen cell to
//! the light that mirrors it.

use vstd::prelude::*;

verus! {

/// Cells along each axis of the grid.
pub const GRID_SIDE: usize = 8;

/// Cells in the whole grid.
pub const GRID_CELLS: usize = 64;

/// One light of the grid: column and row, each in `0..8`.
#[derive(Clone, Copy, Debug, PartialEq, Eq, Structural)]
pub struct GridPosition {
    pub col: u8,
    pub row: u8,
}

/// The coordinate that faces `k` from the other end of an axis.
pub open spec fn mirrored(k: int) -> int {
    GRID_SIDE - 1 - k
}

/// The light that shows the screen cell in column `cell_col`, row `cell_row`.
/// The device faces the viewer the other way round on both axes.
pub open spec fn light_for_cell(cell_col: int, cell_row: int) -> GridPosition {
    GridPosition { col: mirrored(cell_col) as u8, row: mirrored(cell_row) as u8 }
}

/// Column of the cell with raster index `index`.
pub open spec fn raster_col(index: int) -> int {
    index % 8
}

/// Row of the cell with raster index `index`.
pub open spec fn raster_row(index: int) -> int {
    index / 8
}

impl GridPosition {
    /// Both coordinates lie on the grid.
    pub open spec fn wf(&self) -> bool {
        self.col < GRID_SIDE && self.row < GRID_SIDE
    }

    /// Builds a position, or nothing when a coordinate is off the grid.
    pub fn new(col: u8, row: u8) -> (p: Option<GridPosition>)
        ensures
            p.is_some() <==> (col < GRID_SIDE && row < GRID_SIDE),
            p.is_some() ==> p.unwrap() == (GridPosition { col, row }),
    {
        if col < 8 && row < 8 {
            Some(GridPosition { col, row })
        } else {
            None
        }
    }

    /// The light for a screen cell: both axes reversed.
    pub fn for_cell(cell_col: usize, cell_row: usize) -> (p: GridPosition)
        requires
            cell_col < GRID_SIDE,
            cell_row < GRID_SIDE,
        ensures
            p == light_for_cell(cell_col as int, cell_row as int),
            p.wf(),
    {
        GridPosition { col: (7 - cell_col) as u8, row: (7 - cell_row) as u8 }
    }

    /// The number by which the pad controller addresses this light: rows count
    /// in tens from 10, columns in units from 1.
    pub open spec fn pad_number_of(&self) -> int {
        10 * (self.row + 1) + self.col + 1
    }

    /// The pad controller's number for this light, or nothing for a position
    /// off the grid.
    pub fn pad_number(&self) -> (n: Option<u8>)
        ensures
            n.is_some() <==> self.wf(),
            n.is_some() ==> n.unwrap() as int == self.pad_number_of(),
            n.is_some() ==> 11 <= n.unwrap() <= 88 && 1 <= n.unwrap() % 10 <= 8,
    {
        if self.col < 8 && self.row < 8 {
            Some(10 * (self.row + 1) + self.col + 1)
        } else {
            None
        }
    }
}

/// Reversing an axis twice gives the coordinate back.
pub proof fn mirror_is_involution(k: int)
    ensures
        mirrored(mirrored(k)) == k,
{
}

/// A coordinate on the grid is mirrored onto the grid.
pub proof fn mirror_stays_on_grid(k: int)
    requires
        0 <= k < GRID_SIDE,
    ensures
        0 <= mirrored(k) < GRID_SIDE,
{
}

/// Two different screen cells never share a light.
pub proof fn lights_are_distinct(col_a: int, row_a: int, col_b: int, row_b: int)
    requires
        0 <= col_a < GRID_SIDE,
        0 <= row_a < GRID_SIDE,
        0 <= col_b < GRID_SIDE,
        0 <= row_b < GRID_SIDE,
        light_for_cell(col_a, row_a) == light_for_cell(col_b, row_b),
    ensures
        col_a == col_b,
        row_a == row_b,
{
}

} // verus!
