//! The executable grid.

use crate::generation::{
    binary, column_count, in_bounds, next_state, rectangular, row_count, span_sum, step,
    well_formed, window_sum,
};
use crate::laws::lemma_window_sum_covers;
use crate::random::gen_range;
use vstd::prelude::*;

verus! {

/// Why a grid could not be made.
#[derive(Clone, Copy, Debug, PartialEq, Eq, Structural)]
pub enum GridError {
    /// The grid would have no row or no column, rows of different lengths,
    /// or more rows or columns than a `u32` counts.
    InvalidDimensions,
    /// A cell is neither dead (`0`) nor alive (`1`).
    InvalidCell,
}

/// `g` can be held: it is a rectangle whose row and column counts fit `u32`.
pub open spec fn holdable(g: Seq<Seq<u8>>) -> bool {
    &&& rectangular(g)
    &&& row_count(g) <= u32::MAX
    &&& column_count(g) <= u32::MAX
}

/// A window of `width` by `height` pixels, `zoom_out` columns wide, has room
/// for at least one column of cells at least one pixel wide, and for at least
/// one row of them.
pub open spec fn layout_fits(width: u32, height: u32, zoom_out: u32) -> bool {
    &&& zoom_out >= 1
    &&& width as int / zoom_out as int >= 1
    &&& height as int / (width as int / zoom_out as int) >= 1
}

/// A grid of cells together with the side, in pixels, of the square that
/// shows one cell.
#[derive(Debug)]
pub struct GameOfLife {
    cells: Vec<Vec<u8>>,
    column_count: u32,
    row_count: u32,
    size: u32,
}

impl View for GameOfLife {
    type V = Seq<Seq<u8>>;

    /// The current generation.
    closed spec fn view(&self) -> Seq<Seq<u8>> {
        self.cells.deep_view()
    }
}

/// The deep view of a vector of rows holds, row by row, the views of the rows.
proof fn lemma_rows_of_deep_view(cells: Vec<Vec<u8>>)
    ensures
        cells.deep_view().len() == cells@.len(),
        forall|r: int| 0 <= r < cells@.len() ==> #[trigger] cells.deep_view()[r] == cells@[r]@,
{
    assert forall|r: int| 0 <= r < cells@.len() implies #[trigger] cells.deep_view()[r]
        == cells@[r]@ by {
        assert(cells.deep_view()[r] =~= cells@[r]@);
    }
}

impl GameOfLife {
    /// The stored row and column counts are those of the current generation.
    pub closed spec fn counts_match(&self) -> bool {
        &&& self.row_count as int == row_count(self@)
        &&& self.column_count as int == column_count(self@)
    }

    /// Validity: the current generation is a well-formed grid whose
    /// dimensions the stored counts give.
    pub open spec fn wf(&self) -> bool {
        &&& well_formed(self@)
        &&& self.counts_match()
    }

    /// Side, in pixels, of the square that shows one cell.
    pub closed spec fn cell_size(&self) -> u32 {
        self.size
    }

    /// A grid of random cells for a window of `width` by `height` pixels:
    /// `zoom_out` columns of square cells, each `width / zoom_out` pixels
    /// wide, in as many rows as fit into `height`. Fails exactly when the
    /// window has no room for one column and one row of cells.
    pub fn new(width: u32, height: u32, zoom_out: u32) -> (result: Result<GameOfLife, GridError>)
        ensures
            match result {
                Ok(grid) => {
                    &&& layout_fits(width, height, zoom_out)
                    &&& grid.wf()
                    &&& column_count(grid@) == zoom_out
                    &&& grid.cell_size() == width as int / zoom_out as int
                    &&& row_count(grid@) == height as int / (width as int / zoom_out as int)
                },
                Err(e) => {
                    &&& e == GridError::InvalidDimensions
                    &&& !layout_fits(width, height, zoom_out)
                },
            },
    {
        if zoom_out == 0 {
            return Err(GridError::InvalidDimensions);
        }
        let column_count: u32 = zoom_out;
        let grid_size: u32 = width / column_count;
        if grid_size == 0 {
            return Err(GridError::InvalidDimensions);
        }
        let row_count: u32 = height / grid_size;
        GameOfLife::random(column_count, row_count, grid_size)
    }

    /// A grid of `rows` rows and `columns` columns, shown with squares of
    /// `size` pixels, in which every cell is drawn at random: dead or alive,
    /// whichever the draw gives. Fails exactly when a count is zero.
    pub fn random(columns: u32, rows: u32, size: u32) -> (result: Result<GameOfLife, GridError>)
        ensures
            match result {
                Ok(grid) => {
                    &&& columns >= 1
                    &&& rows >= 1
                    &&& grid.wf()
                    &&& column_count(grid@) == columns
                    &&& row_count(grid@) == rows
                    &&& grid.cell_size() == size
                },
                Err(e) => {
                    &&& e == GridError::InvalidDimensions
                    &&& (columns == 0 || rows == 0)
                },
            },
    {
        if columns == 0 || rows == 0 {
            return Err(GridError::InvalidDimensions);
        }
        let mut initial_state: Vec<Vec<u8>> = Vec::new();
        for y_grid in 0..rows
            invariant
                initial_state@.len() == y_grid,
                forall|r: int|
                    0 <= r < y_grid ==> (#[trigger] initial_state@[r])@.len() == columns,
                forall|r: int, c: int|
                    0 <= r < y_grid && 0 <= c < columns
                        ==> (#[trigger] initial_state@[r]@[c]) <= 1,
        {
            let mut row: Vec<u8> = Vec::new();
            for x_grid in 0..columns
                invariant
                    row@.len() == x_grid,
                    forall|c: int| 0 <= c < x_grid ==> (#[trigger] row@[c]) <= 1,
            {
                row.push(gen_range(0, 2));
            }
            initial_state.push(row);
        }
        proof {
            lemma_rows_of_deep_view(initial_state);
        }
        GameOfLife::from_cells(initial_state, size)
    }

    /// The grid whose rows are `cells`, shown with squares of `size` pixels.
    /// Fails with `InvalidDimensions` exactly when `cells` is no rectangle
    /// that can be held, and with `InvalidCell` exactly when it is one but
    /// some cell is neither `0` nor `1`.
    pub fn from_cells(cells: Vec<Vec<u8>>, size: u32) -> (result: Result<GameOfLife, GridError>)
        ensures
            match result {
                Ok(grid) => {
                    &&& holdable(cells.deep_view())
                    &&& binary(cells.deep_view())
                    &&& grid.wf()
                    &&& grid@ == cells.deep_view()
                    &&& grid.cell_size() == size
                },
                Err(GridError::InvalidDimensions) => !holdable(cells.deep_view()),
                Err(GridError::InvalidCell) => holdable(cells.deep_view()) && !binary(
                    cells.deep_view(),
                ),
            },
    {
        proof {
            lemma_rows_of_deep_view(cells);
        }
        let ghost g = cells.deep_view();
        let rows: usize = cells.len();
        if rows == 0 || rows > u32::MAX as usize {
            return Err(GridError::InvalidDimensions);
        }
        let columns: usize = cells[0].len();
        if columns == 0 || columns > u32::MAX as usize {
            return Err(GridError::InvalidDimensions);
        }
        for r in 0..rows
            invariant
                g == cells.deep_view(),
                rows == row_count(g),
                columns == column_count(g),
                forall|i: int| 0 <= i < rows ==> #[trigger] g[i] == cells@[i]@,
                forall|i: int| 0 <= i < r ==> (#[trigger] g[i]).len() == columns,
        {
            if cells[r].len() != columns {
                assert(g[r as int].len() != column_count(g));
                return Err(GridError::InvalidDimensions);
            }
        }
        for r in 0..rows
            invariant
                g == cells.deep_view(),
                rows == row_count(g),
                columns == column_count(g),
                holdable(g),
                forall|i: int| 0 <= i < rows ==> #[trigger] g[i] == cells@[i]@,
                forall|i: int, j: int|
                    0 <= i < r && 0 <= j < columns ==> (#[trigger] g[i][j]) <= 1,
        {
            for c in 0..columns
                invariant
                    g == cells.deep_view(),
                    0 <= r < rows,
                    holdable(g),
                    rows == row_count(g),
                    columns == column_count(g),
                    forall|i: int| 0 <= i < rows ==> #[trigger] g[i] == cells@[i]@,
                    forall|i: int, j: int|
                        0 <= i < r && 0 <= j < columns ==> (#[trigger] g[i][j]) <= 1,
                    forall|j: int| 0 <= j < c ==> (#[trigger] g[r as int][j]) <= 1,
            {
                assert(g[r as int] == cells@[r as int]@);
                if cells[r][c] > 1 {
                    return Err(GridError::InvalidCell);
                }
            }
        }
        Ok(GameOfLife { cells, column_count: columns as u32, row_count: rows as u32, size })
    }

    /// Replaces the current generation by the next one. Every cell of the
    /// new generation is computed from the old one, so the result depends on
    /// the old generation alone; the dimensions and the cell size stay.
    pub fn change_state(&mut self)
        requires
            old(self).wf(),
        ensures
            final(self).wf(),
            final(self)@ == step(old(self)@),
            row_count(final(self)@) == row_count(old(self)@),
            column_count(final(self)@) == column_count(old(self)@),
            final(self).cell_size() == old(self).cell_size(),
    {
        let mut next_cells: Vec<Vec<u8>> = self.cells.clone();
        proof {
            lemma_rows_of_deep_view(self.cells);
            assert forall|r: int| 0 <= r < self.row_count implies
                (#[trigger] next_cells@[r])@.len() == self.column_count by {
                assert(self@[r] == self.cells@[r]@);
            }
        }
        for y_grid in 0..self.row_count
            invariant
                self.wf(),
                *self == *old(self),
                next_cells@.len() == self.row_count,
                forall|r: int|
                    0 <= r < self.row_count ==> (#[trigger] next_cells@[r])@.len()
                        == self.column_count,
                forall|r: int, c: int|
                    0 <= r < y_grid && 0 <= c < self.column_count
                        ==> #[trigger] next_cells@[r]@[c] == next_state(self@, r, c),
        {
            for x_grid in 0..self.column_count
                invariant
                    self.wf(),
                    *self == *old(self),
                    y_grid < self.row_count,
                    next_cells@.len() == self.row_count,
                    forall|r: int|
                        0 <= r < self.row_count ==> (#[trigger] next_cells@[r])@.len()
                            == self.column_count,
                    forall|r: int, c: int|
                        0 <= r < y_grid && 0 <= c < self.column_count
                            ==> #[trigger] next_cells@[r]@[c] == next_state(self@, r, c),
                    forall|c: int|
                        0 <= c < x_grid ==> #[trigger] next_cells@[y_grid as int]@[c]
                            == next_state(self@, y_grid as int, c),
            {
                next_cells[y_grid as usize][x_grid as usize] = self.apply_rule(y_grid, x_grid);
            }
        }
        proof {
            lemma_rows_of_deep_view(next_cells);
            assert(next_cells.deep_view() =~~= step(self@));
        }
        self.cells = next_cells;
    }

    /// The state that the cell in row `y_grid` and column `x_grid` takes in
    /// the next generation.
    pub fn apply_rule(&self, y_grid: u32, x_grid: u32) -> (state: u8)
        requires
            self.wf(),
            in_bounds(self@, y_grid as int, x_grid as int),
        ensures
            state == next_state(self@, y_grid as int, x_grid as int),
    {
        proof {
            lemma_rows_of_deep_view(self.cells);
            assert(self@[y_grid as int] == self.cells@[y_grid as int]@);
        }
        let current_state: u8 = self.cells[y_grid as usize][x_grid as usize];
        let mut live_neighbours: u8 = 0;

        let y_start: u32 = if y_grid == 0 {
            0
        } else {
            y_grid - 1
        };
        let y_end: u32 = if y_grid == self.row_count - 1 {
            self.row_count - 1
        } else {
            y_grid + 1
        };

        let x_start: u32 = if x_grid == 0 {
            0
        } else {
            x_grid - 1
        };
        let x_end: u32 = if x_grid == self.column_count - 1 {
            self.column_count - 1
        } else {
            x_grid + 1
        };

        for y in y_start..y_end + 1
            invariant
                self.wf(),
                y_start <= y_end < self.row_count,
                x_start <= x_end < self.column_count,
                y_end - y_start <= 2,
                x_end - x_start <= 2,
                live_neighbours as int == window_sum(
                    self@,
                    y_start as int,
                    y as int - 1,
                    x_start as int,
                    x_end as int,
                ),
                live_neighbours <= 3 * (y - y_start),
        {
            for x in x_start..x_end + 1
                invariant
                    self.wf(),
                    y_start <= y <= y_end < self.row_count,
                    x_start <= x_end < self.column_count,
                    y_end - y_start <= 2,
                    x_end - x_start <= 2,
                    live_neighbours as int == window_sum(
                        self@,
                        y_start as int,
                        y as int - 1,
                        x_start as int,
                        x_end as int,
                    ) + span_sum(self@[y as int], x_start as int, x as int - 1),
                    live_neighbours <= 3 * (y - y_start) + (x - x_start),
            {
                proof {
                    lemma_rows_of_deep_view(self.cells);
                }
                live_neighbours += self.cells[y as usize][x as usize];
            }
        }
        proof {
            lemma_window_sum_covers(
                self@,
                y_start as int,
                y_end as int,
                x_start as int,
                x_end as int,
                y_grid as int,
                x_grid as int,
            );
        }
        live_neighbours -= current_state;
        if current_state == 1 {
            if live_neighbours < 2 || live_neighbours > 3 {
                0
            } else {
                1
            }
        } else {
            if live_neighbours == 3 {
                1
            } else {
                0
            }
        }
    }

    /// Number of rows of the grid.
    pub fn row_count(&self) -> (count: u32)
        requires
            self.wf(),
        ensures
            count == row_count(self@),
    {
        self.row_count
    }

    /// Number of columns of the grid.
    pub fn column_count(&self) -> (count: u32)
        requires
            self.wf(),
        ensures
            count == column_count(self@),
    {
        self.column_count
    }

    /// Side, in pixels, of the square that shows one cell.
    pub fn size(&self) -> (size: u32)
        ensures
            size == self.cell_size(),
    {
        self.size
    }

    /// Current state of the cell in row `row` and column `col`: `1` when it
    /// is alive, `0` when it is dead.
    pub fn cell(&self, row: u32, col: u32) -> (state: u8)
        requires
            self.wf(),
            in_bounds(self@, row as int, col as int),
        ensures
            state == self@[row as int][col as int],
            state <= 1,
    {
        proof {
            lemma_rows_of_deep_view(self.cells);
            assert(self@[row as int] == self.cells@[row as int]@);
        }
        self.cells[row as usize][col as usize]
    }
}

} // verus!
