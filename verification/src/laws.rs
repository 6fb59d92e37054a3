//! Properties of the model, each proved for every grid.

use crate::generation::{
    column_count, in_bounds, live_neighbours, next_state, row_count, span_sum, step, well_formed,
    window_sum,
};
use vstd::prelude::*;

verus! {

/// A span sum is never negative.
pub proof fn lemma_span_sum_nonnegative(row: Seq<u8>, left: int, right: int)
    ensures
        span_sum(row, left, right) >= 0,
    decreases right - left + 1,
{
    if right >= left {
        lemma_span_sum_nonnegative(row, left, right - 1);
    }
}

/// A span sum is at least each cell that the span covers.
pub proof fn lemma_span_sum_covers(row: Seq<u8>, left: int, right: int, col: int)
    requires
        left <= col <= right,
    ensures
        span_sum(row, left, right) >= row[col] as int,
    decreases right - left + 1,
{
    if col < right {
        lemma_span_sum_covers(row, left, right - 1, col);
    } else {
        lemma_span_sum_nonnegative(row, left, right - 1);
    }
}

/// A window sum is never negative.
pub proof fn lemma_window_sum_nonnegative(
    g: Seq<Seq<u8>>,
    top: int,
    bottom: int,
    left: int,
    right: int,
)
    ensures
        window_sum(g, top, bottom, left, right) >= 0,
    decreases bottom - top + 1,
{
    if bottom >= top {
        lemma_window_sum_nonnegative(g, top, bottom - 1, left, right);
        lemma_span_sum_nonnegative(g[bottom], left, right);
    }
}

/// A window sum is at least each cell that the window covers.
pub proof fn lemma_window_sum_covers(
    g: Seq<Seq<u8>>,
    top: int,
    bottom: int,
    left: int,
    right: int,
    row: int,
    col: int,
)
    requires
        top <= row <= bottom,
        left <= col <= right,
    ensures
        window_sum(g, top, bottom, left, right) >= g[row][col] as int,
    decreases bottom - top + 1,
{
    if row < bottom {
        lemma_window_sum_covers(g, top, bottom - 1, left, right, row, col);
        lemma_span_sum_nonnegative(g[bottom], left, right);
    } else {
        lemma_window_sum_nonnegative(g, top, bottom - 1, left, right);
        lemma_span_sum_covers(g[bottom], left, right, col);
    }
}

/// The state of the cell at `(row, col)` where that lies on the grid, and
/// `0` where it does not.
pub open spec fn cell_or_zero(g: Seq<Seq<u8>>, row: int, col: int) -> int {
    if in_bounds(g, row, col) {
        g[row][col] as int
    } else {
        0
    }
}

/// Cell by cell: the live neighbours of a cell are the live cells among the
/// up to eight cells next to it that lie on the grid.
pub proof fn lemma_live_neighbours_cell_by_cell(g: Seq<Seq<u8>>, row: int, col: int)
    requires
        well_formed(g),
        in_bounds(g, row, col),
    ensures
        live_neighbours(g, row, col) == cell_or_zero(g, row - 1, col - 1) + cell_or_zero(
            g,
            row - 1,
            col,
        ) + cell_or_zero(g, row - 1, col + 1) + cell_or_zero(g, row, col - 1) + cell_or_zero(
            g,
            row,
            col + 1,
        ) + cell_or_zero(g, row + 1, col - 1) + cell_or_zero(g, row + 1, col) + cell_or_zero(
            g,
            row + 1,
            col + 1,
        ),
{
    reveal_with_fuel(window_sum, 4);
    reveal_with_fuel(span_sum, 4);
}

/// A cell has at most eight live neighbours, and never a negative number.
pub proof fn lemma_live_neighbours_bounds(g: Seq<Seq<u8>>, row: int, col: int)
    requires
        well_formed(g),
        in_bounds(g, row, col),
    ensures
        0 <= live_neighbours(g, row, col) <= 8,
{
    lemma_live_neighbours_cell_by_cell(g, row, col);
}

/// At the corner `(0, 0)` only the cells `(0, 1)`, `(1, 0)` and `(1, 1)`
/// count as neighbours, as far as the grid has them: there are at most three
/// live neighbours, and no cell of the far edges is among them.
pub proof fn lemma_corner_neighbours(g: Seq<Seq<u8>>)
    requires
        well_formed(g),
    ensures
        live_neighbours(g, 0, 0) == cell_or_zero(g, 0, 1) + cell_or_zero(g, 1, 0) + cell_or_zero(
            g,
            1,
            1,
        ),
        live_neighbours(g, 0, 0) <= 3,
{
    lemma_live_neighbours_cell_by_cell(g, 0, 0);
}

/// A step keeps the dimensions: the next generation has as many rows and as
/// many columns as the current one, and is again a well-formed grid.
pub proof fn lemma_step_keeps_dimensions(g: Seq<Seq<u8>>)
    requires
        well_formed(g),
    ensures
        row_count(step(g)) == row_count(g),
        column_count(step(g)) == column_count(g),
        well_formed(step(g)),
{
}

/// Every cell of the next generation is the next state of that cell.
pub proof fn lemma_step_cell(g: Seq<Seq<u8>>, row: int, col: int)
    requires
        well_formed(g),
        in_bounds(g, row, col),
    ensures
        step(g)[row][col] == next_state(g, row, col),
{
}

/// Underpopulation: a live cell with fewer than two live neighbours is dead
/// in the next generation.
pub proof fn lemma_underpopulation(g: Seq<Seq<u8>>, row: int, col: int)
    requires
        well_formed(g),
        in_bounds(g, row, col),
        g[row][col] == 1,
        live_neighbours(g, row, col) < 2,
    ensures
        step(g)[row][col] == 0,
{
}

/// Overpopulation: a live cell with four or more live neighbours is dead in
/// the next generation.
pub proof fn lemma_overpopulation(g: Seq<Seq<u8>>, row: int, col: int)
    requires
        well_formed(g),
        in_bounds(g, row, col),
        g[row][col] == 1,
        live_neighbours(g, row, col) >= 4,
    ensures
        step(g)[row][col] == 0,
{
}

/// Survival: a live cell with two or three live neighbours is alive in the
/// next generation.
pub proof fn lemma_survival(g: Seq<Seq<u8>>, row: int, col: int)
    requires
        well_formed(g),
        in_bounds(g, row, col),
        g[row][col] == 1,
        live_neighbours(g, row, col) == 2 || live_neighbours(g, row, col) == 3,
    ensures
        step(g)[row][col] == 1,
{
}

/// Birth: a dead cell is alive in the next generation exactly when it has
/// three live neighbours.
pub proof fn lemma_birth(g: Seq<Seq<u8>>, row: int, col: int)
    requires
        well_formed(g),
        in_bounds(g, row, col),
        g[row][col] == 0,
    ensures
        step(g)[row][col] == 1 <==> live_neighbours(g, row, col) == 3,
        step(g)[row][col] == 0 <==> live_neighbours(g, row, col) != 3,
{
}

/// Determinism: the next generation depends on the cells of the current one
/// and on nothing else, so grids that agree cell for cell have the same next
/// generation.
pub proof fn lemma_step_deterministic(g1: Seq<Seq<u8>>, g2: Seq<Seq<u8>>)
    requires
        row_count(g1) == row_count(g2),
        forall|r: int| 0 <= r < row_count(g1) ==> (#[trigger] g1[r]).len() == g2[r].len(),
        forall|r: int, c: int|
            0 <= r < row_count(g1) && 0 <= c < g1[r].len() ==> #[trigger] g1[r][c] == g2[r][c],
    ensures
        step(g1) == step(g2),
{
    assert(g1 =~~= g2);
}

} // verus!
