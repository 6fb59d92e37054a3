//! The mathematical model: a generation is a sequence of rows, each a
//! sequence of cells, and a cell is `1` when alive and `0` when dead.

use vstd::prelude::*;

verus! {

/// Number of rows of `g`.
pub open spec fn row_count(g: Seq<Seq<u8>>) -> int {
    g.len() as int
}

/// Number of columns of `g`: the length of its first row, and `0` for a grid
/// without rows.
pub open spec fn column_count(g: Seq<Seq<u8>>) -> int {
    if g.len() > 0 {
        g[0].len() as int
    } else {
        0
    }
}

/// `g` is a rectangle: it has at least one row and one column, and every row
/// has the same length.
pub open spec fn rectangular(g: Seq<Seq<u8>>) -> bool {
    &&& row_count(g) >= 1
    &&& column_count(g) >= 1
    &&& forall|r: int| 0 <= r < row_count(g) ==> (#[trigger] g[r]).len() == column_count(g)
}

/// Every cell of `g` is dead (`0`) or alive (`1`).
pub open spec fn binary(g: Seq<Seq<u8>>) -> bool {
    forall|r: int, c: int|
        0 <= r < row_count(g) && 0 <= c < g[r].len() ==> (#[trigger] g[r][c]) <= 1
}

/// `g` is a grid: a rectangle of cells that are each dead or alive.
pub open spec fn well_formed(g: Seq<Seq<u8>>) -> bool {
    rectangular(g) && binary(g)
}

/// `(row, col)` names a cell of `g`.
pub open spec fn in_bounds(g: Seq<Seq<u8>>, row: int, col: int) -> bool {
    0 <= row < row_count(g) && 0 <= col < column_count(g)
}

/// First index of the neighbourhood around index `i`: `max(0, i - 1)`.
pub open spec fn window_start(i: int) -> int {
    if i - 1 < 0 {
        0
    } else {
        i - 1
    }
}

/// Last index of the neighbourhood around index `i` along an axis of `count`
/// cells: `min(count - 1, i + 1)`.
pub open spec fn window_end(i: int, count: int) -> int {
    if i + 1 > count - 1 {
        count - 1
    } else {
        i + 1
    }
}

/// Sum of the cells `row[left], .., row[right]`, both ends included.
pub open spec fn span_sum(row: Seq<u8>, left: int, right: int) -> int
    decreases right - left + 1,
{
    if right < left {
        0
    } else {
        span_sum(row, left, right - 1) + row[right] as int
    }
}

/// Sum of the cells of `g` in rows `top..=bottom` and columns `left..=right`.
pub open spec fn window_sum(g: Seq<Seq<u8>>, top: int, bottom: int, left: int, right: int) -> int
    decreases bottom - top + 1,
{
    if bottom < top {
        0
    } else {
        window_sum(g, top, bottom - 1, left, right) + span_sum(g[bottom], left, right)
    }
}

/// Number of live cells around `(row, col)`: the sum over the three-by-three
/// window centred on the cell and cut off at the grid's edges, less the cell
/// itself.
pub open spec fn live_neighbours(g: Seq<Seq<u8>>, row: int, col: int) -> int {
    window_sum(
        g,
        window_start(row),
        window_end(row, row_count(g)),
        window_start(col),
        window_end(col, column_count(g)),
    ) - g[row][col] as int
}

/// State of `(row, col)` in the generation after `g`: a live cell stays alive
/// with two or three live neighbours, a dead cell comes alive with exactly
/// three, and every other cell is dead.
pub open spec fn next_state(g: Seq<Seq<u8>>, row: int, col: int) -> u8 {
    let n = live_neighbours(g, row, col);
    if g[row][col] == 1 {
        if n == 2 || n == 3 {
            1
        } else {
            0
        }
    } else {
        if n == 3 {
            1
        } else {
            0
        }
    }
}

/// The generation after `g`: every cell takes its next state, each computed
/// from `g` alone.
pub open spec fn step(g: Seq<Seq<u8>>) -> Seq<Seq<u8>> {
    Seq::new(
        row_count(g) as nat,
        |r: int| Seq::new(column_count(g) as nat, |c: int| next_state(g, r, c)),
    )
}

} // verus!
