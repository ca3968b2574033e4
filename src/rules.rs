use crate::cell::Cell;
use crate::lattice::lemma_index_in_bounds;
use vstd::arithmetic::div_mod::lemma_fundamental_div_mod_converse;
use vstd::prelude::*;

verus! {

/// The row-major index of position `(row, col)` after wrapping both
/// coordinates around the torus.
pub open spec fn wrap_index(rows: int, cols: int, row: int, col: int) -> int {
    (row % rows) * cols + (col % cols)
}

/// 1 when the cell at the wrapped position `(row, col)` of `s` is alive, else 0.
pub open spec fn alive_at(s: Seq<Cell>, rows: int, cols: int, row: int, col: int) -> int {
    s[wrap_index(rows, cols, row, col)].weight()
}

/// The number of live cells among the eight toroidal neighbours of
/// `(row, col)`.
pub open spec fn live_neighbors(s: Seq<Cell>, rows: int, cols: int, row: int, col: int) -> int {
    alive_at(s, rows, cols, row - 1, col - 1) + alive_at(s, rows, cols, row - 1, col)
        + alive_at(s, rows, cols, row - 1, col + 1) + alive_at(s, rows, cols, row, col - 1)
        + alive_at(s, rows, cols, row, col + 1) + alive_at(s, rows, cols, row + 1, col - 1)
        + alive_at(s, rows, cols, row + 1, col) + alive_at(s, rows, cols, row + 1, col + 1)
}

/// The Life rule: a live cell with fewer than two or more than three live
/// neighbours dies, a dead cell with exactly three comes alive, every other
/// cell keeps its state.
pub open spec fn next_cell(cell: Cell, n: int) -> Cell {
    if cell == Cell::Alive && n < 2 {
        Cell::Dead
    } else if cell == Cell::Alive && n > 3 {
        Cell::Dead
    } else if cell == Cell::Dead && n == 3 {
        Cell::Alive
    } else {
        cell
    }
}

/// The generation that follows `s` on a `rows` by `cols` torus, every cell
/// updated from the cells of `s` alone.
pub open spec fn next_generation(s: Seq<Cell>, rows: int, cols: int) -> Seq<Cell> {
    Seq::new(s.len(), |i: int| next_cell(s[i], live_neighbors(s, rows, cols, i / cols, i % cols)))
}

/// The state of a cell with `n` live neighbours in the next generation.
pub fn next_state(cell: Cell, n: u8) -> (r: Cell)
    ensures
        r == next_cell(cell, n as int),
{
    match cell {
        Cell::Alive => if n < 2 {
            Cell::Dead
        } else if n > 3 {
            Cell::Dead
        } else {
            Cell::Alive
        },
        Cell::Dead => if n == 3 {
            Cell::Alive
        } else {
            Cell::Dead
        },
    }
}

/// The cell at `(row, col)` of the next generation is the rule applied to
/// that cell and its live-neighbour count in the current one.
pub proof fn lemma_next_generation_at(s: Seq<Cell>, rows: int, cols: int, row: int, col: int)
    requires
        0 <= row < rows,
        0 <= col < cols,
        s.len() == rows * cols,
    ensures
        0 <= row * cols + col < s.len(),
        next_generation(s, rows, cols)[row * cols + col] == next_cell(
            s[row * cols + col],
            live_neighbors(s, rows, cols, row, col),
        ),
{
    lemma_index_in_bounds(row, col, rows, cols);
    lemma_fundamental_div_mod_converse(row * cols + col, cols, row, col);
}

/// Every wrapped position lies inside the grid.
pub proof fn lemma_wrap_index_in_bounds(rows: int, cols: int, row: int, col: int)
    requires
        rows > 0,
        cols > 0,
    ensures
        0 <= wrap_index(rows, cols, row, col) < rows * cols,
{
    lemma_index_in_bounds(row % rows, col % cols, rows, cols);
}

/// No cell comes alive in a generation that follows an all-dead grid.
pub proof fn lemma_dead_grid_stays_dead(s: Seq<Cell>, rows: int, cols: int)
    requires
        rows > 0,
        cols > 0,
        s.len() == rows * cols,
        forall|i: int| 0 <= i < s.len() ==> s[i] == Cell::Dead,
    ensures
        forall|i: int|
            0 <= i < s.len() ==> #[trigger] next_generation(s, rows, cols)[i] == Cell::Dead,
{
    assert forall|i: int| 0 <= i < s.len() implies #[trigger] next_generation(
        s,
        rows,
        cols,
    )[i] == Cell::Dead by {
        let r = i / cols;
        let c = i % cols;
        lemma_wrap_index_in_bounds(rows, cols, r - 1, c - 1);
        lemma_wrap_index_in_bounds(rows, cols, r - 1, c);
        lemma_wrap_index_in_bounds(rows, cols, r - 1, c + 1);
        lemma_wrap_index_in_bounds(rows, cols, r, c - 1);
        lemma_wrap_index_in_bounds(rows, cols, r, c + 1);
        lemma_wrap_index_in_bounds(rows, cols, r + 1, c - 1);
        lemma_wrap_index_in_bounds(rows, cols, r + 1, c);
        lemma_wrap_index_in_bounds(rows, cols, r + 1, c + 1);
    }
}

/// The outcome of one generation for each cell: birth on exactly three live
/// neighbours, survival on two or three, death of a live cell otherwise.
pub proof fn lemma_transition_cases(s: Seq<Cell>, rows: int, cols: int, row: int, col: int)
    requires
        0 <= row < rows,
        0 <= col < cols,
        s.len() == rows * cols,
    ensures
        ({
            let i = row * cols + col;
            let n = live_neighbors(s, rows, cols, row, col);
            let next = next_generation(s, rows, cols);
            &&& (s[i] == Cell::Dead && n == 3 ==> next[i] == Cell::Alive)
            &&& (s[i] == Cell::Dead && n != 3 ==> next[i] == Cell::Dead)
            &&& (s[i] == Cell::Alive && (n == 2 || n == 3) ==> next[i] == Cell::Alive)
            &&& (s[i] == Cell::Alive && (n < 2 || n > 3) ==> next[i] == Cell::Dead)
        }),
{
    lemma_next_generation_at(s, rows, cols, row, col);
}

/// The neighbourhood wraps around both edges: a live cell at `(0, 0)` is a
/// live neighbour of the opposite corner `(rows - 1, cols - 1)`.
pub proof fn lemma_corner_wraps(s: Seq<Cell>, rows: int, cols: int)
    requires
        rows > 0,
        cols > 0,
        s.len() == rows * cols,
        s[0] == Cell::Alive,
    ensures
        wrap_index(rows, cols, (rows - 1) + 1, (cols - 1) + 1) == 0,
        alive_at(s, rows, cols, (rows - 1) + 1, (cols - 1) + 1) == 1,
        live_neighbors(s, rows, cols, rows - 1, cols - 1) >= 1,
{
    lemma_fundamental_div_mod_converse(rows, rows, 1, 0);
    lemma_fundamental_div_mod_converse(cols, cols, 1, 0);
    assert(wrap_index(rows, cols, rows, cols) == 0);
    let r = rows - 1;
    let c = cols - 1;
    assert(alive_at(s, rows, cols, r - 1, c - 1) >= 0);
    assert(alive_at(s, rows, cols, r - 1, c) >= 0);
    assert(alive_at(s, rows, cols, r - 1, c + 1) >= 0);
    assert(alive_at(s, rows, cols, r, c - 1) >= 0);
    assert(alive_at(s, rows, cols, r, c + 1) >= 0);
    assert(alive_at(s, rows, cols, r + 1, c - 1) >= 0);
    assert(alive_at(s, rows, cols, r + 1, c) >= 0);
}

/// On a grid of at least three rows and three columns whose only live cell
/// is `(0, 0)`, the opposite corner `(rows - 1, cols - 1)` has exactly one
/// live neighbour: `(0, 0)`, reached by wrapping both the row and the column.
pub proof fn lemma_lone_corner_neighbor(s: Seq<Cell>, rows: int, cols: int)
    requires
        rows >= 3,
        cols >= 3,
        s.len() == rows * cols,
        s[0] == Cell::Alive,
        forall|i: int| 0 < i < s.len() ==> s[i] == Cell::Dead,
    ensures
        live_neighbors(s, rows, cols, rows - 1, cols - 1) == 1,
{
    let r = rows - 1;
    let c = cols - 1;
    lemma_corner_wraps(s, rows, cols);
    lemma_fundamental_div_mod_converse(rows - 2, rows, 0, rows - 2);
    lemma_fundamental_div_mod_converse(rows - 1, rows, 0, rows - 1);
    lemma_fundamental_div_mod_converse(cols - 2, cols, 0, cols - 2);
    lemma_fundamental_div_mod_converse(cols - 1, cols, 0, cols - 1);
    lemma_fundamental_div_mod_converse(rows, rows, 1, 0);
    lemma_fundamental_div_mod_converse(cols, cols, 1, 0);
    assert forall|a: int, b: int|
        0 <= a < rows && 0 <= b < cols && (a >= 1 || b >= 1) implies #[trigger] s[a * cols + b]
        == Cell::Dead by {
        lemma_index_in_bounds(a, b, rows, cols);
        assert(a * cols + b > 0) by (nonlinear_arith)
            requires
                0 <= a,
                0 <= b,
                cols >= 3,
                a >= 1 || b >= 1,
        ;
    }
    assert(s[(rows - 2) * cols + (cols - 2)] == Cell::Dead);
    assert(s[(rows - 2) * cols + (cols - 1)] == Cell::Dead);
    assert(s[(rows - 2) * cols + 0] == Cell::Dead);
    assert(s[(rows - 1) * cols + (cols - 2)] == Cell::Dead);
    assert(s[(rows - 1) * cols + 0] == Cell::Dead);
    assert(s[0 * cols + (cols - 2)] == Cell::Dead);
    assert(s[0 * cols + (cols - 1)] == Cell::Dead);
    assert(alive_at(s, rows, cols, r - 1, c - 1) == 0);
    assert(alive_at(s, rows, cols, r - 1, c) == 0);
    assert(alive_at(s, rows, cols, r - 1, c + 1) == 0);
    assert(alive_at(s, rows, cols, r, c - 1) == 0);
    assert(alive_at(s, rows, cols, r, c + 1) == 0);
    assert(alive_at(s, rows, cols, r + 1, c - 1) == 0);
    assert(alive_at(s, rows, cols, r + 1, c) == 0);
}

} // verus!
