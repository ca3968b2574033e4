use crate::cell::Cell;
use crate::cell_array::{array_cells, array_cols, array_rows, CellArray};
use vstd::arithmetic::div_mod::lemma_fundamental_div_mod;
use vstd::prelude::*;

verus! {

/// A double-buffered two-dimensional lattice: the current buffer is the one
/// read between generations, the next buffer receives the generation being
/// computed.
#[derive(Debug)]
pub struct Lattice2D {
    buffer: CellArray,
    buffer_next: CellArray,
}

/// A position inside a `rows` by `cols` grid has its row-major index inside
/// the grid's cells.
pub proof fn lemma_index_in_bounds(row: int, col: int, rows: int, cols: int)
    requires
        0 <= row < rows,
        0 <= col < cols,
    ensures
        0 <= row * cols + col < rows * cols,
{
    assert(0 <= row * cols + col < rows * cols) by (nonlinear_arith)
        requires
            0 <= row < rows,
            0 <= col < cols,
    ;
}

/// Row-major index `i` of a `rows` by `cols` grid is at row `i / cols` and
/// column `i % cols`.
pub proof fn lemma_flat_position(i: int, rows: int, cols: int)
    requires
        0 <= i < rows * cols,
        cols > 0,
    ensures
        0 <= i / cols < rows,
        0 <= i % cols < cols,
        (i / cols) * cols + i % cols == i,
{
    lemma_fundamental_div_mod(i, cols);
    assert(i / cols < rows) by (nonlinear_arith)
        requires
            i < rows * cols,
            i == cols * (i / cols) + (i % cols),
            0 <= i % cols,
            cols > 0,
    ;
    assert((i / cols) * cols == cols * (i / cols)) by (nonlinear_arith);
    assert(0 <= i / cols) by (nonlinear_arith)
        requires
            0 <= i,
            cols > 0,
    ;
}

/// Neither side of a grid with at least one cell exceeds its cell count.
pub proof fn lemma_sides_within_area(rows: int, cols: int)
    requires
        rows >= 1,
        cols >= 1,
    ensures
        rows <= rows * cols,
        cols <= rows * cols,
{
    assert(rows <= rows * cols && cols <= rows * cols) by (nonlinear_arith)
        requires
            rows >= 1,
            cols >= 1,
    ;
}

impl Lattice2D {
    /// Number of rows of both buffers.
    pub closed spec fn rows(self) -> nat {
        array_rows(self.buffer)
    }

    /// Number of columns of both buffers.
    pub closed spec fn cols(self) -> nat {
        array_cols(self.buffer)
    }

    /// The current buffer, row-major.
    pub closed spec fn cells(self) -> Seq<Cell> {
        array_cells(self.buffer)
    }

    /// The next buffer, row-major.
    pub closed spec fn next_cells(self) -> Seq<Cell> {
        array_cells(self.buffer_next)
    }

    /// The lattice with the roles of its two buffers exchanged.
    pub closed spec fn swapped(self) -> Lattice2D {
        Lattice2D { buffer: self.buffer_next, buffer_next: self.buffer }
    }

    /// Both buffers have the same shape and one cell per position.
    pub closed spec fn wf(self) -> bool {
        &&& array_rows(self.buffer_next) == array_rows(self.buffer)
        &&& array_cols(self.buffer_next) == array_cols(self.buffer)
        &&& self.buffer.wf()
        &&& self.buffer_next.wf()
    }

    /// What a well-formed lattice's shape says of its buffers.
    pub proof fn lemma_wf_lengths(self)
        requires
            self.wf(),
        ensures
            self.cells().len() == self.rows() * self.cols(),
            self.next_cells().len() == self.rows() * self.cols(),
            self.swapped().wf(),
            self.swapped().rows() == self.rows(),
            self.swapped().cols() == self.cols(),
            self.swapped().cells() == self.next_cells(),
            self.swapped().next_cells() == self.cells(),
    {
    }

    /// Swapping the buffers twice gives back the lattice as it was.
    pub proof fn lemma_swap_involutive(self)
        ensures
            self.swapped().swapped() == self,
    {
    }

    /// A lattice of `nrows` by `ncols` cells whose two buffers hold
    /// `cell_state` everywhere.
    pub fn new(nrows: usize, ncols: usize, cell_state: &Cell) -> (r: Lattice2D)
        requires
            nrows >= 1,
            ncols >= 1,
            nrows * ncols <= isize::MAX,
        ensures
            r.wf(),
            r.rows() == nrows,
            r.cols() == ncols,
            r.cells() == Seq::new((nrows * ncols) as nat, |i: int| *cell_state),
            r.next_cells() == r.cells(),
    {
        let buffer = CellArray::from_elem(nrows, ncols, *cell_state);
        let buffer_next = buffer.duplicate();
        Lattice2D { buffer, buffer_next }
    }

    pub fn nrows(&self) -> (r: usize)
        ensures
            r == self.rows(),
    {
        self.buffer.nrows()
    }

    pub fn ncols(&self) -> (r: usize)
        ensures
            r == self.cols(),
    {
        self.buffer.ncols()
    }

    /// Exchanges the roles of the two buffers; no cell changes.
    pub fn swap_buffers(&mut self)
        ensures
            *final(self) == old(self).swapped(),
    {
        std::mem::swap(&mut self.buffer, &mut self.buffer_next);
    }

    /// Sets every cell of the current buffer to `state`.
    pub fn set_constant(&mut self, state: &Cell)
        requires
            old(self).wf(),
        ensures
            final(self).wf(),
            final(self).rows() == old(self).rows(),
            final(self).cols() == old(self).cols(),
            final(self).cells() == Seq::new(old(self).cells().len(), |i: int| *state),
            final(self).next_cells() == old(self).next_cells(),
    {
        self.buffer.fill(*state);
    }

    /// The current cell at `(row, col)`.
    pub(crate) fn get(&self, row: usize, col: usize) -> (r: Cell)
        requires
            row < self.rows(),
            col < self.cols(),
        ensures
            r == self.cells()[row * self.cols() + col],
    {
        self.buffer.get(row, col)
    }

    /// Writes `cell` at `(row, col)` of the current buffer.
    pub(crate) fn set(&mut self, row: usize, col: usize, cell: Cell)
        requires
            old(self).wf(),
            row < old(self).rows(),
            col < old(self).cols(),
        ensures
            final(self).wf(),
            final(self).rows() == old(self).rows(),
            final(self).cols() == old(self).cols(),
            final(self).cells() == old(self).cells().update(row * old(self).cols() + col, cell),
            final(self).next_cells() == old(self).next_cells(),
    {
        proof {
            lemma_index_in_bounds(row as int, col as int, self.rows() as int, self.cols() as int);
        }
        self.buffer.set(row, col, cell);
    }

    /// Writes `cell` at `(row, col)` of the next buffer.
    pub(crate) fn set_next(&mut self, row: usize, col: usize, cell: Cell)
        requires
            old(self).wf(),
            row < old(self).rows(),
            col < old(self).cols(),
        ensures
            final(self).wf(),
            final(self).rows() == old(self).rows(),
            final(self).cols() == old(self).cols(),
            final(self).cells() == old(self).cells(),
            final(self).next_cells() == old(self).next_cells().update(
                row * old(self).cols() + col,
                cell,
            ),
    {
        proof {
            lemma_index_in_bounds(row as int, col as int, self.rows() as int, self.cols() as int);
        }
        self.buffer_next.set(row, col, cell);
    }

    /// The current buffer as a row-major slice.
    pub fn buffer(&self) -> (r: &[Cell])
        ensures
            r@ == self.cells(),
    {
        self.buffer.as_slice()
    }
}

} // verus!
