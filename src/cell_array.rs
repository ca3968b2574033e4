use crate::cell::Cell;
use vstd::prelude::*;

verus! {

/// A row-major two-dimensional array of cells, stored in an `ndarray::Array2`.
#[derive(Debug)]
#[verifier::external_body]
pub struct CellArray {
    arr: ndarray::Array2<Cell>,
}

/// The cells of the array, in row-major order.
pub uninterp spec fn array_cells(a: CellArray) -> Seq<Cell>;

/// The number of rows of the array.
pub uninterp spec fn array_rows(a: CellArray) -> nat;

/// The number of columns of the array.
pub uninterp spec fn array_cols(a: CellArray) -> nat;

impl CellArray {
    /// The array's contents hold one cell per row and column.
    pub open spec fn wf(self) -> bool {
        array_cells(self).len() == array_rows(self) * array_cols(self)
    }

    /// Relies on `ndarray::Array2::from_elem`: an array of the given shape in
    /// standard order, every element a copy of `cell`; it panics when the
    /// product of the non-zero axis lengths overflows `isize`, which both
    /// dimensions being at least 1 and the product bound rule out.
    #[verifier::external_body]
    pub(crate) fn from_elem(nrows: usize, ncols: usize, cell: Cell) -> (r: CellArray)
        requires
            nrows >= 1,
            ncols >= 1,
            nrows * ncols <= isize::MAX,
        ensures
            array_rows(r) == nrows,
            array_cols(r) == ncols,
            array_cells(r) == Seq::new((nrows * ncols) as nat, |i: int| cell),
    {
        CellArray { arr: ndarray::Array2::from_elem((nrows, ncols), cell) }
    }

    /// Relies on `Clone` for `ndarray::Array2`: an array of the same shape and
    /// elements.
    #[verifier::external_body]
    pub(crate) fn duplicate(&self) -> (r: CellArray)
        ensures
            array_rows(r) == array_rows(*self),
            array_cols(r) == array_cols(*self),
            array_cells(r) == array_cells(*self),
    {
        CellArray { arr: self.arr.clone() }
    }

    /// Relies on `ndarray::Array2::nrows`: the length of the first axis.
    #[verifier::external_body]
    pub(crate) fn nrows(&self) -> (r: usize)
        ensures
            r == array_rows(*self),
    {
        self.arr.nrows()
    }

    /// Relies on `ndarray::Array2::ncols`: the length of the second axis.
    #[verifier::external_body]
    pub(crate) fn ncols(&self) -> (r: usize)
        ensures
            r == array_cols(*self),
    {
        self.arr.ncols()
    }

    /// Relies on indexing `ndarray::Array2` by `(row, col)`: the element at
    /// that position; it panics out of bounds.
    #[verifier::external_body]
    pub(crate) fn get(&self, row: usize, col: usize) -> (r: Cell)
        requires
            row < array_rows(*self),
            col < array_cols(*self),
        ensures
            r == array_cells(*self)[row * array_cols(*self) + col],
    {
        self.arr[(row, col)]
    }

    /// Relies on mutable indexing of `ndarray::Array2` by `(row, col)`: only
    /// the element at that position changes; it panics out of bounds.
    #[verifier::external_body]
    pub(crate) fn set(&mut self, row: usize, col: usize, cell: Cell)
        requires
            row < array_rows(*old(self)),
            col < array_cols(*old(self)),
        ensures
            array_rows(*final(self)) == array_rows(*old(self)),
            array_cols(*final(self)) == array_cols(*old(self)),
            array_cells(*final(self)) == array_cells(*old(self)).update(
                row * array_cols(*old(self)) + col,
                cell,
            ),
    {
        self.arr[(row, col)] = cell;
    }

    /// Relies on `ndarray::ArrayBase::fill`: every element becomes `cell`,
    /// the shape stays.
    #[verifier::external_body]
    pub(crate) fn fill(&mut self, cell: Cell)
        ensures
            array_rows(*final(self)) == array_rows(*old(self)),
            array_cols(*final(self)) == array_cols(*old(self)),
            array_cells(*final(self)) == Seq::new(
                array_cells(*old(self)).len(),
                |i: int| cell,
            ),
    {
        self.arr.fill(cell);
    }

    /// Relies on `ndarray::ArrayBase::as_slice`: the elements in logical
    /// (row-major) order; every array here is built by `from_elem` in
    /// standard order, for which the slice is present.
    #[verifier::external_body]
    pub(crate) fn as_slice(&self) -> (r: &[Cell])
        ensures
            r@ == array_cells(*self),
    {
        self.arr.as_slice().unwrap()
    }
}

} // verus!
