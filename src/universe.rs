use crate::cell::Cell;
use crate::lattice::{lemma_flat_position, lemma_index_in_bounds, lemma_sides_within_area, Lattice2D};
use crate::pattern::{coord_indices, get_template, stamp_indices, template_of, with_alive, Pattern};
use crate::render::{chars_to_string, glyph, render_rows, ALIVE_GLYPH, DEAD_GLYPH};
use crate::rules::{alive_at, lemma_next_generation_at, live_neighbors, next_generation, next_state, wrap_index};
use vstd::arithmetic::div_mod::{
    lemma_add_mod_noop,
    lemma_mod_add_multiples_vanish,
};
use vstd::prelude::*;

verus! {

/// Why a command on a universe was rejected.
#[derive(Debug, Clone, Copy, PartialEq, Eq, Structural)]
pub enum LifeError {
    /// A dimension is zero, or the grid has more cells than `isize::MAX`.
    InvalidDimension,
    /// A coordinate lies outside the grid.
    OutOfBounds,
}

/// A Game of Life simulation on a torus of `nrows` by `ncols` cells.
#[derive(Debug)]
pub struct Universe {
    lattice: Lattice2D,
}

/// Whether `nrows` by `ncols` are dimensions a universe can have.
pub open spec fn valid_dimensions(nrows: int, ncols: int) -> bool {
    nrows >= 1 && ncols >= 1 && nrows * ncols <= isize::MAX
}

impl Universe {
    /// Number of rows.
    pub closed spec fn rows(self) -> int {
        self.lattice.rows() as int
    }

    /// Number of columns.
    pub closed spec fn cols(self) -> int {
        self.lattice.cols() as int
    }

    /// The current generation, row-major.
    pub closed spec fn cells(self) -> Seq<Cell> {
        self.lattice.cells()
    }

    /// The cell at `(row, col)` of the current generation.
    pub open spec fn cell(self, row: int, col: int) -> Cell {
        self.cells()[row * self.cols() + col]
    }

    /// The lattice is well formed and its shape a valid one.
    pub closed spec fn wf(self) -> bool {
        self.lattice.wf() && valid_dimensions(self.rows(), self.cols())
    }

    /// What a well-formed universe's shape says of its cells.
    pub proof fn lemma_wf(self)
        requires
            self.wf(),
        ensures
            valid_dimensions(self.rows(), self.cols()),
            self.cells().len() == self.rows() * self.cols(),
    {
        self.lattice.lemma_wf_lengths();
    }

    /// A universe of `nrows` by `ncols` cells, all in `cell_state` (dead when
    /// none is given).
    pub fn new(nrows: usize, ncols: usize, cell_state: Option<&Cell>) -> (r: Result<
        Universe,
        LifeError,
    >)
        ensures
            r is Err <==> !valid_dimensions(nrows as int, ncols as int),
            r is Err ==> r == Err::<Universe, LifeError>(LifeError::InvalidDimension),
            r matches Ok(u) ==> {
                &&& u.wf()
                &&& u.rows() == nrows
                &&& u.cols() == ncols
                &&& u.cells() == Seq::new(
                    (nrows * ncols) as nat,
                    |i: int|
                        match cell_state {
                            Some(c) => *c,
                            None => Cell::Dead,
                        },
                )
            },
    {
        if nrows == 0 || ncols == 0 {
            return Err(LifeError::InvalidDimension);
        }
        match nrows.checked_mul(ncols) {
            None => Err(LifeError::InvalidDimension),
            Some(size) => {
                if size > isize::MAX as usize {
                    Err(LifeError::InvalidDimension)
                } else {
                    let state = match cell_state {
                        Some(c) => *c,
                        None => Cell::Dead,
                    };
                    Ok(Universe { lattice: Lattice2D::new(nrows, ncols, &state) })
                }
            },
        }
    }

    pub fn nrows(&self) -> (r: usize)
        ensures
            r == self.rows(),
    {
        self.lattice.nrows()
    }

    pub fn ncols(&self) -> (r: usize)
        ensures
            r == self.cols(),
    {
        self.lattice.ncols()
    }

    /// The current generation as a row-major slice, borrowed until the next
    /// mutation.
    pub fn state(&self) -> (r: &[Cell])
        ensures
            r@ == self.cells(),
    {
        self.lattice.buffer()
    }

    /// Kills every cell.
    pub fn clear(&mut self)
        requires
            old(self).wf(),
        ensures
            final(self).wf(),
            final(self).rows() == old(self).rows(),
            final(self).cols() == old(self).cols(),
            final(self).cells() == Seq::new(old(self).cells().len(), |i: int| Cell::Dead),
    {
        self.lattice.set_constant(&Cell::Dead);
    }

    /// 1 when the cell at `((row + dr) mod rows, (col + dc) mod cols)` is
    /// alive, else 0.
    fn neighbor_weight(&self, row: usize, col: usize, dr: usize, dc: usize) -> (r: u8)
        requires
            self.wf(),
            row < self.rows(),
            col < self.cols(),
            dr <= self.rows(),
            dc <= self.cols(),
        ensures
            r == alive_at(self.cells(), self.rows(), self.cols(), row + dr, col + dc),
    {
        proof {
            self.lemma_wf();
            lemma_sides_within_area(self.rows(), self.cols());
        }
        let rows = self.lattice.nrows();
        let cols = self.lattice.ncols();
        let neighbor_row = (row + dr) % rows;
        let neighbor_col = (col + dc) % cols;
        match self.lattice.get(neighbor_row, neighbor_col) {
            Cell::Dead => 0,
            Cell::Alive => 1,
        }
    }

    /// The number of live cells among the eight wrapped neighbours of
    /// `(row, col)`; a step of -1 is taken as `rows - 1` (or `cols - 1`).
    fn live_neighbor_count(&self, row: usize, col: usize) -> (r: u8)
        requires
            self.wf(),
            row < self.rows(),
            col < self.cols(),
        ensures
            r == live_neighbors(self.cells(), self.rows(), self.cols(), row as int, col as int),
    {
        proof {
            self.lemma_wf();
        }
        let rows = self.lattice.nrows();
        let cols = self.lattice.ncols();
        let up = rows - 1;
        let left = cols - 1;
        proof {
            lemma_mod_add_multiples_vanish(row - 1, rows as int);
            lemma_mod_add_multiples_vanish(col - 1, cols as int);
            assert(wrap_index(rows as int, cols as int, row + up, col + left) == wrap_index(
                rows as int,
                cols as int,
                row - 1,
                col - 1,
            ));
        }
        let mut count: u8 = 0;
        count = count + self.neighbor_weight(row, col, up, left);
        count = count + self.neighbor_weight(row, col, up, 0);
        count = count + self.neighbor_weight(row, col, up, 1);
        count = count + self.neighbor_weight(row, col, 0, left);
        count = count + self.neighbor_weight(row, col, 0, 1);
        count = count + self.neighbor_weight(row, col, 1, left);
        count = count + self.neighbor_weight(row, col, 1, 0);
        count = count + self.neighbor_weight(row, col, 1, 1);
        count
    }

    /// Advances the universe by one generation: every cell is updated from
    /// the current generation alone, then the buffers are swapped.
    pub fn tick(&mut self)
        requires
            old(self).wf(),
        ensures
            final(self).wf(),
            final(self).rows() == old(self).rows(),
            final(self).cols() == old(self).cols(),
            final(self).cells() == next_generation(
                old(self).cells(),
                old(self).rows(),
                old(self).cols(),
            ),
    {
        proof {
            self.lemma_wf();
        }
        let rows = self.lattice.nrows();
        let cols = self.lattice.ncols();
        let total = rows * cols;
        let ghost s = self.cells();
        let ghost next = next_generation(s, rows as int, cols as int);
        proof {
            self.lattice.lemma_wf_lengths();
        }
        let mut i: usize = 0;
        while i < total
            invariant
                self.wf(),
                self.rows() == rows,
                self.cols() == cols,
                self.cells() == s,
                total == rows * cols,
                s.len() == total,
                next == next_generation(s, rows as int, cols as int),
                next.len() == total,
                i <= total,
                self.lattice.next_cells().len() == total,
                forall|j: int| 0 <= j < i ==> self.lattice.next_cells()[j] == next[j],
            decreases total - i,
        {
            let row = i / cols;
            let col = i % cols;
            proof {
                lemma_flat_position(i as int, rows as int, cols as int);
            }
            let cell = self.lattice.get(row, col);
            let n = self.live_neighbor_count(row, col);
            let cell_next = next_state(cell, n);
            proof {
                lemma_next_generation_at(s, rows as int, cols as int, row as int, col as int);
            }
            let ghost before = self.lattice.next_cells();
            self.lattice.set_next(row, col, cell_next);
            proof {
                self.lattice.lemma_wf_lengths();
                assert forall|j: int| 0 <= j < i + 1 implies self.lattice.next_cells()[j]
                    == next[j] by {
                    if j < i {
                        assert(before[j] == next[j]);
                    }
                }
            }
            i = i + 1;
        }
        proof {
            assert(self.lattice.next_cells() =~= next);
            self.lattice.lemma_wf_lengths();
        }
        self.lattice.swap_buffers();
    }

    /// Flips the cell at `(row, col)`; a position outside the grid is
    /// rejected and leaves the universe unchanged.
    pub fn toggle_cell(&mut self, row: usize, col: usize) -> (r: Result<(), LifeError>)
        requires
            old(self).wf(),
        ensures
            final(self).wf(),
            final(self).rows() == old(self).rows(),
            final(self).cols() == old(self).cols(),
            r is Ok <==> row < old(self).rows() && col < old(self).cols(),
            r is Ok ==> final(self).cells() == old(self).cells().update(
                row * old(self).cols() + col,
                old(self).cell(row as int, col as int).toggled(),
            ),
            r is Err ==> r == Err::<(), LifeError>(LifeError::OutOfBounds) && final(self).cells()
                == old(self).cells(),
    {
        if row >= self.lattice.nrows() || col >= self.lattice.ncols() {
            return Err(LifeError::OutOfBounds);
        }
        let mut cell = self.lattice.get(row, col);
        cell.toggle();
        self.lattice.set(row, col, cell);
        Ok(())
    }

    /// Sets every listed cell alive. When any coordinate lies outside the
    /// grid nothing changes and the list is rejected.
    pub fn set_cells(&mut self, cells: &[(usize, usize)]) -> (r: Result<(), LifeError>)
        requires
            old(self).wf(),
        ensures
            final(self).wf(),
            final(self).rows() == old(self).rows(),
            final(self).cols() == old(self).cols(),
            r is Ok <==> forall|k: int|
                0 <= k < cells@.len() ==> (#[trigger] cells@[k]).0 < old(self).rows()
                    && cells@[k].1 < old(self).cols(),
            r is Ok ==> final(self).cells() == with_alive(
                old(self).cells(),
                coord_indices(cells@, old(self).cols()),
            ),
            r is Err ==> r == Err::<(), LifeError>(LifeError::OutOfBounds) && final(self).cells()
                == old(self).cells(),
    {
        let rows = self.lattice.nrows();
        let cols = self.lattice.ncols();
        let mut k: usize = 0;
        while k < cells.len()
            invariant
                self.wf(),
                self.rows() == rows,
                self.cols() == cols,
                k <= cells@.len(),
                forall|j: int| 0 <= j < k ==> (#[trigger] cells@[j]).0 < rows && cells@[j].1 < cols,
            decreases cells@.len() - k,
        {
            let (row, col) = cells[k];
            if row >= rows || col >= cols {
                return Err(LifeError::OutOfBounds);
            }
            k = k + 1;
        }
        let ghost s = self.cells();
        let ghost idxs = coord_indices(cells@, cols as int);
        proof {
            self.lemma_wf();
            assert(with_alive(s, idxs.take(0)) =~= s);
        }
        let mut k: usize = 0;
        while k < cells.len()
            invariant
                self.wf(),
                self.rows() == rows,
                self.cols() == cols,
                s.len() == rows * cols,
                idxs == coord_indices(cells@, cols as int),
                k <= cells@.len(),
                forall|j: int| 0 <= j < cells@.len() ==> (#[trigger] cells@[j]).0 < rows && cells@[j].1 < cols,
                self.cells() == with_alive(s, idxs.take(k as int)),
            decreases cells@.len() - k,
        {
            let (row, col) = cells[k];
            proof {
                assert(cells@[k as int].0 < rows && cells@[k as int].1 < cols);
                lemma_index_in_bounds(row as int, col as int, rows as int, cols as int);
                crate::pattern::lemma_with_alive_push(s, idxs, k as int);
            }
            self.lattice.set(row, col, Cell::Alive);
            k = k + 1;
        }
        proof {
            assert(idxs.take(cells@.len() as int) =~= idxs);
        }
        Ok(())
    }

    /// Stamps `pattern` with its offsets taken from `(row_center,
    /// col_center)` and wrapped around the torus; cells outside the pattern
    /// keep their state.
    pub fn add_pattern(&mut self, pattern: Pattern, row_center: usize, col_center: usize)
        requires
            old(self).wf(),
        ensures
            final(self).wf(),
            final(self).rows() == old(self).rows(),
            final(self).cols() == old(self).cols(),
            final(self).cells() == with_alive(
                old(self).cells(),
                stamp_indices(
                    template_of(pattern),
                    old(self).rows(),
                    old(self).cols(),
                    row_center as int,
                    col_center as int,
                ),
            ),
    {
        proof {
            self.lemma_wf();
            lemma_sides_within_area(self.rows(), self.cols());
        }
        let rows = self.lattice.nrows();
        let cols = self.lattice.ncols();
        let template = get_template(pattern);
        let ghost s = self.cells();
        let ghost idxs = stamp_indices(
            template@,
            rows as int,
            cols as int,
            row_center as int,
            col_center as int,
        );
        proof {
            assert(with_alive(s, idxs.take(0)) =~= s);
        }
        let mut k: usize = 0;
        while k < template.len()
            invariant
                self.wf(),
                self.rows() == rows,
                self.cols() == cols,
                rows >= 1,
                cols >= 1,
                rows <= isize::MAX,
                cols <= isize::MAX,
                s.len() == rows * cols,
                idxs == stamp_indices(
                    template@,
                    rows as int,
                    cols as int,
                    row_center as int,
                    col_center as int,
                ),
                k <= template@.len(),
                self.cells() == with_alive(s, idxs.take(k as int)),
            decreases template@.len() - k,
        {
            let (dy, dx) = template[k];
            let row = (dy % rows + row_center % rows) % rows;
            let col = (dx % cols + col_center % cols) % cols;
            proof {
                lemma_add_mod_noop(dy as int, row_center as int, rows as int);
                lemma_add_mod_noop(dx as int, col_center as int, cols as int);
                assert(row_center + dy == dy + row_center);
                assert(col_center + dx == dx + col_center);
                assert(idxs[k as int] == row * cols + col);
                lemma_index_in_bounds(row as int, col as int, rows as int, cols as int);
                crate::pattern::lemma_with_alive_push(s, idxs, k as int);
            }
            self.lattice.set(row, col, Cell::Alive);
            k = k + 1;
        }
        proof {
            assert(idxs.take(template@.len() as int) =~= idxs);
        }
    }

    /// Reseeds every cell from one random draw each: cell `i` (row-major) is
    /// alive exactly when `draws[i] < p_fixed`. `p_fixed` is the probability
    /// of life in units of 2^-32, so 0 kills every cell and 2^32 or more
    /// makes every cell alive whatever the draws.
    pub fn randomize(&mut self, p_fixed: u64, draws: &[u32])
        requires
            old(self).wf(),
            draws@.len() == old(self).cells().len(),
        ensures
            final(self).wf(),
            final(self).rows() == old(self).rows(),
            final(self).cols() == old(self).cols(),
            final(self).cells() == Seq::new(
                old(self).cells().len(),
                |i: int|
                    if (draws@[i] as int) < p_fixed {
                        Cell::Alive
                    } else {
                        Cell::Dead
                    },
            ),
            p_fixed == 0 ==> forall|i: int|
                0 <= i < final(self).cells().len() ==> #[trigger] final(self).cells()[i]
                    == Cell::Dead,
            p_fixed >= 0x1_0000_0000 ==> forall|i: int|
                0 <= i < final(self).cells().len() ==> #[trigger] final(self).cells()[i]
                    == Cell::Alive,
    {
        proof {
            self.lemma_wf();
        }
        let rows = self.lattice.nrows();
        let cols = self.lattice.ncols();
        let total = rows * cols;
        let ghost s = self.cells();
        let ghost target = Seq::new(
            s.len(),
            |i: int|
                if (draws@[i] as int) < p_fixed {
                    Cell::Alive
                } else {
                    Cell::Dead
                },
        );
        let mut i: usize = 0;
        while i < total
            invariant
                self.wf(),
                self.rows() == rows,
                self.cols() == cols,
                total == rows * cols,
                s.len() == total,
                draws@.len() == total,
                target == Seq::new(
                    s.len(),
                    |i: int|
                        if (draws@[i] as int) < p_fixed {
                            Cell::Alive
                        } else {
                            Cell::Dead
                        },
                ),
                i <= total,
                self.cells().len() == total,
                forall|j: int| 0 <= j < i ==> self.cells()[j] == target[j],
            decreases total - i,
        {
            let row = i / cols;
            let col = i % cols;
            proof {
                lemma_flat_position(i as int, rows as int, cols as int);
            }
            let cell = if (draws[i] as u64) < p_fixed {
                Cell::Alive
            } else {
                Cell::Dead
            };
            let ghost before = self.cells();
            self.lattice.set(row, col, cell);
            proof {
                self.lemma_wf();
                assert forall|j: int| 0 <= j < i + 1 implies self.cells()[j] == target[j] by {
                    if j < i {
                        assert(before[j] == target[j]);
                    }
                }
            }
            i = i + 1;
        }
        proof {
            assert(self.cells() =~= target);
        }
    }

    /// A text snapshot of the current generation: one line per row, one
    /// glyph per cell, each line ended by a newline.
    pub fn render(&self) -> (r: String)
        requires
            self.wf(),
        ensures
            r@ == render_rows(self.cells(), self.cols(), self.rows() as nat),
    {
        proof {
            self.lemma_wf();
        }
        let rows = self.lattice.nrows();
        let cols = self.lattice.ncols();
        let ghost s = self.cells();
        let mut out: Vec<char> = Vec::new();
        let mut row: usize = 0;
        while row < rows
            invariant
                self.wf(),
                s == self.cells(),
                self.rows() == rows,
                self.cols() == cols,
                row <= rows,
                out@ == render_rows(s, cols as int, row as nat),
            decreases rows - row,
        {
            let mut col: usize = 0;
            while col < cols
                invariant
                    self.wf(),
                    s == self.cells(),
                    self.rows() == rows,
                    self.cols() == cols,
                    row < rows,
                    col <= cols,
                    out@ == render_rows(s, cols as int, row as nat) + Seq::new(
                        col as nat,
                        |c: int| glyph(s[row * cols + c]),
                    ),
                decreases cols - col,
            {
                let glyph_here = match self.lattice.get(row, col) {
                    Cell::Dead => DEAD_GLYPH,
                    Cell::Alive => ALIVE_GLYPH,
                };
                let ghost before = out@;
                out.push(glyph_here);
                proof {
                    assert(out@ =~= render_rows(s, cols as int, row as nat) + Seq::new(
                        (col + 1) as nat,
                        |c: int| glyph(s[row * cols + c]),
                    ));
                }
                col = col + 1;
            }
            out.push('\n');
            proof {
                assert(out@ =~= render_rows(s, cols as int, (row + 1) as nat));
            }
            row = row + 1;
        }
        chars_to_string(&out)
    }
}

} // verus!
