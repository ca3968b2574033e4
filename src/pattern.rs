use crate::cell::Cell;
use crate::rules::wrap_index;
use vstd::arithmetic::div_mod::{
    lemma_fundamental_div_mod,
    lemma_fundamental_div_mod_converse,
};
use vstd::prelude::*;

verus! {

/// A named seed shape that can be stamped onto a universe.
#[derive(Debug, Clone, Copy, PartialEq, Eq, Structural)]
pub enum Pattern {
    Glider,
    Pulsar,
}

/// The glider's offsets from its anchor, as `(row, col)`.
pub open spec fn glider_offsets() -> Seq<(usize, usize)> {
    seq![(2, 2), (2, 1), (2, 0), (1, 2), (0, 1)]
}

/// The pulsar's offsets from its anchor, as `(row, col)`.
pub open spec fn pulsar_offsets() -> Seq<(usize, usize)> {
    seq![
        (0, 3), (1, 3), (2, 3), (2, 2), (3, 2), (3, 1), (3, 0),
        (0, 6), (1, 6), (2, 6), (2, 7), (3, 7), (3, 8), (3, 9),
        (6, 0), (6, 1), (6, 2), (7, 2), (7, 3), (8, 3), (9, 3),
        (6, 9), (6, 8), (6, 7), (7, 7), (7, 6), (8, 6), (9, 6),
    ]
}

/// The offsets of a pattern's live cells.
pub open spec fn template_of(pattern: Pattern) -> Seq<(usize, usize)> {
    match pattern {
        Pattern::Glider => glider_offsets(),
        Pattern::Pulsar => pulsar_offsets(),
    }
}

/// `s` with the cells at the indices `idxs` set alive and all others kept.
pub open spec fn with_alive(s: Seq<Cell>, idxs: Seq<int>) -> Seq<Cell> {
    Seq::new(s.len(), |i: int| if idxs.contains(i) { Cell::Alive } else { s[i] })
}

/// The row-major indices of a list of in-bounds coordinates.
pub open spec fn coord_indices(coords: Seq<(usize, usize)>, cols: int) -> Seq<int> {
    coords.map_values(|p: (usize, usize)| p.0 * cols + p.1)
}

/// The wrapped row-major indices of a template's offsets around the anchor
/// `(row_center, col_center)`.
pub open spec fn stamp_indices(
    offsets: Seq<(usize, usize)>,
    rows: int,
    cols: int,
    row_center: int,
    col_center: int,
) -> Seq<int> {
    offsets.map_values(
        |p: (usize, usize)| wrap_index(rows, cols, row_center + p.0, col_center + p.1),
    )
}

/// Setting one more index alive extends the list of indices by it.
pub proof fn lemma_with_alive_push(s: Seq<Cell>, idxs: Seq<int>, k: int)
    requires
        0 <= k < idxs.len(),
        0 <= idxs[k] < s.len(),
    ensures
        with_alive(s, idxs.take(k)).update(idxs[k], Cell::Alive) == with_alive(
            s,
            idxs.take(k + 1),
        ),
{
    let a = with_alive(s, idxs.take(k)).update(idxs[k], Cell::Alive);
    let b = with_alive(s, idxs.take(k + 1));
    assert forall|i: int| 0 <= i < s.len() implies a[i] == b[i] by {
        if idxs.take(k).contains(i) {
            let j = choose|j: int| 0 <= j < k && #[trigger] idxs.take(k)[j] == i;
            assert(idxs.take(k + 1)[j] == i);
        }
        if idxs.take(k + 1).contains(i) && i != idxs[k] {
            let j = choose|j: int| 0 <= j < k + 1 && #[trigger] idxs.take(k + 1)[j] == i;
            assert(idxs.take(k)[j] == i);
        }
        if i == idxs[k] {
            assert(idxs.take(k + 1)[k] == i);
        }
    }
    assert(a =~= b);
}

/// Stamping the same cells alive a second time changes nothing.
pub proof fn lemma_with_alive_idempotent(s: Seq<Cell>, idxs: Seq<int>)
    ensures
        with_alive(with_alive(s, idxs), idxs) == with_alive(s, idxs),
{
    assert(with_alive(with_alive(s, idxs), idxs) =~= with_alive(s, idxs));
}

/// Stamped onto an all-dead grid, the glider's live cells are exactly the
/// five wrapped offsets `(2, 2), (2, 1), (2, 0), (1, 2), (0, 1)` from its
/// anchor, and stamping it again at the same anchor changes nothing.
pub proof fn lemma_glider_on_empty_grid(
    s: Seq<Cell>,
    rows: int,
    cols: int,
    row_center: int,
    col_center: int,
)
    requires
        rows > 0,
        cols > 0,
        s.len() == rows * cols,
        forall|i: int| 0 <= i < s.len() ==> s[i] == Cell::Dead,
    ensures
        ({
            let idxs = stamp_indices(glider_offsets(), rows, cols, row_center, col_center);
            let t = with_alive(s, idxs);
            &&& idxs =~= seq![
                wrap_index(rows, cols, row_center + 2, col_center + 2),
                wrap_index(rows, cols, row_center + 2, col_center + 1),
                wrap_index(rows, cols, row_center + 2, col_center),
                wrap_index(rows, cols, row_center + 1, col_center + 2),
                wrap_index(rows, cols, row_center, col_center + 1),
            ]
            &&& forall|i: int| 0 <= i < t.len() ==> (#[trigger] t[i] == Cell::Alive <==> idxs.contains(i))
            &&& with_alive(t, idxs) == t
        }),
{
    let idxs = stamp_indices(glider_offsets(), rows, cols, row_center, col_center);
    lemma_with_alive_idempotent(s, idxs);
}

/// Adding less than a full turn to a coordinate moves it on the torus.
proof fn lemma_shift_moves(x: int, k: int, m: int)
    requires
        0 < k < m,
    ensures
        (x + k) % m != x % m,
{
    lemma_fundamental_div_mod(x, m);
    lemma_fundamental_div_mod(x + k, m);
    if (x + k) % m == x % m {
        let q = (x + k) / m - x / m;
        assert(k == m * q) by (nonlinear_arith)
            requires
                x == m * (x / m) + (x % m),
                x + k == m * ((x + k) / m) + ((x + k) % m),
                (x + k) % m == x % m,
                q == (x + k) / m - x / m,
        ;
        assert(false) by (nonlinear_arith)
            requires
                k == m * q,
                0 < k < m,
        ;
    }
}

/// Positions whose wrapped rows or wrapped columns differ have different
/// wrapped indices.
proof fn lemma_wrap_index_distinct(rows: int, cols: int, a: int, b: int, a2: int, b2: int)
    requires
        rows > 0,
        cols > 0,
        a % rows != a2 % rows || b % cols != b2 % cols,
    ensures
        wrap_index(rows, cols, a, b) != wrap_index(rows, cols, a2, b2),
{
    if wrap_index(rows, cols, a, b) == wrap_index(rows, cols, a2, b2) {
        let x = wrap_index(rows, cols, a, b);
        lemma_fundamental_div_mod_converse(x, cols, a % rows, b % cols);
        lemma_fundamental_div_mod_converse(x, cols, a2 % rows, b2 % cols);
    }
}

/// On a grid of at least three rows and three columns, a glider stamped on
/// an all-dead grid leaves exactly five live cells.
pub proof fn lemma_glider_count(
    s: Seq<Cell>,
    rows: int,
    cols: int,
    row_center: int,
    col_center: int,
)
    requires
        rows >= 3,
        cols >= 3,
        s.len() == rows * cols,
        forall|i: int| 0 <= i < s.len() ==> s[i] == Cell::Dead,
    ensures
        ({
            let idxs = stamp_indices(glider_offsets(), rows, cols, row_center, col_center);
            let t = with_alive(s, idxs);
            &&& idxs.no_duplicates()
            &&& Set::new(|i: int| 0 <= i < t.len() && t[i] == Cell::Alive).len() == 5
        }),
{
    let (r, c) = (row_center, col_center);
    let idxs = stamp_indices(glider_offsets(), rows, cols, r, c);
    let t = with_alive(s, idxs);
    lemma_glider_on_empty_grid(s, rows, cols, r, c);
    lemma_shift_moves(r, 1, rows);
    lemma_shift_moves(r, 2, rows);
    lemma_shift_moves(r + 1, 1, rows);
    lemma_shift_moves(c, 1, cols);
    lemma_shift_moves(c, 2, cols);
    lemma_shift_moves(c + 1, 1, cols);
    lemma_wrap_index_distinct(rows, cols, r + 2, c + 2, r + 2, c + 1);
    lemma_wrap_index_distinct(rows, cols, r + 2, c + 2, r + 2, c);
    lemma_wrap_index_distinct(rows, cols, r + 2, c + 2, r + 1, c + 2);
    lemma_wrap_index_distinct(rows, cols, r + 2, c + 2, r, c + 1);
    lemma_wrap_index_distinct(rows, cols, r + 2, c + 1, r + 2, c);
    lemma_wrap_index_distinct(rows, cols, r + 2, c + 1, r + 1, c + 2);
    lemma_wrap_index_distinct(rows, cols, r + 2, c + 1, r, c + 1);
    lemma_wrap_index_distinct(rows, cols, r + 2, c, r + 1, c + 2);
    lemma_wrap_index_distinct(rows, cols, r + 2, c, r, c + 1);
    lemma_wrap_index_distinct(rows, cols, r + 1, c + 2, r, c + 1);
    assert(idxs.no_duplicates());
    idxs.unique_seq_to_set();
    assert forall|k: int| 0 <= k < idxs.len() implies 0 <= #[trigger] idxs[k] < t.len() by {
        crate::lattice::lemma_index_in_bounds(
            (r + glider_offsets()[k].0) % rows,
            (c + glider_offsets()[k].1) % cols,
            rows,
            cols,
        );
    }
    assert(Set::new(|i: int| 0 <= i < t.len() && t[i] == Cell::Alive) =~= idxs.to_set());
}

/// The offsets of `pattern`.
pub fn get_template(pattern: Pattern) -> (r: Vec<(usize, usize)>)
    ensures
        r@ == template_of(pattern),
{
    let r = match pattern {
        Pattern::Glider => vec![(2, 2), (2, 1), (2, 0), (1, 2), (0, 1)],
        Pattern::Pulsar => vec![
            (0, 3), (1, 3), (2, 3), (2, 2), (3, 2), (3, 1), (3, 0),
            (0, 6), (1, 6), (2, 6), (2, 7), (3, 7), (3, 8), (3, 9),
            (6, 0), (6, 1), (6, 2), (7, 2), (7, 3), (8, 3), (9, 3),
            (6, 9), (6, 8), (6, 7), (7, 7), (7, 6), (8, 6), (9, 6),
        ],
    };
    assert(r@ =~= template_of(pattern));
    r
}

} // verus!
