use crate::cell::Cell;
use vstd::arithmetic::div_mod::lemma_fundamental_div_mod_converse;
use vstd::prelude::*;

verus! {

/// The glyph drawn for a dead cell (white medium square).
pub const DEAD_GLYPH: char = '\u{25fb}';

/// The glyph drawn for a live cell (black medium square).
pub const ALIVE_GLYPH: char = '\u{25fc}';

/// The glyph of one cell.
pub open spec fn glyph(cell: Cell) -> char {
    match cell {
        Cell::Dead => DEAD_GLYPH,
        Cell::Alive => ALIVE_GLYPH,
    }
}

/// Line `row` of the rendering: one glyph per column, then a newline.
pub open spec fn row_text(s: Seq<Cell>, cols: int, row: int) -> Seq<char> {
    Seq::new(cols as nat, |c: int| glyph(s[row * cols + c])).push('\n')
}

/// The first `n` lines of the rendering of `s`.
pub open spec fn render_rows(s: Seq<Cell>, cols: int, n: nat) -> Seq<char>
    decreases n,
{
    if n == 0 {
        Seq::empty()
    } else {
        render_rows(s, cols, (n - 1) as nat) + row_text(s, cols, n - 1)
    }
}

/// A rendering of `rows` lines has `rows * (cols + 1)` characters; the
/// character at position `p` ends a line exactly when `p % (cols + 1) ==
/// cols`, and every other character is one of the two glyphs.
pub proof fn lemma_render_shape(s: Seq<Cell>, rows: nat, cols: nat)
    ensures
        render_rows(s, cols as int, rows).len() == rows * (cols + 1),
        forall|p: int|
            0 <= p < rows * (cols + 1) ==> {
                let ch = #[trigger] render_rows(s, cols as int, rows)[p];
                &&& (ch == '\n' <==> p % (cols + 1) as int == cols as int)
                &&& (ch != '\n' ==> ch == DEAD_GLYPH || ch == ALIVE_GLYPH)
            },
    decreases rows,
{
    if rows > 0 {
        let n = (rows - 1) as nat;
        lemma_render_shape(s, (rows - 1) as nat, cols);
        let prev = render_rows(s, cols as int, n);
        let line = row_text(s, cols as int, n as int);
        assert(render_rows(s, cols as int, rows) == prev + line);
        assert(line.len() == cols + 1);
        assert(rows * (cols + 1) == n * (cols + 1) + (cols + 1)) by (nonlinear_arith)
            requires
                n == rows - 1,
        ;
        assert forall|p: int| 0 <= p < rows * (cols + 1) implies {
            let ch = #[trigger] render_rows(s, cols as int, rows)[p];
            &&& (ch == '\n' <==> p % (cols + 1) as int == cols as int)
            &&& (ch != '\n' ==> ch == DEAD_GLYPH || ch == ALIVE_GLYPH)
        } by {
            if p >= n * (cols + 1) {
                let q = p - n * (cols + 1);
                lemma_fundamental_div_mod_converse(p, (cols + 1) as int, n as int, q);
                assert(render_rows(s, cols as int, rows)[p] == line[q]);
            } else {
                assert(render_rows(s, cols as int, rows)[p] == prev[p]);
            }
        }
    } else {
        assert(rows * (cols + 1) == 0) by (nonlinear_arith)
            requires
                rows == 0,
        ;
    }
}

/// Relies on `FromIterator<&char>` for `String`: the string holds the
/// characters in order.
#[verifier::external_body]
pub(crate) fn chars_to_string(chars: &Vec<char>) -> (r: String)
    ensures
        r@ == chars@,
{
    chars.iter().collect()
}

} // verus!
