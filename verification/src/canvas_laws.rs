//! What holds of every canvas: how its points lie in its cells, what the
//! operations on a point do to the others, and what its text looks like.

use vstd::prelude::*;
use vstd::arithmetic::div_mod::{lemma_fundamental_div_mod, lemma_fundamental_div_mod_converse};
use crate::canvas::CanvasView;
use crate::text::{is_white_space, lemma_trim_drops_last, lemma_trim_of_tight, trim};
use crate::dots::{
    braille_glyph, lemma_braille_code_in_block, lemma_dot_ops_stay_in_mask, lemma_flip_inverts_one_dot, lemma_flip_twice,
    lemma_reset_lowers_one_dot, lemma_reset_undoes_set, lemma_set_raises_one_dot, DOT_COUNT,
    DOT_MASK,
};

verus! {

/// The grid of cells is the smallest that covers the points: the number of
/// columns is the width divided by two and rounded up, the number of rows
/// the height divided by four and rounded up.
pub proof fn lemma_grid_covers_points(v: CanvasView)
    ensures
        2 * v.columns() - 2 < v.width <= 2 * v.columns(),
        4 * v.rows() - 4 < v.height <= 4 * v.rows(),
        v.width % 2 == 0 ==> v.columns() == v.width / 2,
        v.width % 2 != 0 ==> v.columns() == v.width / 2 + 1,
        v.height % 4 == 0 ==> v.rows() == v.height / 4,
        v.height % 4 != 0 ==> v.rows() == v.height / 4 + 1,
{
}

/// A blank canvas is well formed and has one cell for each place of its grid.
pub proof fn lemma_blank_is_wf(width: nat, height: nat)
    ensures
        CanvasView::blank(width, height).wf(),
        CanvasView::blank(width, height).width == width,
        CanvasView::blank(width, height).height == height,
        CanvasView::blank(width, height).cells.len() == ((width + 1) / 2) * ((height + 3) / 4),
{
}

/// Every point within the width and the height is held, in the cell of its
/// column and row.
pub proof fn lemma_points_within_size_are_held(v: CanvasView, x: int, y: int)
    requires
        v.wf(),
        0 <= x < v.width,
        0 <= y < v.height,
    ensures
        v.holds(x, y),
        x / 2 < v.columns(),
        y / 4 < v.rows(),
{
    let columns = v.columns() as int;
    let rows = v.rows() as int;
    let col = x / 2;
    let row = y / 4;
    assert(0 <= col + columns * row < columns * rows) by (nonlinear_arith)
        requires
            0 <= col < columns,
            0 <= row < rows,
    ;
}

/// No point below the last row of cells is held.
pub proof fn lemma_points_below_are_not_held(v: CanvasView, x: int, y: int)
    requires
        v.wf(),
        0 <= x,
        4 * v.rows() <= y,
    ensures
        !v.holds(x, y),
{
    let columns = v.columns() as int;
    let rows = v.rows() as int;
    let col = x / 2;
    let row = y / 4;
    assert(col + columns * row >= columns * rows) by (nonlinear_arith)
        requires
            0 <= col,
            0 <= columns,
            0 <= rows <= row,
    ;
}

/// Two different points of the grid never share a dot: they differ in
/// their cell or in their dot within it.
pub proof fn lemma_points_have_own_dots(v: CanvasView, x1: int, y1: int, x2: int, y2: int)
    requires
        0 <= x1 < 2 * v.columns(),
        0 <= x2 < 2 * v.columns(),
        0 <= y1,
        0 <= y2,
        x1 != x2 || y1 != y2,
    ensures
        v.cell_index(x1, y1) != v.cell_index(x2, y2) || CanvasView::point_dot(x1, y1)
            != CanvasView::point_dot(x2, y2),
        0 <= CanvasView::point_dot(x1, y1) < DOT_COUNT,
{
    let columns = v.columns() as int;
    if v.cell_index(x1, y1) == v.cell_index(x2, y2) {
        let c1 = x1 / 2;
        let c2 = x2 / 2;
        let r1 = y1 / 4;
        let r2 = y2 / 4;
        assert(r1 == r2 && c1 == c2) by (nonlinear_arith)
            requires
                0 <= c1 < columns,
                0 <= c2 < columns,
                0 <= r1,
                0 <= r2,
                c1 + columns * r1 == c2 + columns * r2,
        ;
    }
}

/// Setting a held point sets that point and leaves every other point of
/// the grid as it was.
pub proof fn lemma_set_sets_one_point(v: CanvasView, x: int, y: int, x2: int, y2: int)
    requires
        v.holds(x, y),
        v.holds(x2, y2),
        x < 2 * v.columns(),
        x2 < 2 * v.columns(),
    ensures
        v.after_set(x, y).point_is_set(x2, y2) == ((x2 == x && y2 == y) || v.point_is_set(
            x2,
            y2,
        )),
{
    let i = v.cell_index(x, y);
    let d = CanvasView::point_dot(x, y);
    let d2 = CanvasView::point_dot(x2, y2);
    if x != x2 || y != y2 {
        lemma_points_have_own_dots(v, x, y, x2, y2);
    }
    lemma_set_raises_one_dot(v.cells[i], d, d2);
}

/// Resetting a held point resets that point and leaves every other point
/// of the grid as it was.
pub proof fn lemma_reset_resets_one_point(v: CanvasView, x: int, y: int, x2: int, y2: int)
    requires
        v.holds(x, y),
        v.holds(x2, y2),
        x < 2 * v.columns(),
        x2 < 2 * v.columns(),
    ensures
        v.after_reset(x, y).point_is_set(x2, y2) == (!(x2 == x && y2 == y) && v.point_is_set(
            x2,
            y2,
        )),
{
    let i = v.cell_index(x, y);
    let d = CanvasView::point_dot(x, y);
    let d2 = CanvasView::point_dot(x2, y2);
    if x != x2 || y != y2 {
        lemma_points_have_own_dots(v, x, y, x2, y2);
    }
    lemma_reset_lowers_one_dot(v.cells[i], d, d2);
}

/// Flipping a held point inverts that point and leaves every other point
/// of the grid as it was.
pub proof fn lemma_flip_inverts_one_point(v: CanvasView, x: int, y: int, x2: int, y2: int)
    requires
        v.holds(x, y),
        v.holds(x2, y2),
        x < 2 * v.columns(),
        x2 < 2 * v.columns(),
    ensures
        v.after_flip(x, y).point_is_set(x2, y2) == (if x2 == x && y2 == y {
            !v.point_is_set(x2, y2)
        } else {
            v.point_is_set(x2, y2)
        }),
{
    let i = v.cell_index(x, y);
    let d = CanvasView::point_dot(x, y);
    let d2 = CanvasView::point_dot(x2, y2);
    if x != x2 || y != y2 {
        lemma_points_have_own_dots(v, x, y, x2, y2);
    }
    lemma_flip_inverts_one_dot(v.cells[i], d, d2);
}

/// Flipping a point twice leaves the canvas as it was; so does setting and
/// then resetting a point that was not set.
pub proof fn lemma_point_ops_undo(v: CanvasView, x: int, y: int)
    ensures
        v.after_flip(x, y).after_flip(x, y) == v,
        v.holds(x, y) && !v.point_is_set(x, y) ==> v.after_set(x, y).after_reset(x, y) == v,
{
    if v.holds(x, y) {
        let i = v.cell_index(x, y);
        let d = CanvasView::point_dot(x, y);
        lemma_flip_twice(v.cells[i], d);
        assert(v.after_flip(x, y).after_flip(x, y).cells =~= v.cells);
        if !v.point_is_set(x, y) {
            lemma_reset_undoes_set(v.cells[i], d);
            assert(v.after_set(x, y).after_reset(x, y).cells =~= v.cells);
        }
    }
}

/// No operation breaks a canvas: after each of them the cells still fill
/// the grid and carry no reserved bit.
pub proof fn lemma_ops_keep_wf(v: CanvasView, x: int, y: int)
    requires
        v.wf(),
    ensures
        v.after_set(x, y).wf(),
        v.after_reset(x, y).wf(),
        v.after_flip(x, y).wf(),
        v.cleared().wf(),
{
    if v.holds(x, y) {
        lemma_dot_ops_stay_in_mask(v.cells[v.cell_index(x, y)], CanvasView::point_dot(x, y));
    }
    assert forall|i: int| 0 <= i < v.cells.len() implies #[trigger] v.cleared().cells[i]
        <= DOT_MASK by {
        let word = v.cells[i];
        assert(word & !0xFFu32 <= 0xFFu32) by (bit_vector)
            requires
                word <= 0xFFu32,
        ;
    }
}

/// Resetting the whole of a canvas leaves the blank canvas of its size.
pub proof fn lemma_cleared_is_blank(v: CanvasView)
    requires
        v.wf(),
    ensures
        v.cleared() == CanvasView::blank(v.width, v.height),
{
    assert forall|i: int| 0 <= i < v.cells.len() implies #[trigger] v.cleared().cells[i] == 0 by {
        let word = v.cells[i];
        assert(word & !0xFFu32 == 0) by (bit_vector)
            requires
                word <= 0xFFu32,
        ;
    }
    assert(v.cleared().cells =~= CanvasView::blank(v.width, v.height).cells);
}

/// The shape of the first `n` lines: each line but the last takes one place
/// more than a row has cells, and every place holds what `char_at` says.
pub proof fn lemma_rows_text_shape(v: CanvasView, n: nat)
    requires
        n >= 1,
    ensures
        v.rows_text(n).len() == n * (v.columns() + 1) - 1,
        forall|p: int| 0 <= p < v.rows_text(n).len() ==> v.rows_text(n)[p] == #[trigger] v.char_at(p),
    decreases n,
{
    let columns = v.columns() as int;
    let stride = columns + 1;
    if n == 1 {
        assert forall|p: int| 0 <= p < v.rows_text(n).len() implies v.rows_text(n)[p]
            == #[trigger] v.char_at(p) by {
            assert(0 * stride == 0 && 0 * columns == 0) by (nonlinear_arith);
            lemma_fundamental_div_mod_converse(p, stride, 0, p);
        }
    } else {
        let m = (n - 1) as nat;
        lemma_rows_text_shape(v, m);
        let before = v.rows_text(m);
        assert(n * stride - 1 == (m * stride - 1) + 1 + columns) by (nonlinear_arith)
            requires
                n == m + 1,
                stride == columns + 1,
        ;
        assert forall|p: int| 0 <= p < v.rows_text(n).len() implies v.rows_text(n)[p]
            == #[trigger] v.char_at(p) by {
            if p < before.len() {
                assert(v.rows_text(n)[p] == before[p]);
            } else if p == before.len() {
                assert(p == (m - 1) * stride + columns) by (nonlinear_arith)
                    requires
                        p == m * stride - 1,
                        stride == columns + 1,
                ;
                lemma_fundamental_div_mod_converse(p, stride, m - 1, columns);
            } else {
                let k = p - m * stride;
                assert(p == m * stride + k);
                lemma_fundamental_div_mod_converse(p, stride, m as int, k);
                assert(v.rows_text(n)[p] == v.row_text(m as int)[k]);
            }
        }
    }
}

/// The text of a canvas with cells has one line for each row of cells. A
/// line holds the braille characters of the cells of its row, and a line
/// break parts it from the next.
pub proof fn lemma_text_shape(v: CanvasView)
    requires
        v.wf(),
    ensures
        v.cells.len() == 0 ==> v.text().len() == 0,
        v.cells.len() > 0 ==> v.text().len() == v.rows() * (v.columns() + 1) - 1,
        forall|p: int| 0 <= p < v.text().len() ==> v.text()[p] == #[trigger] v.char_at(p),
{
    if v.cells.len() > 0 {
        let columns = v.columns() as int;
        let rows = v.rows() as int;
        assert(rows > 0) by (nonlinear_arith)
            requires
                columns * rows > 0,
                columns >= 0,
                rows >= 0,
        ;
        lemma_rows_text_shape(v, v.rows());
    }
}

/// What the first `n` cells look like when they are written out one after
/// the other: the full lines before, each with its line break, and then the
/// cells of the line that is being written.
pub proof fn lemma_raw_text_shape(v: CanvasView, n: nat)
    requires
        v.columns() > 0,
    ensures
        v.raw_text(n) == (if n / v.columns() > 0 {
            v.rows_text(n / v.columns()) + seq!['\n']
        } else {
            Seq::empty()
        }) + v.row_text((n / v.columns()) as int).subrange(0, (n % v.columns()) as int),
    decreases n,
{
    let columns = v.columns() as int;
    let here = (n / v.columns()) as int;
    let done = (n % v.columns()) as int;
    lemma_fundamental_div_mod(n as int, columns);
    if n == 0 {
        assert(v.raw_text(n) =~= Seq::<char>::empty() + v.row_text(0).subrange(0, 0));
    } else {
        let i = (n - 1) as nat;
        let r = (i / v.columns()) as int;
        let k = (i % v.columns()) as int;
        lemma_raw_text_shape(v, i);
        lemma_fundamental_div_mod(i as int, columns);
        assert(columns * r == r * columns) by (nonlinear_arith);
        let lines = if r > 0 {
            v.rows_text(r as nat) + seq!['\n']
        } else {
            Seq::empty()
        };
        let shown = v.raw_text(i).push(braille_glyph(v.cells[i as int]));
        assert(v.row_text(r)[k] == braille_glyph(v.cells[i as int]));
        assert(shown =~= lines + v.row_text(r).subrange(0, k + 1));
        if k == columns - 1 {
            assert(n == (r + 1) * columns + 0) by (nonlinear_arith)
                requires
                    n == columns * r + k + 1,
                    k == columns - 1,
            ;
            lemma_fundamental_div_mod_converse(n as int, columns, r + 1, 0);
            assert(v.row_text(r).subrange(0, k + 1) =~= v.row_text(r));
            assert(v.rows_text((r + 1) as nat) =~= lines + v.row_text(r));
            assert(v.raw_text(n) =~= v.rows_text((r + 1) as nat) + seq!['\n'] + v.row_text(
                r + 1,
            ).subrange(0, 0));
        } else {
            assert(n == r * columns + (k + 1));
            lemma_fundamental_div_mod_converse(n as int, columns, r, k + 1);
        }
    }
}

/// No braille character is white space.
pub proof fn lemma_glyph_is_not_white_space(data: u32)
    ensures
        !is_white_space(braille_glyph(data)),
{
    lemma_braille_code_in_block(data);
}

/// The text of a canvas is what is left of its cells written out one after
/// the other, with a line break after each cell that ends a row, once the
/// white space at both ends is taken away.
pub proof fn lemma_text_is_trimmed_raw_text(v: CanvasView)
    requires
        v.wf(),
    ensures
        v.text() == trim(v.raw_text(v.cells.len())),
{
    let n = v.cells.len();
    if n == 0 {
        assert(v.raw_text(n) =~= Seq::<char>::empty());
    } else {
        let columns = v.columns() as int;
        let rows = v.rows() as int;
        assert(rows > 0 && columns > 0) by (nonlinear_arith)
            requires
                columns * rows > 0,
                columns >= 0,
                rows >= 0,
        ;
        lemma_raw_text_shape(v, n);
        assert(n == rows * columns + 0) by (nonlinear_arith)
            requires
                n == columns * rows,
        ;
        lemma_fundamental_div_mod_converse(n as int, columns, rows, 0);
        let lines = v.rows_text(rows as nat);
        assert(v.raw_text(n) =~= lines.push('\n'));
        lemma_trim_drops_last(lines, '\n');
        lemma_rows_text_shape(v, rows as nat);
        assert(lines.len() > 0) by (nonlinear_arith)
            requires
                lines.len() == rows * (columns + 1) - 1,
                rows > 0,
                columns > 0,
        ;
        let last = lines.len() - 1;
        assert(lines.first() == v.char_at(0));
        assert(lines.last() == v.char_at(last));
        assert(0 * (columns + 1) == 0 && 0 * columns == 0) by (nonlinear_arith);
        lemma_fundamental_div_mod_converse(0, columns + 1, 0, 0);
        assert(last == (rows - 1) * (columns + 1) + (columns - 1)) by (nonlinear_arith)
            requires
                last == rows * (columns + 1) - 2,
        ;
        lemma_fundamental_div_mod_converse(last, columns + 1, rows - 1, columns - 1);
        lemma_glyph_is_not_white_space(v.cells[0 * columns + 0]);
        lemma_glyph_is_not_white_space(v.cells[(rows - 1) * columns + (columns - 1)]);
        lemma_trim_of_tight(lines);
    }
}

} // verus!
