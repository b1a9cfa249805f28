//! A canvas of points, packed into braille cells of two by four points each.

use vstd::prelude::*;
use crate::canvas_laws::lemma_cleared_is_blank;
use crate::dots::{
    braille_glyph, dot_index, dot_is_set, glyph_of, lemma_dot_ops_stay_in_mask, weight_of,
    with_dot_flipped, with_dot_reset, with_dot_set, DOT_MASK,
};
use crate::error::IndexError;

verus! {

/// What a canvas is: its size in points and the words of its cells, row by
/// row from the top, each row from the left.
pub struct CanvasView {
    pub width: nat,
    pub height: nat,
    pub cells: Seq<u32>,
}

impl CanvasView {
    /// Cells in a row: the least number of two-point columns that covers
    /// the width.
    pub open spec fn columns(self) -> nat {
        (self.width + 1) / 2
    }

    /// Rows of cells: the least number of four-point rows that covers the
    /// height.
    pub open spec fn rows(self) -> nat {
        (self.height + 3) / 4
    }

    /// The cells fill the grid exactly, and none carries a reserved bit.
    pub open spec fn wf(self) -> bool {
        &&& self.cells.len() == self.columns() * self.rows()
        &&& forall|i: int| 0 <= i < self.cells.len() ==> #[trigger] self.cells[i] <= DOT_MASK
    }

    /// Index of the cell that the point (`x`, `y`) resolves to.
    pub open spec fn cell_index(self, x: int, y: int) -> int {
        x / 2 + self.columns() * (y / 4)
    }

    /// Whether the canvas holds the point (`x`, `y`): the point resolves to
    /// one of its cells. A point below the last row never does. A point to
    /// the right of the last column does wherever a later row takes it up.
    pub open spec fn holds(self, x: int, y: int) -> bool {
        0 <= x && 0 <= y && self.cell_index(x, y) < self.cells.len()
    }

    /// What an operation on the point (`x`, `y`) answers: success where the
    /// canvas holds the point, else the size of the canvas and the point.
    pub open spec fn outcome(self, x: usize, y: usize) -> Result<(), IndexError> {
        if self.holds(x as int, y as int) {
            Ok(())
        } else {
            Err(IndexError::USizeMatrix(self.width as usize, self.height as usize, x, y))
        }
    }

    /// Index of the dot that stands for the point (`x`, `y`) within its cell.
    pub open spec fn point_dot(x: int, y: int) -> int {
        dot_index(x % 2, y % 4)
    }

    /// The canvas with the word of one cell replaced.
    pub open spec fn with_cell(self, index: int, word: u32) -> CanvasView {
        CanvasView { cells: self.cells.update(index, word), ..self }
    }

    /// The canvas after the point (`x`, `y`) was set: unchanged where it
    /// does not hold the point.
    pub open spec fn after_set(self, x: int, y: int) -> CanvasView {
        if self.holds(x, y) {
            let i = self.cell_index(x, y);
            self.with_cell(i, with_dot_set(self.cells[i], Self::point_dot(x, y)))
        } else {
            self
        }
    }

    /// The canvas after the point (`x`, `y`) was reset: unchanged where it
    /// does not hold the point.
    pub open spec fn after_reset(self, x: int, y: int) -> CanvasView {
        if self.holds(x, y) {
            let i = self.cell_index(x, y);
            self.with_cell(i, with_dot_reset(self.cells[i], Self::point_dot(x, y)))
        } else {
            self
        }
    }

    /// The canvas after the point (`x`, `y`) was flipped: unchanged where it
    /// does not hold the point.
    pub open spec fn after_flip(self, x: int, y: int) -> CanvasView {
        if self.holds(x, y) {
            let i = self.cell_index(x, y);
            self.with_cell(i, with_dot_flipped(self.cells[i], Self::point_dot(x, y)))
        } else {
            self
        }
    }

    /// The canvas with the dots of every cell lowered; reserved bits stay.
    pub open spec fn cleared(self) -> CanvasView {
        CanvasView {
            cells: Seq::new(self.cells.len(), |i: int| self.cells[i] & !DOT_MASK),
            ..self
        }
    }

    /// A canvas of the given size without a dot.
    pub open spec fn blank(width: nat, height: nat) -> CanvasView {
        CanvasView {
            width,
            height,
            cells: Seq::new(((width + 1) / 2) * ((height + 3) / 4), |i: int| 0u32),
        }
    }

    /// Whether the point (`x`, `y`) is set: the dot that stands for it is
    /// raised in the cell that it resolves to.
    pub open spec fn point_is_set(self, x: int, y: int) -> bool {
        dot_is_set(self.cells[self.cell_index(x, y)], Self::point_dot(x, y))
    }

    /// The characters of one row of cells, from the left.
    pub open spec fn row_text(self, row: int) -> Seq<char> {
        Seq::new(self.columns(), |col: int| braille_glyph(self.cells[row * self.columns() + col]))
    }

    /// The first `n` rows of cells as lines of text, with a line break
    /// between one line and the next.
    pub open spec fn rows_text(self, n: nat) -> Seq<char>
        decreases n,
    {
        if n == 0 {
            Seq::empty()
        } else if n == 1 {
            self.row_text(0)
        } else {
            self.rows_text((n - 1) as nat) + seq!['\n'] + self.row_text(n - 1)
        }
    }

    /// The canvas as text: one line for each row of cells, no line break
    /// after the last; nothing at all where the canvas has no cell.
    pub open spec fn text(self) -> Seq<char> {
        if self.cells.len() == 0 {
            Seq::empty()
        } else {
            self.rows_text(self.rows())
        }
    }

    /// The character at place `p` of the text: each line takes one place
    /// for each cell of its row and one more for the line break.
    pub open spec fn char_at(self, p: int) -> char {
        let stride = self.columns() + 1;
        let line = p / (stride as int);
        let col = p % (stride as int);
        if col == self.columns() {
            '\n'
        } else {
            braille_glyph(self.cells[line * self.columns() + col])
        }
    }

    /// The first `n` cells written out one after the other, with a line
    /// break after each cell that ends a row.
    pub open spec fn raw_text(self, n: nat) -> Seq<char>
        decreases n,
    {
        if n == 0 {
            Seq::empty()
        } else {
            let i = n - 1;
            let shown = self.raw_text(i as nat).push(braille_glyph(self.cells[i]));
            if i % (self.columns() as int) == self.columns() - 1 {
                shown.push('\n')
            } else {
                shown
            }
        }
    }
}

/// Replaces the word at `index`; the others stay.
fn put(words: &mut Vec<u32>, index: usize, word: u32)
    requires
        index < old(words)@.len(),
    ensures
        final(words)@ == old(words)@.update(index as int, word),
    no_unwind
{
    words[index] = word;
}

/// Represents a Canvas that is drawn by braille characters.
#[derive(Debug, PartialEq, Eq)]
pub struct Canvas {
    x: usize,
    y: usize,
    char_x: usize,
    char_y: usize,
    data: Vec<u32>,
}

impl View for Canvas {
    type V = CanvasView;

    closed spec fn view(&self) -> CanvasView {
        CanvasView { width: self.x as nat, height: self.y as nat, cells: self.data@ }
    }
}

impl Clone for Canvas {
    /// A canvas of the same size with the same dots.
    fn clone(&self) -> (c: Self)
        ensures
            c@ == self@,
    {
        proof {
            use_type_invariant(self);
        }
        let data = self.data.clone();
        assert(data@ =~= self.data@);
        Canvas { x: self.x, y: self.y, char_x: self.char_x, char_y: self.char_y, data }
    }
}

impl Canvas {
    /// The stored counts of cells are those of the view, and the view is
    /// well formed.
    #[verifier::type_invariant]
    closed spec fn inv(self) -> bool {
        &&& self.char_x == self@.columns()
        &&& self.char_y == self@.rows()
        &&& self@.wf()
    }

    /// Returns the index of `self.data` the given xy-coords lie in.
    /// Returns `None` if out of range.
    fn coords_to_index(&self, x: usize, y: usize) -> (index: Option<usize>)
        ensures
            self@.wf(),
            match index {
                Some(i) => self@.holds(x as int, y as int) && i == self@.cell_index(
                    x as int,
                    y as int,
                ),
                None => !self@.holds(x as int, y as int),
            },
    {
        proof {
            use_type_invariant(self);
        }
        let len = self.data.len();
        let row = y / 4;
        let ghost columns = self.char_x as int;
        let ghost rows = self.char_y as int;
        if row >= self.char_y {
            assert(columns * row >= columns * rows) by (nonlinear_arith)
                requires
                    0 <= columns,
                    0 <= rows <= row,
            ;
            return None;
        }
        assert(0 <= columns * row <= columns * rows) by (nonlinear_arith)
            requires
                0 <= columns,
                0 <= row < rows,
        ;
        let base = self.char_x * row;
        let col = x / 2;
        if col >= len - base {
            None
        } else {
            Some(col + base)
        }
    }

    /// Creates a new Canvas sized 0 by 0.
    pub fn new() -> (c: Self)
        ensures
            c@ == CanvasView::blank(0, 0),
            c@.cells.len() == 0,
            c@.wf(),
    {
        let c = Canvas { x: 0, y: 0, char_x: 0, char_y: 0, data: Vec::new() };
        assert(c@.cells =~= CanvasView::blank(0, 0).cells);
        c
    }

    /// Creates a new Canvas with size `x` by `y`.
    /// `x` and `y` correspond to the singular points, not the amount of symbols.
    /// Meaning x=4 and y=4 will only contain two characters,
    /// since every character can only display 2*4 points.
    pub fn with_size(x: usize, y: usize) -> (c: Self)
        requires
            ((x + 1) / 2) * ((y + 3) / 4) <= usize::MAX,
        ensures
            c@ == CanvasView::blank(x as nat, y as nat),
            c@.wf(),
    {
        let char_x = x / 2 + x % 2;
        let char_y = y / 4 + if y % 4 > 0 {
            1
        } else {
            0
        };
        assert(char_x == (x + 1) / 2);
        assert(char_y == (y + 3) / 4);
        let c = Canvas { x, y, char_x, char_y, data: vec![0u32; char_x * char_y] };
        assert(c@.cells =~= CanvasView::blank(x as nat, y as nat).cells);
        c
    }

    /// Width in points.
    pub fn width(&self) -> (width: usize)
        ensures
            width == self@.width,
    {
        self.x
    }

    /// Height in points.
    pub fn height(&self) -> (height: usize)
        ensures
            height == self@.height,
    {
        self.y
    }

    /// Number of cells in a row.
    pub fn columns(&self) -> (columns: usize)
        ensures
            columns == self@.columns(),
    {
        proof {
            use_type_invariant(self);
        }
        self.char_x
    }

    /// Number of rows of cells.
    pub fn rows(&self) -> (rows: usize)
        ensures
            rows == self@.rows(),
    {
        proof {
            use_type_invariant(self);
        }
        self.char_y
    }

    /// The words of the cells, row by row.
    pub fn data(&self) -> (words: &Vec<u32>)
        ensures
            words@ == self@.cells,
            self@.wf(),
    {
        proof {
            use_type_invariant(self);
        }
        &self.data
    }

    /// The canvas as text: one line of braille characters for each row of
    /// cells, the lines parted by line breaks.
    pub fn to_string(&self) -> (s: String)
        ensures
            s@ == self@.text(),
    {
        proof {
            use_type_invariant(self);
        }
        let mut s = String::new();
        let len = self.data.len();
        if len == 0 {
            return s;
        }
        let ghost view = self@;
        let ghost columns = self.char_x as int;
        let ghost rows = self.char_y as int;
        assert(rows > 0 && columns > 0) by (nonlinear_arith)
            requires
                columns * rows > 0,
                columns >= 0,
                rows >= 0,
        ;
        let mut row: usize = 0;
        while row < self.char_y
            invariant
                view == self@,
                view.wf(),
                columns == self.char_x == view.columns(),
                rows == self.char_y == view.rows(),
                columns * rows == len == view.cells.len(),
                0 <= row <= rows,
                s@ == view.rows_text(row as nat),
            decreases rows - row,
        {
            if row > 0 {
                s.push('\n');
            }
            let ghost before = s@;
            assert(0 <= row * columns <= (rows - 1) * columns) by (nonlinear_arith)
                requires
                    0 <= row <= rows - 1,
                    0 <= columns,
            ;
            assert((rows - 1) * columns + columns == columns * rows) by (nonlinear_arith);
            let base = row * self.char_x;
            let mut col: usize = 0;
            while col < self.char_x
                invariant
                    view == self@,
                    view.wf(),
                    columns == self.char_x == view.columns(),
                    0 <= col <= columns,
                    base == row * columns,
                    base + columns <= len == view.cells.len(),
                    s@ == before + view.row_text(row as int).subrange(0, col as int),
                decreases columns - col,
            {
                s.push(glyph_of(self.data[base + col]));
                assert(s@ == before + view.row_text(row as int).subrange(0, col + 1));
                col += 1;
            }
            assert(view.row_text(row as int).subrange(0, columns) == view.row_text(row as int));
            assert(s@ == view.rows_text((row + 1) as nat)) by {
                if row > 0 {
                    assert(before == view.rows_text(row as nat) + seq!['\n']);
                }
            }
            row += 1;
        }
        s
    }

    /// Flips the point at a given x, y position. 0, 0 is top left.
    /// A point that the canvas does not hold is reported with the size of
    /// the canvas, and leaves the canvas as it was.
    pub fn flip(&mut self, x: usize, y: usize) -> (r: Result<(), IndexError>)
        ensures
            final(self)@ == old(self)@.after_flip(x as int, y as int),
            final(self)@.wf(),
            r == old(self)@.outcome(x, y),
    {
        proof {
            use_type_invariant(&*self);
        }
        match self.coords_to_index(x, y) {
            Some(i) => {
                let word = self.data[i];
                let weight = weight_of((y % 4) + (x % 2) * 4);
                proof {
                    lemma_dot_ops_stay_in_mask(word, CanvasView::point_dot(x as int, y as int));
                }
                put(&mut self.data, i, word ^ weight);
                Ok(())
            },
            None => Err(IndexError::USizeMatrix(self.x, self.y, x, y)),
        }
    }

    /// Resets the point at a given x, y position. 0, 0 is top left.
    /// A point that the canvas does not hold is reported with the size of
    /// the canvas, and leaves the canvas as it was.
    pub fn reset(&mut self, x: usize, y: usize) -> (r: Result<(), IndexError>)
        ensures
            final(self)@ == old(self)@.after_reset(x as int, y as int),
            final(self)@.wf(),
            r == old(self)@.outcome(x, y),
    {
        proof {
            use_type_invariant(&*self);
        }
        match self.coords_to_index(x, y) {
            Some(i) => {
                let word = self.data[i];
                let weight = weight_of((y % 4) + (x % 2) * 4);
                proof {
                    lemma_dot_ops_stay_in_mask(word, CanvasView::point_dot(x as int, y as int));
                }
                put(&mut self.data, i, word & !weight);
                Ok(())
            },
            None => Err(IndexError::USizeMatrix(self.x, self.y, x, y)),
        }
    }

    /// Resets the whole canvas.
    pub fn reset_all(&mut self)
        ensures
            final(self)@ == old(self)@.cleared(),
            final(self)@ == CanvasView::blank(old(self)@.width, old(self)@.height),
            final(self)@.wf(),
    {
        proof {
            use_type_invariant(&*self);
        }
        let n = self.data.len();
        let mut i: usize = 0;
        while i < n
            invariant
                i <= n,
                n == self.data@.len(),
                n == old(self).data@.len(),
                self.x == old(self).x,
                self.y == old(self).y,
                self.char_x == old(self).char_x,
                self.char_y == old(self).char_y,
                old(self).inv(),
                forall|j: int| 0 <= j < i ==> #[trigger] self.data@[j] == old(self).data@[j] & !DOT_MASK,
                forall|j: int| i <= j < n ==> #[trigger] self.data@[j] == old(self).data@[j],
            decreases n - i,
        {
            proof {
                use_type_invariant(&*self);
            }
            let word = self.data[i];
            assert((word & !0xFFu32) <= 0xFFu32) by (bit_vector)
                requires
                    word <= 0xFFu32,
            ;
            put(&mut self.data, i, word & !DOT_MASK);
            i += 1;
        }
        proof {
            use_type_invariant(&*self);
        }
        assert(self@.cells =~= old(self)@.cleared().cells);
        proof {
            lemma_cleared_is_blank(old(self)@);
        }
    }

    /// Sets the point at a given x, y position. 0, 0 is top left.
    /// A point that the canvas does not hold is reported with the size of
    /// the canvas, and leaves the canvas as it was.
    pub fn set(&mut self, x: usize, y: usize) -> (r: Result<(), IndexError>)
        ensures
            final(self)@ == old(self)@.after_set(x as int, y as int),
            final(self)@.wf(),
            r == old(self)@.outcome(x, y),
    {
        proof {
            use_type_invariant(&*self);
        }
        match self.coords_to_index(x, y) {
            Some(i) => {
                let word = self.data[i];
                let weight = weight_of((y % 4) + (x % 2) * 4);
                proof {
                    lemma_dot_ops_stay_in_mask(word, CanvasView::point_dot(x as int, y as int));
                }
                put(&mut self.data, i, word | weight);
                Ok(())
            },
            None => Err(IndexError::USizeMatrix(self.x, self.y, x, y)),
        }
    }
}

} // verus!
