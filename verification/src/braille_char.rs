//! A single braille character, held as the word of its dots.

use vstd::prelude::*;
use vstd::std_specs::convert::FromSpecImpl;
use crate::dots::{
    braille_glyph, dot_index, dot_weight, glyph_of, in_cell, lemma_flip_twice,
    lemma_reset_undoes_set, weight_of, with_all_flipped, with_all_reset, with_all_set,
    with_dot_flipped, with_dot_reset, with_dot_set, DOT_COUNT, DOT_MASK,
};
use crate::error::IndexError;

verus! {

/// Represents a braille character.
///
/// Only the lowest eight bits of the word take part in what is shown. The
/// lowest bit is the top left dot and the highest the bottom right one; in
/// between, the bits run in this order:
///
/// `(0) (3)`
///
/// `(1) (4)`
///
/// `(2) (5)`
///
/// `(6) (7)`
#[derive(Debug, Copy, Clone, PartialEq, Eq, Structural)]
pub struct BrailleChar {
    data: u32,
}

impl View for BrailleChar {
    type V = u32;

    /// The word of the character, reserved bits included.
    closed spec fn view(&self) -> u32 {
        self.data
    }
}

impl BrailleChar {
    /// Creates a new braille character that is blank.
    pub fn new() -> (c: Self)
        ensures
            c@ == 0,
    {
        BrailleChar { data: 0 }
    }

    /// Creates a new braille character with the given dots.
    pub fn with_data(data: u8) -> (c: Self)
        ensures
            c@ == data,
    {
        BrailleChar { data: data as u32 }
    }

    /// Replaces the whole word, reserved bits included.
    pub fn set_data(&mut self, data: u32)
        ensures
            final(self)@ == data,
    {
        self.data = data;
    }

    /// The whole word, reserved bits included.
    pub fn data(&self) -> (data: u32)
        ensures
            data == self@,
    {
        self.data
    }

    /// Raises the bits of `data`.
    fn or_data(&mut self, data: u32)
        ensures
            final(self)@ == old(self)@ | data,
    {
        self.data = self.data | data;
    }

    /// Inverts the bits of `data`.
    fn xor_data(&mut self, data: u32)
        ensures
            final(self)@ == old(self)@ ^ data,
    {
        self.data = self.data ^ data;
    }

    /// Lowers the bits of `data`.
    fn and_data(&mut self, data: u32)
        ensures
            final(self)@ == old(self)@ & !data,
    {
        self.data = self.data & !data;
    }

    /// Index of the dot at (`x`, `y`) where the cell answers for that point.
    fn index_of(x: usize, y: usize) -> (index: Option<usize>)
        ensures
            index == (if in_cell(x as int, y as int) {
                Some(dot_index(x as int, y as int) as usize)
            } else {
                None
            }),
    {
        if x < 2 && y < DOT_COUNT - 4 * x {
            Some(y + 4 * x)
        } else {
            None
        }
    }

    /// Sets the point at a given x, y position. 0, 0 is top left.
    /// A point outside the cell is reported and leaves the cell as it was.
    pub fn set(&mut self, x: usize, y: usize) -> (r: Result<(), IndexError>)
        ensures
            in_cell(x as int, y as int) ==> r == Ok::<(), IndexError>(()) && final(self)@
                == with_dot_set(old(self)@, dot_index(x as int, y as int)),
            !in_cell(x as int, y as int) ==> r == Err::<(), IndexError>(
                IndexError::USizeMatrix(2, 4, x, y),
            ) && final(self)@ == old(self)@,
    {
        match Self::index_of(x, y) {
            Some(i) => {
                self.or_data(weight_of(i));
                Ok(())
            },
            None => Err(IndexError::USizeMatrix(2, 4, x, y)),
        }
    }

    /// Sets all points.
    pub fn set_all(&mut self)
        ensures
            final(self)@ == with_all_set(old(self)@),
    {
        self.set_data(DOT_MASK);
    }

    /// Resets the point at a given x, y position. 0, 0 is top left.
    /// A point outside the cell is reported and leaves the cell as it was.
    pub fn reset(&mut self, x: usize, y: usize) -> (r: Result<(), IndexError>)
        ensures
            in_cell(x as int, y as int) ==> r == Ok::<(), IndexError>(()) && final(self)@
                == with_dot_reset(old(self)@, dot_index(x as int, y as int)),
            !in_cell(x as int, y as int) ==> r == Err::<(), IndexError>(
                IndexError::USizeMatrix(2, 4, x, y),
            ) && final(self)@ == old(self)@,
    {
        match Self::index_of(x, y) {
            Some(i) => {
                self.and_data(weight_of(i));
                Ok(())
            },
            None => Err(IndexError::USizeMatrix(2, 4, x, y)),
        }
    }

    /// Resets all points.
    pub fn reset_all(&mut self)
        ensures
            final(self)@ == with_all_reset(old(self)@),
    {
        self.data = 0;
    }

    /// Flips the point at a given x, y position. 0, 0 is top left.
    /// A point outside the cell is reported and leaves the cell as it was.
    pub fn flip(&mut self, x: usize, y: usize) -> (r: Result<(), IndexError>)
        ensures
            in_cell(x as int, y as int) ==> r == Ok::<(), IndexError>(()) && final(self)@
                == with_dot_flipped(old(self)@, dot_index(x as int, y as int)),
            !in_cell(x as int, y as int) ==> r == Err::<(), IndexError>(
                IndexError::USizeMatrix(2, 4, x, y),
            ) && final(self)@ == old(self)@,
    {
        match Self::index_of(x, y) {
            Some(i) => {
                self.xor_data(weight_of(i));
                Ok(())
            },
            None => Err(IndexError::USizeMatrix(2, 4, x, y)),
        }
    }

    /// Flips all points.
    pub fn flip_all(&mut self)
        ensures
            final(self)@ == with_all_flipped(old(self)@),
    {
        self.data = self.data ^ DOT_MASK;
    }

    /// The character that shows the dots, as a text of its own.
    pub fn to_string(&self) -> (s: String)
        ensures
            s@ == seq![braille_glyph(self@)],
    {
        let mut s = String::new();
        s.push(glyph_of(self.data));
        s
    }
}

/// Two characters are equal exactly when their words are.
pub proof fn lemma_equal_by_word(a: BrailleChar, b: BrailleChar)
    ensures
        (a == b) == (a@ == b@),
{
}

/// Every point of the two-by-four grid is a point of the character.
pub proof fn lemma_grid_is_in_cell(x: int, y: int)
    requires
        0 <= x < 2,
        0 <= y < 4,
    ensures
        in_cell(x, y),
        0 <= dot_index(x, y) < DOT_COUNT,
{
}

/// A blank character is blank again after one of its points was set and
/// then reset.
pub proof fn lemma_set_then_reset_of_blank(x: int, y: int)
    requires
        0 <= x < 2,
        0 <= y < 4,
    ensures
        in_cell(x, y),
        with_dot_reset(with_dot_set(0, dot_index(x, y)), dot_index(x, y)) == 0,
{
    assert(0u32 & dot_weight(dot_index(x, y)) == 0) by (bit_vector);
    lemma_reset_undoes_set(0, dot_index(x, y));
}

/// Flipping a point twice leaves the character as it was.
pub proof fn lemma_flip_then_flip(data: u32, x: int, y: int)
    requires
        0 <= x < 2,
        0 <= y < 4,
    ensures
        in_cell(x, y),
        with_dot_flipped(with_dot_flipped(data, dot_index(x, y)), dot_index(x, y)) == data,
{
    lemma_flip_twice(data, dot_index(x, y));
}

impl From<&BrailleChar> for char {
    /// The character that shows the dots.
    fn from(value: &BrailleChar) -> (c: char) {
        glyph_of(value.data)
    }
}

impl FromSpecImpl<&BrailleChar> for char {
    open spec fn obeys_from_spec() -> bool {
        true
    }

    open spec fn from_spec(value: &BrailleChar) -> char {
        braille_glyph(value@)
    }
}

impl From<BrailleChar> for char {
    /// The character that shows the dots.
    fn from(value: BrailleChar) -> (c: char) {
        char::from(&value)
    }
}

impl FromSpecImpl<BrailleChar> for char {
    open spec fn obeys_from_spec() -> bool {
        true
    }

    open spec fn from_spec(value: BrailleChar) -> char {
        braille_glyph(value@)
    }
}

} // verus!
