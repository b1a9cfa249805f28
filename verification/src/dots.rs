//! The eight dots of a braille cell: where each dot sits, which bit stands
//! for it, and which character shows a given pattern.

use vstd::prelude::*;

verus! {

/// Number of dots in one cell.
pub const DOT_COUNT: usize = 8;

/// The bits of a cell word that carry dots.
pub const DOT_MASK: u32 = 0xFF;

/// Code point of the braille pattern without dots.
pub const BRAILLE_BASE: u32 = 0x2800;

/// The bit that stands for the dot with the given index. Indices run down the
/// left column (0 to 3), then down the right column (4 to 7); the bits follow
/// the Unicode numbering of braille dots, in which the bottom row comes last.
pub open spec fn dot_weight(index: int) -> u32 {
    if index == 0 {
        1
    } else if index == 1 {
        2
    } else if index == 2 {
        4
    } else if index == 3 {
        64
    } else if index == 4 {
        8
    } else if index == 5 {
        16
    } else if index == 6 {
        32
    } else if index == 7 {
        128
    } else {
        0
    }
}

/// Index of the dot at column `x` and row `y` of a cell.
pub open spec fn dot_index(x: int, y: int) -> int {
    y + 4 * x
}

/// Whether a cell answers for the point (`x`, `y`): its dot index is below
/// `DOT_COUNT`. Every point with `x < 2` and `y < 4` is such a point; so are
/// (0, 4) to (0, 7), which share their dots with the right column.
pub open spec fn in_cell(x: int, y: int) -> bool {
    0 <= x && 0 <= y && dot_index(x, y) < DOT_COUNT
}

/// The word `data` with the dot of the given index raised.
pub open spec fn with_dot_set(data: u32, index: int) -> u32 {
    data | dot_weight(index)
}

/// The word `data` with the dot of the given index lowered.
pub open spec fn with_dot_reset(data: u32, index: int) -> u32 {
    data & !dot_weight(index)
}

/// The word `data` with the dot of the given index inverted.
pub open spec fn with_dot_flipped(data: u32, index: int) -> u32 {
    data ^ dot_weight(index)
}

/// The word after all dots were raised: the dots and nothing else.
pub open spec fn with_all_set(data: u32) -> u32 {
    DOT_MASK
}

/// The word after all dots were lowered: nothing at all.
pub open spec fn with_all_reset(data: u32) -> u32 {
    0
}

/// The word `data` with every dot inverted.
pub open spec fn with_all_flipped(data: u32) -> u32 {
    data ^ DOT_MASK
}

/// Whether the dot of the given index is raised in `data`.
pub open spec fn dot_is_set(data: u32, index: int) -> bool {
    data & dot_weight(index) != 0
}

/// Code point of the braille pattern that shows the dots of `data`.
pub open spec fn braille_code(data: u32) -> u32 {
    BRAILLE_BASE | (data & DOT_MASK)
}

/// The braille character that shows the dots of `data`.
pub open spec fn braille_glyph(data: u32) -> char {
    braille_code(data) as char
}

/// Whether `code` is a Unicode scalar value: a code point that is no surrogate.
pub open spec fn is_scalar_value(code: u32) -> bool {
    code <= 0xD7FF || 0xE000 <= code <= 0x10FFFF
}

/// `char::from_u32` of the standard library: `Some` of the character with the
/// given code point where that is a Unicode scalar value, `None` elsewhere.
pub assume_specification[ char::from_u32 ](i: u32) -> (r: Option<char>)
    ensures
        r == (if is_scalar_value(i) {
            Some(i as char)
        } else {
            None
        }),
;

/// Computes `dot_weight` for an index below `DOT_COUNT`.
pub fn weight_of(index: usize) -> (w: u32)
    requires
        index < DOT_COUNT,
    ensures
        w == dot_weight(index as int),
{
    if index == 0 {
        1
    } else if index == 1 {
        2
    } else if index == 2 {
        4
    } else if index == 3 {
        64
    } else if index == 4 {
        8
    } else if index == 5 {
        16
    } else if index == 6 {
        32
    } else {
        128
    }
}

/// Whether `w` is one of the eight bits that stand for a dot.
pub open spec fn is_dot_weight(w: u32) -> bool {
    w == 1 || w == 2 || w == 4 || w == 8 || w == 16 || w == 32 || w == 64 || w == 128
}

/// Each dot has a bit of its own among those of `DOT_MASK`: the weights are
/// a permutation of the eight lowest bits.
pub proof fn lemma_weights_are_distinct_bits(i: int, j: int)
    requires
        0 <= i < DOT_COUNT,
        0 <= j < DOT_COUNT,
    ensures
        is_dot_weight(dot_weight(i)),
        dot_weight(i) & DOT_MASK == dot_weight(i),
        i != j ==> dot_weight(i) & dot_weight(j) == 0,
        i != j ==> dot_weight(i) != dot_weight(j),
{
    let a = dot_weight(i);
    let b = dot_weight(j);
    assert(a & 0xFFu32 == a) by (bit_vector)
        requires
            is_dot_weight(a),
    ;
    if i != j {
        assert(a & b == 0) by (bit_vector)
            requires
                is_dot_weight(a),
                is_dot_weight(b),
                a != b,
        ;
    }
}

/// Setting a dot raises that dot and leaves every other dot, and the
/// reserved bits, as they were.
pub proof fn lemma_set_raises_one_dot(data: u32, i: int, j: int)
    requires
        0 <= i < DOT_COUNT,
        0 <= j < DOT_COUNT,
    ensures
        dot_is_set(with_dot_set(data, i), j) == (j == i || dot_is_set(data, j)),
        with_dot_set(data, i) & !DOT_MASK == data & !DOT_MASK,
{
    let a = dot_weight(i);
    let b = dot_weight(j);
    lemma_weights_are_distinct_bits(i, j);
    assert(((data | a) & b != 0) == (a == b || data & b != 0)) by (bit_vector)
        requires
            is_dot_weight(a),
            is_dot_weight(b),
    ;
    assert((data | a) & !0xFFu32 == data & !0xFFu32) by (bit_vector)
        requires
            is_dot_weight(a),
    ;
}

/// Resetting a dot lowers that dot and leaves every other dot, and the
/// reserved bits, as they were.
pub proof fn lemma_reset_lowers_one_dot(data: u32, i: int, j: int)
    requires
        0 <= i < DOT_COUNT,
        0 <= j < DOT_COUNT,
    ensures
        dot_is_set(with_dot_reset(data, i), j) == (j != i && dot_is_set(data, j)),
        with_dot_reset(data, i) & !DOT_MASK == data & !DOT_MASK,
{
    let a = dot_weight(i);
    let b = dot_weight(j);
    lemma_weights_are_distinct_bits(i, j);
    assert(((data & !a) & b != 0) == (a != b && data & b != 0)) by (bit_vector)
        requires
            is_dot_weight(a),
            is_dot_weight(b),
    ;
    assert((data & !a) & !0xFFu32 == data & !0xFFu32) by (bit_vector)
        requires
            is_dot_weight(a),
    ;
}

/// Flipping a dot inverts that dot and leaves every other dot, and the
/// reserved bits, as they were.
pub proof fn lemma_flip_inverts_one_dot(data: u32, i: int, j: int)
    requires
        0 <= i < DOT_COUNT,
        0 <= j < DOT_COUNT,
    ensures
        dot_is_set(with_dot_flipped(data, i), j) == (if j == i {
            !dot_is_set(data, j)
        } else {
            dot_is_set(data, j)
        }),
        with_dot_flipped(data, i) & !DOT_MASK == data & !DOT_MASK,
{
    let a = dot_weight(i);
    let b = dot_weight(j);
    lemma_weights_are_distinct_bits(i, j);
    assert(((data ^ a) & b != 0) == (if a == b {
        data & b == 0
    } else {
        data & b != 0
    })) by (bit_vector)
        requires
            is_dot_weight(a),
            is_dot_weight(b),
    ;
    assert((data ^ a) & !0xFFu32 == data & !0xFFu32) by (bit_vector)
        requires
            is_dot_weight(a),
    ;
}

/// Resetting a dot undoes setting it, wherever the dot was down before. So
/// a blank word is blank again after one of its dots was set and reset.
pub proof fn lemma_reset_undoes_set(data: u32, index: int)
    requires
        !dot_is_set(data, index),
    ensures
        with_dot_reset(with_dot_set(data, index), index) == data,
        with_dot_reset(with_dot_set(0, index), index) == 0,
{
    let w = dot_weight(index);
    assert((data | w) & !w == data) by (bit_vector)
        requires
            data & w == 0,
    ;
    assert((0u32 | w) & !w == 0) by (bit_vector);
}

/// Setting a dot undoes resetting it, wherever the dot was up before.
pub proof fn lemma_set_undoes_reset(data: u32, index: int)
    requires
        0 <= index < DOT_COUNT,
        dot_is_set(data, index),
    ensures
        with_dot_set(with_dot_reset(data, index), index) == data,
{
    let w = dot_weight(index);
    assert((data & !w) | w == data) by (bit_vector)
        requires
            is_dot_weight(w),
            data & w != 0,
    ;
}

/// Flipping a dot twice leaves the word as it was.
pub proof fn lemma_flip_twice(data: u32, index: int)
    ensures
        with_dot_flipped(with_dot_flipped(data, index), index) == data,
{
    let w = dot_weight(index);
    assert((data ^ w) ^ w == data) by (bit_vector);
}

/// Setting or resetting a dot a second time changes nothing.
pub proof fn lemma_set_and_reset_are_idempotent(data: u32, index: int)
    ensures
        with_dot_set(with_dot_set(data, index), index) == with_dot_set(data, index),
        with_dot_reset(with_dot_reset(data, index), index) == with_dot_reset(data, index),
{
    let w = dot_weight(index);
    assert((data | w) | w == data | w) by (bit_vector);
    assert((data & !w) & !w == data & !w) by (bit_vector);
}

/// Raising all dots raises each; lowering all lowers each; inverting all
/// inverts each and leaves the reserved bits as they were.
pub proof fn lemma_all_dots(data: u32, j: int)
    requires
        0 <= j < DOT_COUNT,
    ensures
        dot_is_set(with_all_set(data), j),
        !dot_is_set(with_all_reset(data), j),
        dot_is_set(with_all_flipped(data), j) == !dot_is_set(data, j),
        with_all_flipped(data) & !DOT_MASK == data & !DOT_MASK,
{
    let b = dot_weight(j);
    assert(0xFFu32 & b != 0 && 0u32 & b == 0 && (((data ^ 0xFFu32) & b != 0) == (data & b == 0)))
        by (bit_vector)
        requires
            is_dot_weight(b),
    ;
    assert((data ^ 0xFFu32) & !0xFFu32 == data & !0xFFu32) by (bit_vector);
}

/// Whatever the word held: with all dots set and then all reset it is
/// blank; with all dots reset and then all flipped it holds every dot and
/// nothing else; and flipping all dots twice leaves it as it was.
pub proof fn lemma_all_after_all(data: u32)
    ensures
        with_all_reset(with_all_set(data)) == 0,
        with_all_flipped(with_all_reset(data)) == DOT_MASK,
        with_all_flipped(with_all_flipped(data)) == data,
{
    assert(0u32 ^ 0xFFu32 == 0xFFu32) by (bit_vector);
    assert((data ^ 0xFFu32) ^ 0xFFu32 == data) by (bit_vector);
}

/// No operation on a dot touches the bits above `DOT_MASK`: a word that
/// holds dots only still does after one of its dots was raised, lowered or
/// inverted.
pub proof fn lemma_dot_ops_stay_in_mask(data: u32, index: int)
    requires
        data <= DOT_MASK,
    ensures
        with_dot_set(data, index) <= DOT_MASK,
        with_dot_reset(data, index) <= DOT_MASK,
        with_dot_flipped(data, index) <= DOT_MASK,
{
    let w = dot_weight(index);
    assert((data | w) <= 0xFFu32 && (data & !w) <= 0xFFu32 && (data ^ w) <= 0xFFu32)
        by (bit_vector)
        requires
            data <= 0xFFu32,
            w <= 0xFFu32,
    ;
}

/// The braille block holds one character for each of the 256 dot patterns.
pub proof fn lemma_braille_code_in_block(data: u32)
    ensures
        BRAILLE_BASE <= braille_code(data) <= BRAILLE_BASE + DOT_MASK,
        braille_code(data) == BRAILLE_BASE + (data & DOT_MASK),
        is_scalar_value(braille_code(data)),
        braille_glyph(data) as u32 == braille_code(data),
{
    assert(0x2800u32 <= (0x2800u32 | (data & 0xFFu32)) <= 0x28FFu32) by (bit_vector);
    assert((0x2800u32 | (data & 0xFFu32)) == 0x2800u32 + (data & 0xFFu32)) by (bit_vector);
}

/// Two words get the same character exactly when they hold the same dots.
pub proof fn lemma_glyph_shows_the_dots(a: u32, b: u32)
    ensures
        (braille_glyph(a) == braille_glyph(b)) == (a & DOT_MASK == b & DOT_MASK),
{
    lemma_braille_code_in_block(a);
    lemma_braille_code_in_block(b);
}

/// Computes the braille character that shows the dots of `data`.
pub fn glyph_of(data: u32) -> (c: char)
    ensures
        c == braille_glyph(data),
        c as u32 == braille_code(data),
{
    proof {
        lemma_braille_code_in_block(data);
    }
    let code: u32 = BRAILLE_BASE | (data & DOT_MASK);
    let found = char::from_u32(code);
    found.unwrap()
}

} // verus!
