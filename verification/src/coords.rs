//! Coordinate mapper: the one place where the arithmetic between a logical
//! buffer offset and a wrapped `(row, col)` terminal position lives. Every
//! other component goes through these functions rather than re-deriving the
//! formulas.
use vstd::prelude::*;

verus! {

/// Row of the terminal position that logical offset `index` maps to under
/// wrap width `width`.
pub open spec fn row_spec(index: int, width: int) -> int {
    index / width
}

/// Column of the terminal position that logical offset `index` maps to under
/// wrap width `width`.
pub open spec fn col_spec(index: int, width: int) -> int {
    index % width
}

/// Logical offset of the terminal position `(row, col)` under wrap width
/// `width`.
pub open spec fn index_spec(row: int, col: int, width: int) -> int {
    row * width + col
}

/// Maps a logical buffer offset to its wrapped `(row, col)` terminal
/// position: rows wrap every `width` characters. An offset that is an exact
/// multiple of `width` maps to the start of a fresh row.
pub fn position(index: usize, width: usize) -> (pos: (usize, usize))
    requires
        width > 0,
    ensures
        pos.0 == row_spec(index as int, width as int),
        pos.1 == col_spec(index as int, width as int),
{
    (index / width, index % width)
}

/// Maps a wrapped `(row, col)` terminal position back to the logical buffer
/// offset it shows.
pub fn index(row: usize, col: usize, width: usize) -> (i: usize)
    requires
        width > 0,
        row * width + col <= usize::MAX,
    ensures
        i == index_spec(row as int, col as int, width as int),
{
    row * width + col
}

/// The coordinate mapping round-trips: for every wrap width `width > 0` and
/// every logical offset `index >= 0` (in particular every `0 <= index <= L`
/// for any buffer length `L`), mapping the offset to `(row, col)` and back
/// yields the offset again.
pub proof fn lemma_position_index_roundtrip(index: int, width: int)
    requires
        width > 0,
        0 <= index,
    ensures
        index_spec(row_spec(index, width), col_spec(index, width), width) == index,
{
    vstd::arithmetic::div_mod::lemma_fundamental_div_mod(index, width);
    vstd::arithmetic::mul::lemma_mul_is_commutative(width, index / width);
}

/// The row of an offset never exceeds the offset, and its column is a proper
/// remainder: the bounds every caller of the mapper leans on.
pub proof fn lemma_position_bounds(index: int, width: int)
    requires
        width > 0,
        0 <= index,
    ensures
        0 <= row_spec(index, width) <= index,
        0 <= col_spec(index, width) < width,
        col_spec(index, width) <= index,
{
    vstd::arithmetic::div_mod::lemma_mod_division_less_than_divisor(index, width);
    vstd::arithmetic::div_mod::lemma_div_pos_is_pos(index, width);
    vstd::arithmetic::div_mod::lemma_div_nonincreasing(index, width);
    if index < width {
        vstd::arithmetic::div_mod::lemma_small_mod(index as nat, width as nat);
    }
}

} // verus!
