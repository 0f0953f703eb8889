//! Row-major index arithmetic and toroidal wraparound for a fixed-size grid.

use vstd::prelude::*;
use vstd::arithmetic::div_mod::{
    lemma_fundamental_div_mod, lemma_fundamental_div_mod_converse, lemma_mod_bound,
};
use vstd::arithmetic::mul::lemma_mul_is_commutative;

verus! {

/// Row-major position of `(row, col)` in a grid `width` cells wide.
pub open spec fn flat_index(width: int, row: int, col: int) -> int {
    row * width + col
}

/// One step up (or left) with wraparound: above position 0 lies `extent - 1`.
pub open spec fn wrap_dec(i: int, extent: int) -> int {
    if i == 0 {
        extent - 1
    } else {
        i - 1
    }
}

/// One step down (or right) with wraparound: below position `extent - 1` lies 0.
pub open spec fn wrap_inc(i: int, extent: int) -> int {
    if i == extent - 1 {
        0
    } else {
        i + 1
    }
}

/// Toroidal wrap: stepping up from 0 lands on `extent - 1`, stepping down from
/// `extent - 1` lands on 0, and either step keeps every in-range position in
/// range.
pub proof fn lemma_toroidal_wrap(extent: int)
    requires
        1 <= extent,
    ensures
        wrap_dec(0, extent) == extent - 1,
        wrap_inc(extent - 1, extent) == 0,
        forall|i: int| 0 <= i < extent ==> 0 <= #[trigger] wrap_dec(i, extent) < extent,
        forall|i: int| 0 <= i < extent ==> 0 <= #[trigger] wrap_inc(i, extent) < extent,
{
}

/// `flat_index` sends every in-range coordinate into `[0, width * height)`.
pub proof fn lemma_flat_index_in_range(width: int, height: int, row: int, col: int)
    requires
        0 <= row < height,
        0 <= col < width,
    ensures
        0 <= flat_index(width, row, col) < width * height,
{
    assert(0 <= row * width + col < width * height) by (nonlinear_arith)
        requires
            0 <= row < height,
            0 <= col < width,
    ;
}

/// `flat_index` is injective: two in-range coordinates with the same flat
/// position are the same coordinate.
pub proof fn lemma_flat_index_injective(width: int, r1: int, c1: int, r2: int, c2: int)
    requires
        1 <= width,
        0 <= r1,
        0 <= r2,
        0 <= c1 < width,
        0 <= c2 < width,
        flat_index(width, r1, c1) == flat_index(width, r2, c2),
    ensures
        r1 == r2,
        c1 == c2,
{
    lemma_fundamental_div_mod_converse(flat_index(width, r1, c1), width, r1, c1);
    lemma_fundamental_div_mod_converse(flat_index(width, r2, c2), width, r2, c2);
}

/// The coordinates an in-range flat position decodes back to: quotient and
/// remainder by the width.
pub proof fn lemma_flat_index_coords(width: int, row: int, col: int)
    requires
        1 <= width,
        0 <= row,
        0 <= col < width,
    ensures
        flat_index(width, row, col) / width == row,
        flat_index(width, row, col) % width == col,
{
    lemma_fundamental_div_mod_converse(flat_index(width, row, col), width, row, col);
}

/// `flat_index` is surjective onto `[0, width * height)`: every position in
/// the buffer is the flat index of some in-range coordinate.
pub proof fn lemma_flat_index_surjective(width: int, height: int, i: int)
    requires
        1 <= width,
        1 <= height,
        0 <= i < width * height,
    ensures
        exists|row: int, col: int|
            0 <= row < height && 0 <= col < width && #[trigger] flat_index(width, row, col) == i,
{
    lemma_fundamental_div_mod(i, width);
    lemma_mod_bound(i, width);
    let row: int = i / width;
    let col: int = i % width;
    lemma_mul_is_commutative(width, row);
    assert(row * width + col == i);
    assert(0 <= row && row < height) by (nonlinear_arith)
        requires
            1 <= width,
            0 <= col < width,
            row * width + col == i,
            0 <= i < width * height,
    ;
    assert(0 <= row < height && 0 <= col < width && flat_index(width, row, col) == i);
}

} // verus!
