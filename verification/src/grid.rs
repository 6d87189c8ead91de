//! Row-major addressing of the photosites of a frame.
use vstd::prelude::*;
use vstd::arithmetic::div_mod::{lemma_fundamental_div_mod, lemma_fundamental_div_mod_converse};
use vstd::arithmetic::mul::{lemma_mul_inequality, lemma_mul_is_commutative};

verus! {

/// The index of the photosite in row `r` and column `c` of a frame that is
/// `w` photosites wide.
pub open spec fn cell(w: int, r: int, c: int) -> int {
    r * w + c
}

/// An index splits into its row and its column.
pub proof fn lemma_cell_split(w: int, i: int)
    requires
        0 < w,
        0 <= i,
    ensures
        0 <= i / w,
        0 <= i % w < w,
        cell(w, i / w, i % w) == i,
{
    lemma_fundamental_div_mod(i, w);
    lemma_mul_is_commutative(w, i / w);
    assert(i / w >= 0) by (nonlinear_arith)
        requires
            0 < w,
            0 <= i,
    ;
}

/// The row and the column of a photosite are recovered from its index.
pub proof fn lemma_cell_parts(w: int, r: int, c: int)
    requires
        0 <= c < w,
    ensures
        cell(w, r, c) / w == r,
        cell(w, r, c) % w == c,
{
    lemma_mul_is_commutative(w, r);
    lemma_fundamental_div_mod_converse(r * w + c, w, r, c);
}

/// Every photosite of a frame of `w` by `h` has an index below `w * h`.
pub proof fn lemma_cell_bound(w: int, h: int, r: int, c: int)
    requires
        0 <= r < h,
        0 <= c < w,
    ensures
        0 <= cell(w, r, c) < w * h,
        0 <= r * w,
        r * w + w <= w * h,
{
    assert(0 <= r * w && r * w + w <= w * h) by (nonlinear_arith)
        requires
            0 <= r < h,
            0 < w,
    ;
}

/// An index below `w * h` lies in one of the `h` rows.
pub proof fn lemma_cell_row(w: int, h: int, i: int)
    requires
        0 <= i < w * h,
        0 < w,
    ensures
        0 <= i / w < h,
        0 <= i % w < w,
        cell(w, i / w, i % w) == i,
{
    lemma_cell_split(w, i);
    let q = i / w;
    if q >= h {
        assert(q * w >= h * w) by (nonlinear_arith)
            requires
                q >= h,
                0 < w,
        ;
        lemma_mul_is_commutative(w, h);
    }
}

} // verus!
