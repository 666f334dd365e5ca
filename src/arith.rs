use vstd::prelude::*;
use vstd::arithmetic::div_mod::{
    lemma_div_pos_is_pos,
    lemma_fundamental_div_mod,
    lemma_fundamental_div_mod_converse,
    lemma_mod_pos_bound,
};

verus! {

/// Row-major position `(i, j)` of a `rows x cols` grid lies inside its
/// `rows * cols` cells.
pub proof fn lemma_flat_index_bound(i: int, j: int, rows: int, cols: int)
    requires
        0 <= i < rows,
        0 <= j < cols,
    ensures
        0 <= i * cols + j < rows * cols,
        i * cols + j + 1 <= rows * cols,
{
    assert(0 <= i * cols) by (nonlinear_arith)
        requires
            0 <= i,
            0 <= j < cols,
    ;
    assert(i * cols + j < rows * cols) by (nonlinear_arith)
        requires
            0 <= i < rows,
            0 <= j < cols,
    ;
}

/// A row-major position recovers its row and column by division.
pub proof fn lemma_flat_index_split(i: int, j: int, cols: int)
    requires
        0 <= i,
        0 <= j < cols,
    ensures
        (i * cols + j) / cols == i,
        (i * cols + j) % cols == j,
{
    lemma_fundamental_div_mod_converse(i * cols + j, cols, i, j);
}

/// Every cell of a `rows x cols` grid is the row-major position of the
/// row `k / cols` and column `k % cols`.
pub proof fn lemma_flat_index_recover(k: int, rows: int, cols: int)
    requires
        0 <= rows,
        0 <= cols,
        0 <= k < rows * cols,
    ensures
        0 < cols,
        0 <= k / cols < rows,
        0 <= k % cols < cols,
        k == (k / cols) * cols + k % cols,
{
    assert(cols > 0) by (nonlinear_arith)
        requires
            0 <= rows,
            0 <= cols,
            0 <= k < rows * cols,
    ;
    lemma_fundamental_div_mod(k, cols);
    lemma_mod_pos_bound(k, cols);
    lemma_div_pos_is_pos(k, cols);
    let q = k / cols;
    let r = k % cols;
    assert(k == q * cols + r) by (nonlinear_arith)
        requires
            k == cols * q + r,
    ;
    assert(q < rows) by (nonlinear_arith)
        requires
            k == q * cols + r,
            0 <= r,
            k < rows * cols,
            0 < cols,
    ;
}

/// Distinct cells of a row-major grid have distinct positions.
pub proof fn lemma_flat_index_unique(i1: int, j1: int, i2: int, j2: int, cols: int)
    requires
        0 <= i1,
        0 <= i2,
        0 <= j1 < cols,
        0 <= j2 < cols,
    ensures
        (i1 * cols + j1 == i2 * cols + j2) <==> (i1 == i2 && j1 == j2),
{
    if i1 * cols + j1 == i2 * cols + j2 {
        lemma_flat_index_split(i1, j1, cols);
        lemma_flat_index_split(i2, j2, cols);
    }
}

} // verus!
