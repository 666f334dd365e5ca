use vstd::prelude::*;
use crate::matrix::{swapped_row, Matrix};
use crate::scalar::Scalar;

verus! {

/// The index, in the full matrix, of index `i` of a minor that left out
/// index `k`.
pub open spec fn skip_index(i: int, k: int) -> int {
    if i < k {
        i
    } else {
        i + 1
    }
}

/// Row-major storage of the `n x n` matrix `s` with row `row` and column
/// `col` deleted.
pub open spec fn minor_seq<T>(s: Seq<T>, n: int, row: int, col: int) -> Seq<T> {
    Seq::new(
        ((n - 1) * (n - 1)) as nat,
        |k: int| s[skip_index(k / (n - 1), row) * n + skip_index(k % (n - 1), col)],
    )
}

/// The determinant of the `n x n` matrix stored in `s`, as the kernel
/// computes it: one for order 0, the element for order 1, `ad - bc` for
/// order 2, the rule of Sarrus for order 3, and Laplace expansion along the
/// first row above that.
pub open spec fn det_of<T: Scalar>(s: Seq<T>, n: nat) -> T
    decreases n, n + 1,
{
    if n == 0 {
        T::spec_one()
    } else if n == 1 {
        s[0]
    } else if n == 2 {
        s[0].spec_times(s[3]).spec_minus(s[1].spec_times(s[2]))
    } else if n == 3 {
        s[0].spec_times(s[4]).spec_times(s[8]).spec_plus(s[1].spec_times(s[5]).spec_times(s[6])).spec_plus(
            s[2].spec_times(s[3]).spec_times(s[7]),
        ).spec_minus(s[2].spec_times(s[4]).spec_times(s[6])).spec_minus(
            s[1].spec_times(s[3]).spec_times(s[8]),
        ).spec_minus(s[0].spec_times(s[5]).spec_times(s[7]))
    } else {
        laplace_sum(s, n, n)
    }
}

/// The first `c` terms of the Laplace expansion of the `n x n` matrix `s`
/// along row 0, with the sign `+` at column 0 and alternating after it.
pub open spec fn laplace_sum<T: Scalar>(s: Seq<T>, n: nat, c: nat) -> T
    decreases n, c,
{
    if c == 0 || n == 0 {
        T::spec_zero()
    } else {
        let prev = laplace_sum(s, n, (c - 1) as nat);
        let term = s[c - 1].spec_times(det_of(minor_seq(s, n as int, 0, c - 1), (n - 1) as nat));
        if (c - 1) % 2 == 0 {
            prev.spec_plus(term)
        } else {
            prev.spec_minus(term)
        }
    }
}

/// The cofactor of row `r`, column `c` of the `n x n` matrix `s`: the
/// determinant of the minor, negated when `r + c` is odd.
pub open spec fn cofactor_of<T: Scalar>(s: Seq<T>, n: nat, r: int, c: int) -> T {
    let d = det_of(minor_seq(s, n as int, r, c), (n - 1) as nat);
    if r % 2 == c % 2 {
        d
    } else {
        d.spec_negate()
    }
}

/// The sum of the products of the first `k` pairs of elements of `a` and `b`,
/// added from zero in order.
pub open spec fn dot_of<T: Scalar>(a: Seq<T>, b: Seq<T>, k: nat) -> T
    decreases k,
{
    if k == 0 {
        T::spec_zero()
    } else {
        dot_of(a, b, (k - 1) as nat).spec_plus(a[k - 1].spec_times(b[k - 1]))
    }
}

/// The Euclidean length of the elements of `s`.
pub open spec fn magnitude_of<T: Scalar>(s: Seq<T>) -> T {
    dot_of(s, s, s.len()).spec_sqrt()
}

/// Entry `(i, j)` of the product `a * b` summed over the first `p` terms of
/// the shared dimension, from zero in order.
pub open spec fn product_entry<T: Scalar>(a: Matrix<T>, b: Matrix<T>, i: int, j: int, p: nat) -> T
    decreases p,
{
    if p == 0 {
        T::spec_zero()
    } else {
        product_entry(a, b, i, j, (p - 1) as nat).spec_plus(
            a.at(i, p - 1).spec_times(b.at(p - 1, j)),
        )
    }
}

/// The sum of the first `k` diagonal elements of `a`, from zero in order.
pub open spec fn trace_of<T: Scalar>(a: Matrix<T>, k: nat) -> T
    decreases k,
{
    if k == 0 {
        T::spec_zero()
    } else {
        trace_of(a, (k - 1) as nat).spec_plus(a.at(k - 1, k - 1))
    }
}

/// The cross product of the three-element sequences `a` and `b`.
pub open spec fn cross_of<T: Scalar>(a: Seq<T>, b: Seq<T>) -> Seq<T> {
    seq![
        a[1].spec_times(b[2]).spec_minus(a[2].spec_times(b[1])),
        a[2].spec_times(b[0]).spec_minus(a[0].spec_times(b[2])),
        a[0].spec_times(b[1]).spec_minus(a[1].spec_times(b[0])),
    ]
}

/// Row-major storage `s` with rows `r1` and `r2` exchanged.
pub open spec fn swap_rows_seq<T>(s: Seq<T>, cols: int, r1: int, r2: int) -> Seq<T> {
    Seq::new(s.len(), |k: int| s[swapped_row(k / cols, r1, r2) * cols + k % cols])
}

/// The first row at or below `from` whose entry in column `col` is a pivot
/// (its magnitude exceeds epsilon), or `rows` when there is none.
pub open spec fn pivot_row_from<T: Scalar>(s: Seq<T>, rows: int, cols: int, col: int, from: int) -> int
    decreases rows - from,
{
    if from >= rows {
        rows
    } else if T::spec_epsilon().spec_lt(s[from * cols + col].spec_abs()) {
        from
    } else {
        pivot_row_from(s, rows, cols, col, from + 1)
    }
}

/// `s` with row `row` reduced against pivot row `rank` in the columns from
/// `col` up to (not including) `c`, by `factor` times the pivot row.
pub open spec fn reduced_upto<T: Scalar>(
    s: Seq<T>,
    cols: int,
    row: int,
    rank: int,
    col: int,
    factor: T,
    c: int,
) -> Seq<T> {
    Seq::new(
        s.len(),
        |k: int|
            if k / cols == row && col <= k % cols < c {
                s[k].spec_minus(factor.spec_times(s[rank * cols + k % cols]))
            } else {
                s[k]
            },
    )
}

/// One elimination step: row `row` of `s` reduced against pivot row `rank`
/// from column `col` rightwards, unless the factor is negligible.
pub open spec fn reduce_row<T: Scalar>(s: Seq<T>, cols: int, row: int, rank: int, col: int) -> Seq<T> {
    let factor = s[row * cols + col].spec_divide(s[rank * cols + col]);
    if T::spec_epsilon().spec_lt(factor.spec_abs()) {
        reduced_upto(s, cols, row, rank, col, factor, cols)
    } else {
        s
    }
}

/// Rows `0 .. upto` of `s`, all but the pivot row `rank`, reduced in order.
pub open spec fn reduce_rows<T: Scalar>(s: Seq<T>, cols: int, rank: int, col: int, upto: int) -> Seq<T>
    decreases upto,
{
    if upto <= 0 {
        s
    } else {
        let prev = reduce_rows(s, cols, rank, col, upto - 1);
        if upto - 1 == rank {
            prev
        } else {
            reduce_row(prev, cols, upto - 1, rank, col)
        }
    }
}

/// The pivot count that elimination reaches from the state `s` with `rank`
/// pivots found so far, when columns `col .. n` are still to be handled.
pub open spec fn rank_from<T: Scalar>(
    s: Seq<T>,
    rows: int,
    cols: int,
    n: int,
    col: int,
    rank: int,
) -> int
    decreases n - col,
{
    if col >= n {
        rank
    } else {
        let p = pivot_row_from(s, rows, cols, col, rank);
        if p < rows {
            let s1 = if p != rank {
                swap_rows_seq(s, cols, p, rank)
            } else {
                s
            };
            rank_from(reduce_rows(s1, cols, rank, col, rows), rows, cols, n, col + 1, rank + 1)
        } else {
            rank_from(s, rows, cols, n, col + 1, rank)
        }
    }
}

/// The number of pivots that Gaussian elimination finds in `a`, working
/// through the first `min(rows, columns)` columns.
pub open spec fn rank_of<T: Scalar>(a: Matrix<T>) -> int {
    let n = if a.rows < a.columns {
        a.rows
    } else {
        a.columns
    };
    rank_from(a.data@, a.rows as int, a.columns as int, n as int, 0, 0)
}

} // verus!
