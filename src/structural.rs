use vstd::prelude::*;
use crate::arith::{
    lemma_flat_index_bound, lemma_flat_index_recover, lemma_flat_index_split, lemma_flat_index_unique,
};
use crate::elementwise::quotient;
use crate::error::MatrixError;
use crate::matrix::Matrix;
use crate::model::{
    cofactor_of, det_of, laplace_sum, minor_seq, pivot_row_from, rank_from, rank_of, reduce_rows,
    reduced_upto, skip_index, trace_of,
};
use crate::scalar::Scalar;

verus! {

/// `m` is `a` with row `row` and column `col` deleted, the rest kept in order.
pub open spec fn is_minor_of<T: Copy>(m: Matrix<T>, a: Matrix<T>, row: int, col: int) -> bool {
    &&& m.wf()
    &&& m.rows + 1 == a.rows
    &&& m.columns + 1 == a.columns
    &&& forall|i: int, j: int|
        0 <= i < m.rows && 0 <= j < m.columns ==> #[trigger] m.at(i, j) == a.at(
            skip_index(i, row),
            skip_index(j, col),
        )
}

/// No entry of an all-zero matrix is a pivot, when the element type's
/// epsilon is not below the magnitude of its zero.
proof fn lemma_no_pivot_in_zeros<T: Scalar>(s: Seq<T>, rows: int, cols: int, col: int, from: int)
    requires
        0 <= rows,
        0 <= col < cols,
        0 <= from,
        s.len() == rows * cols,
        forall|k: int| 0 <= k < s.len() ==> s[k] == T::spec_zero(),
        !T::spec_epsilon().spec_lt(T::spec_zero().spec_abs()),
    ensures
        pivot_row_from(s, rows, cols, col, from) == rows,
    decreases rows - from,
{
    if from < rows {
        lemma_flat_index_bound(from, col, rows, cols);
        lemma_no_pivot_in_zeros(s, rows, cols, col, from + 1);
    }
}

/// Elimination on an all-zero matrix finds no pivot in any remaining column.
proof fn lemma_rank_from_zeros<T: Scalar>(s: Seq<T>, rows: int, cols: int, n: int, col: int)
    requires
        0 <= rows,
        0 <= col,
        n <= cols,
        s.len() == rows * cols,
        forall|k: int| 0 <= k < s.len() ==> s[k] == T::spec_zero(),
        !T::spec_epsilon().spec_lt(T::spec_zero().spec_abs()),
    ensures
        rank_from(s, rows, cols, n, col, 0) == 0,
    decreases n - col,
{
    if col < n {
        lemma_no_pivot_in_zeros(s, rows, cols, col, 0);
        lemma_rank_from_zeros(s, rows, cols, n, col + 1);
    }
}

/// An all-zero matrix has rank 0, for any element type whose epsilon is not
/// below the magnitude of its own zero.
pub proof fn lemma_rank_of_zero_matrix<T: Scalar>(a: Matrix<T>)
    requires
        a.wf(),
        forall|k: int| 0 <= k < a.data@.len() ==> a.data@[k] == T::spec_zero(),
        !T::spec_epsilon().spec_lt(T::spec_zero().spec_abs()),
    ensures
        rank_of(a) == 0,
{
    let n = if a.rows < a.columns {
        a.rows
    } else {
        a.columns
    };
    lemma_rank_from_zeros(a.data@, a.rows as int, a.columns as int, n as int, 0);
}

/// What the element type's arithmetic gives on zero and one: products and
/// sums of these two values come out as in the integers. (Exact for IEEE
/// floats.)
pub open spec fn zero_one_arithmetic<T: Scalar>() -> bool {
    let z = T::spec_zero();
    let o = T::spec_one();
    &&& o.spec_times(o) == o
    &&& o.spec_times(z) == z
    &&& z.spec_times(o) == z
    &&& z.spec_times(z) == z
    &&& o.spec_plus(z) == o
    &&& z.spec_plus(z) == z
    &&& o.spec_minus(z) == o
    &&& z.spec_minus(z) == z
}

/// The determinant of the identity is one for orders up to three, for an
/// element type whose zero and one multiply, add and subtract as integers.
pub proof fn lemma_det_of_small_identity<T: Scalar>(a: Matrix<T>)
    requires
        a.wf(),
        a.is_square(),
        a.rows <= 3,
        forall|i: int, j: int|
            0 <= i < a.rows && 0 <= j < a.columns ==> #[trigger] a.at(i, j) == if i == j {
                T::spec_one()
            } else {
                T::spec_zero()
            },
        zero_one_arithmetic::<T>(),
    ensures
        det_of(a.data@, a.rows as nat) == T::spec_one(),
{
    let n = a.rows as int;
    let s = a.data@;
    if n == 1 {
        assert(s[0] == a.at(0, 0));
    } else if n == 2 {
        assert(s[0] == a.at(0, 0));
        assert(s[1] == a.at(0, 1));
        assert(s[2] == a.at(1, 0));
        assert(s[3] == a.at(1, 1));
    } else if n == 3 {
        assert(s[0] == a.at(0, 0));
        assert(s[1] == a.at(0, 1));
        assert(s[2] == a.at(0, 2));
        assert(s[3] == a.at(1, 0));
        assert(s[4] == a.at(1, 1));
        assert(s[5] == a.at(1, 2));
        assert(s[6] == a.at(2, 0));
        assert(s[7] == a.at(2, 1));
        assert(s[8] == a.at(2, 2));
    }
}

impl<T: Scalar> Matrix<T> {
    /// The square matrix left when row `row` and column `col` are deleted.
    pub fn minor(&self, row: usize, col: usize) -> (r: Result<Matrix<T>, MatrixError>)
        requires
            self.wf(),
        ensures
            !self.is_square() ==> r == Err::<Matrix<T>, MatrixError>(
                MatrixError::NotSquare { rows: self.rows, columns: self.columns },
            ),
            self.is_square() && (row >= self.rows || col >= self.columns) ==> r == Err::<
                Matrix<T>,
                MatrixError,
            >(MatrixError::OutOfBounds { row, column: col, rows: self.rows, columns: self.columns }),
            self.is_square() && row < self.rows && col < self.columns ==> (r matches Ok(m)
                && is_minor_of(m, *self, row as int, col as int)),
            r matches Ok(m) ==> m.data@ == minor_seq(self.data@, self.rows as int, row as int, col as int),
    {
        match self.check_square() {
            Ok(()) => {},
            Err(e) => return Err(e),
        }
        if row >= self.rows || col >= self.columns {
            return Err(
                MatrixError::OutOfBounds { row, column: col, rows: self.rows, columns: self.columns },
            );
        }
        let n = self.rows;
        let size = n - 1;
        let len = self.data.len();
        assert(size * size <= n * n) by (nonlinear_arith)
            requires
                size + 1 == n,
        ;
        let total = size * size;
        let mut data: Vec<T> = Vec::new();
        let mut k: usize = 0;
        while k < total
            invariant
                self.wf(),
                self.rows == n,
                self.columns == n,
                len == n * n,
                size + 1 == n,
                row < n,
                col < n,
                total == size * size,
                k <= total,
                data@.len() == k,
                forall|q: int|
                    0 <= q < k ==> #[trigger] data@[q] == self.at(
                        skip_index(q / size as int, row as int),
                        skip_index(q % size as int, col as int),
                    ),
            decreases total - k,
        {
            proof {
                lemma_flat_index_recover(k as int, size as int, size as int);
            }
            let i = k / size;
            let j = k % size;
            let si = if i < row {
                i
            } else {
                i + 1
            };
            let sj = if j < col {
                j
            } else {
                j + 1
            };
            proof {
                lemma_flat_index_bound(si as int, sj as int, n as int, n as int);
            }
            data.push(self.data[si * n + sj]);
            k += 1;
        }
        let m = Matrix { data, rows: size, columns: size };
        proof {
            assert forall|i: int, j: int| 0 <= i < size && 0 <= j < size implies #[trigger] m.at(i, j)
                == self.at(skip_index(i, row as int), skip_index(j, col as int)) by {
                lemma_flat_index_split(i, j, size as int);
                lemma_flat_index_bound(i, j, size as int, size as int);
            }
            assert(m.data@ =~= minor_seq(self.data@, n as int, row as int, col as int));
        }
        Ok(m)
    }

    /// The determinant: one for the empty matrix, the single element for
    /// order 1, `ad - bc` for order 2, the rule of Sarrus for order 3, and
    /// Laplace expansion along the first row above that, which costs on the
    /// order of `n!` steps.
    pub fn determinant(&self) -> (r: Result<T, MatrixError>)
        requires
            self.wf(),
        ensures
            r is Ok <==> self.is_square(),
            r matches Err(e) ==> e == (MatrixError::NotSquare { rows: self.rows, columns: self.columns }),
            r matches Ok(d) ==> d == det_of(self.data@, self.rows as nat),
        decreases self.rows,
    {
        match self.check_square() {
            Ok(()) => {},
            Err(e) => return Err(e),
        }
        let n = self.rows;
        let len = self.data.len();
        if n == 0 {
            Ok(T::one())
        } else if n == 1 {
            assert(len == 1) by (nonlinear_arith)
                requires
                    len == n * n,
                    n == 1,
            ;
            Ok(self.data[0])
        } else if n == 2 {
            assert(len == 4) by (nonlinear_arith)
                requires
                    len == n * n,
                    n == 2,
            ;
            let a = &self.data;
            Ok(a[0].times(a[3]).minus(a[1].times(a[2])))
        } else if n == 3 {
            assert(len == 9) by (nonlinear_arith)
                requires
                    len == n * n,
                    n == 3,
            ;
            let a = &self.data;
            Ok(
                a[0].times(a[4]).times(a[8]).plus(a[1].times(a[5]).times(a[6])).plus(
                    a[2].times(a[3]).times(a[7]),
                ).minus(a[2].times(a[4]).times(a[6])).minus(a[1].times(a[3]).times(a[8])).minus(
                    a[0].times(a[5]).times(a[7]),
                ),
            )
        } else {
            let mut det = T::zero();
            let mut col: usize = 0;
            while col < n
                invariant
                    self.wf(),
                    self.is_square(),
                    self.rows == n,
                    len == n * n,
                    n > 3,
                    col <= n,
                    det == laplace_sum(self.data@, n as nat, col as nat),
                decreases n - col,
            {
                let minor = match self.minor(0, col) {
                    Ok(m) => m,
                    Err(e) => return Err(e),
                };
                let sub = match minor.determinant() {
                    Ok(d) => d,
                    Err(e) => return Err(e),
                };
                proof {
                    lemma_flat_index_bound(0, col as int, n as int, n as int);
                }
                let term = self.data[col].times(sub);
                if col % 2 == 0 {
                    det = det.plus(term);
                } else {
                    det = det.minus(term);
                }
                col += 1;
            }
            Ok(det)
        }
    }

    /// The inverse by the adjugate method: each cofactor is stored at the
    /// transposed position and the result is divided by the determinant. A
    /// determinant whose magnitude is below the element type's epsilon is
    /// refused as singular. The cost grows as `n^2 * n!`.
    pub fn inverse(&self) -> (r: Result<Matrix<T>, MatrixError>)
        requires
            self.wf(),
        ensures
            !self.is_square() ==> r == Err::<Matrix<T>, MatrixError>(
                MatrixError::NotSquare { rows: self.rows, columns: self.columns },
            ),
            self.is_square() ==> (r is Err <==> det_of(self.data@, self.rows as nat).spec_abs().spec_lt(
                T::spec_epsilon(),
            )),
            self.is_square() && r is Err ==> r == Err::<Matrix<T>, MatrixError>(MatrixError::Singular),
            r matches Ok(m) ==> m.wf() && m.same_shape(self) && forall|i: int, j: int|
                0 <= i < self.rows && 0 <= j < self.columns ==> #[trigger] m.at(i, j) == cofactor_of(
                    self.data@,
                    self.rows as nat,
                    j,
                    i,
                ).spec_divide(det_of(self.data@, self.rows as nat)),
    {
        match self.check_square() {
            Ok(()) => {},
            Err(e) => return Err(e),
        }
        let det = match self.determinant() {
            Ok(d) => d,
            Err(e) => return Err(e),
        };
        if det.absolute().less_than(T::epsilon()) {
            return Err(MatrixError::Singular);
        }
        let size = self.rows;
        let len = self.data.len();
        let mut data: Vec<T> = Vec::new();
        let mut k: usize = 0;
        while k < len
            invariant
                self.wf(),
                self.is_square(),
                self.rows == size,
                len == size * size,
                k <= len,
                data@.len() == k,
                forall|q: int|
                    0 <= q < k ==> #[trigger] data@[q] == cofactor_of(
                        self.data@,
                        size as nat,
                        q % size as int,
                        q / size as int,
                    ),
            decreases len - k,
        {
            proof {
                lemma_flat_index_recover(k as int, size as int, size as int);
            }
            // Position (k / size, k % size) of the adjugate is the cofactor
            // of row k % size and column k / size.
            let row = k % size;
            let col = k / size;
            let minor = match self.minor(row, col) {
                Ok(m) => m,
                Err(e) => return Err(e),
            };
            let sub = match minor.determinant() {
                Ok(d) => d,
                Err(e) => return Err(e),
            };
            let cofactor = if row % 2 == col % 2 {
                sub
            } else {
                sub.negate()
            };
            data.push(cofactor);
            k += 1;
        }
        let cofactors = Matrix { data, rows: size, columns: size };
        let inv = cofactors.scalar_operation(det, quotient::<T>);
        proof {
            assert forall|i: int, j: int| 0 <= i < size && 0 <= j < size implies #[trigger] inv.at(i, j)
                == cofactor_of(self.data@, size as nat, j, i).spec_divide(det) by {
                lemma_flat_index_split(i, j, size as int);
                lemma_flat_index_bound(i, j, size as int, size as int);
            }
        }
        Ok(inv)
    }

    /// The sum of the diagonal elements of a square matrix.
    pub fn trace(&self) -> (r: Result<T, MatrixError>)
        requires
            self.wf(),
        ensures
            r is Ok <==> self.is_square(),
            r matches Err(e) ==> e == (MatrixError::NotSquare { rows: self.rows, columns: self.columns }),
            r matches Ok(t) ==> t == trace_of(*self, self.rows as nat),
    {
        match self.check_square() {
            Ok(()) => {},
            Err(e) => return Err(e),
        }
        let n = self.rows;
        let mut sum = T::zero();
        let mut i: usize = 0;
        while i < n
            invariant
                self.wf(),
                self.rows == n,
                self.columns == n,
                i <= n,
                sum == trace_of(*self, i as nat),
            decreases n - i,
        {
            sum = sum.plus(self.get(i, i));
            i += 1;
        }
        Ok(sum)
    }

    /// The number of pivots that Gaussian elimination finds on a private
    /// copy of the matrix. An entry is a pivot when its magnitude exceeds the
    /// element type's epsilon; every other row, above and below, is reduced
    /// against it from the pivot column rightwards.
    pub fn rank(&self) -> (r: usize)
        requires
            self.wf(),
        ensures
            r == rank_of(*self),
            r <= self.rows,
            r <= self.columns,
    {
        let rows = self.rows;
        let columns = self.columns;
        let len = self.data.len();
        let mut copy: Vec<T> = Vec::new();
        let mut k: usize = 0;
        while k < len
            invariant
                len == self.data@.len(),
                k <= len,
                copy@ == self.data@.subrange(0, k as int),
            decreases len - k,
        {
            copy.push(self.data[k]);
            k += 1;
            assert(copy@ =~= self.data@.subrange(0, k as int));
        }
        assert(copy@ =~= self.data@);
        let mut work = Matrix { data: copy, rows, columns };
        let mut rank: usize = 0;
        let n = if rows < columns {
            rows
        } else {
            columns
        };
        let mut col: usize = 0;
        while col < n
            invariant
                work.wf(),
                work.rows == rows,
                work.columns == columns,
                work.data@.len() == len,
                len == rows * columns,
                n <= rows,
                n <= columns,
                n == if rows < columns {
                    rows
                } else {
                    columns
                },
                col <= n,
                rank <= col,
                rank_from(work.data@, rows as int, columns as int, n as int, col as int, rank as int)
                    == rank_of(*self),
            decreases n - col,
        {
            let ghost s0 = work.data@;
            let mut pivot_row = rank;
            let mut found = false;
            while pivot_row < rows && !found
                invariant
                    work.wf(),
                    work.rows == rows,
                    work.columns == columns,
                    work.data@ == s0,
                    col < columns,
                    rank <= pivot_row <= rows,
                    pivot_row_from(s0, rows as int, columns as int, col as int, rank as int)
                        == pivot_row_from(s0, rows as int, columns as int, col as int, pivot_row as int),
                    found ==> pivot_row < rows && T::spec_epsilon().spec_lt(
                        s0[pivot_row * columns + col].spec_abs(),
                    ),
                decreases rows - pivot_row + if found {
                    0int
                } else {
                    1int
                },
            {
                if T::epsilon().less_than(work.get(pivot_row, col).absolute()) {
                    found = true;
                } else {
                    pivot_row += 1;
                }
            }
            if found {
                if pivot_row != rank {
                    work.swap_rows(pivot_row, rank);
                }
                let ghost s1 = work.data@;
                let mut row: usize = 0;
                while row < rows
                    invariant
                        work.wf(),
                        work.rows == rows,
                        work.columns == columns,
                        work.data@.len() == len,
                        len == rows * columns,
                        col < columns,
                        rank < rows,
                        row <= rows,
                        work.data@ == reduce_rows(s1, columns as int, rank as int, col as int, row as int),
                    decreases rows - row,
                {
                    if row != rank {
                        let ghost prev = work.data@;
                        let factor = work.get(row, col).divide(work.get(rank, col));
                        if T::epsilon().less_than(factor.absolute()) {
                            let mut c: usize = col;
                            while c < columns
                                invariant
                                    work.wf(),
                                    work.rows == rows,
                                    work.columns == columns,
                                    work.data@.len() == len,
                                    prev.len() == len,
                                    len == rows * columns,
                                    row < rows,
                                    rank < rows,
                                    row != rank,
                                    col <= c <= columns,
                                    work.data@ == reduced_upto(
                                        prev,
                                        columns as int,
                                        row as int,
                                        rank as int,
                                        col as int,
                                        factor,
                                        c as int,
                                    ),
                                decreases columns - c,
                            {
                                proof {
                                    lemma_flat_index_split(row as int, c as int, columns as int);
                                    lemma_flat_index_split(rank as int, c as int, columns as int);
                                    lemma_flat_index_bound(row as int, c as int, rows as int, columns as int);
                                    lemma_flat_index_bound(rank as int, c as int, rows as int, columns as int);
                                }
                                let ghost cur = work.data@;
                                let target = work.get(row, c);
                                let source = work.get(rank, c);
                                work.set(row, c, target.minus(factor.times(source)));
                                proof {
                                    assert forall|q: int| 0 <= q < len implies #[trigger] work.data@[q]
                                        == reduced_upto(
                                        prev,
                                        columns as int,
                                        row as int,
                                        rank as int,
                                        col as int,
                                        factor,
                                        c + 1,
                                    )[q] by {
                                        lemma_flat_index_recover(q, rows as int, columns as int);
                                        lemma_flat_index_unique(
                                            q / columns as int,
                                            q % columns as int,
                                            row as int,
                                            c as int,
                                            columns as int,
                                        );
                                    }
                                    assert(work.data@ =~= reduced_upto(
                                        prev,
                                        columns as int,
                                        row as int,
                                        rank as int,
                                        col as int,
                                        factor,
                                        c + 1,
                                    ));
                                }
                                c += 1;
                            }
                        }
                    }
                    row += 1;
                }
                rank += 1;
            }
            col += 1;
        }
        rank
    }
}

} // verus!
