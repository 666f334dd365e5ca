use vstd::prelude::*;
use crate::arith::{lemma_flat_index_bound, lemma_flat_index_recover, lemma_flat_index_split};
use crate::error::MatrixError;
use crate::matrix::Matrix;
use crate::model::product_entry;
use crate::scalar::Scalar;

verus! {

/// `t` is `a` with rows and columns exchanged.
pub open spec fn is_transpose_of<T: Copy>(t: Matrix<T>, a: Matrix<T>) -> bool {
    &&& t.wf()
    &&& t.rows == a.columns
    &&& t.columns == a.rows
    &&& forall|i: int, j: int| 0 <= i < a.rows && 0 <= j < a.columns ==> #[trigger] t.at(j, i) == a.at(i, j)
}

/// Transposing twice gives back the matrix, shape and elements alike.
pub proof fn lemma_transpose_twice<T: Copy>(a: Matrix<T>, t: Matrix<T>, u: Matrix<T>)
    requires
        a.wf(),
        is_transpose_of(t, a),
        is_transpose_of(u, t),
    ensures
        u.rows == a.rows,
        u.columns == a.columns,
        u.data@ == a.data@,
{
    assert forall|k: int| 0 <= k < a.data@.len() implies u.data@[k] == a.data@[k] by {
        lemma_flat_index_recover(k, a.rows as int, a.columns as int);
        let i = k / a.columns as int;
        let j = k % a.columns as int;
        assert(u.at(i, j) == t.at(j, i));
        assert(t.at(j, i) == a.at(i, j));
    }
    assert(u.data@ =~= a.data@);
}

impl<T: Scalar> Matrix<T> {
    /// The matrix with rows and columns exchanged.
    pub fn transpose(&self) -> (t: Matrix<T>)
        requires
            self.wf(),
        ensures
            is_transpose_of(t, *self),
    {
        let rows = self.rows;
        let columns = self.columns;
        let len = self.data.len();
        assert(len == columns * rows) by (nonlinear_arith)
            requires
                len == rows * columns,
        ;
        let mut data: Vec<T> = Vec::new();
        let mut k: usize = 0;
        while k < len
            invariant
                self.wf(),
                self.rows == rows,
                self.columns == columns,
                len == rows * columns,
                len == columns * rows,
                k <= len,
                data@.len() == k,
                forall|q: int| 0 <= q < k ==> #[trigger] data@[q] == self.at(q % rows as int, q / rows as int),
            decreases len - k,
        {
            proof {
                lemma_flat_index_recover(k as int, columns as int, rows as int);
            }
            let j = k / rows;
            let i = k % rows;
            data.push(self.get(i, j));
            k += 1;
        }
        let t = Matrix { data, rows: columns, columns: rows };
        proof {
            assert forall|i: int, j: int| 0 <= i < rows && 0 <= j < columns implies #[trigger] t.at(j, i)
                == self.at(i, j) by {
                lemma_flat_index_split(j, i, rows as int);
                lemma_flat_index_bound(j, i, columns as int, rows as int);
            }
        }
        t
    }

    /// The matrix product `self * other`, each entry the sum over the shared
    /// dimension of the products of a row of `self` and a column of `other`.
    pub fn multiply(&self, other: &Matrix<T>) -> (r: Result<Matrix<T>, MatrixError>)
        requires
            self.wf(),
            other.wf(),
            self.rows * other.columns <= usize::MAX,
        ensures
            r is Ok <==> self.columns == other.rows,
            r matches Err(e) ==> e == (MatrixError::ShapeMismatch {
                left_rows: self.rows,
                left_columns: self.columns,
                right_rows: other.rows,
                right_columns: other.columns,
            }),
            r matches Ok(m) ==> m.wf() && m.rows == self.rows && m.columns == other.columns && forall|
                i: int,
                j: int,
            |
                0 <= i < m.rows && 0 <= j < m.columns ==> #[trigger] m.at(i, j) == product_entry(
                    *self,
                    *other,
                    i,
                    j,
                    self.columns as nat,
                ),
    {
        match self.check_multiplication_compatible(other) {
            Ok(()) => {},
            Err(e) => return Err(e),
        }
        let rows = self.rows;
        let columns = other.columns;
        let shared = self.columns;
        let total = rows * columns;
        let mut data: Vec<T> = Vec::new();
        let mut k: usize = 0;
        while k < total
            invariant
                self.wf(),
                other.wf(),
                self.rows == rows,
                self.columns == shared,
                other.rows == shared,
                other.columns == columns,
                total == rows * columns,
                k <= total,
                data@.len() == k,
                forall|q: int|
                    0 <= q < k ==> #[trigger] data@[q] == product_entry(
                        *self,
                        *other,
                        q / columns as int,
                        q % columns as int,
                        shared as nat,
                    ),
            decreases total - k,
        {
            proof {
                lemma_flat_index_recover(k as int, rows as int, columns as int);
            }
            let i = k / columns;
            let j = k % columns;
            let mut sum = T::zero();
            let mut p: usize = 0;
            while p < shared
                invariant
                    self.wf(),
                    other.wf(),
                    self.rows == rows,
                    self.columns == shared,
                    other.rows == shared,
                    other.columns == columns,
                    i < rows,
                    j < columns,
                    p <= shared,
                    sum == product_entry(*self, *other, i as int, j as int, p as nat),
                decreases shared - p,
            {
                sum = sum.plus(self.get(i, p).times(other.get(p, j)));
                p += 1;
            }
            data.push(sum);
            k += 1;
        }
        let m = Matrix { data, rows, columns };
        proof {
            assert forall|i: int, j: int| 0 <= i < rows && 0 <= j < columns implies #[trigger] m.at(i, j)
                == product_entry(*self, *other, i, j, shared as nat) by {
                lemma_flat_index_split(i, j, columns as int);
                lemma_flat_index_bound(i, j, rows as int, columns as int);
            }
        }
        Ok(m)
    }

    /// A square matrix with `values` on the diagonal and `fill` elsewhere.
    pub fn from_diagonal(values: &Vec<T>, fill: T) -> (m: Matrix<T>)
        requires
            values@.len() * values@.len() <= usize::MAX,
        ensures
            m.wf(),
            m.rows == values@.len(),
            m.columns == values@.len(),
            forall|i: int, j: int|
                0 <= i < m.rows && 0 <= j < m.columns ==> #[trigger] m.at(i, j) == if i == j {
                    values@[i]
                } else {
                    fill
                },
    {
        let n = values.len();
        let total = n * n;
        let mut data: Vec<T> = Vec::new();
        let mut k: usize = 0;
        while k < total
            invariant
                n == values@.len(),
                total == n * n,
                k <= total,
                data@.len() == k,
                forall|q: int|
                    0 <= q < k ==> #[trigger] data@[q] == if q / n as int == q % n as int {
                        values@[q / n as int]
                    } else {
                        fill
                    },
            decreases total - k,
        {
            proof {
                lemma_flat_index_recover(k as int, n as int, n as int);
            }
            let i = k / n;
            let j = k % n;
            if i == j {
                data.push(values[i]);
            } else {
                data.push(fill);
            }
            k += 1;
        }
        let m = Matrix { data, rows: n, columns: n };
        proof {
            assert forall|i: int, j: int| 0 <= i < n && 0 <= j < n implies #[trigger] m.at(i, j) == if i
                == j {
                values@[i]
            } else {
                fill
            } by {
                lemma_flat_index_split(i, j, n as int);
                lemma_flat_index_bound(i, j, n as int, n as int);
            }
        }
        m
    }

    /// A square matrix with `values` on the diagonal and zeros elsewhere.
    pub fn diagonal(values: &Vec<T>) -> (m: Matrix<T>)
        requires
            values@.len() > 0,
            values@.len() * values@.len() <= usize::MAX,
        ensures
            m.wf(),
            m.rows == values@.len(),
            m.columns == values@.len(),
            forall|i: int, j: int|
                0 <= i < m.rows && 0 <= j < m.columns ==> #[trigger] m.at(i, j) == if i == j {
                    values@[i]
                } else {
                    T::spec_zero()
                },
    {
        Self::from_diagonal(values, T::zero())
    }

    /// The `size x size` identity: ones on the diagonal, zeros elsewhere.
    pub fn identity(size: usize) -> (m: Matrix<T>)
        requires
            size * size <= usize::MAX,
        ensures
            m.wf(),
            m.rows == size,
            m.columns == size,
            forall|i: int, j: int|
                0 <= i < size && 0 <= j < size ==> #[trigger] m.at(i, j) == if i == j {
                    T::spec_one()
                } else {
                    T::spec_zero()
                },
    {
        let one = T::one();
        let mut values: Vec<T> = Vec::new();
        let mut k: usize = 0;
        while k < size
            invariant
                k <= size,
                values@.len() == k,
                one == T::spec_one(),
                forall|q: int| 0 <= q < k ==> #[trigger] values@[q] == one,
            decreases size - k,
        {
            values.push(one);
            k += 1;
        }
        Self::from_diagonal(&values, T::zero())
    }

    /// A `rows x columns` matrix of zeros.
    pub fn zeros(rows: usize, columns: usize) -> (m: Matrix<T>)
        requires
            rows * columns <= usize::MAX,
        ensures
            m.wf(),
            m.rows == rows,
            m.columns == columns,
            forall|k: int| 0 <= k < m.data@.len() ==> #[trigger] m.data@[k] == T::spec_zero(),
    {
        Self::filled(rows, columns, T::zero())
    }

    /// A `rows x columns` matrix of ones.
    pub fn ones(rows: usize, columns: usize) -> (m: Matrix<T>)
        requires
            rows * columns <= usize::MAX,
        ensures
            m.wf(),
            m.rows == rows,
            m.columns == columns,
            forall|k: int| 0 <= k < m.data@.len() ==> #[trigger] m.data@[k] == T::spec_one(),
    {
        Self::filled(rows, columns, T::one())
    }
}

} // verus!
