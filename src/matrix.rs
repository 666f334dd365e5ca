use vstd::prelude::*;
use crate::arith::{lemma_flat_index_bound, lemma_flat_index_recover, lemma_flat_index_unique};
use crate::model::swap_rows_seq;
use crate::error::MatrixError;

verus! {

/// A dense matrix stored row by row: the element at row `r`, column `c`
/// sits at `data[r * columns + c]`.
#[derive(Clone, Debug)]
pub struct Matrix<T> {
    pub data: Vec<T>,
    pub rows: usize,
    pub columns: usize,
}

/// The row whose contents land in row `i` when rows `r1` and `r2` trade places.
pub open spec fn swapped_row(i: int, r1: int, r2: int) -> int {
    if i == r1 {
        r2
    } else if i == r2 {
        r1
    } else {
        i
    }
}

impl<T: Copy> Matrix<T> {
    /// The storage holds exactly one element for each cell.
    pub open spec fn wf(&self) -> bool {
        self.data@.len() == self.rows * self.columns
    }

    /// The element at row `r`, column `c`.
    pub open spec fn at(&self, r: int, c: int) -> T {
        self.data@[r * self.columns + c]
    }

    pub open spec fn is_square(&self) -> bool {
        self.rows == self.columns
    }

    pub open spec fn is_vector(&self) -> bool {
        self.rows == 1 || self.columns == 1
    }

    pub open spec fn is_2d_vector(&self) -> bool {
        ((self.rows == 2 && self.columns == 1) || (self.rows == 1 && self.columns == 2))
            && self.data@.len() == 2
    }

    pub open spec fn is_3d_vector(&self) -> bool {
        ((self.rows == 3 && self.columns == 1) || (self.rows == 1 && self.columns == 3))
            && self.data@.len() == 3
    }

    pub open spec fn same_shape(&self, other: &Matrix<T>) -> bool {
        self.rows == other.rows && self.columns == other.columns
    }

    /// Wraps row-major storage as a `rows x columns` matrix, refusing storage
    /// of any other length.
    pub fn from_data(data: Vec<T>, rows: usize, columns: usize) -> (r: Result<Matrix<T>, MatrixError>)
        ensures
            data@.len() == rows * columns <==> r is Ok,
            r matches Ok(m) ==> m.data@ == data@ && m.rows == rows && m.columns == columns && m.wf(),
            r matches Err(e) ==> e == (MatrixError::LengthMismatch {
                rows,
                columns,
                length: data@.len() as usize,
            }),
    {
        let length = data.len();
        if rows.checked_mul(columns) == Some(length) {
            Ok(Matrix { data, rows, columns })
        } else {
            Err(MatrixError::LengthMismatch { rows, columns, length })
        }
    }

    /// A `rows x columns` matrix with every element equal to `value`.
    pub fn filled(rows: usize, columns: usize, value: T) -> (m: Matrix<T>)
        requires
            rows * columns <= usize::MAX,
        ensures
            m.wf(),
            m.rows == rows,
            m.columns == columns,
            forall|k: int| 0 <= k < m.data@.len() ==> m.data@[k] == value,
    {
        let n: usize = rows * columns;
        let mut data: Vec<T> = Vec::new();
        let mut k: usize = 0;
        while k < n
            invariant
                k <= n,
                data@.len() == k,
                forall|i: int| 0 <= i < k ==> data@[i] == value,
            decreases n - k,
        {
            data.push(value);
            k += 1;
        }
        Matrix { data, rows, columns }
    }

    pub fn rows(&self) -> (r: usize)
        ensures
            r == self.rows,
    {
        self.rows
    }

    pub fn columns(&self) -> (r: usize)
        ensures
            r == self.columns,
    {
        self.columns
    }

    /// The number of elements held.
    pub fn size(&self) -> (r: usize)
        ensures
            r == self.data@.len(),
    {
        self.data.len()
    }

    pub fn shape(&self) -> (r: [usize; 2])
        ensures
            r@ == seq![self.rows, self.columns],
    {
        let r = [self.rows, self.columns];
        assert(r@ =~= seq![self.rows, self.columns]);
        r
    }

    /// The element at row `row`, column `column`.
    pub fn get(&self, row: usize, column: usize) -> (r: T)
        requires
            self.wf(),
            row < self.rows,
            column < self.columns,
        ensures
            r == self.at(row as int, column as int),
    {
        let len = self.data.len();
        proof {
            lemma_flat_index_bound(row as int, column as int, self.rows as int, self.columns as int);
        }
        self.data[row * self.columns + column]
    }

    /// A copy of row `row`.
    pub fn row(&self, row: usize) -> (r: Vec<T>)
        requires
            self.wf(),
            row < self.rows,
        ensures
            r@.len() == self.columns,
            forall|j: int| 0 <= j < self.columns ==> #[trigger] r@[j] == self.at(row as int, j),
    {
        let columns = self.columns;
        let mut r: Vec<T> = Vec::new();
        let mut j: usize = 0;
        while j < columns
            invariant
                self.wf(),
                self.columns == columns,
                row < self.rows,
                j <= columns,
                r@.len() == j,
                forall|q: int| 0 <= q < j ==> #[trigger] r@[q] == self.at(row as int, q),
            decreases columns - j,
        {
            r.push(self.get(row, j));
            j += 1;
        }
        r
    }

    /// Replaces the element at row `row`, column `column`.
    pub fn set(&mut self, row: usize, column: usize, value: T)
        requires
            old(self).wf(),
            row < old(self).rows,
            column < old(self).columns,
        ensures
            final(self).rows == old(self).rows,
            final(self).columns == old(self).columns,
            final(self).data@ == old(self).data@.update(
                row * old(self).columns + column,
                value,
            ),
            final(self).wf(),
    {
        let len = self.data.len();
        proof {
            lemma_flat_index_bound(row as int, column as int, self.rows as int, self.columns as int);
        }
        let idx = row * self.columns + column;
        self.data.set(idx, value);
    }
}

impl<T: Copy> Matrix<T> {
    /// Accepts `other` as the right factor of a product: `self.columns == other.rows`.
    pub fn check_multiplication_compatible(&self, other: &Matrix<T>) -> (r: Result<(), MatrixError>)
        ensures
            r is Ok <==> self.columns == other.rows,
            r matches Err(e) ==> e == (MatrixError::ShapeMismatch {
                left_rows: self.rows,
                left_columns: self.columns,
                right_rows: other.rows,
                right_columns: other.columns,
            }),
    {
        if self.columns != other.rows {
            return Err(
                MatrixError::ShapeMismatch {
                    left_rows: self.rows,
                    left_columns: self.columns,
                    right_rows: other.rows,
                    right_columns: other.columns,
                },
            );
        }
        Ok(())
    }

    /// Accepts exactly the shape `rows x columns`.
    pub fn check_dimensions(&self, rows: usize, columns: usize) -> (r: Result<(), MatrixError>)
        ensures
            r is Ok <==> (self.rows == rows && self.columns == columns),
            r matches Err(e) ==> e == (MatrixError::UnexpectedShape {
                expected_rows: rows,
                expected_columns: columns,
                rows: self.rows,
                columns: self.columns,
            }),
    {
        if self.rows != rows || self.columns != columns {
            return Err(
                MatrixError::UnexpectedShape {
                    expected_rows: rows,
                    expected_columns: columns,
                    rows: self.rows,
                    columns: self.columns,
                },
            );
        }
        Ok(())
    }

    /// Accepts `other` when it has the same shape as `self`.
    pub fn check_dimensions_match(&self, other: &Matrix<T>) -> (r: Result<(), MatrixError>)
        ensures
            r is Ok <==> self.same_shape(other),
            r matches Err(e) ==> e == (MatrixError::ShapeMismatch {
                left_rows: self.rows,
                left_columns: self.columns,
                right_rows: other.rows,
                right_columns: other.columns,
            }),
    {
        if self.rows != other.rows || self.columns != other.columns {
            return Err(
                MatrixError::ShapeMismatch {
                    left_rows: self.rows,
                    left_columns: self.columns,
                    right_rows: other.rows,
                    right_columns: other.columns,
                },
            );
        }
        Ok(())
    }

    /// Accepts a square matrix.
    pub fn check_square(&self) -> (r: Result<(), MatrixError>)
        ensures
            r is Ok <==> self.is_square(),
            r matches Err(e) ==> e == (MatrixError::NotSquare { rows: self.rows, columns: self.columns }),
    {
        if self.rows != self.columns {
            return Err(MatrixError::NotSquare { rows: self.rows, columns: self.columns });
        }
        Ok(())
    }

    /// A single row or a single column.
    pub fn check_vector(&self) -> (r: bool)
        ensures
            r == self.is_vector(),
    {
        self.rows == 1 || self.columns == 1
    }

    /// A 3x1 or 1x3 matrix that holds three elements.
    pub fn check_3d_vector(&self) -> (r: bool)
        ensures
            r == self.is_3d_vector(),
    {
        ((self.rows == 3 && self.columns == 1) || (self.rows == 1 && self.columns == 3))
            && self.data.len() == 3
    }

    /// Exchanges rows `row1` and `row2` in place; an index past the last row
    /// leaves the matrix as it was.
    pub fn swap_rows(&mut self, row1: usize, row2: usize)
        requires
            old(self).wf(),
        ensures
            final(self).wf(),
            final(self).rows == old(self).rows,
            final(self).columns == old(self).columns,
            row1 >= old(self).rows || row2 >= old(self).rows ==> final(self).data@ == old(self).data@,
            row1 < old(self).rows && row2 < old(self).rows ==> forall|i: int, j: int|
                0 <= i < old(self).rows && 0 <= j < old(self).columns ==> #[trigger] final(self).at(i, j)
                    == old(self).at(swapped_row(i, row1 as int, row2 as int), j),
            row1 < old(self).rows && row2 < old(self).rows ==> final(self).data@ == swap_rows_seq(
                old(self).data@,
                old(self).columns as int,
                row1 as int,
                row2 as int,
            ),
    {
        if row1 >= self.rows || row2 >= self.rows {
            return;
        }
        let columns = self.columns;
        let rows = self.rows;
        let len = self.data.len();
        let ghost before = self.data@;
        let mut col: usize = 0;
        while col < columns
            invariant
                self.rows == rows,
                self.columns == columns,
                len == before.len(),
                len == rows * columns,
                row1 < rows,
                row2 < rows,
                col <= columns,
                self.data@.len() == before.len(),
                forall|i: int, j: int|
                    0 <= i < rows && 0 <= j < columns ==> (#[trigger] self.data@[i * columns + j])
                        == if j < col {
                        before[swapped_row(i, row1 as int, row2 as int) * columns + j]
                    } else {
                        before[i * columns + j]
                    },
            decreases columns - col,
        {
            proof {
                lemma_flat_index_bound(row1 as int, col as int, rows as int, columns as int);
                lemma_flat_index_bound(row2 as int, col as int, rows as int, columns as int);
            }
            let ghost prev = self.data@;
            let idx1 = row1 * columns + col;
            let idx2 = row2 * columns + col;
            let a = self.data[idx1];
            let b = self.data[idx2];
            self.data.set(idx1, b);
            self.data.set(idx2, a);
            proof {
                assert(prev[idx1 as int] == before[row1 * columns + col]);
                assert(prev[idx2 as int] == before[row2 * columns + col]);
                assert forall|i: int, j: int| 0 <= i < rows && 0 <= j < columns implies
                    (#[trigger] self.data@[i * columns + j]) == if j < col + 1 {
                        before[swapped_row(i, row1 as int, row2 as int) * columns + j]
                    } else {
                        before[i * columns + j]
                    } by {
                    lemma_flat_index_bound(i, j, rows as int, columns as int);
                    lemma_flat_index_unique(i, j, row1 as int, col as int, columns as int);
                    lemma_flat_index_unique(i, j, row2 as int, col as int, columns as int);
                    assert(prev[i * columns + j] == if j < col {
                        before[swapped_row(i, row1 as int, row2 as int) * columns + j]
                    } else {
                        before[i * columns + j]
                    });
                }
            }
            col += 1;
        }
        proof {
            assert forall|k: int| 0 <= k < len implies #[trigger] self.data@[k] == swap_rows_seq(
                before,
                columns as int,
                row1 as int,
                row2 as int,
            )[k] by {
                lemma_flat_index_recover(k, rows as int, columns as int);
            }
            assert(self.data@ =~= swap_rows_seq(before, columns as int, row1 as int, row2 as int));
        }
    }
}

} // verus!
