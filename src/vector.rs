use vstd::prelude::*;
use crate::error::MatrixError;
use crate::elementwise::{product, quotient};
use crate::matrix::Matrix;
use crate::model::{cross_of, dot_of, magnitude_of};
use crate::scalar::Scalar;

verus! {

/// What an operation on the vectors `a` and `b` owes: both must be vectors
/// (checked first), then of one shape.
pub open spec fn vector_pair_outcome<T: Copy, R>(a: Matrix<T>, b: Matrix<T>, r: Result<R, MatrixError>) -> bool {
    &&& !(a.is_vector() && b.is_vector()) ==> r == Err::<R, MatrixError>(MatrixError::NotAVector)
    &&& (a.is_vector() && b.is_vector() && !a.same_shape(&b)) ==> r == Err::<R, MatrixError>(
        MatrixError::ShapeMismatch {
            left_rows: a.rows,
            left_columns: a.columns,
            right_rows: b.rows,
            right_columns: b.columns,
        },
    )
    &&& (a.is_vector() && b.is_vector() && a.same_shape(&b)) ==> r is Ok
}

impl<T: Scalar> Matrix<T> {
    /// The sum of the products of corresponding elements of two vectors of
    /// one shape.
    pub fn dot_product(&self, other: &Matrix<T>) -> (r: Result<T, MatrixError>)
        requires
            self.wf(),
            other.wf(),
        ensures
            vector_pair_outcome(*self, *other, r),
            r matches Ok(d) ==> d == dot_of(self.data@, other.data@, self.data@.len()),
    {
        if !self.check_vector() || !other.check_vector() {
            return Err(MatrixError::NotAVector);
        }
        match self.check_dimensions_match(other) {
            Ok(()) => {},
            Err(e) => return Err(e),
        }
        let n = self.data.len();
        let mut sum = T::zero();
        let mut k: usize = 0;
        while k < n
            invariant
                n == self.data@.len(),
                n == other.data@.len(),
                k <= n,
                sum == dot_of(self.data@, other.data@, k as nat),
            decreases n - k,
        {
            sum = sum.plus(self.data[k].times(other.data[k]));
            k += 1;
        }
        Ok(sum)
    }

    /// The cross product of two 3D vectors, as a 3x1 column.
    pub fn cross_product(&self, other: &Matrix<T>) -> (r: Result<Matrix<T>, MatrixError>)
        requires
            self.wf(),
            other.wf(),
        ensures
            r is Ok <==> (self.is_3d_vector() && other.is_3d_vector()),
            r matches Err(e) ==> e == MatrixError::NotA3DVector,
            r matches Ok(m) ==> m.wf() && m.rows == 3 && m.columns == 1 && m.data@ == cross_of(
                self.data@,
                other.data@,
            ),
    {
        if !self.check_3d_vector() || !other.check_3d_vector() {
            return Err(MatrixError::NotA3DVector);
        }
        let a = &self.data;
        let b = &other.data;
        let mut data: Vec<T> = Vec::new();
        data.push(a[1].times(b[2]).minus(a[2].times(b[1])));
        data.push(a[2].times(b[0]).minus(a[0].times(b[2])));
        data.push(a[0].times(b[1]).minus(a[1].times(b[0])));
        assert(data@ =~= cross_of(self.data@, other.data@));
        let m = Matrix { data, rows: 3, columns: 1 };
        assert(m.rows * m.columns == 3) by (nonlinear_arith)
            requires
                m.rows == 3,
                m.columns == 1,
        ;
        Ok(m)
    }

    /// The cross product of two 2D vectors: the signed area
    /// `a0 * b1 - a1 * b0` of the parallelogram they span.
    pub fn cross_2d(&self, other: &Matrix<T>) -> (r: Result<T, MatrixError>)
        requires
            self.wf(),
            other.wf(),
        ensures
            r is Ok <==> (self.is_2d_vector() && other.is_2d_vector()),
            r matches Err(e) ==> e == MatrixError::NotA2DVector,
            r matches Ok(v) ==> v == self.data@[0].spec_times(other.data@[1]).spec_minus(
                self.data@[1].spec_times(other.data@[0]),
            ),
    {
        let two_d = ((self.rows == 2 && self.columns == 1) || (self.rows == 1 && self.columns == 2))
            && self.data.len() == 2;
        let other_two_d = ((other.rows == 2 && other.columns == 1) || (other.rows == 1
            && other.columns == 2)) && other.data.len() == 2;
        if !two_d || !other_two_d {
            return Err(MatrixError::NotA2DVector);
        }
        let a = &self.data;
        let b = &other.data;
        Ok(a[0].times(b[1]).minus(a[1].times(b[0])))
    }

    /// The Euclidean length of a vector: the square root of its dot product
    /// with itself.
    pub fn magnitude(&self) -> (r: Result<T, MatrixError>)
        requires
            self.wf(),
        ensures
            r is Ok <==> self.is_vector(),
            r matches Err(e) ==> e == MatrixError::NotAVector,
            r matches Ok(v) ==> v == magnitude_of(self.data@),
    {
        if !self.check_vector() {
            return Err(MatrixError::NotAVector);
        }
        match self.dot_product(self) {
            Ok(dot) => Ok(dot.square_root()),
            Err(e) => Err(e),
        }
    }

    /// The vector divided by its length; a vector of length zero is refused.
    pub fn unit_vector(&self) -> (r: Result<Matrix<T>, MatrixError>)
        requires
            self.wf(),
        ensures
            !self.is_vector() ==> r == Err::<Matrix<T>, MatrixError>(MatrixError::NotAVector),
            self.is_vector() ==> (r is Err <==> magnitude_of(self.data@).spec_eq(T::spec_zero())),
            self.is_vector() && r is Err ==> r == Err::<Matrix<T>, MatrixError>(MatrixError::ZeroMagnitude),
            r matches Ok(m) ==> m.wf() && m.same_shape(self) && forall|k: int|
                0 <= k < m.data@.len() ==> #[trigger] m.data@[k] == self.data@[k].spec_divide(
                    magnitude_of(self.data@),
                ),
    {
        let mag = match self.magnitude() {
            Ok(m) => m,
            Err(e) => return Err(e),
        };
        if mag.equals(T::zero()) {
            return Err(MatrixError::ZeroMagnitude);
        }
        Ok(self.scalar_operation(mag, quotient::<T>))
    }

    /// Divides the vector by its length in place; on a refusal the vector is
    /// left as it was.
    pub fn normalize(&mut self) -> (r: Result<(), MatrixError>)
        requires
            old(self).wf(),
        ensures
            final(self).wf(),
            final(self).same_shape(old(self)),
            !old(self).is_vector() ==> r == Err::<(), MatrixError>(MatrixError::NotAVector),
            old(self).is_vector() ==> (r is Err <==> magnitude_of(old(self).data@).spec_eq(
                T::spec_zero(),
            )),
            old(self).is_vector() && r is Err ==> r == Err::<(), MatrixError>(MatrixError::ZeroMagnitude),
            r is Err ==> *final(self) == *old(self),
            r is Ok ==> forall|k: int|
                0 <= k < final(self).data@.len() ==> #[trigger] final(self).data@[k]
                    == old(self).data@[k].spec_divide(magnitude_of(old(self).data@)),
    {
        let mag = match self.magnitude() {
            Ok(m) => m,
            Err(e) => return Err(e),
        };
        if mag.equals(T::zero()) {
            return Err(MatrixError::ZeroMagnitude);
        }
        let n = self.data.len();
        let ghost before = self.data@;
        let ghost rows = self.rows;
        let ghost columns = self.columns;
        let mut k: usize = 0;
        while k < n
            invariant
                n == self.data@.len(),
                self.rows == rows,
                self.columns == columns,
                k <= n,
                before.len() == n,
                mag == magnitude_of(before),
                forall|q: int| 0 <= q < k ==> #[trigger] self.data@[q] == before[q].spec_divide(mag),
                forall|q: int| k <= q < n ==> #[trigger] self.data@[q] == before[q],
            decreases n - k,
        {
            let v = self.data[k].divide(mag);
            self.data.set(k, v);
            k += 1;
        }
        Ok(())
    }

    /// The signed length of the projection of `self` onto `other`:
    /// `(self . other) / |other|`.
    pub fn scalar_projection_onto(&self, other: &Matrix<T>) -> (r: Result<T, MatrixError>)
        requires
            self.wf(),
            other.wf(),
        ensures
            vector_pair_outcome(*self, *other, r),
            r matches Ok(v) ==> v == dot_of(self.data@, other.data@, self.data@.len()).spec_divide(
                magnitude_of(other.data@),
            ),
    {
        let dot = match self.dot_product(other) {
            Ok(d) => d,
            Err(e) => return Err(e),
        };
        let other_mag = match other.magnitude() {
            Ok(m) => m,
            Err(e) => return Err(e),
        };
        Ok(dot.divide(other_mag))
    }

    /// The projection of `self` onto `other`: `other` scaled by
    /// `(self . other) / (other . other)`.
    pub fn vector_projection_onto(&self, other: &Matrix<T>) -> (r: Result<Matrix<T>, MatrixError>)
        requires
            self.wf(),
            other.wf(),
        ensures
            vector_pair_outcome(*self, *other, r),
            r matches Ok(m) ==> m.wf() && m.same_shape(other) && forall|k: int|
                0 <= k < m.data@.len() ==> #[trigger] m.data@[k] == other.data@[k].spec_times(
                    dot_of(self.data@, other.data@, self.data@.len()).spec_divide(
                        dot_of(other.data@, other.data@, other.data@.len()),
                    ),
                ),
    {
        let dot = match self.dot_product(other) {
            Ok(d) => d,
            Err(e) => return Err(e),
        };
        let other_mag_squared = match other.dot_product(other) {
            Ok(d) => d,
            Err(e) => return Err(e),
        };
        let scale = dot.divide(other_mag_squared);
        Ok(other.scalar_operation(scale, product::<T>))
    }
}

} // verus!
