use vstd::prelude::*;
use crate::error::MatrixError;
use crate::matrix::Matrix;
use crate::scalar::Scalar;

verus! {

/// `m` has the shape of `a` and element `k` of `m` is what `op` gives for
/// element `k` of `a` and element `k` of `b`.
pub open spec fn combines<T: Copy, F: Fn(T, T) -> T>(m: Matrix<T>, a: Matrix<T>, b: Seq<T>, op: F) -> bool {
    &&& m.wf()
    &&& m.same_shape(&a)
    &&& forall|k: int| 0 <= k < m.data@.len() ==> op.ensures((a.data@[k], b[k]), #[trigger] m.data@[k])
}

/// `m` has the shape of `a` and element `k` of `m` is what `op` gives for
/// element `k` of `a` and `s`.
pub open spec fn combines_scalar<T: Copy, F: Fn(T, T) -> T>(m: Matrix<T>, a: Matrix<T>, s: T, op: F) -> bool {
    &&& m.wf()
    &&& m.same_shape(&a)
    &&& forall|k: int| 0 <= k < m.data@.len() ==> op.ensures((a.data@[k], s), #[trigger] m.data@[k])
}

/// `a + b` as an operation that can be handed to the element-wise engine.
pub(crate) fn sum<T: Scalar>(a: T, b: T) -> (r: T)
    ensures
        r == a.spec_plus(b),
{
    a.plus(b)
}

/// `a - b` as an operation that can be handed to the element-wise engine.
pub(crate) fn difference<T: Scalar>(a: T, b: T) -> (r: T)
    ensures
        r == a.spec_minus(b),
{
    a.minus(b)
}

/// `a * b` as an operation that can be handed to the element-wise engine.
pub(crate) fn product<T: Scalar>(a: T, b: T) -> (r: T)
    ensures
        r == a.spec_times(b),
{
    a.times(b)
}

/// `a / b` as an operation that can be handed to the element-wise engine.
pub(crate) fn quotient<T: Scalar>(a: T, b: T) -> (r: T)
    ensures
        r == a.spec_divide(b),
{
    a.divide(b)
}

impl<T: Scalar> Matrix<T> {
    /// Combines two matrices of one shape element by element with `op`.
    pub fn elementwise_operation<F: Fn(T, T) -> T>(&self, other: &Matrix<T>, op: F) -> (r: Result<
        Matrix<T>,
        MatrixError,
    >)
        requires
            self.wf(),
            other.wf(),
            forall|a: T, b: T| op.requires((a, b)),
        ensures
            r is Ok <==> self.same_shape(other),
            r matches Err(e) ==> e == (MatrixError::ShapeMismatch {
                left_rows: self.rows,
                left_columns: self.columns,
                right_rows: other.rows,
                right_columns: other.columns,
            }),
            r matches Ok(m) ==> combines(m, *self, other.data@, op),
    {
        match self.check_dimensions_match(other) {
            Ok(()) => {},
            Err(e) => return Err(e),
        }
        let n = self.data.len();
        let mut data: Vec<T> = Vec::new();
        let mut k: usize = 0;
        while k < n
            invariant
                n == self.data@.len(),
                n == other.data@.len(),
                forall|a: T, b: T| op.requires((a, b)),
                k <= n,
                data@.len() == k,
                forall|i: int| 0 <= i < k ==> op.ensures((self.data@[i], other.data@[i]), #[trigger] data@[i]),
            decreases n - k,
        {
            let v = op(self.data[k], other.data[k]);
            data.push(v);
            k += 1;
        }
        Ok(Matrix { data, rows: self.rows, columns: self.columns })
    }

    /// Combines every element with the scalar `scalar` through `op`.
    pub fn scalar_operation<F: Fn(T, T) -> T>(&self, scalar: T, op: F) -> (m: Matrix<T>)
        requires
            self.wf(),
            forall|a: T, b: T| op.requires((a, b)),
        ensures
            combines_scalar(m, *self, scalar, op),
    {
        let n = self.data.len();
        let mut data: Vec<T> = Vec::new();
        let mut k: usize = 0;
        while k < n
            invariant
                n == self.data@.len(),
                forall|a: T, b: T| op.requires((a, b)),
                k <= n,
                data@.len() == k,
                forall|i: int| 0 <= i < k ==> op.ensures((self.data@[i], scalar), #[trigger] data@[i]),
            decreases n - k,
        {
            let v = op(self.data[k], scalar);
            data.push(v);
            k += 1;
        }
        Matrix { data, rows: self.rows, columns: self.columns }
    }

    /// Maps every element through `func`, keeping the shape.
    pub fn apply<F: Fn(T) -> T>(self, func: F) -> (m: Matrix<T>)
        requires
            self.wf(),
            forall|a: T| func.requires((a,)),
        ensures
            m.wf(),
            m.same_shape(&self),
            forall|k: int| 0 <= k < m.data@.len() ==> func.ensures((self.data@[k],), #[trigger] m.data@[k]),
    {
        let n = self.data.len();
        let mut data: Vec<T> = Vec::new();
        let mut k: usize = 0;
        while k < n
            invariant
                n == self.data@.len(),
                forall|a: T| func.requires((a,)),
                k <= n,
                data@.len() == k,
                forall|i: int| 0 <= i < k ==> func.ensures((self.data@[i],), #[trigger] data@[i]),
            decreases n - k,
        {
            let v = func(self.data[k]);
            data.push(v);
            k += 1;
        }
        Matrix { data, rows: self.rows, columns: self.columns }
    }

    /// Element-by-element sum of two matrices of one shape.
    pub fn addition(&self, other: &Matrix<T>) -> (r: Result<Matrix<T>, MatrixError>)
        requires
            self.wf(),
            other.wf(),
        ensures
            r is Ok <==> self.same_shape(other),
            r matches Err(e) ==> e == (MatrixError::ShapeMismatch {
                left_rows: self.rows,
                left_columns: self.columns,
                right_rows: other.rows,
                right_columns: other.columns,
            }),
            r matches Ok(m) ==> m.wf() && m.same_shape(self) && forall|k: int|
                0 <= k < m.data@.len() ==> #[trigger] m.data@[k] == self.data@[k].spec_plus(other.data@[k]),
    {
        self.elementwise_operation(other, sum::<T>)
    }

    /// Element-by-element difference of two matrices of one shape.
    pub fn subtraction(&self, other: &Matrix<T>) -> (r: Result<Matrix<T>, MatrixError>)
        requires
            self.wf(),
            other.wf(),
        ensures
            r is Ok <==> self.same_shape(other),
            r matches Err(e) ==> e == (MatrixError::ShapeMismatch {
                left_rows: self.rows,
                left_columns: self.columns,
                right_rows: other.rows,
                right_columns: other.columns,
            }),
            r matches Ok(m) ==> m.wf() && m.same_shape(self) && forall|k: int|
                0 <= k < m.data@.len() ==> #[trigger] m.data@[k] == self.data@[k].spec_minus(other.data@[k]),
    {
        self.elementwise_operation(other, difference::<T>)
    }

    /// Element-by-element (Hadamard) product of two matrices of one shape.
    pub fn hadamard_multiplication(&self, other: &Matrix<T>) -> (r: Result<Matrix<T>, MatrixError>)
        requires
            self.wf(),
            other.wf(),
        ensures
            r is Ok <==> self.same_shape(other),
            r matches Err(e) ==> e == (MatrixError::ShapeMismatch {
                left_rows: self.rows,
                left_columns: self.columns,
                right_rows: other.rows,
                right_columns: other.columns,
            }),
            r matches Ok(m) ==> m.wf() && m.same_shape(self) && forall|k: int|
                0 <= k < m.data@.len() ==> #[trigger] m.data@[k] == self.data@[k].spec_times(other.data@[k]),
    {
        self.elementwise_operation(other, product::<T>)
    }

    /// Element-by-element (Hadamard) quotient of two matrices of one shape.
    pub fn hadamard_division(&self, other: &Matrix<T>) -> (r: Result<Matrix<T>, MatrixError>)
        requires
            self.wf(),
            other.wf(),
        ensures
            r is Ok <==> self.same_shape(other),
            r matches Err(e) ==> e == (MatrixError::ShapeMismatch {
                left_rows: self.rows,
                left_columns: self.columns,
                right_rows: other.rows,
                right_columns: other.columns,
            }),
            r matches Ok(m) ==> m.wf() && m.same_shape(self) && forall|k: int|
                0 <= k < m.data@.len() ==> #[trigger] m.data@[k] == self.data@[k].spec_divide(other.data@[k]),
    {
        self.elementwise_operation(other, quotient::<T>)
    }

    /// Adds `scalar` to every element.
    pub fn scalar_addition(&self, scalar: T) -> (m: Matrix<T>)
        requires
            self.wf(),
        ensures
            m.wf(),
            m.same_shape(self),
            forall|k: int| 0 <= k < m.data@.len() ==> #[trigger] m.data@[k] == self.data@[k].spec_plus(scalar),
    {
        self.scalar_operation(scalar, sum::<T>)
    }

    /// Subtracts `scalar` from every element.
    pub fn scalar_subtraction(&self, scalar: T) -> (m: Matrix<T>)
        requires
            self.wf(),
        ensures
            m.wf(),
            m.same_shape(self),
            forall|k: int| 0 <= k < m.data@.len() ==> #[trigger] m.data@[k] == self.data@[k].spec_minus(scalar),
    {
        self.scalar_operation(scalar, difference::<T>)
    }

    /// Multiplies every element by `scalar`.
    pub fn scalar_multiplication(&self, scalar: T) -> (m: Matrix<T>)
        requires
            self.wf(),
        ensures
            m.wf(),
            m.same_shape(self),
            forall|k: int| 0 <= k < m.data@.len() ==> #[trigger] m.data@[k] == self.data@[k].spec_times(scalar),
    {
        self.scalar_operation(scalar, product::<T>)
    }

    /// Divides every element by `scalar`; a zero divisor is handed to the
    /// element type's division as it is.
    pub fn scalar_division(&self, scalar: T) -> (m: Matrix<T>)
        requires
            self.wf(),
        ensures
            m.wf(),
            m.same_shape(self),
            forall|k: int| 0 <= k < m.data@.len() ==> #[trigger] m.data@[k] == self.data@[k].spec_divide(scalar),
    {
        self.scalar_operation(scalar, quotient::<T>)
    }

    /// Every element multiplied by minus one.
    pub fn negation(&self) -> (m: Matrix<T>)
        requires
            self.wf(),
        ensures
            m.wf(),
            m.same_shape(self),
            forall|k: int|
                0 <= k < m.data@.len() ==> #[trigger] m.data@[k] == self.data@[k].spec_times(
                    T::spec_one().spec_negate(),
                ),
    {
        self.scalar_multiplication(T::one().negate())
    }
}

} // verus!
