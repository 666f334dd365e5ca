use nelab::{Matrix, MatrixError, Scalar};

/// A 64-bit float as a matrix element.
#[derive(Clone, Copy, Debug, PartialEq)]
struct R(f64);

impl Scalar for R {
    fn spec_zero() -> Self {
        Self::zero()
    }
    fn spec_one() -> Self {
        Self::one()
    }
    fn spec_epsilon() -> Self {
        Self::epsilon()
    }
    fn spec_plus(self, other: Self) -> Self {
        self.plus(other)
    }
    fn spec_minus(self, other: Self) -> Self {
        self.minus(other)
    }
    fn spec_times(self, other: Self) -> Self {
        self.times(other)
    }
    fn spec_divide(self, other: Self) -> Self {
        self.divide(other)
    }
    fn spec_negate(self) -> Self {
        self.negate()
    }
    fn spec_abs(self) -> Self {
        self.absolute()
    }
    fn spec_sqrt(self) -> Self {
        self.square_root()
    }
    fn spec_lt(self, other: Self) -> bool {
        self.less_than(other)
    }
    fn spec_eq(self, other: Self) -> bool {
        self.equals(other)
    }
    fn zero() -> Self {
        R(0.0)
    }
    fn one() -> Self {
        R(1.0)
    }
    fn epsilon() -> Self {
        R(f64::EPSILON)
    }
    fn plus(self, other: Self) -> Self {
        R(self.0 + other.0)
    }
    fn minus(self, other: Self) -> Self {
        R(self.0 - other.0)
    }
    fn times(self, other: Self) -> Self {
        R(self.0 * other.0)
    }
    fn divide(self, other: Self) -> Self {
        R(self.0 / other.0)
    }
    fn negate(self) -> Self {
        R(-self.0)
    }
    fn absolute(self) -> Self {
        R(self.0.abs())
    }
    fn square_root(self) -> Self {
        R(self.0.sqrt())
    }
    fn less_than(self, other: Self) -> bool {
        self.0 < other.0
    }
    fn equals(self, other: Self) -> bool {
        self.0 == other.0
    }
}

fn mat(data: &[f64], rows: usize, columns: usize) -> Matrix<R> {
    Matrix { data: data.iter().map(|&x| R(x)).collect(), rows, columns }
}

fn vals(m: &Matrix<R>) -> Vec<f64> {
    m.data.iter().map(|x| x.0).collect()
}

fn close(a: f64, b: f64, tol: f64) -> bool {
    (a - b).abs() <= tol
}

fn test_matrix() -> Matrix<R> {
    mat(&[1.0, 2.0, 3.0, 4.0], 2, 2)
}

#[test]
fn test_matrix_creation() {
    let zeros: Matrix<R> = Matrix::zeros(2, 2);
    assert_eq!(vals(&zeros), vec![0.0, 0.0, 0.0, 0.0]);

    let ones: Matrix<R> = Matrix::ones(2, 2);
    assert_eq!(vals(&ones), vec![1.0, 1.0, 1.0, 1.0]);

    let identity: Matrix<R> = Matrix::identity(2);
    assert_eq!(vals(&identity), vec![1.0, 0.0, 0.0, 1.0]);

    let diagonal = Matrix::diagonal(&vec![R(1.0), R(2.0)]);
    assert_eq!(vals(&diagonal), vec![1.0, 0.0, 0.0, 2.0]);
}

#[test]
fn test_addition() {
    let m1 = test_matrix();
    let m2: Matrix<R> = Matrix::ones(2, 2);

    let sum = m1.addition(&m2).unwrap();
    assert_eq!(vals(&sum), vec![2.0, 3.0, 4.0, 5.0]);

    let m3: Matrix<R> = Matrix::ones(3, 3);
    assert!(m1.addition(&m3).is_err());
}

#[test]
fn test_scalar_operations() {
    let m = test_matrix();

    let added = m.scalar_addition(R(1.0));
    assert_eq!(vals(&added), vec![2.0, 3.0, 4.0, 5.0]);

    let multiplied = m.scalar_multiplication(R(2.0));
    assert_eq!(vals(&multiplied), vec![2.0, 4.0, 6.0, 8.0]);

    let divided = m.scalar_division(R(2.0));
    assert_eq!(vals(&divided), vec![0.5, 1.0, 1.5, 2.0]);
}

#[test]
fn test_multiplication() {
    let m1 = test_matrix();
    let m2 = mat(&[5.0, 6.0, 7.0, 8.0], 2, 2);

    let product = m1.multiply(&m2).unwrap();
    assert_eq!(vals(&product), vec![19.0, 22.0, 43.0, 50.0]);
}

#[test]
fn test_transpose() {
    let m = mat(&[1.0, 2.0, 3.0, 4.0, 5.0, 6.0], 2, 3);

    let transposed = m.transpose();
    assert_eq!(vals(&transposed), vec![1.0, 4.0, 2.0, 5.0, 3.0, 6.0]);
    assert_eq!(transposed.rows, 3);
    assert_eq!(transposed.columns, 2);
}

#[test]
fn test_determinant() {
    let m = test_matrix();
    assert_eq!(m.determinant().unwrap(), R(-2.0));

    let m3x3 = mat(&[1.0, 2.0, 3.0, 4.0, 5.0, 6.0, 7.0, 8.0, 9.0], 3, 3);
    assert_eq!(m3x3.determinant().unwrap(), R(0.0));
}

#[test]
fn test_inverse() {
    let m = test_matrix();
    let inv = m.inverse().unwrap();

    let product = m.multiply(&inv).unwrap();
    let p = vals(&product);
    assert!(close(p[0], 1.0, 1e-10));
    assert!(close(p[3], 1.0, 1e-10));
    assert!(close(p[1], 0.0, 1e-10));
    assert!(close(p[2], 0.0, 1e-10));

    let singular = mat(&[1.0, 2.0, 2.0, 4.0], 2, 2);
    assert!(singular.inverse().is_err());
}

#[test]
fn test_vector_operations() {
    let v1 = mat(&[1.0, 2.0, 3.0], 3, 1);
    let v2 = mat(&[4.0, 5.0, 6.0], 3, 1);

    assert_eq!(v1.dot_product(&v2).unwrap(), R(32.0));

    let cross = v1.cross_product(&v2).unwrap();
    assert_eq!(vals(&cross), vec![-3.0, 6.0, -3.0]);

    assert!(close(v1.magnitude().unwrap().0, (14.0f64).sqrt(), 1e-12));

    let unit = v1.unit_vector().unwrap();
    assert!(close(unit.magnitude().unwrap().0, 1.0, 1e-10));
}

#[test]
fn test_rank() {
    let full_rank = test_matrix();
    assert_eq!(full_rank.rank(), 2);

    let rank1 = mat(&[1.0, 2.0, 2.0, 4.0], 2, 2);
    assert_eq!(rank1.rank(), 1);
}

#[test]
fn test_operator_overloading() {
    let m1 = test_matrix();
    let m2: Matrix<R> = Matrix::ones(2, 2);

    let sum = m1.addition(&m2);
    assert_eq!(vals(&sum.unwrap()), vec![2.0, 3.0, 4.0, 5.0]);

    let scaled = m1.scalar_multiplication(R(2.0));
    assert_eq!(vals(&scaled), vec![2.0, 4.0, 6.0, 8.0]);

    let neg = m1.negation();
    assert_eq!(vals(&neg), vec![-1.0, -2.0, -3.0, -4.0]);
}

#[test]
fn matrix_test_test_indexing() {
    let mut m = test_matrix();

    assert_eq!(m.row(0)[0], R(1.0));
    assert_eq!(m.row(1)[1], R(4.0));

    m.set(0, 0, R(10.0));
    assert_eq!(m.data[0], R(10.0));
}

#[test]
fn test_elementwise_operations() {
    let m1 = mat(&[1.0, 2.0, 3.0, 4.0], 2, 2);
    let m2 = mat(&[5.0, 6.0, 7.0, 8.0], 2, 2);

    let hadamard = m1.hadamard_multiplication(&m2).unwrap();
    assert_eq!(vals(&hadamard), vec![5.0, 12.0, 21.0, 32.0]);

    let hadamard_div = m1.hadamard_division(&m2).unwrap();
    assert!(close(hadamard_div.data[0].0, 0.2, 1e-10));
    assert!(close(hadamard_div.data[1].0, 2.0 / 6.0, 1e-10));
}

#[test]
fn test_matrix_power() {
    let m = mat(&[1.0, 2.0, 3.0, 4.0], 2, 2);

    let squared = m.multiply(&m).unwrap();
    assert_eq!(vals(&squared), vec![7.0, 10.0, 15.0, 22.0]);

    let identity: Matrix<R> = Matrix::identity(2);
    let product = m.multiply(&identity).unwrap();
    assert_eq!(product.data, m.data);
}

#[test]
fn test_special_matrices() {
    let zero: Matrix<R> = Matrix::zeros(2, 2);
    let m = test_matrix();
    let product = zero.multiply(&m).unwrap();
    assert_eq!(vals(&product), vec![0.0; 4]);

    let diag = Matrix::diagonal(&vec![R(2.0), R(3.0)]);
    let result = diag.multiply(&diag).unwrap();
    assert_eq!(vals(&result), vec![4.0, 0.0, 0.0, 9.0]);
}

#[test]
fn test_vector_special_cases() {
    let zero_vec: Matrix<R> = Matrix::zeros(3, 1);
    let v = mat(&[1.0, 2.0, 3.0], 3, 1);

    assert_eq!(zero_vec.dot_product(&v).unwrap(), R(0.0));

    let cross = zero_vec.cross_product(&v).unwrap();
    assert_eq!(vals(&cross), vec![0.0; 3]);

    assert!(zero_vec.unit_vector().is_err());
}

#[test]
fn test_matrix_properties() {
    let m = test_matrix();
    let transposed = m.transpose();

    assert_eq!(transposed.transpose().data, m.data);

    assert_eq!(m.trace().unwrap(), R(5.0));

    let det = m.determinant().unwrap();
    let scaled = m.scalar_multiplication(R(2.0));
    assert_eq!(scaled.determinant().unwrap(), R(det.0 * 4.0));
}

#[test]
fn test_assignment_operators() {
    let mut m1 = test_matrix();
    let m2: Matrix<R> = Matrix::ones(2, 2);

    m1 = m1.addition(&m2).unwrap();
    assert_eq!(vals(&m1), vec![2.0, 3.0, 4.0, 5.0]);

    m1 = m1.scalar_multiplication(R(2.0));
    assert_eq!(vals(&m1), vec![4.0, 6.0, 8.0, 10.0]);

    m1 = m1.subtraction(&m2).unwrap();
    assert_eq!(vals(&m1), vec![3.0, 5.0, 7.0, 9.0]);
}

#[test]
fn test_error_handling() {
    let non_square = mat(&[1.0, 2.0, 3.0, 4.0, 5.0, 6.0], 2, 3);

    assert!(non_square.determinant().is_err());
    assert!(non_square.inverse().is_err());
    assert!(non_square.trace().is_err());

    let m1: Matrix<R> = Matrix::ones(2, 3);
    let m2: Matrix<R> = Matrix::ones(3, 2);
    assert!(m1.addition(&m2).is_err());
    assert!(m1.hadamard_multiplication(&m2).is_err());
}

#[test]
fn test_apply_function() {
    let m = test_matrix();
    let squared = m.apply(|x| R(x.0 * x.0));
    assert_eq!(vals(&squared), vec![1.0, 4.0, 9.0, 16.0]);

    let abs = mat(&[-1.0, 2.0, -3.0, 4.0], 2, 2).apply(|x| R(x.0.abs()));
    assert_eq!(vals(&abs), vec![1.0, 2.0, 3.0, 4.0]);
}

#[test]
fn test_large_matrices() {
    let m = mat(
        &[1.0, 2.0, 3.0, 4.0, 5.0, 6.0, 7.0, 8.0, 9.0, 10.0, 11.0, 12.0, 13.0, 14.0, 15.0, 16.0],
        4,
        4,
    );

    assert_eq!(m.rank(), 2);

    assert_eq!(m.determinant().unwrap(), R(0.0));
}

#[test]
fn test_scalar_projection() {
    let v1 = mat(&[1.0, 0.0], 2, 1);
    let v2 = mat(&[3.0, 4.0], 2, 1);

    let proj = v2.scalar_projection_onto(&v1).unwrap();
    assert!(close(proj.0, 3.0, 1e-10));

    let vec_proj = v2.vector_projection_onto(&v1).unwrap();
    assert!(close(vec_proj.data[0].0, 3.0, 1e-10));
    assert!(close(vec_proj.data[1].0, 0.0, 1e-10));
}
