//! A dense, row-major matrix kernel, generic over the element type. Shapes,
//! errors and indexing are verified, and every result is stated as the
//! expression that the element type's operations (see `Scalar`) build from
//! the inputs.
pub mod error;
pub mod scalar;
pub mod model;
pub mod matrix;
pub mod arith;
pub mod elementwise;
pub mod linear;
pub mod vector;
pub mod structural;

pub use error::MatrixError;
pub use matrix::Matrix;
pub use scalar::Scalar;
