use vstd::prelude::*;

verus! {

/// The ways in which a matrix operation can refuse its operands.
#[derive(Clone, Copy, Debug, PartialEq, Eq, Structural)]
pub enum MatrixError {
    /// Two operands whose shapes do not fit together: unequal shapes for an
    /// element-wise operation, or `left_columns != right_rows` for a product.
    ShapeMismatch { left_rows: usize, left_columns: usize, right_rows: usize, right_columns: usize },
    /// A matrix whose shape is not the one that was asked for.
    UnexpectedShape { expected_rows: usize, expected_columns: usize, rows: usize, columns: usize },
    /// An operation that needs `rows == columns`.
    NotSquare { rows: usize, columns: usize },
    /// An operand that is neither a single row nor a single column.
    NotAVector,
    /// An operand that is not a 2x1 or 1x2 matrix of two elements.
    NotA2DVector,
    /// An operand that is not a 3x1 or 1x3 matrix of three elements.
    NotA3DVector,
    /// A matrix whose determinant is too close to zero to invert.
    Singular,
    /// A vector of length zero, which has no direction.
    ZeroMagnitude,
    /// A row or column index past the matrix's edge.
    OutOfBounds { row: usize, column: usize, rows: usize, columns: usize },
    /// Element storage whose length is not `rows * columns`.
    LengthMismatch { rows: usize, columns: usize, length: usize },
}

} // verus!
