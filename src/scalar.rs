use vstd::prelude::*;

verus! {

/// The arithmetic that the matrix algorithms need from an element type.
///
/// Each operation is named by a spec function, and the executable method
/// returns exactly what that function gives: the result is a function of the
/// arguments alone. Nothing more is assumed of the arithmetic (no ring laws),
/// so the contracts of the algorithms state their results as expressions
/// built from these functions, in the order in which the algorithms combine
/// the elements.
pub trait Scalar: Copy + Sized {
    /// The additive identity.
    spec fn spec_zero() -> Self;

    /// The multiplicative identity.
    spec fn spec_one() -> Self;

    /// The smallest magnitude that counts as nonzero when deciding whether a
    /// determinant is singular or an entry can serve as a pivot.
    spec fn spec_epsilon() -> Self;

    /// `self + other`.
    spec fn spec_plus(self, other: Self) -> Self;

    /// `self - other`.
    spec fn spec_minus(self, other: Self) -> Self;

    /// `self * other`.
    spec fn spec_times(self, other: Self) -> Self;

    /// `self / other`, with whatever the type does for a zero divisor.
    spec fn spec_divide(self, other: Self) -> Self;

    /// `-self`.
    spec fn spec_negate(self) -> Self;

    /// `|self|`.
    spec fn spec_abs(self) -> Self;

    /// The non-negative square root of `self`.
    spec fn spec_sqrt(self) -> Self;

    /// `self < other` in the type's ordering.
    spec fn spec_lt(self, other: Self) -> bool;

    /// `self == other` in the type's equality.
    spec fn spec_eq(self, other: Self) -> bool;

    fn zero() -> (r: Self)
        ensures
            r == Self::spec_zero(),
    ;

    fn one() -> (r: Self)
        ensures
            r == Self::spec_one(),
    ;

    fn epsilon() -> (r: Self)
        ensures
            r == Self::spec_epsilon(),
    ;

    fn plus(self, other: Self) -> (r: Self)
        ensures
            r == self.spec_plus(other),
    ;

    fn minus(self, other: Self) -> (r: Self)
        ensures
            r == self.spec_minus(other),
    ;

    fn times(self, other: Self) -> (r: Self)
        ensures
            r == self.spec_times(other),
    ;

    fn divide(self, other: Self) -> (r: Self)
        ensures
            r == self.spec_divide(other),
    ;

    fn negate(self) -> (r: Self)
        ensures
            r == self.spec_negate(),
    ;

    fn absolute(self) -> (r: Self)
        ensures
            r == self.spec_abs(),
    ;

    fn square_root(self) -> (r: Self)
        ensures
            r == self.spec_sqrt(),
    ;

    fn less_than(self, other: Self) -> (r: bool)
        ensures
            r == self.spec_lt(other),
    ;

    fn equals(self, other: Self) -> (r: bool)
        ensures
            r == self.spec_eq(other),
    ;
}

} // verus!
