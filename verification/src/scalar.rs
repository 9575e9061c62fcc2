//! The arithmetic that the physics is written over.

use vstd::prelude::*;

verus! {

/// A real number type: what the formulas of this crate need from one.
///
/// Each operation is paired with a specification function that names its
/// result. Nothing else is assumed of them, no law of arithmetic in
/// particular: rounding arithmetic has none to offer.
pub trait Scalar: Sized + Copy {
    /// The number nearest to `mantissa * 10^exponent`.
    spec fn of_decimal(mantissa: i64, exponent: i32) -> Self;

    fn decimal(mantissa: i64, exponent: i32) -> (r: Self)
        ensures
            r == Self::of_decimal(mantissa, exponent),
    ;

    /// A count as a number.
    spec fn of_count(n: usize) -> Self;

    fn count(n: usize) -> (r: Self)
        ensures
            r == Self::of_count(n),
    ;

    /// The number above all others.
    spec fn spec_infinity() -> Self;

    fn infinity() -> (r: Self)
        ensures
            r == Self::spec_infinity(),
    ;

    /// The least number above zero.
    spec fn spec_tiny() -> Self;

    fn tiny() -> (r: Self)
        ensures
            r == Self::spec_tiny(),
    ;

    /// `self + other`.
    spec fn spec_add(self, other: Self) -> Self;

    fn add(self, other: Self) -> (r: Self)
        ensures
            r == self.spec_add(other),
    ;

    /// `self - other`.
    spec fn spec_sub(self, other: Self) -> Self;

    fn sub(self, other: Self) -> (r: Self)
        ensures
            r == self.spec_sub(other),
    ;

    /// `self * other`.
    spec fn spec_mul(self, other: Self) -> Self;

    fn mul(self, other: Self) -> (r: Self)
        ensures
            r == self.spec_mul(other),
    ;

    /// `self / other`.
    spec fn spec_div(self, other: Self) -> Self;

    fn div(self, other: Self) -> (r: Self)
        ensures
            r == self.spec_div(other),
    ;

    /// `-self`.
    spec fn spec_neg(self) -> Self;

    fn neg(self) -> (r: Self)
        ensures
            r == self.spec_neg(),
    ;

    /// The square root.
    spec fn spec_sqrt(self) -> Self;

    fn sqrt(self) -> (r: Self)
        ensures
            r == self.spec_sqrt(),
    ;

    /// The absolute value.
    spec fn spec_abs(self) -> Self;

    fn abs(self) -> (r: Self)
        ensures
            r == self.spec_abs(),
    ;

    /// The larger of two numbers.
    spec fn spec_larger(self, other: Self) -> Self;

    fn larger(self, other: Self) -> (r: Self)
        ensures
            r == self.spec_larger(other),
    ;

    /// The smaller of two numbers.
    spec fn spec_smaller(self, other: Self) -> Self;

    fn smaller(self, other: Self) -> (r: Self)
        ensures
            r == self.spec_smaller(other),
    ;

    /// `self < other`.
    spec fn spec_less(self, other: Self) -> bool;

    fn less(self, other: Self) -> (r: bool)
        ensures
            r == self.spec_less(other),
    ;

    /// `self <= other`.
    spec fn spec_at_most(self, other: Self) -> bool;

    fn at_most(self, other: Self) -> (r: bool)
        ensures
            r == self.spec_at_most(other),
    ;

    /// Numeric equality, in which two zeros of different sign agree and a
    /// number that is not one differs from itself.
    spec fn spec_same(self, other: Self) -> bool;

    fn same(self, other: Self) -> (r: bool)
        ensures
            r == self.spec_same(other),
    ;

    /// Whether this is a finite number.
    spec fn spec_is_finite(self) -> bool;

    fn is_finite(self) -> (r: bool)
        ensures
            r == self.spec_is_finite(),
    ;

    /// Whether this is no number at all.
    spec fn spec_is_nan(self) -> bool;

    fn is_nan(self) -> (r: bool)
        ensures
            r == self.spec_is_nan(),
    ;

    /// The least integer not below the number.
    spec fn spec_ceil(self) -> i64;

    fn ceil(self) -> (r: i64)
        ensures
            r == self.spec_ceil(),
    ;

    /// The nearest integer, halves away from zero.
    spec fn spec_round(self) -> i64;

    fn round(self) -> (r: i64)
        ensures
            r == self.spec_round(),
    ;

    /// The number as messages write it.
    spec fn shown(self) -> String;

    fn show(self) -> (r: String)
        ensures
            r@ == self.shown()@,
    ;
}

/// Zero.
pub open spec fn zero<S: Scalar>() -> S {
    S::of_decimal(0, 0)
}

/// One.
pub open spec fn one<S: Scalar>() -> S {
    S::of_decimal(1, 0)
}

/// Two.
pub open spec fn two<S: Scalar>() -> S {
    S::of_decimal(2, 0)
}

/// `x`, or the bound it lies beyond.
pub open spec fn clamped<S: Scalar>(x: S, low: S, high: S) -> S {
    if x.spec_less(low) {
        low
    } else if high.spec_less(x) {
        high
    } else {
        x
    }
}

pub fn clamp<S: Scalar>(x: S, low: S, high: S) -> (r: S)
    ensures
        r == clamped(x, low, high),
{
    if x.less(low) {
        low
    } else if high.less(x) {
        high
    } else {
        x
    }
}

} // verus!
