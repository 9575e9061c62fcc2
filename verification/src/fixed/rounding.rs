//! What rounding and saturation leave of arithmetic.

use crate::fixed::{
    every_number_has_a_root, is_root, magnitude, nearest, pow10, root, Fixed, ONE,
};
use crate::scalar::{one, two, zero, Scalar};
use vstd::prelude::*;

verus! {

impl Fixed {
    /// Whether the number is one that arithmetic gives: the least count of
    /// fractions, which has no opposite, never comes out of an operation.
    pub open spec fn is_proper(self) -> bool {
        self.raw > i64::MIN
    }
}

/// Rounding moves a quotient by at most one half.
pub proof fn rounding_is_near(x: int, y: nat)
    requires
        y > 0,
    ensures
        -y <= 2 * (nearest(x, y) * y - x) <= y,
{
    let m = magnitude(x) as int;
    let q = (2 * m + y) / (2 * y as int);
    assert(-y <= 2 * (q * y - m) <= y) by (nonlinear_arith)
        requires
            y > 0,
            q == (2 * m + y) / (2 * y as int),
    ;
    assert((-q) * y - (-m) == -(q * y - m)) by (nonlinear_arith);
}

/// A whole number that is within one half of a quotient in both directions,
/// strictly, is what the quotient is rounded to.
pub proof fn rounding_is_the_nearest(x: int, y: nat, q: int)
    requires
        y > 0,
        -y < 2 * (q * y - x) < y,
    ensures
        nearest(x, y) == q,
{
    rounding_is_near(x, y);
    let r = nearest(x, y);
    assert(r == q) by (nonlinear_arith)
        requires
            y > 0,
            -y <= 2 * (r * y - x) <= y,
            -y < 2 * (q * y - x) < y,
    ;
}

/// Opposite quotients are rounded to opposite numbers.
pub proof fn rounding_is_odd(x: int, y: nat)
    requires
        y > 0,
    ensures
        nearest(-x, y) == -nearest(x, y),
{
    if x == 0 {
        rounding_is_the_nearest(0, y, 0);
    }
}

/// Rounding keeps the order of quotients.
pub proof fn rounding_grows(x1: int, x2: int, y: nat)
    requires
        y > 0,
        x1 <= x2,
    ensures
        nearest(x1, y) <= nearest(x2, y),
{
    let d = 2 * y as int;
    let (m1, m2) = (magnitude(x1) as int, magnitude(x2) as int);
    assert(m1 <= m2 ==> (2 * m1 + y) / d <= (2 * m2 + y) / d) by (nonlinear_arith)
        requires
            d > 0,
    ;
    assert(m2 <= m1 ==> (2 * m2 + y) / d <= (2 * m1 + y) / d) by (nonlinear_arith)
        requires
            d > 0,
    ;
    assert((2 * m1 + y) / d >= 0 && (2 * m2 + y) / d >= 0) by (nonlinear_arith)
        requires
            d > 0,
            m1 >= 0,
            m2 >= 0,
            y > 0,
    ;
}

/// A larger divisor gives no larger quotient of a number that is not negative.
pub proof fn rounding_shrinks(x: int, y1: nat, y2: nat)
    requires
        x >= 0,
        0 < y1 <= y2,
    ensures
        nearest(x, y2) <= nearest(x, y1),
{
    rounding_is_near(x, y1);
    rounding_is_near(x, y2);
    let (q1, q2) = ((2 * x + y1) / (2 * y1 as int), (2 * x + y2) / (2 * y2 as int));
    assert(q2 <= q1) by (nonlinear_arith)
        requires
            x >= 0,
            0 < y1 <= y2,
            q1 == (2 * x + y1) / (2 * y1 as int),
            q2 == (2 * x + y2) / (2 * y2 as int),
    {
        // q2 * 2 * y2 <= 2 * x + y2, so (2 * q2 - 1) * y2 <= 2 * x; the same
        // holds of y1, and q1 is the largest such number.
        assert(q2 * (2 * y2) <= 2 * x + y2);
        assert((2 * q2 - 1) * y2 <= 2 * x);
        assert(q2 >= 1 ==> (2 * q2 - 1) * y1 <= (2 * q2 - 1) * y2);
        assert(q2 >= 1 ==> q2 * (2 * y1) <= 2 * x + y1);
        assert((q1 + 1) * (2 * y1) > 2 * x + y1);
        assert(q1 >= 0);
    }
}

/// The constants are whole.
pub proof fn small_numbers()
    ensures
        zero::<Fixed>().raw == 0,
        one::<Fixed>().raw == ONE,
        two::<Fixed>().raw == 2 * ONE,
{
    assert(pow10(0) == 1);
    assert(0 * ONE * pow10(0) == 0) by (nonlinear_arith);
    assert(1 * ONE * pow10(0) == ONE) by (nonlinear_arith)
        requires
            pow10(0) == 1,
    ;
    assert(2 * ONE * pow10(0) == 2 * ONE) by (nonlinear_arith)
        requires
            pow10(0) == 1,
    ;
}

/// Multiplication does not depend on the order of its factors.
pub proof fn products_commute(a: Fixed, b: Fixed)
    ensures
        a.spec_mul(b) == b.spec_mul(a),
{
    assert(a.raw * b.raw == b.raw * a.raw) by (nonlinear_arith);
}

/// A number times zero is zero, in either order.
pub proof fn zero_times_a_number(a: Fixed)
    ensures
        a.spec_mul(zero()) == zero::<Fixed>(),
        zero::<Fixed>().spec_mul(a) == zero::<Fixed>(),
{
    small_numbers();
    products_commute(a, zero());
    assert(a.raw * 0 == 0) by (nonlinear_arith);
    rounding_is_the_nearest(0, ONE as nat, 0);
}

/// Zero changes nothing that it is added to or taken from.
pub proof fn zero_added_to_a_number(a: Fixed)
    requires
        a.is_proper(),
    ensures
        a.spec_add(zero()) == a,
        zero::<Fixed>().spec_add(a) == a,
        a.spec_sub(zero()) == a,
{
    small_numbers();
}

/// One changes nothing that it multiplies.
pub proof fn one_times_a_number(a: Fixed)
    requires
        a.is_proper(),
    ensures
        a.spec_mul(one()) == a,
{
    small_numbers();
    rounding_is_the_nearest(a.raw * ONE, ONE as nat, a.raw as int);
}

/// The product with an opposite number is the opposite product.
pub proof fn products_are_odd(a: Fixed, b: Fixed)
    requires
        a.is_proper(),
    ensures
        a.spec_neg().spec_mul(b) == a.spec_mul(b).spec_neg(),
        b.spec_mul(a.spec_neg()) == b.spec_mul(a).spec_neg(),
{
    products_commute(a, b);
    products_commute(a.spec_neg(), b);
    assert((-a.raw) * b.raw == -(a.raw * b.raw)) by (nonlinear_arith);
    rounding_is_odd(a.raw * b.raw, ONE as nat);
}

/// The square root is not negative, and is the largest number whose square is
/// not above the radicand.
pub proof fn square_roots(a: Fixed)
    ensures
        0 <= a.spec_sqrt().raw < 0x1_0000_0000_0000,
        a.raw >= 0 ==> is_root(a.spec_sqrt().raw as nat, (a.raw * ONE) as nat),
{
    if a.raw >= 0 {
        let x = (a.raw * ONE) as nat;
        assert(x < 0x1_0000_0000_0000 * 0x1_0000_0000_0000);
        every_number_has_a_root(x);
        let r = root(x);
        assert(r < 0x1_0000_0000_0000) by (nonlinear_arith)
            requires
                r * r <= x,
                x < 0x1_0000_0000_0000 * 0x1_0000_0000_0000,
        ;
    }
}

/// Sums keep the order of their terms.
pub proof fn sums_grow(a1: Fixed, a2: Fixed, b1: Fixed, b2: Fixed)
    requires
        a1.raw <= a2.raw,
        b1.raw <= b2.raw,
    ensures
        a1.spec_add(b1).raw <= a2.spec_add(b2).raw,
{
}

/// Products keep the order of one factor where the other is not negative.
pub proof fn products_grow(a1: Fixed, a2: Fixed, k: Fixed)
    requires
        a1.raw <= a2.raw,
        k.raw >= 0,
    ensures
        a1.spec_mul(k).raw <= a2.spec_mul(k).raw,
        k.spec_mul(a1).raw <= k.spec_mul(a2).raw,
{
    products_commute(a1, k);
    products_commute(a2, k);
    assert(a1.raw * k.raw <= a2.raw * k.raw) by (nonlinear_arith)
        requires
            a1.raw <= a2.raw,
            k.raw >= 0,
    ;
    rounding_grows(a1.raw * k.raw, a2.raw * k.raw, ONE as nat);
}

/// Products and sums of numbers that are not negative are not negative.
pub proof fn signs_are_kept(a: Fixed, b: Fixed)
    requires
        a.raw >= 0,
        b.raw >= 0,
    ensures
        a.spec_mul(b).raw >= 0,
        a.spec_add(b).raw >= 0,
{
    small_numbers();
    zero_times_a_number(b);
    products_grow(zero(), a, b);
}

} // verus!
