//! What the arithmetic, the vectors, the matrices and the quaternions compute,
//! in fixed-point numbers, held against whole numbers.

use crate::fixed::rods::{is_held, multiplies};
use crate::fixed::rounding::{
    products_commute, rounding_is_near, rounding_is_the_nearest, small_numbers, square_roots,
};
use crate::fixed::turning::rounded;
use crate::fixed::{magnitude, pow10, Fixed, ONE};
use crate::linalg::{Mat3, Quat, Vec3};
use crate::scalar::{two, Scalar};
use vstd::prelude::*;

verus! {

/// Whether `c` fractions are `x` squared fractions, up to `k` halves of a
/// fraction.
pub open spec fn is_about(c: int, x: int, k: int) -> bool {
    -(k * 4294967296) <= 2 * (c * 4294967296 - x) <= k * 4294967296
}

/// Sums, differences and opposites are exact as far as they can be held, and the
/// largest number of their sign beyond that.
pub proof fn sums_and_differences(a: Fixed, b: Fixed)
    ensures
        is_held(a.raw + b.raw) ==> a.spec_add(b).raw == a.raw + b.raw,
        a.raw + b.raw > i64::MAX ==> a.spec_add(b).raw == i64::MAX,
        a.raw + b.raw < -i64::MAX ==> a.spec_add(b).raw == -i64::MAX,
        is_held(a.raw - b.raw) ==> a.spec_sub(b).raw == a.raw - b.raw,
        a.raw - b.raw > i64::MAX ==> a.spec_sub(b).raw == i64::MAX,
        a.raw - b.raw < -i64::MAX ==> a.spec_sub(b).raw == -i64::MAX,
        a.is_proper() ==> a.spec_neg().raw == -a.raw,
        a.is_proper() && a.raw >= 0 ==> a.spec_abs() == a,
        a.is_proper() && a.raw < 0 ==> a.spec_abs().raw == -a.raw,
{
}

/// A product is that of the numbers up to half a fraction, as far as it can be
/// held.
pub proof fn a_product(a: Fixed, b: Fixed)
    ensures
        multiplies(a, b) ==> is_about(a.spec_mul(b).raw as int, a.raw * b.raw, 1),
        !multiplies(a, b) ==> magnitude(a.spec_mul(b).raw as int) == i64::MAX,
{
    rounding_is_near(a.raw * b.raw, ONE as nat);
}

/// A quotient times the divisor is the dividend up to half the divisor, as far
/// as the quotient can be held; by zero a number goes beyond all others of its
/// sign.
pub proof fn a_quotient(a: Fixed, b: Fixed)
    ensures
        ({
            let q = a.spec_div(b).raw;
            let e = 2 * (q * b.raw - a.raw * ONE);
            &&& b.raw != 0 && -i64::MAX < q < i64::MAX ==> -magnitude(b.raw as int) <= e
                <= magnitude(b.raw as int)
            &&& b.raw == 0 && a.raw > 0 ==> q == i64::MAX
            &&& b.raw == 0 && a.raw < 0 ==> q == -i64::MAX
            &&& b.raw == 0 && a.raw == 0 ==> q == 0
        }),
{
    if b.raw > 0 {
        rounding_is_near(a.raw * ONE, b.raw as nat);
    } else if b.raw < 0 {
        rounding_is_near(-a.raw * ONE, (-b.raw) as nat);
        let q = a.spec_div(b).raw as int;
        assert(q * (-b.raw) == -(q * b.raw)) by (nonlinear_arith);
    } else {
        assert(a.raw * ONE * ONE == a.raw * 18446744073709551616) by (nonlinear_arith)
            requires
                ONE == 4294967296,
        ;
    }
}

/// A square root is the largest number whose square is not above the radicand;
/// a negative number has the root zero.
pub proof fn a_root(a: Fixed)
    ensures
        ({
            let r = a.spec_sqrt().raw;
            &&& r >= 0
            &&& a.raw >= 0 ==> r * r <= a.raw * ONE < (r + 1) * (r + 1)
            &&& a.raw < 0 ==> r == 0
        }),
{
    square_roots(a);
}

/// Numbers are compared by their counts of fractions; the larger and the smaller
/// of two are themselves, and so is a number that is clamped.
pub proof fn comparisons(a: Fixed, b: Fixed)
    ensures
        a.spec_less(b) <==> a.raw < b.raw,
        a.spec_at_most(b) <==> a.raw <= b.raw,
        a.spec_same(b) <==> a == b,
        a.spec_larger(b) == a || a.spec_larger(b) == b,
        a.spec_larger(b).raw >= a.raw && a.spec_larger(b).raw >= b.raw,
        a.spec_smaller(b) == a || a.spec_smaller(b) == b,
        a.spec_smaller(b).raw <= a.raw && a.spec_smaller(b).raw <= b.raw,
        Fixed::spec_infinity().raw >= a.raw,
        !Fixed::spec_infinity().spec_is_finite(),
        0 < Fixed::spec_tiny().raw,
        a.raw > 0 ==> a.raw >= Fixed::spec_tiny().raw,
        a.spec_is_finite() <==> magnitude(a.raw as int) < i64::MAX,
        !a.spec_is_nan(),
{
}

/// The whole number above a number is the least that is not below it, and the
/// nearest is within one half.
pub proof fn whole_numbers(a: Fixed)
    ensures
        (a.spec_ceil() - 1) * ONE < a.raw <= a.spec_ceil() * ONE,
        -ONE <= 2 * (a.spec_round() * ONE - a.raw) <= ONE,
{
    rounding_is_near(a.raw as int, ONE as nat);
}

/// Counts are whole, and decimals within half a fraction of what they say.
pub proof fn counts_and_decimals(n: usize, mantissa: i64, places: nat)
    requires
        n < 2147483648,
        places <= 300,
    ensures
        Fixed::of_count(n).raw == n * ONE,
        ({
            let d = Fixed::of_decimal(mantissa, (-(places as int)) as i32).raw;
            let e = 2 * (d * pow10(places) - mantissa * ONE);
            -i64::MAX < d < i64::MAX ==> -pow10(places) <= e <= pow10(places)
        }),
{
    powers_of_ten_are_positive(places);
    if places == 0 {
        assert(mantissa * ONE * pow10(0) == mantissa * ONE) by (nonlinear_arith)
            requires
                pow10(0) == 1,
        ;
    } else {
        rounding_is_near(mantissa * ONE, pow10(places));
    }
}

proof fn powers_of_ten_are_positive(k: nat)
    ensures
        pow10(k) > 0,
    decreases k,
{
    if k > 0 {
        powers_of_ten_are_positive((k - 1) as nat);
    }
}

/// Whether no product or sum of a scalar product goes beyond the largest number.
pub open spec fn dot_is_held(a: Vec3<Fixed>, b: Vec3<Fixed>) -> bool {
    let (p, q, r) = (rounded(a.x, b.x), rounded(a.y, b.y), rounded(a.z, b.z));
    is_held(p) && is_held(q) && is_held(r) && is_held(p + q) && is_held(p + q + r)
}

/// The scalar product of two vectors, in squared fractions.
pub open spec fn dot_of(a: Vec3<Fixed>, b: Vec3<Fixed>) -> int {
    a.x.raw * b.x.raw + a.y.raw * b.y.raw + a.z.raw * b.z.raw
}

/// A scalar product is the sum of the products of the components, up to three
/// halves of a fraction.
pub proof fn a_scalar_product(a: Vec3<Fixed>, b: Vec3<Fixed>)
    requires
        dot_is_held(a, b),
    ensures
        is_about(
            a.spec_dot(b).raw as int,
            a.x.raw * b.x.raw + a.y.raw * b.y.raw + a.z.raw * b.z.raw,
            3,
        ),
{
    rounding_is_near(a.x.raw * b.x.raw, ONE as nat);
    rounding_is_near(a.y.raw * b.y.raw, ONE as nat);
    rounding_is_near(a.z.raw * b.z.raw, ONE as nat);
}

/// Whether no product or difference of a vector product goes beyond the largest
/// number.
pub open spec fn cross_is_held(a: Vec3<Fixed>, b: Vec3<Fixed>) -> bool {
    &&& is_held(rounded(a.y, b.z)) && is_held(rounded(a.z, b.y))
    &&& is_held(rounded(a.z, b.x)) && is_held(rounded(a.x, b.z))
    &&& is_held(rounded(a.x, b.y)) && is_held(rounded(a.y, b.x))
    &&& is_held(rounded(a.y, b.z) - rounded(a.z, b.y))
    &&& is_held(rounded(a.z, b.x) - rounded(a.x, b.z))
    &&& is_held(rounded(a.x, b.y) - rounded(a.y, b.x))
}

/// A vector product is the right-handed one, up to one fraction in each
/// component, and turns its sign with its order.
pub proof fn a_vector_product(a: Vec3<Fixed>, b: Vec3<Fixed>)
    requires
        cross_is_held(a, b),
    ensures
        ({
            let c = a.spec_cross(b);
            &&& is_about(c.x.raw as int, a.y.raw * b.z.raw - a.z.raw * b.y.raw, 2)
            &&& is_about(c.y.raw as int, a.z.raw * b.x.raw - a.x.raw * b.z.raw, 2)
            &&& is_about(c.z.raw as int, a.x.raw * b.y.raw - a.y.raw * b.x.raw, 2)
            &&& b.spec_cross(a) == c.opposite()
        }),
{
    rounding_is_near(a.y.raw * b.z.raw, ONE as nat);
    rounding_is_near(a.z.raw * b.y.raw, ONE as nat);
    rounding_is_near(a.z.raw * b.x.raw, ONE as nat);
    rounding_is_near(a.x.raw * b.z.raw, ONE as nat);
    rounding_is_near(a.x.raw * b.y.raw, ONE as nat);
    rounding_is_near(a.y.raw * b.x.raw, ONE as nat);
    products_commute(a.y, b.z);
    products_commute(a.z, b.y);
    products_commute(a.z, b.x);
    products_commute(a.x, b.z);
    products_commute(a.x, b.y);
    products_commute(a.y, b.x);
}

/// A vector product is orthogonal to both its factors: its scalar product with
/// either is at most one fraction for each fraction of the factor.
pub proof fn a_vector_product_is_orthogonal(a: Vec3<Fixed>, b: Vec3<Fixed>)
    requires
        cross_is_held(a, b),
    ensures
        ({
            let c = a.spec_cross(b);
            let sa = (magnitude(a.x.raw as int) + magnitude(a.y.raw as int) + magnitude(
                a.z.raw as int,
            )) as int;
            let sb = (magnitude(b.x.raw as int) + magnitude(b.y.raw as int) + magnitude(
                b.z.raw as int,
            )) as int;
            &&& -sa <= dot_of(c, a) <= sa
            &&& -sb <= dot_of(c, b) <= sb
        }),
{
    a_vector_product(a, b);
    let c = a.spec_cross(b);
    let (ax, ay, az) = (a.x.raw as int, a.y.raw as int, a.z.raw as int);
    let (bx, by, bz) = (b.x.raw as int, b.y.raw as int, b.z.raw as int);
    an_error_adds(c.x.raw as int, ay * bz - az * by, ax);
    an_error_adds(c.y.raw as int, az * bx - ax * bz, ay);
    an_error_adds(c.z.raw as int, ax * by - ay * bx, az);
    an_error_adds(c.x.raw as int, ay * bz - az * by, bx);
    an_error_adds(c.y.raw as int, az * bx - ax * bz, by);
    an_error_adds(c.z.raw as int, ax * by - ay * bx, bz);
    three_factors(ay, bz, az, by, ax);
    three_factors(az, bx, ax, bz, ay);
    three_factors(ax, by, ay, bx, az);
    three_factors(ay, bz, az, by, bx);
    three_factors(az, bx, ax, bz, by);
    three_factors(ax, by, ay, bx, bz);
    an_order_of_factors(ay, bz, ax);
    an_order_of_factors(az, by, ax);
    an_order_of_factors(az, bx, ay);
    an_order_of_factors(ay, bz, bx);
    an_order_of_factors(az, by, bx);
    an_order_of_factors(ax, bz, by);
}

/// What an error of at most a fraction adds to a product.
proof fn an_error_adds(c: int, x: int, k: int)
    requires
        is_about(c, x, 2),
    ensures
        -(4294967296 * magnitude(k)) <= 4294967296 * (c * k) - x * k <= 4294967296 * magnitude(k),
{
    let e = c * 4294967296 - x;
    let m = magnitude(k) as int;
    assert(-(4294967296 * m) <= e * k <= 4294967296 * m) by (nonlinear_arith)
        requires
            -4294967296 <= e <= 4294967296,
            m == k || m == -k,
            m >= 0,
    ;
    assert(e * k == 4294967296 * (c * k) - x * k) by (nonlinear_arith)
        requires
            e == c * 4294967296 - x,
    ;
}

proof fn three_factors(a: int, b: int, c: int, d: int, k: int)
    ensures
        (a * b - c * d) * k == (a * b) * k - (c * d) * k,
{
    assert((a * b - c * d) * k == (a * b) * k - (c * d) * k) by (nonlinear_arith);
}

/// Three factors in any order.
proof fn an_order_of_factors(a: int, b: int, k: int)
    ensures
        (a * b) * k == (k * b) * a,
        (a * b) * k == (a * k) * b,
        (a * b) * k == (k * a) * b,
        (a * b) * k == (b * k) * a,
{
    assert((a * b) * k == (k * b) * a) by (nonlinear_arith);
    assert((a * b) * k == (a * k) * b) by (nonlinear_arith);
    assert((a * b) * k == (k * a) * b) by (nonlinear_arith);
    assert((a * b) * k == (b * k) * a) by (nonlinear_arith);
}

/// Row `a` of a matrix, counted from zero.
pub open spec fn row_of<S>(m: Mat3<S>, a: int) -> Vec3<S> {
    if a == 0 {
        m.r0
    } else if a == 1 {
        m.r1
    } else {
        m.r2
    }
}

/// Entry `a`, `b` of a matrix, in fractions.
pub open spec fn entry(m: Mat3<Fixed>, a: int, b: int) -> int {
    let r = row_of(m, a);
    if b == 0 {
        r.x.raw as int
    } else if b == 1 {
        r.y.raw as int
    } else {
        r.z.raw as int
    }
}

/// A transposed matrix has the rows of the other for columns.
pub proof fn a_transposed_matrix(m: Mat3<Fixed>, a: int, b: int)
    requires
        0 <= a < 3,
        0 <= b < 3,
    ensures
        entry(m.spec_transpose(), a, b) == entry(m, b, a),
{
}

/// A matrix times a vector: each component is the sum over its row, up to three
/// halves of a fraction.
pub proof fn a_matrix_applied(m: Mat3<Fixed>, v: Vec3<Fixed>)
    requires
        dot_is_held(m.r0, v),
        dot_is_held(m.r1, v),
        dot_is_held(m.r2, v),
    ensures
        ({
            let w = m.spec_apply(v);
            let (x, y, z) = (v.x.raw, v.y.raw, v.z.raw);
            &&& is_about(w.x.raw as int, m.r0.x.raw * x + m.r0.y.raw * y + m.r0.z.raw * z, 3)
            &&& is_about(w.y.raw as int, m.r1.x.raw * x + m.r1.y.raw * y + m.r1.z.raw * z, 3)
            &&& is_about(w.z.raw as int, m.r2.x.raw * x + m.r2.y.raw * y + m.r2.z.raw * z, 3)
        }),
{
    a_scalar_product(m.r0, v);
    a_scalar_product(m.r1, v);
    a_scalar_product(m.r2, v);
}

/// Whether no product or sum of a matrix product goes beyond the largest number.
pub open spec fn product_is_held(m: Mat3<Fixed>, k: Mat3<Fixed>) -> bool {
    let t = k.spec_transpose();
    &&& dot_is_held(t.r0, m.r0) && dot_is_held(t.r1, m.r0) && dot_is_held(t.r2, m.r0)
    &&& dot_is_held(t.r0, m.r1) && dot_is_held(t.r1, m.r1) && dot_is_held(t.r2, m.r1)
    &&& dot_is_held(t.r0, m.r2) && dot_is_held(t.r1, m.r2) && dot_is_held(t.r2, m.r2)
}

/// A matrix product: each entry is the sum over a row of the one and a column of
/// the other, up to three halves of a fraction.
pub proof fn a_matrix_product(m: Mat3<Fixed>, k: Mat3<Fixed>, a: int, b: int)
    requires
        product_is_held(m, k),
        0 <= a < 3,
        0 <= b < 3,
    ensures
        is_about(
            entry(m.spec_mul(k), a, b),
            entry(m, a, 0) * entry(k, 0, b) + entry(m, a, 1) * entry(k, 1, b) + entry(m, a, 2)
                * entry(k, 2, b),
            3,
        ),
{
    let column = row_of(k.spec_transpose(), b);
    let line = row_of(m, a);
    a_scalar_product(column, line);
    turn_factors(entry(m, a, 0), entry(k, 0, b));
    turn_factors(entry(m, a, 1), entry(k, 1, b));
    turn_factors(entry(m, a, 2), entry(k, 2, b));
}

proof fn turn_factors(a: int, b: int)
    ensures
        a * b == b * a,
{
    assert(a * b == b * a) by (nonlinear_arith);
}

/// Whether no product or sum of a quaternion product goes beyond the largest
/// number.
pub open spec fn turn_product_is_held(p: Quat<Fixed>, q: Quat<Fixed>) -> bool {
    let (ww, xx, yy, zz) = (
        rounded(p.w, q.w),
        rounded(p.x, q.x),
        rounded(p.y, q.y),
        rounded(p.z, q.z),
    );
    let (wx, xw, yz, zy) = (
        rounded(p.w, q.x),
        rounded(p.x, q.w),
        rounded(p.y, q.z),
        rounded(p.z, q.y),
    );
    let (wy, xz, yw, zx) = (
        rounded(p.w, q.y),
        rounded(p.x, q.z),
        rounded(p.y, q.w),
        rounded(p.z, q.x),
    );
    let (wz, xy, yx, zw) = (
        rounded(p.w, q.z),
        rounded(p.x, q.y),
        rounded(p.y, q.x),
        rounded(p.z, q.w),
    );
    &&& is_held(ww) && is_held(xx) && is_held(yy) && is_held(zz)
    &&& is_held(wx) && is_held(xw) && is_held(yz) && is_held(zy)
    &&& is_held(wy) && is_held(xz) && is_held(yw) && is_held(zx)
    &&& is_held(wz) && is_held(xy) && is_held(yx) && is_held(zw)
    &&& is_held(ww - xx) && is_held(ww - xx - yy) && is_held(ww - xx - yy - zz)
    &&& is_held(wx + xw) && is_held(wx + xw + yz) && is_held(wx + xw + yz - zy)
    &&& is_held(wy - xz) && is_held(wy - xz + yw) && is_held(wy - xz + yw + zx)
    &&& is_held(wz + xy) && is_held(wz + xy - yx) && is_held(wz + xy - yx + zw)
}

/// A quaternion product is Hamilton's, up to two fractions in each component:
/// the scalar part is the product of the scalar parts less the scalar product of
/// the vector parts, and the vector part is each scalar part times the other
/// vector part, and the vector product.
#[verifier::spinoff_prover]
pub proof fn a_quaternion_product(p: Quat<Fixed>, q: Quat<Fixed>)
    requires
        turn_product_is_held(p, q),
    ensures
        ({
            let r = p.spec_mul(q);
            let (a, b, c, d) = (p.w.raw, p.x.raw, p.y.raw, p.z.raw);
            let (e, f, g, h) = (q.w.raw, q.x.raw, q.y.raw, q.z.raw);
            &&& is_about(r.w.raw as int, a * e - (b * f + c * g + d * h), 4)
            &&& is_about(r.x.raw as int, a * f + b * e + (c * h - d * g), 4)
            &&& is_about(r.y.raw as int, a * g + c * e + (d * f - b * h), 4)
            &&& is_about(r.z.raw as int, a * h + d * e + (b * g - c * f), 4)
        }),
{
    let o = ONE as nat;
    rounding_is_near(p.w.raw * q.w.raw, o);
    rounding_is_near(p.x.raw * q.x.raw, o);
    rounding_is_near(p.y.raw * q.y.raw, o);
    rounding_is_near(p.z.raw * q.z.raw, o);
    rounding_is_near(p.w.raw * q.x.raw, o);
    rounding_is_near(p.x.raw * q.w.raw, o);
    rounding_is_near(p.y.raw * q.z.raw, o);
    rounding_is_near(p.z.raw * q.y.raw, o);
    rounding_is_near(p.w.raw * q.y.raw, o);
    rounding_is_near(p.x.raw * q.z.raw, o);
    rounding_is_near(p.y.raw * q.w.raw, o);
    rounding_is_near(p.z.raw * q.x.raw, o);
    rounding_is_near(p.w.raw * q.z.raw, o);
    rounding_is_near(p.x.raw * q.y.raw, o);
    rounding_is_near(p.y.raw * q.x.raw, o);
    rounding_is_near(p.z.raw * q.w.raw, o);
}

/// Whether all components are so small that no step of a rotation matrix goes
/// beyond the largest number: every unit quaternion is.
pub open spec fn can_rotate(q: Quat<Fixed>) -> bool {
    &&& magnitude(q.w.raw as int) <= 8589934592 && magnitude(q.x.raw as int) <= 8589934592
    &&& magnitude(q.y.raw as int) <= 8589934592 && magnitude(q.z.raw as int) <= 8589934592
}

proof fn a_small_product(a: Fixed, b: Fixed)
    requires
        magnitude(a.raw as int) <= 8589934592,
        magnitude(b.raw as int) <= 8589934592,
    ensures
        -17179869185 <= a.spec_mul(b).raw <= 17179869185,
        is_about(a.spec_mul(b).raw as int, a.raw * b.raw, 1),
{
    let (x, y) = (a.raw as int, b.raw as int);
    assert(-73786976294838206464 <= x * y <= 73786976294838206464) by (nonlinear_arith)
        requires
            -8589934592 <= x <= 8589934592,
            -8589934592 <= y <= 8589934592,
    ;
    rounding_is_near(x * y, ONE as nat);
}

proof fn twice(a: Fixed)
    requires
        -34359738370 <= a.raw <= 34359738370,
    ensures
        two::<Fixed>().spec_mul(a).raw == 2 * a.raw,
{
    small_numbers();
    assert((2 * a.raw) * ONE == (2 * ONE) * a.raw) by (nonlinear_arith);
    rounding_is_the_nearest((2 * ONE) * a.raw, ONE as nat, 2 * a.raw);
}

/// A rotation matrix, by what it does: its antisymmetric part is the axis times
/// four times the scalar part, its symmetric part off the diagonal the products
/// of the components of the axis, and its diagonal what is left of one; each up
/// to a few fractions. The matrix turns counterclockwise about the axis.
#[verifier::spinoff_prover]
pub proof fn a_rotation_matrix(q: Quat<Fixed>)
    requires
        can_rotate(q),
    ensures
        ({
            let r = q.spec_to_rotation_matrix();
            let (w, x, y, z) = (q.w.raw, q.x.raw, q.y.raw, q.z.raw);
            &&& is_about(entry(r, 2, 1) - entry(r, 1, 2), 4 * (w * x), 8)
            &&& is_about(entry(r, 0, 2) - entry(r, 2, 0), 4 * (w * y), 8)
            &&& is_about(entry(r, 1, 0) - entry(r, 0, 1), 4 * (w * z), 8)
            &&& is_about(entry(r, 2, 1) + entry(r, 1, 2), 4 * (y * z), 8)
            &&& is_about(entry(r, 0, 2) + entry(r, 2, 0), 4 * (x * z), 8)
            &&& is_about(entry(r, 1, 0) + entry(r, 0, 1), 4 * (x * y), 8)
            &&& is_about(ONE - entry(r, 0, 0), 2 * (y * y + z * z), 4)
            &&& is_about(ONE - entry(r, 1, 1), 2 * (x * x + z * z), 4)
            &&& is_about(ONE - entry(r, 2, 2), 2 * (x * x + y * y), 4)
        }),
{
    small_numbers();
    let (w, x, y, z) = (q.w, q.x, q.y, q.z);
    a_small_product(x, x);
    a_small_product(y, y);
    a_small_product(z, z);
    a_small_product(w, x);
    a_small_product(w, y);
    a_small_product(w, z);
    a_small_product(x, y);
    a_small_product(x, z);
    a_small_product(y, z);
    twice(y.spec_mul(y).spec_add(z.spec_mul(z)));
    twice(x.spec_mul(x).spec_add(z.spec_mul(z)));
    twice(x.spec_mul(x).spec_add(y.spec_mul(y)));
    twice(x.spec_mul(y).spec_sub(w.spec_mul(z)));
    twice(x.spec_mul(y).spec_add(w.spec_mul(z)));
    twice(x.spec_mul(z).spec_sub(w.spec_mul(y)));
    twice(x.spec_mul(z).spec_add(w.spec_mul(y)));
    twice(y.spec_mul(z).spec_sub(w.spec_mul(x)));
    twice(y.spec_mul(z).spec_add(w.spec_mul(x)));
}

} // verus!
