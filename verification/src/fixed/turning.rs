//! How quaternions turn, in fixed-point numbers.

use crate::fixed::algebra::{
    a_matrix_product, a_transposed_matrix, entry, is_about, product_is_held, row_of,
};
use crate::fixed::lengths::total_size;
use crate::fixed::rods::is_held;
use crate::fixed::rounding::{
    products_commute, rounding_is_near, rounding_is_the_nearest, small_numbers,
    zero_times_a_number,
};
use crate::fixed::{magnitude, nearest, pow10, Fixed, ONE};
use crate::integrate::dynamics::{rates, rotation_in, turned, RhsParamsView};
use crate::linalg::{quat_at, vec3_at, Mat3, Quat, Vec3};
use crate::scalar::{zero, Scalar};
use crate::system::component;
use vstd::prelude::*;

verus! {

/// The rounded product of two counts of fractions.
pub open spec fn rounded(a: Fixed, b: Fixed) -> int {
    nearest(a.raw * b.raw, ONE as nat)
}

/// Whether no product or sum in the rate of a quaternion goes beyond the largest
/// number.
pub open spec fn turn_is_held(o: Vec3<Fixed>, q: Quat<Fixed>) -> bool {
    &&& is_held(rounded(o.x, q.w)) && is_held(rounded(o.x, q.x)) && is_held(rounded(o.x, q.y))
        && is_held(rounded(o.x, q.z))
    &&& is_held(rounded(o.y, q.w)) && is_held(rounded(o.y, q.x)) && is_held(rounded(o.y, q.y))
        && is_held(rounded(o.y, q.z))
    &&& is_held(rounded(o.z, q.w)) && is_held(rounded(o.z, q.x)) && is_held(rounded(o.z, q.y))
        && is_held(rounded(o.z, q.z))
    &&& is_held(rounded(o.x, q.x) + rounded(o.y, q.y))
    &&& is_held(rounded(o.x, q.x) + rounded(o.y, q.y) + rounded(o.z, q.z))
    &&& is_held(rounded(o.x, q.w) + rounded(o.y, q.z))
    &&& is_held(rounded(o.x, q.w) + rounded(o.y, q.z) - rounded(o.z, q.y))
    &&& is_held(rounded(o.y, q.w) - rounded(o.x, q.z))
    &&& is_held(rounded(o.y, q.w) - rounded(o.x, q.z) + rounded(o.z, q.x))
    &&& is_held(rounded(o.x, q.y) - rounded(o.y, q.x))
    &&& is_held(rounded(o.x, q.y) - rounded(o.y, q.x) + rounded(o.z, q.w))
}

/// Half of the product of a turn and a quaternion, as the equations of motion
/// have it.
pub open spec fn turn_rate(o: Vec3<Fixed>, q: Quat<Fixed>) -> Quat<Fixed> {
    Quat::spec_pure(o).spec_mul(q).spec_scale(Fixed::of_decimal(5, -1i32))
}

/// The scalar product of two quaternions as a whole number of squared fractions,
/// exactly.
pub open spec fn exact_dot(a: Quat<Fixed>, b: Quat<Fixed>) -> int {
    a.w.raw * b.w.raw + a.x.raw * b.x.raw + a.y.raw * b.y.raw + a.z.raw * b.z.raw
}

proof fn one_half()
    ensures
        Fixed::of_decimal(5, -1i32).raw == 2147483648,
{
    assert(pow10(1) == 10) by {
        reveal_with_fuel(pow10, 2);
    }
    assert(5 * ONE == 21474836480);
    rounding_is_the_nearest(21474836480, 10, 2147483648);
}

/// Halving moves a number by at most half a fraction.
proof fn halving(a: Fixed)
    requires
        a.is_proper(),
    ensures
        -1 <= 2 * a.spec_mul(Fixed::of_decimal(5, -1i32)).raw - a.raw <= 1,
{
    one_half();
    rounding_is_near(a.raw * 2147483648, ONE as nat);
}

proof fn factors_trade(a: int, b: int, c: int)
    ensures
        (a * b) * c == (a * c) * b,
{
    assert((a * b) * c == (a * c) * b) by (nonlinear_arith);
}

proof fn three_terms(a: int, b: int, c: int, k: int)
    ensures
        (a + b + c) * k == a * k + b * k + c * k,
        (a + b - c) * k == a * k + b * k - c * k,
        (a - b + c) * k == a * k - b * k + c * k,
{
    assert((a + b + c) * k == a * k + b * k + c * k) by (nonlinear_arith);
    assert((a + b - c) * k == a * k + b * k - c * k) by (nonlinear_arith);
    assert((a - b + c) * k == a * k - b * k + c * k) by (nonlinear_arith);
}

/// What an error of a rate contributes to the scalar product.
proof fn an_error_contributes(h: int, exact: int, q: int)
    requires
        -21474836480 <= 2 * (8589934592 * h - exact) <= 21474836480,
    ensures
        -(21474836480 * magnitude(q)) <= 2 * (8589934592 * (h * q) - exact * q) <= 21474836480
            * magnitude(q),
{
    let e = 2 * (8589934592 * h - exact);
    let m = magnitude(q) as int;
    assert(-(21474836480 * m) <= e * q <= 21474836480 * m) by (nonlinear_arith)
        requires
            -21474836480 <= e <= 21474836480,
            m == q || m == -q,
            m >= 0,
    ;
    assert(e * q == 2 * (8589934592 * (h * q) - exact * q)) by (nonlinear_arith)
        requires
            e == 2 * (8589934592 * h - exact),
    ;
}

/// The rate of a quaternion is orthogonal to it, up to rounding: their scalar
/// product is at most five quarters of a fraction for each of the quaternion's
/// own fractions.
pub proof fn a_turn_is_orthogonal(o: Vec3<Fixed>, q: Quat<Fixed>)
    requires
        turn_is_held(o, q),
    ensures
        -5 * total_size(q) <= 4 * exact_dot(turn_rate(o, q), q) <= 5 * total_size(q),
{
    small_numbers();
    let y = ONE as nat;
    assert(y == 4294967296);
    let (a, b, c) = (o.x.raw as int, o.y.raw as int, o.z.raw as int);
    let (w, x, yy, z) = (q.w.raw as int, q.x.raw as int, q.y.raw as int, q.z.raw as int);
    rounding_is_near(a * w, y);
    rounding_is_near(a * x, y);
    rounding_is_near(a * yy, y);
    rounding_is_near(a * z, y);
    rounding_is_near(b * w, y);
    rounding_is_near(b * x, y);
    rounding_is_near(b * yy, y);
    rounding_is_near(b * z, y);
    rounding_is_near(c * w, y);
    rounding_is_near(c * x, y);
    rounding_is_near(c * yy, y);
    rounding_is_near(c * z, y);
    zero_times_a_number(q.w);
    zero_times_a_number(q.x);
    zero_times_a_number(q.y);
    zero_times_a_number(q.z);
    let full = Quat::spec_pure(o).spec_mul(q);
    assert(full.w.raw == -(rounded(o.x, q.x) + rounded(o.y, q.y) + rounded(o.z, q.z)));
    assert(full.x.raw == rounded(o.x, q.w) + rounded(o.y, q.z) - rounded(o.z, q.y));
    assert(full.y.raw == rounded(o.y, q.w) - rounded(o.x, q.z) + rounded(o.z, q.x));
    assert(full.z.raw == rounded(o.x, q.y) - rounded(o.y, q.x) + rounded(o.z, q.w));
    halving(full.w);
    halving(full.x);
    halving(full.y);
    halving(full.z);
    let r = turn_rate(o, q);
    an_error_contributes(r.w.raw as int, -(a * x + b * yy + c * z), w);
    an_error_contributes(r.x.raw as int, a * w + b * z - c * yy, x);
    an_error_contributes(r.y.raw as int, b * w - a * z + c * x, yy);
    an_error_contributes(r.z.raw as int, a * yy - b * x + c * w, z);
    // The exact scalar product is nothing.
    three_terms(a * x, b * yy, c * z, w);
    three_terms(a * w, b * z, c * yy, x);
    three_terms(b * w, a * z, c * x, yy);
    three_terms(a * yy, b * x, c * w, z);
    negatives_multiply(a * x + b * yy + c * z, w);
    factors_trade(a, x, w);
    factors_trade(b, yy, w);
    factors_trade(c, z, w);
    factors_trade(b, z, x);
    factors_trade(c, yy, x);
    factors_trade(a, z, yy);
}

proof fn negatives_multiply(s: int, k: int)
    ensures
        (-s) * k == -(s * k),
{
    assert((-s) * k == -(s * k)) by (nonlinear_arith);
}

/// The rate that the equations of motion give an orientation is orthogonal to
/// it, up to rounding: to first order its length does not change.
pub proof fn an_orientation_keeps_its_length(p: RhsParamsView<Fixed>, y: Seq<Fixed>, i: int)
    requires
        turn_is_held(
            turned(rotation_in(y, i), p.inverse_inertia[i]).spec_apply(vec3_at(y, 13 * i + 10)),
            quat_at(y, 13 * i + 6),
        ),
    ensures
        ({
            let q = quat_at(y, 13 * i + 6);
            -5 * total_size(q) <= 4 * exact_dot(rates(p, y, i).orientation, q) <= 5 * total_size(q)
        }),
{
    a_turn_is_orthogonal(
        turned(rotation_in(y, i), p.inverse_inertia[i]).spec_apply(vec3_at(y, 13 * i + 10)),
        quat_at(y, 13 * i + 6),
    );
}

/// What rounding can leave of an entry of a tensor that was turned, where `size`
/// is the sum of the sizes of a row of the rotation.
pub open spec fn tensor_slack(size: int) -> int {
    3 * 18446744073709551616 + 3 * (4294967296 * size)
}

/// The sum of the sizes of a row of a matrix.
pub open spec fn row_size(m: Mat3<Fixed>, a: int) -> int {
    (magnitude(entry(m, a, 0)) + magnitude(entry(m, a, 1)) + magnitude(entry(m, a, 2))) as int
}

/// One row of a rotation times a tensor, in squared fractions.
pub open spec fn turned_row(r: Mat3<Fixed>, t: Mat3<Fixed>, a: int, d: int) -> int {
    entry(r, a, 0) * entry(t, 0, d) + entry(r, a, 1) * entry(t, 1, d) + entry(r, a, 2) * entry(
        t,
        2,
        d,
    )
}

/// A tensor fixed in a body and seen from space is the tensor between the turned
/// axes: each entry is the sum over all entries of the tensor, each times the
/// components of the two axes, up to rounding.
pub proof fn a_turned_tensor_is_seen_from_space(
    r: Mat3<Fixed>,
    t: Mat3<Fixed>,
    a: int,
    b: int,
)
    requires
        product_is_held(r, t),
        product_is_held(r.spec_mul(t), r.spec_transpose()),
        0 <= a < 3,
        0 <= b < 3,
    ensures
        ({
            let exact = turned_row(r, t, a, 0) * entry(r, b, 0) + turned_row(r, t, a, 1) * entry(
                r,
                b,
                1,
            ) + turned_row(r, t, a, 2) * entry(r, b, 2);
            let slack = tensor_slack(row_size(r, b));
            -slack <= 2 * (18446744073709551616 * entry(turned(r, t), a, b) - exact) <= slack
        }),
{
    let m = r.spec_mul(t);
    a_matrix_product(r, t, a, 0);
    a_matrix_product(r, t, a, 1);
    a_matrix_product(r, t, a, 2);
    a_matrix_product(m, r.spec_transpose(), a, b);
    a_transposed_matrix(r, 0, b);
    a_transposed_matrix(r, 1, b);
    a_transposed_matrix(r, 2, b);
    assert(turned(r, t) == m.spec_mul(r.spec_transpose()));
    three_turned(
        (entry(m, a, 0), entry(m, a, 1), entry(m, a, 2)),
        (turned_row(r, t, a, 0), turned_row(r, t, a, 1), turned_row(r, t, a, 2)),
        (entry(r, b, 0), entry(r, b, 1), entry(r, b, 2)),
        entry(turned(r, t), a, b),
    );
}

proof fn three_turned(m: (int, int, int), x: (int, int, int), k: (int, int, int), e: int)
    requires
        is_about(m.0, x.0, 3),
        is_about(m.1, x.1, 3),
        is_about(m.2, x.2, 3),
        is_about(e, m.0 * k.0 + m.1 * k.1 + m.2 * k.2, 3),
    ensures
        ({
            let exact = x.0 * k.0 + x.1 * k.1 + x.2 * k.2;
            let slack = tensor_slack(
                (magnitude(k.0) + magnitude(k.1) + magnitude(k.2)) as int,
            );
            -slack <= 2 * (18446744073709551616 * e - exact) <= slack
        }),
{
    one_turned(m.0, x.0, k.0);
    one_turned(m.1, x.1, k.1);
    one_turned(m.2, x.2, k.2);
}

proof fn one_turned(m: int, x: int, k: int)
    requires
        is_about(m, x, 3),
    ensures
        -(3 * (4294967296 * magnitude(k))) <= 2 * (4294967296 * (m * k)) - 2 * (x * k) <= 3 * (
        4294967296 * magnitude(k)),
{
    let e = 2 * (m * 4294967296 - x);
    let s = magnitude(k) as int;
    assert(-(12884901888 * s) <= e * k <= 12884901888 * s) by (nonlinear_arith)
        requires
            -12884901888 <= e <= 12884901888,
            s == k || s == -k,
            s >= 0,
    ;
    assert(e * k == 2 * (4294967296 * (m * k)) - 2 * (x * k)) by (nonlinear_arith)
        requires
            e == 2 * (m * 4294967296 - x),
    ;
}

/// The axis `b`, or its opposite where `s` is minus one.
pub open spec fn axis(b: int, s: int) -> Vec3<Fixed> {
    let at = |c: int|
        Fixed {
            raw: if c == b {
                (s * ONE) as i64
            } else {
                0
            },
        };
    Vec3 { x: at(0), y: at(1), z: at(2) }
}

proof fn a_product_with_a_sign(v: Fixed, s: int)
    requires
        v.is_proper(),
        s == 1 || s == -1,
    ensures
        v.spec_mul(Fixed { raw: (s * ONE) as i64 }).raw == s * v.raw,
        (Fixed { raw: (s * ONE) as i64 }).spec_mul(v).raw == s * v.raw,
{
    products_commute(v, Fixed { raw: (s * ONE) as i64 });
    let x = v.raw as int;
    if s == 1 {
        assert(x * (s * ONE) == x * 4294967296);
        rounding_is_the_nearest(x * 4294967296, ONE as nat, x);
    } else {
        assert(x * (s * ONE) == (-x) * 4294967296) by (nonlinear_arith)
            requires
                s == -1,
                ONE == 4294967296,
        ;
        rounding_is_the_nearest((-x) * 4294967296, ONE as nat, -x);
    }
}

proof fn a_product_with_an_axis(v: Vec3<Fixed>, b: int, s: int)
    requires
        v.is_proper(),
        0 <= b < 3,
        s == 1 || s == -1,
    ensures
        v.spec_dot(axis(b, s)).raw == s * component(v, b).raw,
        axis(b, s).spec_dot(v).raw == s * component(v, b).raw,
{
    small_numbers();
    assert(Fixed { raw: 0 } == zero::<Fixed>());
    zero_times_a_number(v.x);
    zero_times_a_number(v.y);
    zero_times_a_number(v.z);
    a_product_with_a_sign(component(v, b), s);
}

/// Turning by a rotation that carries axes into axes exchanges the entries of a
/// tensor accordingly, exactly: the entry between two axes seen from space is
/// that between the axes of the body which they are.
pub proof fn a_quarter_turn_exchanges_the_entries(
    p: (int, int, int),
    s: (int, int, int),
    t: Mat3<Fixed>,
    a: int,
    b: int,
)
    requires
        0 <= p.0 < 3,
        0 <= p.1 < 3,
        0 <= p.2 < 3,
        s.0 == 1 || s.0 == -1,
        s.1 == 1 || s.1 == -1,
        s.2 == 1 || s.2 == -1,
        t.r0.is_proper() && t.r1.is_proper() && t.r2.is_proper(),
        0 <= a < 3,
        0 <= b < 3,
    ensures
        ({
            let r = Mat3 { r0: axis(p.0, s.0), r1: axis(p.1, s.1), r2: axis(p.2, s.2) };
            let pick = |q: (int, int, int), k: int|
                if k == 0 {
                    q.0
                } else if k == 1 {
                    q.1
                } else {
                    q.2
                };
            entry(turned(r, t), a, b) == pick(s, a) * pick(s, b) * entry(t, pick(p, a), pick(p, b))
        }),
{
    let r = Mat3 { r0: axis(p.0, s.0), r1: axis(p.1, s.1), r2: axis(p.2, s.2) };
    let m = r.spec_mul(t);
    let columns = t.spec_transpose();
    a_row_is_picked(t, p.0, s.0);
    a_row_is_picked(t, p.1, s.1);
    a_row_is_picked(t, p.2, s.2);
    let (pa, sa) = if a == 0 {
        (p.0, s.0)
    } else if a == 1 {
        (p.1, s.1)
    } else {
        (p.2, s.2)
    };
    let (pb, sb) = if b == 0 {
        (p.0, s.0)
    } else if b == 1 {
        (p.1, s.1)
    } else {
        (p.2, s.2)
    };
    let line = row_of(m, a);
    assert(line == columns.spec_apply(axis(pa, sa)));
    a_product_with_an_axis(line, pb, sb);
    assert(r.spec_transpose().spec_transpose() == r);
    assert(entry(turned(r, t), a, b) == sb * component(line, pb).raw);
    let e = entry(t, pa, pb);
    assert(component(line, pb).raw == sa * e);
    assert(sb * (sa * e) == sa * sb * e) by (nonlinear_arith);
}

proof fn a_row_is_picked(t: Mat3<Fixed>, p: int, s: int)
    requires
        0 <= p < 3,
        s == 1 || s == -1,
        t.r0.is_proper() && t.r1.is_proper() && t.r2.is_proper(),
    ensures
        ({
            let line = t.spec_transpose().spec_apply(axis(p, s));
            &&& line.is_proper()
            &&& line.x.raw == s * entry(t, p, 0)
            &&& line.y.raw == s * entry(t, p, 1)
            &&& line.z.raw == s * entry(t, p, 2)
        }),
{
    let c = t.spec_transpose();
    a_product_with_an_axis(c.r0, p, s);
    a_product_with_an_axis(c.r1, p, s);
    a_product_with_an_axis(c.r2, p, s);
}

} // verus!
