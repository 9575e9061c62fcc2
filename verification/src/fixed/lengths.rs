//! How long unit vectors and unit quaternions are, in fixed-point numbers.

use crate::constrain::direction;
use crate::fixed::rods::multiplies;
use crate::fixed::rounding::{
    rounding_is_near, small_numbers, square_roots, zero_times_a_number,
};
use crate::fixed::{magnitude, nearest, Fixed, ONE};
use crate::integrate::bounds::{
    norm_error, renormalized, renormalizing_keeps_the_length,
    renormalizing_makes_every_quaternion_unit, worst_norm_error,
};
use crate::linalg::{quat_at, Quat, Vec3};
use crate::scalar::{one, zero, Scalar};
use vstd::prelude::*;

verus! {

/// The square of `x + d`, where `d` is at most half of `o`.
proof fn square_of_a_sum(x: int, d: int, o: int, a: int)
    requires
        a == x + d,
        -o <= 2 * d <= o,
        o >= 0,
    ensures
        -(4 * (magnitude(x) * o) + o * o) <= 4 * (a * a - x * x) <= 4 * (magnitude(x) * o) + o * o,
{
    let m = magnitude(x) as int;
    assert(a * a - x * x == 2 * (x * d) + d * d) by (nonlinear_arith)
        requires
            a == x + d,
    ;
    assert(-(m * o) <= 2 * (x * d) <= m * o) by (nonlinear_arith)
        requires
            -o <= 2 * d <= o,
            o >= 0,
            m == x || m == -x,
            m >= 0,
    ;
    assert(0 <= 4 * (d * d) <= o * o) by (nonlinear_arith)
        requires
            -o <= 2 * d <= o,
            o >= 0,
    ;
}

/// What rounding leaves of the square of one component.
proof fn one_component(u: int, c: int, inv: int)
    requires
        inv >= 0,
        -4294967296 <= 2 * (u * 4294967296 - c * inv) <= 4294967296,
    ensures
        ({
            let e = 4 * (18446744073709551616 * (u * u) - (inv * inv) * (c * c));
            let slack = 4 * (4294967296 * (magnitude(c) * inv)) + 18446744073709551616;
            -slack <= e <= slack
        }),
{
    let a = u * 4294967296;
    let x = c * inv;
    square_of_a_sum(x, a - x, 4294967296, a);
    assert(a * a == 18446744073709551616 * (u * u)) by (nonlinear_arith)
        requires
            a == u * 4294967296,
    ;
    assert(x * x == (inv * inv) * (c * c)) by (nonlinear_arith)
        requires
            x == c * inv,
    ;
    let m = magnitude(c) as int;
    assert(magnitude(x) == m * inv) by (nonlinear_arith)
        requires
            x == c * inv,
            inv >= 0,
            magnitude(x) == x || magnitude(x) == -x,
            magnitude(x) >= 0,
            m == c || m == -c,
            m >= 0,
    ;
}

/// What rounding leaves of the squared length of four components over their
/// length `n`, whose inverse is rounded to `inv`.
pub open spec fn length_slack(n: int, inv: int, sizes: int) -> int {
    18446744073709551616 * (4 * n) + n * n + (inv * inv) * (8 * n + 34359738368) + 4 * (4294967296
        * (sizes * inv)) + 4 * 18446744073709551616
}

proof fn four_components(
    c: (int, int, int, int),
    p: (int, int, int, int),
    u: (int, int, int, int),
    n: int,
    inv: int,
)
    requires
        n > 0,
        inv >= 0,
        n * n <= (p.0 + p.1 + p.2 + p.3) * 4294967296 < (n + 1) * (n + 1),
        -4294967296 <= 2 * (p.0 * 4294967296 - c.0 * c.0) <= 4294967296,
        -4294967296 <= 2 * (p.1 * 4294967296 - c.1 * c.1) <= 4294967296,
        -4294967296 <= 2 * (p.2 * 4294967296 - c.2 * c.2) <= 4294967296,
        -4294967296 <= 2 * (p.3 * 4294967296 - c.3 * c.3) <= 4294967296,
        -n <= 2 * (inv * n - 18446744073709551616) <= n,
        -4294967296 <= 2 * (u.0 * 4294967296 - c.0 * inv) <= 4294967296,
        -4294967296 <= 2 * (u.1 * 4294967296 - c.1 * inv) <= 4294967296,
        -4294967296 <= 2 * (u.2 * 4294967296 - c.2 * inv) <= 4294967296,
        -4294967296 <= 2 * (u.3 * 4294967296 - c.3 * inv) <= 4294967296,
    ensures
        ({
            let t = u.0 * u.0 + u.1 * u.1 + u.2 * u.2 + u.3 * u.3;
            let sizes = magnitude(c.0) + magnitude(c.1) + magnitude(c.2) + magnitude(c.3);
            let e = 4 * (18446744073709551616 * t - 340282366920938463463374607431768211456);
            -length_slack(n, inv, sizes as int) <= e <= length_slack(n, inv, sizes as int)
        }),
{
    one_component(u.0, c.0, inv);
    one_component(u.1, c.1, inv);
    one_component(u.2, c.2, inv);
    one_component(u.3, c.3, inv);
    let i2 = inv * inv;
    let s = c.0 * c.0 + c.1 * c.1 + c.2 * c.2 + c.3 * c.3;
    assert(i2 * (c.0 * c.0) + i2 * (c.1 * c.1) + i2 * (c.2 * c.2) + i2 * (c.3 * c.3) == i2 * s)
        by (nonlinear_arith)
        requires
            s == c.0 * c.0 + c.1 * c.1 + c.2 * c.2 + c.3 * c.3,
    ;
    let (m0, m1, m2, m3) = (
        magnitude(c.0) as int,
        magnitude(c.1) as int,
        magnitude(c.2) as int,
        magnitude(c.3) as int,
    );
    let sizes = m0 + m1 + m2 + m3;
    assert(m0 * inv + m1 * inv + m2 * inv + m3 * inv == sizes * inv) by (nonlinear_arith)
        requires
            sizes == m0 + m1 + m2 + m3,
    ;
    // The squared length against the rounded length.
    assert((n + 1) * (n + 1) == n * n + 2 * n + 1) by (nonlinear_arith);
    let n2 = n * n;
    assert(-8589934592 <= s - n2 <= 2 * n + 8589934592);
    assert(i2 >= 0) by (nonlinear_arith)
        requires
            i2 == inv * inv,
    ;
    assert(-(i2 * (2 * n + 8589934592)) <= i2 * (s - n2) <= i2 * (2 * n + 8589934592))
        by (nonlinear_arith)
        requires
            i2 >= 0,
            n > 0,
            -8589934592 <= s - n2 <= 2 * n + 8589934592,
    ;
    assert(i2 * (s - n2) == i2 * s - i2 * n2) by (nonlinear_arith);
    assert(4 * (i2 * (2 * n + 8589934592)) == i2 * (8 * n + 34359738368)) by (nonlinear_arith);
    // The rounded inverse.
    let k = inv * n;
    square_of_a_sum(18446744073709551616, k - 18446744073709551616, n, k);
    assert(magnitude(18446744073709551616) * n == 18446744073709551616 * n) by {
        assert(magnitude(18446744073709551616) == 18446744073709551616);
    }
    assert(18446744073709551616 * 18446744073709551616
        == 340282366920938463463374607431768211456int);
    assert(k * k == i2 * n2) by (nonlinear_arith)
        requires
            k == inv * n,
            i2 == inv * inv,
            n2 == n * n,
    ;
}

/// The squared length of a quaternion, before it is rounded to a length.
pub open spec fn spec_norm_squared(q: Quat<Fixed>) -> Fixed {
    q.w.spec_mul(q.w).spec_add(q.x.spec_mul(q.x)).spec_add(q.y.spec_mul(q.y)).spec_add(
        q.z.spec_mul(q.z),
    )
}

/// The squared length of a quaternion as a whole number of squared fractions,
/// exactly.
pub open spec fn exact_square(q: Quat<Fixed>) -> int {
    q.w.raw * q.w.raw + q.x.raw * q.x.raw + q.y.raw * q.y.raw + q.z.raw * q.z.raw
}

/// The sizes of the components, added up as whole numbers.
pub open spec fn total_size(q: Quat<Fixed>) -> int {
    (magnitude(q.w.raw as int) + magnitude(q.x.raw as int) + magnitude(q.y.raw as int) + magnitude(
        q.z.raw as int,
    )) as int
}

/// The inverse of a quaternion's length.
pub open spec fn inverse_length(q: Quat<Fixed>) -> Fixed {
    one::<Fixed>().spec_div(q.spec_norm())
}

/// Whether a quaternion can be made unit: its length is at least four fractions,
/// and nothing on the way goes beyond the largest number.
pub open spec fn can_be_unit(q: Quat<Fixed>) -> bool {
    &&& q.spec_norm().raw >= 4
    &&& spec_norm_squared(q).raw < i64::MAX
    &&& multiplies(q.w, inverse_length(q)) && multiplies(q.x, inverse_length(q))
    &&& multiplies(q.y, inverse_length(q)) && multiplies(q.z, inverse_length(q))
}

proof fn one_square(a: Fixed)
    ensures
        0 <= a.spec_mul(a).raw,
        a.spec_mul(a).raw < i64::MAX ==> a.spec_mul(a).raw == nearest(a.raw * a.raw, ONE as nat),
        -4294967296 <= 2 * (nearest(a.raw * a.raw, ONE as nat) * 4294967296 - a.raw * a.raw)
            <= 4294967296,
{
    let x = a.raw * a.raw;
    assert(x >= 0) by (nonlinear_arith)
        requires
            x == a.raw * a.raw,
    ;
    rounding_is_near(x, ONE as nat);
}

/// The rounded squares of a quaternion add up to its squared length, and its
/// length is the root of that.
proof fn squares_add_up(q: Quat<Fixed>)
    requires
        spec_norm_squared(q).raw < i64::MAX,
    ensures
        ({
            let y = ONE as nat;
            let p = nearest(q.w.raw * q.w.raw, y) + nearest(q.x.raw * q.x.raw, y) + nearest(
                q.y.raw * q.y.raw,
                y,
            ) + nearest(q.z.raw * q.z.raw, y);
            let n = q.spec_norm().raw as int;
            &&& spec_norm_squared(q).raw == p >= 0
            &&& 0 <= n && n * n <= p * 4294967296 < (n + 1) * (n + 1)
            &&& -17179869184 <= 2 * (p * 4294967296 - exact_square(q)) <= 17179869184
        }),
{
    one_square(q.w);
    one_square(q.x);
    one_square(q.y);
    one_square(q.z);
    square_roots(spec_norm_squared(q));
}

/// The inverse of a length is within one half of a fraction.
proof fn inverses_are_near(n: Fixed)
    requires
        n.raw >= 4,
    ensures
        ({
            let inv = one::<Fixed>().spec_div(n).raw as int;
            &&& inv >= 0
            &&& -n.raw <= 2 * (inv * n.raw - 18446744073709551616) <= n.raw
        }),
{
    small_numbers();
    assert(ONE * ONE == 18446744073709551616);
    rounding_is_near(18446744073709551616, n.raw as nat);
    let inv = nearest(18446744073709551616, n.raw as nat);
    let k = n.raw as int;
    assert(inv <= i64::MAX) by (nonlinear_arith)
        requires
            2 * (inv * k - 18446744073709551616) <= k,
            k >= 4,
    ;
    assert(inv >= 0) by (nonlinear_arith)
        requires
            -k <= 2 * (inv * k - 18446744073709551616),
            4 <= k <= 9223372036854775807,
    ;
}

/// A quaternion that was made unit has length one, up to what rounding leaves:
/// the sum of its squares differs from one by at most a bound that depends on
/// the length it had.
pub proof fn a_normalized_quaternion_has_length_one(q: Quat<Fixed>)
    requires
        can_be_unit(q),
    ensures
        ({
            let slack = length_slack(
                q.spec_norm().raw as int,
                inverse_length(q).raw as int,
                total_size(q),
            );
            let e = 4 * (18446744073709551616 * exact_square(q.spec_normalize())
                - 340282366920938463463374607431768211456);
            -slack <= e <= slack
        }),
{
    let y = ONE as nat;
    let n = q.spec_norm();
    let inv = inverse_length(q);
    squares_add_up(q);
    inverses_are_near(n);
    one_square(q.w);
    one_square(q.x);
    one_square(q.y);
    one_square(q.z);
    rounding_is_near(q.w.raw * inv.raw, y);
    rounding_is_near(q.x.raw * inv.raw, y);
    rounding_is_near(q.y.raw * inv.raw, y);
    rounding_is_near(q.z.raw * inv.raw, y);
    let u = q.spec_normalize();
    four_components(
        (q.w.raw as int, q.x.raw as int, q.y.raw as int, q.z.raw as int),
        (
            nearest(q.w.raw * q.w.raw, y),
            nearest(q.x.raw * q.x.raw, y),
            nearest(q.y.raw * q.y.raw, y),
            nearest(q.z.raw * q.z.raw, y),
        ),
        (u.w.raw as int, u.x.raw as int, u.y.raw as int, u.z.raw as int),
        n.raw as int,
        inv.raw as int,
    );
}

/// A vector as a quaternion has the same length, and the same direction.
proof fn a_vector_as_a_quaternion(d: Vec3<Fixed>)
    ensures
        spec_norm_squared(Quat::spec_pure(d)) == d.spec_norm_squared(),
        Quat::<Fixed>::spec_pure(d).spec_norm() == d.spec_norm(),
        exact_square(Quat::spec_pure(d)) == d.x.raw * d.x.raw + d.y.raw * d.y.raw + d.z.raw
            * d.z.raw,
{
    small_numbers();
    zero_times_a_number(zero());
    one_square(d.x);
    assert(0 * 0 == 0) by (nonlinear_arith);
}

/// A direction has length one, up to what rounding leaves.
pub proof fn a_direction_has_length_one(d: Vec3<Fixed>)
    requires
        can_be_unit(Quat::spec_pure(d)),
    ensures
        ({
            let q = Quat::spec_pure(d);
            let u = direction(d);
            let slack = length_slack(
                d.spec_norm().raw as int,
                inverse_length(q).raw as int,
                total_size(q),
            );
            let e = 4 * (18446744073709551616 * (u.x.raw * u.x.raw + u.y.raw * u.y.raw + u.z.raw
                * u.z.raw) - 340282366920938463463374607431768211456);
            -slack <= e <= slack
        }),
{
    small_numbers();
    a_direction_is_a_unit_quaternion(d);
    a_normalized_quaternion_has_length_one(Quat::spec_pure(d));
}

/// The direction of a vector is the unit quaternion of the vector.
proof fn a_direction_is_a_unit_quaternion(d: Vec3<Fixed>)
    requires
        can_be_unit(Quat::spec_pure(d)),
    ensures
        Quat::<Fixed>::spec_pure(d).spec_normalize() == Quat::<Fixed>::spec_pure(direction(d)),
        Quat::<Fixed>::spec_pure(d).spec_norm() == d.spec_norm(),
{
    small_numbers();
    a_vector_as_a_quaternion(d);
    zero_times_a_number(inverse_length(Quat::spec_pure(d)));
}

/// A unit quaternion times the length is the quaternion again, up to what
/// rounding leaves of each component.
pub proof fn a_unit_quaternion_times_the_length_is_the_quaternion(q: Quat<Fixed>)
    requires
        can_be_unit(q),
    ensures
        ({
            let n = q.spec_norm().raw as int;
            let u = q.spec_normalize();
            &&& gives_back(u.w.raw as int, n, q.w.raw as int)
            &&& gives_back(u.x.raw as int, n, q.x.raw as int)
            &&& gives_back(u.y.raw as int, n, q.y.raw as int)
            &&& gives_back(u.z.raw as int, n, q.z.raw as int)
        }),
{
    small_numbers();
    let inv = inverse_length(q).raw as int;
    let n = q.spec_norm().raw as int;
    inverses_are_near(q.spec_norm());
    rounding_is_near(q.w.raw * inv, ONE as nat);
    rounding_is_near(q.x.raw * inv, ONE as nat);
    rounding_is_near(q.y.raw * inv, ONE as nat);
    rounding_is_near(q.z.raw * inv, ONE as nat);
    let u = q.spec_normalize();
    a_component_returns(u.w.raw as int, n, q.w.raw as int, inv);
    a_component_returns(u.x.raw as int, n, q.x.raw as int, inv);
    a_component_returns(u.y.raw as int, n, q.y.raw as int, inv);
    a_component_returns(u.z.raw as int, n, q.z.raw as int, inv);
}

/// A direction times the length is the vector again, up to what rounding leaves
/// of each component.
pub proof fn a_direction_times_the_length_is_the_vector(d: Vec3<Fixed>)
    requires
        can_be_unit(Quat::spec_pure(d)),
    ensures
        ({
            let n = d.spec_norm().raw as int;
            let u = direction(d);
            &&& gives_back(u.x.raw as int, n, d.x.raw as int)
            &&& gives_back(u.y.raw as int, n, d.y.raw as int)
            &&& gives_back(u.z.raw as int, n, d.z.raw as int)
        }),
{
    a_direction_is_a_unit_quaternion(d);
    a_unit_quaternion_times_the_length_is_the_quaternion(Quat::spec_pure(d));
}

/// Whether the component `u` of a direction, times the length `n`, is the
/// component `c` of the vector up to half a length for the product and half the
/// component for the inverse.
pub open spec fn gives_back(u: int, n: int, c: int) -> bool {
    let slack = 4294967296 * n + magnitude(c) * n;
    -slack <= 2 * (4294967296 * (u * n) - 18446744073709551616 * c) <= slack
}

proof fn a_component_returns(u: int, n: int, c: int, inv: int)
    requires
        n > 0,
        -n <= 2 * (inv * n - 18446744073709551616) <= n,
        -4294967296 <= 2 * (u * 4294967296 - c * inv) <= 4294967296,
    ensures
        gives_back(u, n, c),
{
    let e = u * 4294967296 - c * inv;
    let h = inv * n - 18446744073709551616;
    let m = magnitude(c) as int;
    assert(-(4294967296 * n) <= 2 * (e * n) <= 4294967296 * n) by (nonlinear_arith)
        requires
            -4294967296 <= 2 * e <= 4294967296,
            n > 0,
    ;
    assert(-(m * n) <= 2 * (c * h) <= m * n) by (nonlinear_arith)
        requires
            -n <= 2 * h <= n,
            n > 0,
            m == c || m == -c,
            m >= 0,
    ;
    assert(e * n == 4294967296 * (u * n) - c * (inv * n)) by (nonlinear_arith)
        requires
            e == u * 4294967296 - c * inv,
    ;
    assert(c * h == c * (inv * n) - 18446744073709551616 * c) by (nonlinear_arith)
        requires
            h == inv * n - 18446744073709551616,
    ;
}

/// A vector is about as long as its norm: its exact square lies between those of
/// the norm and of the next number, up to what rounding leaves of the squares.
pub proof fn a_vector_is_about_as_long_as_its_norm(d: Vec3<Fixed>)
    requires
        d.spec_norm_squared().raw < i64::MAX,
    ensures
        ({
            let n = d.spec_norm().raw as int;
            let s = d.x.raw * d.x.raw + d.y.raw * d.y.raw + d.z.raw * d.z.raw;
            &&& n >= 0
            &&& n * n <= s + 8589934592
            &&& s <= n * n + 2 * n + 8589934592
        }),
{
    small_numbers();
    a_vector_as_a_quaternion(d);
    squares_add_up(Quat::spec_pure(d));
    let n = d.spec_norm().raw as int;
    assert((n + 1) * (n + 1) == n * n + 2 * n + 1) by (nonlinear_arith);
}

/// Whether a quaternion's length lies between one half and two.
pub open spec fn is_near_unit(q: Quat<Fixed>) -> bool {
    2147483648 <= q.spec_norm().raw <= 8589934592
}

/// A component is hardly larger than the length.
proof fn a_component_is_within_the_length(c: int, s: int, n: int)
    requires
        c * c <= s <= n * n + 2 * n + 8589934592,
        n >= 2147483648,
    ensures
        magnitude(c) <= n + 5,
{
    let m = magnitude(c) as int;
    assert(m <= n + 5) by (nonlinear_arith)
        requires
            c * c <= n * n + 2 * n + 8589934592,
            n >= 2147483648,
            m == c || m == -c,
    ;
}

proof fn a_square_is_not_negative(c: int)
    ensures
        c * c >= 0,
{
    assert(c * c >= 0) by (nonlinear_arith);
}

/// The sizes of a quaternion near length one.
proof fn sizes_near_unit(q: Quat<Fixed>)
    requires
        is_near_unit(q),
    ensures
        ({
            let n = q.spec_norm().raw as int;
            let inv = inverse_length(q).raw as int;
            &&& spec_norm_squared(q).raw < i64::MAX
            &&& magnitude(q.w.raw as int) <= n + 5 && magnitude(q.x.raw as int) <= n + 5
            &&& magnitude(q.y.raw as int) <= n + 5 && magnitude(q.z.raw as int) <= n + 5
            &&& 0 <= inv <= 8589934592
            &&& -n <= 2 * (inv * n - 18446744073709551616) <= n
        }),
{
    let n = q.spec_norm().raw as int;
    one_square(q.w);
    one_square(q.x);
    one_square(q.y);
    one_square(q.z);
    square_roots(spec_norm_squared(q));
    let p = spec_norm_squared(q).raw as int;
    assert((n + 1) * (n + 1) <= 8589934593 * 8589934593) by (nonlinear_arith)
        requires
            0 <= n <= 8589934592,
    ;
    squares_add_up(q);
    assert((n + 1) * (n + 1) == n * n + 2 * n + 1) by (nonlinear_arith);
    let s = exact_square(q);
    a_square_is_not_negative(q.w.raw as int);
    a_square_is_not_negative(q.x.raw as int);
    a_square_is_not_negative(q.y.raw as int);
    a_square_is_not_negative(q.z.raw as int);
    a_component_is_within_the_length(q.w.raw as int, s, n);
    a_component_is_within_the_length(q.x.raw as int, s, n);
    a_component_is_within_the_length(q.y.raw as int, s, n);
    a_component_is_within_the_length(q.z.raw as int, s, n);
    inverses_are_near(q.spec_norm());
    let inv = inverse_length(q).raw as int;
    assert(inv <= 8589934592) by (nonlinear_arith)
        requires
            2 * (inv * n - 18446744073709551616) <= n,
            n >= 2147483648,
    ;
}

proof fn a_small_product_is_held(c: Fixed, inv: Fixed)
    requires
        magnitude(c.raw as int) <= 8589934597,
        0 <= inv.raw <= 8589934592,
    ensures
        multiplies(c, inv),
{
    let (a, b) = (c.raw as int, inv.raw as int);
    assert(-(8589934597 * 8589934592) <= a * b <= 8589934597 * 8589934592) by (nonlinear_arith)
        requires
            -8589934597 <= a <= 8589934597,
            0 <= b <= 8589934592,
    ;
    rounding_is_near(a * b, ONE as nat);
}

/// The bound on the squared length is about eighteen fractions.
proof fn the_slack_near_unit(n: int, inv: int, sizes: int)
    requires
        2147483648 <= n <= 8589934592,
        0 <= inv <= 8589934592,
        2 * (inv * n - 18446744073709551616) <= n,
        0 <= sizes <= 4 * (n + 5),
    ensures
        length_slack(n, inv, sizes) <= 76 * 79228162514264337593543950336,
{
    // Products of at most three factors that are about one.
    let k = inv * n;
    assert(n * n <= 8589934592 * 8589934592) by (nonlinear_arith)
        requires
            0 <= n <= 8589934592,
    ;
    let i2 = inv * inv;
    assert(0 <= i2 <= 8589934592 * 8589934592) by (nonlinear_arith)
        requires
            0 <= inv <= 8589934592,
            i2 == inv * inv,
    ;
    assert(i2 * n == inv * k) by (nonlinear_arith)
        requires
            i2 == inv * inv,
            k == inv * n,
    ;
    assert(inv * k <= 8589934592 * 18446744078004518912) by (nonlinear_arith)
        requires
            0 <= inv <= 8589934592,
            k <= 18446744078004518912,
    ;
    assert(i2 * (8 * n + 34359738368) == 8 * (i2 * n) + 34359738368 * i2) by (nonlinear_arith);
    assert(sizes * inv <= (4 * (n + 5)) * inv) by (nonlinear_arith)
        requires
            sizes <= 4 * (n + 5),
            inv >= 0,
    ;
    assert((4 * (n + 5)) * inv == 4 * k + 20 * inv) by (nonlinear_arith)
        requires
            k == inv * n,
    ;
}

/// A number whose square is about one is about one.
proof fn a_root_near_unit(n: int, t: int)
    requires
        n >= 0,
        n * n <= t + 8589934592,
        t - 8589934592 < (n + 1) * (n + 1),
        18446744073709551616 - 20 * 4294967296 <= t <= 18446744073709551616 + 20 * 4294967296,
    ensures
        4294967296 - 12 <= n <= 4294967296 + 12,
{
    assert(n <= 4294967296 + 12) by (nonlinear_arith)
        requires
            n >= 0,
            n * n <= 18446744073709551616 + 22 * 4294967296,
    ;
    assert(4294967296 - 12 <= n) by (nonlinear_arith)
        requires
            n >= 0,
            18446744073709551616 - 22 * 4294967296 < (n + 1) * (n + 1),
    ;
}

/// A quaternion whose length lies between one half and two is made unit to
/// within twelve fractions.
pub proof fn a_quaternion_near_unit_is_made_unit(q: Quat<Fixed>)
    requires
        is_near_unit(q),
    ensures
        norm_error(q.spec_normalize()).raw <= 12,
        is_near_unit(q.spec_normalize()),
{
    small_numbers();
    let n = q.spec_norm().raw as int;
    let inv = inverse_length(q);
    sizes_near_unit(q);
    a_small_product_is_held(q.w, inv);
    a_small_product_is_held(q.x, inv);
    a_small_product_is_held(q.y, inv);
    a_small_product_is_held(q.z, inv);
    a_normalized_quaternion_has_length_one(q);
    the_slack_near_unit(n, inv.raw as int, total_size(q));
    let u = q.spec_normalize();
    let t = exact_square(u);
    a_square_is_not_negative(u.w.raw as int);
    a_square_is_not_negative(u.x.raw as int);
    a_square_is_not_negative(u.y.raw as int);
    a_square_is_not_negative(u.z.raw as int);
    one_square(u.w);
    one_square(u.x);
    one_square(u.y);
    one_square(u.z);
    squares_add_up(u);
    a_root_near_unit(u.spec_norm().raw as int, t);
}

/// The quaternion of body `i` in a full state vector.
pub open spec fn attitude(y: Seq<Fixed>, i: int) -> Quat<Fixed> {
    quat_at(y, 13 * i + 6)
}

proof fn the_worst_error_is_small(y: Seq<Fixed>, n: nat)
    requires
        forall|i: int| 0 <= i < n ==> norm_error(#[trigger] attitude(y, i)).raw <= 12,
    ensures
        worst_norm_error(y, n).raw <= 12,
    decreases n,
{
    small_numbers();
    if n > 0 {
        the_worst_error_is_small(y, (n - 1) as nat);
        assert(norm_error(attitude(y, n - 1)).raw <= 12);
    }
}

/// Renormalizing quaternions whose lengths lie between one half and two leaves
/// every one of them unit to within twelve fractions, so that a second time
/// reports no more than that.
pub proof fn renormalizing_twice_reports_little(y: Seq<Fixed>, n: nat)
    requires
        13 * n <= y.len(),
        forall|i: int| 0 <= i < n ==> is_near_unit(#[trigger] attitude(y, i)),
    ensures
        forall|i: int|
            0 <= i < n ==> is_near_unit(#[trigger] attitude(renormalized(y, n), i)) && norm_error(
                attitude(renormalized(y, n), i),
            ).raw <= 12,
        worst_norm_error(renormalized(y, n), n).raw <= 12,
{
    let z = renormalized(y, n);
    assert forall|i: int| 0 <= i < n implies is_near_unit(#[trigger] attitude(z, i)) && norm_error(
        attitude(z, i),
    ).raw <= 12 by {
        assert(is_near_unit(attitude(y, i)));
        renormalizing_makes_every_quaternion_unit(y, n, i);
        a_quaternion_near_unit_is_made_unit(attitude(y, i));
    }
    the_worst_error_is_small(z, n);
}

proof fn a_component_hardly_changes(u: int, c: int, inv: int, n: int)
    requires
        4294967296 - 12 <= n <= 4294967296 + 12,
        -n <= 2 * (inv * n - 18446744073709551616) <= n,
        magnitude(c) <= n + 5,
        -4294967296 <= 2 * (u * 4294967296 - c * inv) <= 4294967296,
    ensures
        -14 <= u - c <= 14,
{
    assert(4294967296 - 13 <= inv) by (nonlinear_arith)
        requires
            4294967296 - 12 <= n <= 4294967296 + 12,
            -n <= 2 * (inv * n - 18446744073709551616),
    ;
    assert(inv <= 4294967296 + 13) by (nonlinear_arith)
        requires
            4294967296 - 12 <= n <= 4294967296 + 12,
            2 * (inv * n - 18446744073709551616) <= n,
    ;
    let d = inv - 4294967296;
    assert(c * inv == c * 4294967296 + c * d) by (nonlinear_arith)
        requires
            d == inv - 4294967296,
    ;
    assert(-(13 * 4294967313) <= c * d <= 13 * 4294967313) by (nonlinear_arith)
        requires
            -4294967313 <= c <= 4294967313,
            -13 <= d <= 13,
    ;
}

/// Whether no component differs by more than fourteen fractions.
pub open spec fn hardly_differs(a: Quat<Fixed>, b: Quat<Fixed>) -> bool {
    &&& -14 <= a.w.raw - b.w.raw <= 14
    &&& -14 <= a.x.raw - b.x.raw <= 14
    &&& -14 <= a.y.raw - b.y.raw <= 14
    &&& -14 <= a.z.raw - b.z.raw <= 14
}

/// A quaternion that is unit to within twelve fractions is hardly changed by
/// being made unit again.
pub proof fn a_unit_quaternion_hardly_changes(q: Quat<Fixed>)
    requires
        norm_error(q).raw <= 12,
    ensures
        hardly_differs(q.spec_normalize(), q),
{
    small_numbers();
    square_roots(spec_norm_squared(q));
    let n = q.spec_norm().raw as int;
    let inv = inverse_length(q);
    sizes_near_unit(q);
    a_small_product_is_held(q.w, inv);
    a_small_product_is_held(q.x, inv);
    a_small_product_is_held(q.y, inv);
    a_small_product_is_held(q.z, inv);
    rounding_is_near(q.w.raw * inv.raw, ONE as nat);
    rounding_is_near(q.x.raw * inv.raw, ONE as nat);
    rounding_is_near(q.y.raw * inv.raw, ONE as nat);
    rounding_is_near(q.z.raw * inv.raw, ONE as nat);
    let u = q.spec_normalize();
    a_component_hardly_changes(u.w.raw as int, q.w.raw as int, inv.raw as int, n);
    a_component_hardly_changes(u.x.raw as int, q.x.raw as int, inv.raw as int, n);
    a_component_hardly_changes(u.y.raw as int, q.y.raw as int, inv.raw as int, n);
    a_component_hardly_changes(u.z.raw as int, q.z.raw as int, inv.raw as int, n);
}

/// Renormalizing a state a second time hardly changes it.
pub proof fn renormalizing_again_changes_little(y: Seq<Fixed>, n: nat, i: int)
    requires
        13 * n <= y.len(),
        forall|k: int| 0 <= k < n ==> is_near_unit(#[trigger] attitude(y, k)),
        0 <= i < n,
    ensures
        ({
            let z = renormalized(y, n);
            hardly_differs(attitude(renormalized(z, n), i), attitude(z, i))
        }),
{
    let z = renormalized(y, n);
    renormalizing_twice_reports_little(y, n);
    assert(is_near_unit(attitude(z, i)));
    a_unit_quaternion_hardly_changes(attitude(z, i));
    renormalizing_keeps_the_length(y, n);
    renormalizing_makes_every_quaternion_unit(z, n, i);
}

/// Whether the component `ue` of one direction, times the length `ne` and `m`,
/// is the component `ud` of another, times the length `nd` and `k`, up to what
/// rounding leaves of the components `ce` and `cd`.
pub open spec fn agrees(
    ue: int,
    ne: int,
    ce: int,
    m: int,
    ud: int,
    nd: int,
    cd: int,
    k: int,
) -> bool {
    let slack = m * (4294967296 * ne + magnitude(ce) * ne) + k * (4294967296 * nd + magnitude(cd)
        * nd);
    -slack <= 2 * (4294967296 * (m * (ue * ne) - k * (ud * nd))) <= slack
}

proof fn a_component_agrees(
    ue: int,
    ne: int,
    ce: int,
    m: int,
    ud: int,
    nd: int,
    cd: int,
    k: int,
)
    requires
        k > 0,
        m > 0,
        m * ce == k * cd,
        gives_back(ue, ne, ce),
        gives_back(ud, nd, cd),
    ensures
        agrees(ue, ne, ce, m, ud, nd, cd, k),
{
    a_multiple_is_given_back(ue, ne, ce, m);
    a_multiple_is_given_back(ud, nd, cd, k);
}

proof fn a_multiple_is_given_back(u: int, n: int, c: int, k: int)
    requires
        k > 0,
        gives_back(u, n, c),
    ensures
        ({
            let slack = k * (4294967296 * n + magnitude(c) * n);
            -slack <= 2 * (4294967296 * (k * (u * n))) - 2 * (18446744073709551616 * (k * c))
                <= slack
        }),
{
    let a = 2 * (4294967296 * (u * n) - 18446744073709551616 * c);
    let s = 4294967296 * n + magnitude(c) * n;
    assert(-(k * s) <= k * a <= k * s) by (nonlinear_arith)
        requires
            -s <= a <= s,
            k > 0,
    ;
    let w = u * n;
    assert(k * a == 2 * (4294967296 * (k * w)) - 2 * (18446744073709551616 * (k * c)))
        by (nonlinear_arith)
        requires
            a == 2 * (4294967296 * w - 18446744073709551616 * c),
    ;
}

/// Whether `m` times the quaternion `p` is `k` times the quaternion `q`,
/// exactly.
pub open spec fn in_proportion(p: Quat<Fixed>, m: int, q: Quat<Fixed>, k: int) -> bool {
    &&& m * p.w.raw == k * q.w.raw
    &&& m * p.x.raw == k * q.x.raw
    &&& m * p.y.raw == k * q.y.raw
    &&& m * p.z.raw == k * q.z.raw
}

/// Quaternions in proportion are made the same unit quaternion, up to what
/// rounding leaves: the length of an orientation in a state vector does not
/// matter to the poses taken from it.
pub proof fn quaternions_in_proportion_give_one_orientation(
    p: Quat<Fixed>,
    m: int,
    q: Quat<Fixed>,
    k: int,
)
    requires
        k > 0,
        m > 0,
        in_proportion(p, m, q, k),
        can_be_unit(p),
        can_be_unit(q),
    ensures
        ({
            let (np, nq) = (p.spec_norm().raw as int, q.spec_norm().raw as int);
            let (a, b) = (p.spec_normalize(), q.spec_normalize());
            &&& agrees(a.w.raw as int, np, p.w.raw as int, m, b.w.raw as int, nq, q.w.raw as int, k)
            &&& agrees(a.x.raw as int, np, p.x.raw as int, m, b.x.raw as int, nq, q.x.raw as int, k)
            &&& agrees(a.y.raw as int, np, p.y.raw as int, m, b.y.raw as int, nq, q.y.raw as int, k)
            &&& agrees(a.z.raw as int, np, p.z.raw as int, m, b.z.raw as int, nq, q.z.raw as int, k)
        }),
{
    a_unit_quaternion_times_the_length_is_the_quaternion(p);
    a_unit_quaternion_times_the_length_is_the_quaternion(q);
    let (np, nq) = (p.spec_norm().raw as int, q.spec_norm().raw as int);
    let (a, b) = (p.spec_normalize(), q.spec_normalize());
    a_component_agrees(
        a.w.raw as int,
        np,
        p.w.raw as int,
        m,
        b.w.raw as int,
        nq,
        q.w.raw as int,
        k,
    );
    a_component_agrees(
        a.x.raw as int,
        np,
        p.x.raw as int,
        m,
        b.x.raw as int,
        nq,
        q.x.raw as int,
        k,
    );
    a_component_agrees(
        a.y.raw as int,
        np,
        p.y.raw as int,
        m,
        b.y.raw as int,
        nq,
        q.y.raw as int,
        k,
    );
    a_component_agrees(
        a.z.raw as int,
        np,
        p.z.raw as int,
        m,
        b.z.raw as int,
        nq,
        q.z.raw as int,
        k,
    );
}

/// Vectors in proportion have one direction, up to what rounding leaves.
pub proof fn vectors_in_proportion_have_one_direction(
    e: Vec3<Fixed>,
    m: int,
    d: Vec3<Fixed>,
    k: int,
)
    requires
        k > 0,
        m > 0,
        in_proportion(Quat::spec_pure(e), m, Quat::spec_pure(d), k),
        can_be_unit(Quat::spec_pure(e)),
        can_be_unit(Quat::spec_pure(d)),
    ensures
        ({
            let (ne, nd) = (e.spec_norm().raw as int, d.spec_norm().raw as int);
            let (a, b) = (direction(e), direction(d));
            &&& agrees(a.x.raw as int, ne, e.x.raw as int, m, b.x.raw as int, nd, d.x.raw as int, k)
            &&& agrees(a.y.raw as int, ne, e.y.raw as int, m, b.y.raw as int, nd, d.y.raw as int, k)
            &&& agrees(a.z.raw as int, ne, e.z.raw as int, m, b.z.raw as int, nd, d.z.raw as int, k)
        }),
{
    a_direction_is_a_unit_quaternion(e);
    a_direction_is_a_unit_quaternion(d);
    quaternions_in_proportion_give_one_orientation(
        Quat::spec_pure(e),
        m,
        Quat::spec_pure(d),
        k,
    );
}

/// A number whose square is near one is near one.
proof fn a_root_is_near_one(n: int, t: int, slack: int)
    requires
        n >= 0,
        n * n <= t + 8589934592,
        t - 8589934592 < (n + 1) * (n + 1),
        -slack <= 4 * (18446744073709551616 * (t - 18446744073709551616)) <= slack,
    ensures
        4 * (79228162514264337593543950336 * magnitude(n - 4294967296)) <= slack + 12
            * 79228162514264337593543950336,
{
    if n >= 4294967296 {
        let d = n - 4294967296;
        assert(4294967296 * d + 18446744073709551616 <= n * n) by (nonlinear_arith)
            requires
                n == 4294967296 + d,
                d >= 0,
        ;
    } else {
        let d = 4294967295 - n;
        assert((n + 1) * (n + 1) + 4294967296 * d <= 18446744073709551616) by (nonlinear_arith)
            requires
                n + 1 == 4294967296 - d,
                0 <= d <= 4294967295,
        ;
    }
}

/// A quaternion that was made unit is not far from unit, however long it was:
/// its error is bounded by what rounding leaves of its length.
pub proof fn the_error_that_is_left_is_bounded(q: Quat<Fixed>)
    requires
        can_be_unit(q),
        spec_norm_squared(q.spec_normalize()).raw < i64::MAX,
    ensures
        ({
            let slack = length_slack(
                q.spec_norm().raw as int,
                inverse_length(q).raw as int,
                total_size(q),
            );
            4 * (79228162514264337593543950336 * norm_error(q.spec_normalize()).raw) <= slack + 12
                * 79228162514264337593543950336
        }),
{
    small_numbers();
    a_normalized_quaternion_has_length_one(q);
    let u = q.spec_normalize();
    squares_add_up(u);
    square_roots(spec_norm_squared(u));
    a_root_is_near_one(
        u.spec_norm().raw as int,
        exact_square(u),
        length_slack(q.spec_norm().raw as int, inverse_length(q).raw as int, total_size(q)),
    );
}

/// A second renormalization reports an error that is bounded for each body,
/// however long its quaternion was at first.
pub proof fn renormalizing_again_reports_what_is_left(y: Seq<Fixed>, n: nat, i: int)
    requires
        13 * n <= y.len(),
        0 <= i < n,
        can_be_unit(attitude(y, i)),
        spec_norm_squared(attitude(y, i).spec_normalize()).raw < i64::MAX,
    ensures
        ({
            let q = attitude(y, i);
            let slack = length_slack(
                q.spec_norm().raw as int,
                inverse_length(q).raw as int,
                total_size(q),
            );
            4 * (79228162514264337593543950336 * norm_error(attitude(renormalized(y, n), i)).raw)
                <= slack + 12 * 79228162514264337593543950336
        }),
{
    renormalizing_makes_every_quaternion_unit(y, n, i);
    the_error_that_is_left_is_bounded(attitude(y, i));
}

} // verus!
