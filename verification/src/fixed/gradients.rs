//! The gradient of a rod's length, in fixed-point numbers.

use crate::constrain::{direction, length_error, DistanceConstraint};
use crate::fixed::lengths::{
    a_direction_times_the_length_is_the_vector, a_vector_is_about_as_long_as_its_norm, can_be_unit,
    gives_back,
};
use crate::fixed::rods::{differences_multiply, is_held, rod_force, weighed_block};
use crate::fixed::rounding::{one_times_a_number, small_numbers};
use crate::fixed::{magnitude, Fixed};
use crate::linalg::{vec3_at, Quat, Vec3};
use crate::scalar::{one, Scalar};
use vstd::prelude::*;

verus! {

/// What is left of a change of length from `n` to `m` once its linear part is
/// taken away: the square of the way `way`, the square of the change, and what
/// rounding puts into the two lengths.
pub open spec fn beyond_linear(n: int, m: int, way: int) -> int {
    way + (m - n) * (m - n) + 2 * (n + m) + 17179869184
}

/// A length against another, by the squares they are the roots of.
proof fn lengths_differ(n: int, m: int, s: int, t: int, along: int, way: int)
    requires
        n >= 0,
        m >= 0,
        n * n <= s + 8589934592,
        s <= n * n + 2 * n + 8589934592,
        m * m <= t + 8589934592,
        t <= m * m + 2 * m + 8589934592,
        t == s + 2 * along + way,
        way >= 0,
    ensures
        -beyond_linear(n, m, way) <= 2 * (n * (m - n) - along) <= beyond_linear(n, m, way),
{
    let h = m - n;
    assert(m * m == n * n + 2 * (n * h) + h * h) by (nonlinear_arith)
        requires
            h == m - n,
    ;
    assert(h * h >= 0) by (nonlinear_arith);
}

proof fn a_square_moves(c: int, e: int)
    ensures
        (c + e) * (c + e) == c * c + 2 * (c * e) + e * e,
        e * e >= 0,
{
    assert((c + e) * (c + e) == c * c + 2 * (c * e) + e * e) by (nonlinear_arith);
    assert(e * e >= 0) by (nonlinear_arith);
}

proof fn a_component_moves(u: int, n: int, c: int, e: int)
    requires
        n >= 0,
        gives_back(u, n, c),
    ensures
        ({
            let slack = (4294967296 * n + magnitude(c) * n) * magnitude(e);
            -slack <= 2 * (4294967296 * (n * (u * e)) - 18446744073709551616 * (c * e)) <= slack
        }),
{
    let k = 4294967296 * n + magnitude(c) * n;
    let a = 2 * (4294967296 * (u * n) - 18446744073709551616 * c);
    let m = magnitude(e) as int;
    assert(-(k * m) <= a * e <= k * m) by (nonlinear_arith)
        requires
            -k <= a <= k,
            m == e || m == -e,
            m >= 0,
    ;
    let w = u * n;
    assert(a * e == 2 * (4294967296 * (w * e) - 18446744073709551616 * (c * e)))
        by (nonlinear_arith)
        requires
            a == 2 * (4294967296 * w - 18446744073709551616 * c),
    ;
    assert((u * n) * e == n * (u * e)) by (nonlinear_arith);
}

/// How far the change of length from `d` to `f` may be from what the direction
/// of `d` says: the part that is not linear, and what rounding leaves of each
/// component of the direction.
pub open spec fn gradient_slack(d: Vec3<Fixed>, f: Vec3<Fixed>) -> int {
    let n = d.spec_norm().raw as int;
    let m = f.spec_norm().raw as int;
    let (a, b, c) = (f.x.raw - d.x.raw, f.y.raw - d.y.raw, f.z.raw - d.z.raw);
    18446744073709551616 * beyond_linear(n, m, a * a + b * b + c * c) + (4294967296 * n
        + magnitude(d.x.raw as int) * n) * magnitude(a) + (4294967296 * n + magnitude(
        d.y.raw as int,
    ) * n) * magnitude(b) + (4294967296 * n + magnitude(d.z.raw as int) * n) * magnitude(c)
}

/// The direction of a vector is the gradient of its length: when the vector
/// changes, its length changes by the direction times the change, up to the
/// square of the change and what rounding leaves.
pub proof fn a_direction_is_the_gradient_of_the_length(d: Vec3<Fixed>, f: Vec3<Fixed>)
    requires
        can_be_unit(Quat::spec_pure(d)),
        f.spec_norm_squared().raw < i64::MAX,
    ensures
        ({
            let n = d.spec_norm().raw as int;
            let m = f.spec_norm().raw as int;
            let u = direction(d);
            let along = u.x.raw * (f.x.raw - d.x.raw) + u.y.raw * (f.y.raw - d.y.raw) + u.z.raw * (
            f.z.raw - d.z.raw);
            let slack = gradient_slack(d, f);
            -slack <= 2 * (18446744073709551616 * (n * (m - n)) - 4294967296 * (n * along))
                <= slack
        }),
{
    let n = d.spec_norm().raw as int;
    let m = f.spec_norm().raw as int;
    let u = direction(d);
    let (x, y, z) = (d.x.raw as int, d.y.raw as int, d.z.raw as int);
    let (a, b, c) = (f.x.raw - x, f.y.raw - y, f.z.raw - z);
    a_vector_is_about_as_long_as_its_norm(d);
    a_vector_is_about_as_long_as_its_norm(f);
    a_square_moves(x, a);
    a_square_moves(y, b);
    a_square_moves(z, c);
    let way = a * a + b * b + c * c;
    let along = x * a + y * b + z * c;
    lengths_differ(
        n,
        m,
        x * x + y * y + z * z,
        f.x.raw * f.x.raw + f.y.raw * f.y.raw + f.z.raw * f.z.raw,
        along,
        way,
    );
    a_direction_times_the_length_is_the_vector(d);
    let (ux, uy, uz) = (u.x.raw as int, u.y.raw as int, u.z.raw as int);
    a_component_moves(ux, n, x, a);
    a_component_moves(uy, n, y, b);
    a_component_moves(uz, n, z, c);
    let (p, q, r) = (ux * a, uy * b, uz * c);
    assert(n * (p + q + r) == n * p + n * q + n * r) by (nonlinear_arith);
}

/// How far each component has moved from `q` to `w`.
pub open spec fn moved(q: Seq<Fixed>, w: Seq<Fixed>) -> spec_fn(int) -> int {
    |k: int| w[k].raw - q[k].raw
}

/// Whether the vector along a rod and the error of its length are within the
/// largest number.
pub open spec fn error_is_held(c: DistanceConstraint<Fixed>, q: Seq<Fixed>) -> bool {
    let (a, b) = (vec3_at(q, 3 * c.i), vec3_at(q, 3 * c.j));
    &&& is_held(b.x.raw - a.x.raw) && is_held(b.y.raw - a.y.raw) && is_held(b.z.raw - a.z.raw)
    &&& c.span(q).spec_norm_squared().raw < i64::MAX
    &&& is_held(c.span(q).spec_norm().raw - c.length.raw)
}

/// The force of a unit multiplier is the gradient of the error of the rod's
/// length: when the bodies move, the error changes by the forces times the ways,
/// up to the square of the way and what rounding leaves.
pub proof fn a_rod_pushes_along_the_gradient_of_its_error(
    c: DistanceConstraint<Fixed>,
    q: Seq<Fixed>,
    w: Seq<Fixed>,
)
    requires
        can_be_unit(Quat::spec_pure(c.span(q))),
        error_is_held(c, q),
        error_is_held(c, w),
    ensures
        ({
            let n = c.span(q).spec_norm().raw as int;
            let change = length_error(c, w).raw - length_error(c, q).raw;
            let f = rod_force(c, q, one());
            let work = weighed_block(f, moved(q, w), 3 * c.j) - weighed_block(
                f,
                moved(q, w),
                3 * c.i,
            );
            let slack = gradient_slack(c.span(q), c.span(w));
            -slack <= 2 * (18446744073709551616 * (n * change) - 4294967296 * (n * work)) <= slack
        }),
{
    let (d, e) = (c.span(q), c.span(w));
    a_direction_is_the_gradient_of_the_length(d, e);
    let u = direction(d);
    small_numbers();
    one_times_a_number(u.x);
    one_times_a_number(u.y);
    one_times_a_number(u.z);
    assert(rod_force(c, q, one()) == u);
    let go = moved(q, w);
    let (i, j) = (3 * c.i as int, 3 * c.j as int);
    differences_multiply(u.x.raw as int, go(j), go(i));
    differences_multiply(u.y.raw as int, go(j + 1), go(i + 1));
    differences_multiply(u.z.raw as int, go(j + 2), go(i + 2));
}

} // verus!
