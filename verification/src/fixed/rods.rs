//! Multiplier forces and rates of rods, in fixed-point numbers.

use crate::constrain::{
    accumulated, direction, length_rate, pushed, DistanceConstraint,
};
use crate::fixed::rounding::{products_are_odd, rounding_is_near};
use crate::fixed::{magnitude, nearest, Fixed, ONE};
use crate::linalg::{vec3_at, Vec3};
use crate::scalar::Scalar;
use vstd::prelude::*;

verus! {

/// Whether a whole number is one that a [`Fixed`] holds and arithmetic gives.
pub open spec fn is_held(x: int) -> bool {
    -i64::MAX <= x <= i64::MAX
}

/// Whether the product of two numbers does not go beyond the largest number.
pub open spec fn multiplies(a: Fixed, b: Fixed) -> bool {
    is_held(nearest(a.raw * b.raw, ONE as nat))
}

/// Whether the sum of two vectors does not go beyond the largest number.
pub open spec fn adds(a: Vec3<Fixed>, b: Vec3<Fixed>) -> bool {
    is_held(a.x.raw + b.x.raw) && is_held(a.y.raw + b.y.raw) && is_held(a.z.raw + b.z.raw)
}

/// The force of a rod on its second body.
pub open spec fn rod_force(c: DistanceConstraint<Fixed>, q: Seq<Fixed>, w: Fixed) -> Vec3<Fixed> {
    direction(c.span(q)).spec_scale(w)
}

/// The force of a rod on its first body.
pub open spec fn rod_reaction(
    c: DistanceConstraint<Fixed>,
    q: Seq<Fixed>,
    w: Fixed,
) -> Vec3<Fixed> {
    direction(c.span(q)).spec_scale(w.spec_neg())
}

/// Whether the forces of all rods can be added to `out`: each rod joins two
/// different bodies that have their blocks, no body is an anchor, and no sum
/// goes beyond the largest number.
pub open spec fn forces_add_up(
    cs: Seq<DistanceConstraint<Fixed>>,
    anchors: Seq<bool>,
    q: Seq<Fixed>,
    m: Seq<Fixed>,
    out: Seq<Fixed>,
) -> bool
    decreases cs.len(),
{
    cs.len() > 0 ==> {
        let c = cs.last();
        let w = m[cs.len() - 1];
        let before = pushed(cs.drop_last(), anchors, q, m, out);
        &&& forces_add_up(cs.drop_last(), anchors, q, m, out)
        &&& c.i != c.j && c.fits(out.len())
        &&& !anchors[c.i as int] && !anchors[c.j as int]
        &&& w.is_proper()
        &&& adds(vec3_at(before, 3 * c.i), rod_reaction(c, q, w))
        &&& adds(vec3_at(before, 3 * c.j), rod_force(c, q, w))
    }
}

/// The change from `out` to `d`, weighted and added up as whole numbers over the
/// first `n` components.
pub open spec fn weighed(
    out: Seq<Fixed>,
    d: Seq<Fixed>,
    weight: spec_fn(int) -> int,
    n: int,
) -> int
    decreases n,
{
    if n <= 0 {
        0
    } else {
        weighed(out, d, weight, n - 1) + (d[n - 1].raw - out[n - 1].raw) * weight(n - 1)
    }
}

proof fn no_change_weighs_nothing(out: Seq<Fixed>, weight: spec_fn(int) -> int, n: int)
    ensures
        weighed(out, out, weight, n) == 0,
    decreases n,
{
    if n > 0 {
        no_change_weighs_nothing(out, weight, n - 1);
        assert(0 * weight(n - 1) == 0) by (nonlinear_arith);
    }
}

proof fn one_change_is_weighed(
    out: Seq<Fixed>,
    d: Seq<Fixed>,
    weight: spec_fn(int) -> int,
    at: int,
    x: Fixed,
    n: int,
)
    requires
        0 <= at < d.len(),
        0 <= n <= d.len(),
    ensures
        weighed(out, d.update(at, x), weight, n) == weighed(out, d, weight, n) + if at < n {
            (x.raw - d[at].raw) * weight(at)
        } else {
            0
        },
    decreases n,
{
    if n > 0 {
        one_change_is_weighed(out, d, weight, at, x, n - 1);
        if at == n - 1 {
            let (a, b, o, w) = (x.raw as int, d[at].raw as int, out[at].raw as int, weight(at));
            assert((a - o) * w == (b - o) * w + (a - b) * w) by (nonlinear_arith);
        }
    }
}

/// The weights of a block, against a vector.
pub open spec fn weighed_block(f: Vec3<Fixed>, weight: spec_fn(int) -> int, at: int) -> int {
    f.x.raw * weight(at) + f.y.raw * weight(at + 1) + f.z.raw * weight(at + 2)
}

proof fn one_block_is_weighed(
    out: Seq<Fixed>,
    d: Seq<Fixed>,
    weight: spec_fn(int) -> int,
    at: int,
    f: Vec3<Fixed>,
)
    requires
        0 <= at,
        at + 2 < d.len(),
        adds(vec3_at(d, at), f),
    ensures
        accumulated(d, at, f).len() == d.len(),
        weighed(out, accumulated(d, at, f), weight, d.len() as int) == weighed(
            out,
            d,
            weight,
            d.len() as int,
        ) + weighed_block(f, weight, at),
{
    let v = vec3_at(d, at).spec_add(f);
    let n = d.len() as int;
    let d1 = d.update(at, v.x);
    let d2 = d1.update(at + 1, v.y);
    one_change_is_weighed(out, d, weight, at, v.x, n);
    one_change_is_weighed(out, d1, weight, at + 1, v.y, n);
    one_change_is_weighed(out, d2, weight, at + 2, v.z, n);
    assert(v.x.raw - d[at].raw == f.x.raw);
    assert(v.y.raw - d1[at + 1].raw == f.y.raw);
    assert(v.z.raw - d2[at + 2].raw == f.z.raw);
}

/// What the forces of all rods weigh: each force against the difference of the
/// weights of its two ends.
pub open spec fn weighed_forces(
    cs: Seq<DistanceConstraint<Fixed>>,
    q: Seq<Fixed>,
    m: Seq<Fixed>,
    weight: spec_fn(int) -> int,
) -> int
    decreases cs.len(),
{
    if cs.len() == 0 {
        0
    } else {
        let c = cs.last();
        let f = rod_force(c, q, m[cs.len() - 1]);
        weighed_forces(cs.drop_last(), q, m, weight) + weighed_block(f, weight, 3 * c.j)
            - weighed_block(f, weight, 3 * c.i)
    }
}

proof fn forces_are_weighed(
    cs: Seq<DistanceConstraint<Fixed>>,
    anchors: Seq<bool>,
    q: Seq<Fixed>,
    m: Seq<Fixed>,
    out: Seq<Fixed>,
    weight: spec_fn(int) -> int,
)
    requires
        forces_add_up(cs, anchors, q, m, out),
    ensures
        pushed(cs, anchors, q, m, out).len() == out.len(),
        weighed(out, pushed(cs, anchors, q, m, out), weight, out.len() as int)
            == weighed_forces(cs, q, m, weight),
    decreases cs.len(),
{
    if cs.len() == 0 {
        no_change_weighs_nothing(out, weight, out.len() as int);
    } else {
        let c = cs.last();
        let w = m[cs.len() - 1];
        let before = pushed(cs.drop_last(), anchors, q, m, out);
        forces_are_weighed(cs.drop_last(), anchors, q, m, out, weight);
        let (f, r) = (rod_force(c, q, w), rod_reaction(c, q, w));
        one_block_is_weighed(out, before, weight, 3 * c.i, r);
        let first = accumulated(before, 3 * c.i, r);
        assert(vec3_at(first, 3 * c.j) == vec3_at(before, 3 * c.j));
        one_block_is_weighed(out, first, weight, 3 * c.j, f);
        let along = direction(c.span(q));
        products_are_odd(w, along.x);
        products_are_odd(w, along.y);
        products_are_odd(w, along.z);
        assert(r.x.raw == -f.x.raw && r.y.raw == -f.y.raw && r.z.raw == -f.z.raw);
        let (a, b, e) = (
            weight(3 * c.i as int),
            weight(3 * c.i as int + 1),
            weight(3 * c.i as int + 2),
        );
        assert((-f.x.raw) * a == -(f.x.raw * a)) by (nonlinear_arith);
        assert((-f.y.raw) * b == -(f.y.raw * b)) by (nonlinear_arith);
        assert((-f.z.raw) * e == -(f.z.raw * e)) by (nonlinear_arith);
    }
}

/// The weight one for component `c` of every block, and nothing for the others.
pub open spec fn only_component(c: int) -> spec_fn(int) -> int {
    |k: int|
        if k % 3 == c {
            1int
        } else {
            0int
        }
}

proof fn forces_balance(
    cs: Seq<DistanceConstraint<Fixed>>,
    q: Seq<Fixed>,
    m: Seq<Fixed>,
    c: int,
)
    ensures
        weighed_forces(cs, q, m, only_component(c)) == 0,
    decreases cs.len(),
{
    if cs.len() > 0 {
        forces_balance(cs.drop_last(), q, m, c);
        let (i, j) = (3 * cs.last().i as int, 3 * cs.last().j as int);
        assert(i % 3 == 0 && (i + 1) % 3 == 1 && (i + 2) % 3 == 2);
        assert(j % 3 == 0 && (j + 1) % 3 == 1 && (j + 2) % 3 == 2);
    }
}

/// The forces of rods are internal: where no body is an anchor, what they add to
/// the blocks adds up to nothing in every component.
pub proof fn multiplier_forces_are_internal(
    cs: Seq<DistanceConstraint<Fixed>>,
    anchors: Seq<bool>,
    q: Seq<Fixed>,
    m: Seq<Fixed>,
    out: Seq<Fixed>,
    c: int,
)
    requires
        forces_add_up(cs, anchors, q, m, out),
    ensures
        weighed(
            out,
            pushed(cs, anchors, q, m, out),
            only_component(c),
            out.len() as int,
        ) == 0,
{
    forces_are_weighed(cs, anchors, q, m, out, only_component(c));
    forces_balance(cs, q, m, c);
}

/// The components of a vector as weights.
pub open spec fn as_weights(v: Seq<Fixed>) -> spec_fn(int) -> int {
    |k: int| v[k].raw as int
}

/// Whether the rate of a rod, its product with the multiplier, and the force do
/// not go beyond the largest number.
pub open spec fn rate_is_held(
    c: DistanceConstraint<Fixed>,
    q: Seq<Fixed>,
    v: Seq<Fixed>,
    w: Fixed,
) -> bool {
    let along = direction(c.span(q));
    let (a, b) = (vec3_at(v, 3 * c.i), vec3_at(v, 3 * c.j));
    let dv = c.span(v);
    let px = nearest(along.x.raw * dv.x.raw, ONE as nat);
    let py = nearest(along.y.raw * dv.y.raw, ONE as nat);
    let pz = nearest(along.z.raw * dv.z.raw, ONE as nat);
    &&& is_held(b.x.raw - a.x.raw) && is_held(b.y.raw - a.y.raw) && is_held(b.z.raw - a.z.raw)
    &&& is_held(px) && is_held(py) && is_held(pz)
    &&& is_held(px + py) && is_held(px + py + pz)
    &&& multiplies(w, length_rate(c, q, v))
    &&& multiplies(along.x, w) && multiplies(along.y, w) && multiplies(along.z, w)
}

/// What rounding can put between the two sides for one rod, doubled.
pub open spec fn slack(c: DistanceConstraint<Fixed>, v: Seq<Fixed>, w: Fixed) -> int {
    let dv = c.span(v);
    ONE + 3 * magnitude(w.raw as int) + magnitude(dv.x.raw as int) + magnitude(dv.y.raw as int)
        + magnitude(dv.z.raw as int)
}

/// A product of sizes bounds the size of a product.
proof fn sizes_multiply(a: int, b: int, m: int)
    requires
        -m <= a <= m,
    ensures
        -(m * magnitude(b)) <= a * b <= m * magnitude(b),
{
    assert(-(m * magnitude(b)) <= a * b <= m * magnitude(b)) by (nonlinear_arith)
        requires
            -m <= a <= m,
            magnitude(b) == b || magnitude(b) == -b,
            magnitude(b) >= 0,
    ;
}

/// Three factors in another order.
proof fn factors_move(a: int, b: int, c: int)
    ensures
        (a * b) * c == b * (a * c),
        (a * b) * c == a * (b * c),
{
    assert((a * b) * c == b * (a * c)) by (nonlinear_arith);
    assert((a * b) * c == a * (b * c)) by (nonlinear_arith);
}

/// A factor taken into a difference, doubled.
proof fn factor_into_difference(e: int, r: int, x: int, k: int)
    requires
        e == 2 * (4294967296 * r - x),
    ensures
        e * k == 2 * (4294967296 * (r * k)) - 2 * (x * k),
{
    assert(e * k == 2 * (4294967296 * (r * k)) - 2 * (x * k)) by (nonlinear_arith)
        requires
            e == 2 * (4294967296 * r - x),
    ;
}

/// For one rod, the multiplier times the rate is the force times the relative
/// velocity, up to rounding.
pub proof fn one_rod_is_adjoint(
    c: DistanceConstraint<Fixed>,
    q: Seq<Fixed>,
    v: Seq<Fixed>,
    w: Fixed,
)
    requires
        rate_is_held(c, q, v, w),
    ensures
        ({
            let f = rod_force(c, q, w);
            let power = w.spec_mul(length_rate(c, q, v)).raw * ONE;
            let work = weighed_block(f, as_weights(v), 3 * c.j) - weighed_block(
                f,
                as_weights(v),
                3 * c.i,
            );
            -slack(c, v, w) <= 2 * (power - work) <= slack(c, v, w)
        }),
{
    let y = ONE as nat;
    assert(y == 4294967296);
    let along = direction(c.span(q));
    let f = rod_force(c, q, w);
    let dv = c.span(v);
    let (a, b) = (vec3_at(v, 3 * c.i), vec3_at(v, 3 * c.j));
    let (dx, dy, dz) = (dv.x.raw as int, dv.y.raw as int, dv.z.raw as int);
    let (ax, ay, az) = (along.x.raw as int, along.y.raw as int, along.z.raw as int);
    let (fx, fy, fz) = (f.x.raw as int, f.y.raw as int, f.z.raw as int);
    let rate = length_rate(c, q, v).raw as int;
    let power = w.spec_mul(length_rate(c, q, v)).raw as int;
    let wr = w.raw as int;
    rounding_is_near(ax * dx, y);
    rounding_is_near(ay * dy, y);
    rounding_is_near(az * dz, y);
    rounding_is_near(ax * wr, y);
    rounding_is_near(ay * wr, y);
    rounding_is_near(az * wr, y);
    rounding_is_near(wr * rate, y);
    // The relative velocity seen from the two ends.
    let work = weighed_block(f, as_weights(v), 3 * c.j) - weighed_block(
        f,
        as_weights(v),
        3 * c.i,
    );
    differences_multiply(fx, b.x.raw as int, a.x.raw as int);
    differences_multiply(fy, b.y.raw as int, a.y.raw as int);
    differences_multiply(fz, b.z.raw as int, a.z.raw as int);
    assert(work == fx * dx + fy * dy + fz * dz);
    // The errors of the rate and of the force, doubled.
    let exact = ax * dx + ay * dy + az * dz;
    let e = 2 * (4294967296 * rate - exact);
    let ex = 2 * (4294967296 * fx - ax * wr);
    let ey = 2 * (4294967296 * fy - ay * wr);
    let ez = 2 * (4294967296 * fz - az * wr);
    sizes_multiply(e, wr, 12884901888);
    sizes_multiply(ex, dx, 4294967296);
    sizes_multiply(ey, dy, 4294967296);
    sizes_multiply(ez, dz, 4294967296);
    factor_into_difference(e, rate, exact, wr);
    factor_into_difference(ex, fx, ax * wr, dx);
    factor_into_difference(ey, fy, ay * wr, dy);
    factor_into_difference(ez, fz, az * wr, dz);
    factors_move(ax, wr, dx);
    factors_move(ay, wr, dy);
    factors_move(az, wr, dz);
    assert(exact * wr == wr * (ax * dx) + wr * (ay * dy) + wr * (az * dz)) by (nonlinear_arith)
        requires
            exact == ax * dx + ay * dy + az * dz,
    ;
    assert(rate * wr == wr * rate) by (nonlinear_arith);
}

/// A factor of a difference is a factor of both of its terms.
pub proof fn differences_multiply(f: int, b: int, a: int)
    ensures
        f * (b - a) == f * b - f * a,
{
    assert(f * (b - a) == f * b - f * a) by (nonlinear_arith);
}

/// The multipliers times the rates, added up as whole numbers.
pub open spec fn total_power(
    cs: Seq<DistanceConstraint<Fixed>>,
    q: Seq<Fixed>,
    v: Seq<Fixed>,
    m: Seq<Fixed>,
) -> int
    decreases cs.len(),
{
    if cs.len() == 0 {
        0
    } else {
        let c = cs.last();
        let w = m[cs.len() - 1];
        total_power(cs.drop_last(), q, v, m) + w.spec_mul(length_rate(c, q, v)).raw * ONE
    }
}

/// What rounding can put between the two sides for a set of rods, doubled.
pub open spec fn total_slack(
    cs: Seq<DistanceConstraint<Fixed>>,
    v: Seq<Fixed>,
    m: Seq<Fixed>,
) -> int
    decreases cs.len(),
{
    if cs.len() == 0 {
        0
    } else {
        total_slack(cs.drop_last(), v, m) + slack(cs.last(), v, m[cs.len() - 1])
    }
}

proof fn rods_are_adjoint(
    cs: Seq<DistanceConstraint<Fixed>>,
    q: Seq<Fixed>,
    v: Seq<Fixed>,
    m: Seq<Fixed>,
)
    requires
        forall|k: int| 0 <= k < cs.len() ==> rate_is_held(#[trigger] cs[k], q, v, m[k]),
    ensures
        -total_slack(cs, v, m) <= 2 * (total_power(cs, q, v, m) - weighed_forces(
            cs,
            q,
            m,
            as_weights(v),
        )) <= total_slack(cs, v, m),
    decreases cs.len(),
{
    if cs.len() > 0 {
        let fewer = cs.drop_last();
        assert forall|k: int| 0 <= k < fewer.len() implies rate_is_held(
            #[trigger] fewer[k],
            q,
            v,
            m[k],
        ) by {
            assert(fewer[k] == cs[k]);
        }
        rods_are_adjoint(fewer, q, v, m);
        assert(cs[cs.len() - 1] == cs.last());
        one_rod_is_adjoint(cs.last(), q, v, m[cs.len() - 1]);
    }
}

/// The velocity residual and the multiplier forces are adjoint, up to rounding:
/// the multipliers times the rates are the forces times the velocities, where no
/// body is an anchor and no result goes beyond the largest number.
pub proof fn rates_and_forces_are_adjoint(
    cs: Seq<DistanceConstraint<Fixed>>,
    anchors: Seq<bool>,
    q: Seq<Fixed>,
    v: Seq<Fixed>,
    m: Seq<Fixed>,
    out: Seq<Fixed>,
)
    requires
        forces_add_up(cs, anchors, q, m, out),
        forall|k: int| 0 <= k < cs.len() ==> rate_is_held(#[trigger] cs[k], q, v, m[k]),
    ensures
        -total_slack(cs, v, m) <= 2 * (total_power(cs, q, v, m) - weighed(
            out,
            pushed(cs, anchors, q, m, out),
            as_weights(v),
            out.len() as int,
        )) <= total_slack(cs, v, m),
{
    forces_are_weighed(cs, anchors, q, m, out, as_weights(v));
    rods_are_adjoint(cs, q, v, m);
}

} // verus!
