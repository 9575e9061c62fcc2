//! What the step cap keeps apart, and how it varies, in fixed-point numbers.

use crate::fixed::rounding::{
    products_grow, rounding_is_near, rounding_is_the_nearest, rounding_shrinks, signs_are_kept,
    small_numbers, square_roots, sums_grow, zero_times_a_number,
};
use crate::fixed::{nearest, pow10, Fixed, ONE};
use crate::integrate::bounds::{
    acceleration_bound, approach_bound, fastest_approach, feature, least_cap, smallest_feature,
    spec_mat_inf_norm, spin_bound, step_cap, SurveyView,
};
use crate::integrate::dynamics::pairs_within;
use crate::linalg::{Mat3, Vec3};
use crate::scalar::{two, zero, Scalar};
use crate::system::{Boundary, PhysicalObject, SystemView};
use vstd::prelude::*;

verus! {

/// Whether the bodies have masses and sizes: no inverse mass and no bounding
/// radius is negative.
pub open spec fn has_sizes(s: SystemView<Fixed>, survey: SurveyView<Fixed>) -> bool {
    &&& survey.covers(s.objects.len())
    &&& forall|k: int| 0 <= k < s.objects.len() ==> (#[trigger] s.objects[k]).inverse_mass.raw >= 0
    &&& forall|k: int|
        0 <= k < s.objects.len() ==> (#[trigger] survey.bounding_radii[k]).raw >= 0
}

proof fn lengths_are_not_negative(v: Vec3<Fixed>)
    ensures
        v.spec_norm().raw >= 0,
{
    square_roots(v.spec_norm_squared());
}

proof fn row_sums_are_not_negative(m: Mat3<Fixed>)
    ensures
        spec_mat_inf_norm(m).raw >= 0,
{
    signs_are_kept(m.r0.x.spec_abs(), m.r0.y.spec_abs());
    signs_are_kept(m.r0.x.spec_abs().spec_add(m.r0.y.spec_abs()), m.r0.z.spec_abs());
}

proof fn accelerations_are_not_negative(
    s: SystemView<Fixed>,
    survey: SurveyView<Fixed>,
    k: int,
)
    requires
        has_sizes(s, survey),
        0 <= k < s.objects.len(),
    ensures
        acceleration_bound(s, survey, k).raw >= 0,
{
    let o = s.objects[k];
    lengths_are_not_negative(survey.accelerations[k]);
    lengths_are_not_negative(s.uniform_gravity);
    lengths_are_not_negative(s.e_field);
    lengths_are_not_negative(s.external_forces[k]);
    let free = survey.accelerations[k].spec_norm().spec_add(s.uniform_gravity.spec_norm());
    signs_are_kept(survey.accelerations[k].spec_norm(), s.uniform_gravity.spec_norm());
    let electric = o.charge.spec_abs().spec_mul(s.e_field.spec_norm());
    signs_are_kept(o.charge.spec_abs(), s.e_field.spec_norm());
    signs_are_kept(electric, s.external_forces[k].spec_norm());
    let force = electric.spec_add(s.external_forces[k].spec_norm());
    signs_are_kept(force, o.inverse_mass);
    signs_are_kept(free, force.spec_mul(o.inverse_mass));
}

proof fn spins_grow(s: SystemView<Fixed>, g1: Fixed, g2: Fixed, k: int)
    requires
        0 <= g1.raw <= g2.raw,
    ensures
        0 <= spin_bound(s, g1, k).raw <= spin_bound(s, g2, k).raw,
{
    small_numbers();
    let o = s.objects[k];
    let stretch = spec_mat_inf_norm(o.inverse_inertia);
    row_sums_are_not_negative(o.inverse_inertia);
    row_sums_are_not_negative(o.magnetic_moment);
    lengths_are_not_negative(s.external_torques[k]);
    lengths_are_not_negative(s.b_field);
    lengths_are_not_negative(o.angular_momentum);
    let magnetic = spec_mat_inf_norm(o.magnetic_moment).spec_mul(s.b_field.spec_norm());
    signs_are_kept(spec_mat_inf_norm(o.magnetic_moment), s.b_field.spec_norm());
    let torque = s.external_torques[k].spec_norm().spec_add(magnetic);
    signs_are_kept(s.external_torques[k].spec_norm(), magnetic);
    products_grow(g1, g2, torque);
    signs_are_kept(g1, torque);
    let l = o.angular_momentum.spec_norm();
    sums_grow(l, l, g1.spec_mul(torque), g2.spec_mul(torque));
    signs_are_kept(l, g1.spec_mul(torque));
    let three = Fixed::of_decimal(3, 0).spec_sqrt();
    square_roots(Fixed::of_decimal(3, 0));
    let k = three.spec_mul(stretch);
    signs_are_kept(three, stretch);
    products_grow(l.spec_add(g1.spec_mul(torque)), l.spec_add(g2.spec_mul(torque)), k);
    signs_are_kept(k, l.spec_add(g1.spec_mul(torque)));
}

proof fn approaches_grow(
    s: SystemView<Fixed>,
    survey: SurveyView<Fixed>,
    g1: Fixed,
    g2: Fixed,
    pair: (usize, usize),
)
    requires
        has_sizes(s, survey),
        0 <= g1.raw <= g2.raw,
        pair.0 < s.objects.len(),
        pair.1 < s.objects.len(),
    ensures
        approach_bound(s, survey, g1, pair).raw <= approach_bound(s, survey, g2, pair).raw,
{
    let (i, j) = (pair.0 as int, pair.1 as int);
    accelerations_are_not_negative(s, survey, i);
    accelerations_are_not_negative(s, survey, j);
    let a = acceleration_bound(s, survey, i).spec_add(acceleration_bound(s, survey, j));
    signs_are_kept(acceleration_bound(s, survey, i), acceleration_bound(s, survey, j));
    products_grow(g1, g2, a);
    let v = s.objects[i].spec_velocity().spec_sub(s.objects[j].spec_velocity()).spec_norm();
    sums_grow(v, v, a.spec_mul(g1), a.spec_mul(g2));
    spins_grow(s, g1, g2, i);
    spins_grow(s, g1, g2, j);
    let (ri, rj) = (survey.bounding_radii[i], survey.bounding_radii[j]);
    products_grow(spin_bound(s, g1, i), spin_bound(s, g2, i), ri);
    products_grow(spin_bound(s, g1, j), spin_bound(s, g2, j), rj);
    sums_grow(
        spin_bound(s, g1, i).spec_mul(ri),
        spin_bound(s, g2, i).spec_mul(ri),
        spin_bound(s, g1, j).spec_mul(rj),
        spin_bound(s, g2, j).spec_mul(rj),
    );
    sums_grow(
        v.spec_add(a.spec_mul(g1)),
        v.spec_add(a.spec_mul(g2)),
        spin_bound(s, g1, i).spec_mul(ri).spec_add(spin_bound(s, g1, j).spec_mul(rj)),
        spin_bound(s, g2, i).spec_mul(ri).spec_add(spin_bound(s, g2, j).spec_mul(rj)),
    );
}

/// The fastest approach does not become slower with a longer horizon.
proof fn the_fastest_approach_grows(
    s: SystemView<Fixed>,
    survey: SurveyView<Fixed>,
    g1: Fixed,
    g2: Fixed,
    pairs: Seq<(usize, usize)>,
)
    requires
        has_sizes(s, survey),
        0 <= g1.raw <= g2.raw,
        pairs_within(pairs, s.objects.len()),
    ensures
        0 <= fastest_approach(s, survey, g1, pairs).raw <= fastest_approach(
            s,
            survey,
            g2,
            pairs,
        ).raw,
    decreases pairs.len(),
{
    small_numbers();
    if pairs.len() > 0 {
        assert(pairs[pairs.len() - 1] == pairs.last());
        the_fastest_approach_grows(s, survey, g1, g2, pairs.drop_last());
        approaches_grow(s, survey, g1, g2, pairs.last());
    }
}

proof fn the_smallest_feature_is_positive(
    objects: Seq<PhysicalObject<Fixed>>,
    pairs: Seq<(usize, usize)>,
)
    ensures
        smallest_feature(objects, pairs).raw > 0,
    decreases pairs.len(),
{
    small_numbers();
    if pairs.len() > 0 {
        the_smallest_feature_is_positive(objects, pairs.drop_last());
    }
}

/// The cap is lifted exactly when nothing can approach anything. Otherwise it
/// lies between the least cap and the rest of the run, or the least cap where
/// that is more.
pub proof fn no_cap_means_that_nothing_moves(
    s: SystemView<Fixed>,
    survey: SurveyView<Fixed>,
    pairs: Seq<(usize, usize)>,
    span: Fixed,
    growth: Fixed,
)
    ensures
        step_cap(s, survey, pairs, span, growth) == zero::<Fixed>() <==> fastest_approach(
            s,
            survey,
            growth.spec_larger(zero()),
            pairs,
        ).raw <= 0,
        step_cap(s, survey, pairs, span, growth) != zero::<Fixed>() ==> 0
            < least_cap::<Fixed>().raw <= step_cap(s, survey, pairs, span, growth).raw
            <= span.spec_larger(least_cap()).raw,
{
    small_numbers();
}

/// The bodies of a pair approach no slower than their centres do.
pub proof fn an_approach_is_no_slower_than_the_centres(
    s: SystemView<Fixed>,
    survey: SurveyView<Fixed>,
    growth: Fixed,
    pair: (usize, usize),
)
    requires
        has_sizes(s, survey),
        growth.raw >= 0,
        pair.0 < s.objects.len(),
        pair.1 < s.objects.len(),
    ensures
        0 <= s.objects[pair.0 as int].spec_velocity().spec_sub(
            s.objects[pair.1 as int].spec_velocity(),
        ).spec_norm().raw <= approach_bound(s, survey, growth, pair).raw,
{
    small_numbers();
    let (i, j) = (pair.0 as int, pair.1 as int);
    let v = s.objects[i].spec_velocity().spec_sub(s.objects[j].spec_velocity());
    lengths_are_not_negative(v);
    accelerations_are_not_negative(s, survey, i);
    accelerations_are_not_negative(s, survey, j);
    let a = acceleration_bound(s, survey, i).spec_add(acceleration_bound(s, survey, j));
    signs_are_kept(acceleration_bound(s, survey, i), acceleration_bound(s, survey, j));
    signs_are_kept(a, growth);
    spins_grow(s, growth, growth, i);
    spins_grow(s, growth, growth, j);
    let (wi, wj) = (
        spin_bound(s, growth, i).spec_mul(survey.bounding_radii[i]),
        spin_bound(s, growth, j).spec_mul(survey.bounding_radii[j]),
    );
    signs_are_kept(spin_bound(s, growth, i), survey.bounding_radii[i]);
    signs_are_kept(spin_bound(s, growth, j), survey.bounding_radii[j]);
    signs_are_kept(wi, wj);
}

/// The largest value of `speed` over the pairs, and at least zero.
spec fn largest_speed(speed: spec_fn((usize, usize)) -> Fixed, pairs: Seq<(usize, usize)>) -> Fixed
    decreases pairs.len(),
{
    if pairs.len() == 0 {
        zero()
    } else {
        largest_speed(speed, pairs.drop_last()).spec_larger(speed(pairs.last()))
    }
}

proof fn a_speed_is_within_the_largest(
    speed: spec_fn((usize, usize)) -> Fixed,
    pairs: Seq<(usize, usize)>,
    k: int,
)
    requires
        0 <= k < pairs.len(),
    ensures
        speed(pairs[k]).raw <= largest_speed(speed, pairs).raw,
    decreases pairs.len(),
{
    if k < pairs.len() - 1 {
        assert(pairs.drop_last()[k] == pairs[k]);
        a_speed_is_within_the_largest(speed, pairs.drop_last(), k);
    }
}

proof fn the_fastest_approach_is_the_largest(
    s: SystemView<Fixed>,
    survey: SurveyView<Fixed>,
    growth: Fixed,
    pairs: Seq<(usize, usize)>,
)
    ensures
        fastest_approach(s, survey, growth, pairs) == largest_speed(
            |pair: (usize, usize)| approach_bound(s, survey, growth, pair),
            pairs,
        ),
    decreases pairs.len(),
{
    if pairs.len() > 0 {
        the_fastest_approach_is_the_largest(s, survey, growth, pairs.drop_last());
    }
}

proof fn an_approach_is_within_the_fastest(
    s: SystemView<Fixed>,
    survey: SurveyView<Fixed>,
    growth: Fixed,
    pairs: Seq<(usize, usize)>,
    k: int,
)
    requires
        0 <= k < pairs.len(),
    ensures
        approach_bound(s, survey, growth, pairs[k]).raw <= fastest_approach(
            s,
            survey,
            growth,
            pairs,
        ).raw,
{
    let speed = |pair: (usize, usize)| approach_bound(s, survey, growth, pair);
    the_fastest_approach_is_the_largest(s, survey, growth, pairs);
    a_speed_is_within_the_largest(speed, pairs, k);
}

/// Whether `f` is a feature of one of the paired bodies, and one that can be
/// crossed: above zero, and not infinite.
pub open spec fn is_crossable(
    objects: Seq<PhysicalObject<Fixed>>,
    pairs: Seq<(usize, usize)>,
    k: int,
    f: Fixed,
) -> bool {
    &&& 0 < f.raw
    &&& f.spec_is_finite()
    &&& f == feature(objects[pairs[k].0 as int].boundary) || f == feature(
        objects[pairs[k].1 as int].boundary,
    )
}

proof fn the_smallest_feature_is_within_all(
    objects: Seq<PhysicalObject<Fixed>>,
    pairs: Seq<(usize, usize)>,
    k: int,
    f: Fixed,
)
    requires
        0 <= k < pairs.len(),
        is_crossable(objects, pairs, k, f),
    ensures
        smallest_feature(objects, pairs).raw <= f.raw,
    decreases pairs.len(),
{
    small_numbers();
    if k < pairs.len() - 1 {
        assert(pairs.drop_last()[k] == pairs[k]);
        the_smallest_feature_is_within_all(objects, pairs.drop_last(), k, f);
    }
}

/// One step of the cap carries no body through another: in twice the cap, less
/// one rounding, the surfaces of a pair approach by at most each feature of the
/// paired bodies that can be crossed. Where twice the fastest approach goes
/// beyond the largest number, this holds of the cap itself.
pub proof fn one_step_crosses_no_feature(
    s: SystemView<Fixed>,
    survey: SurveyView<Fixed>,
    pairs: Seq<(usize, usize)>,
    span: Fixed,
    growth: Fixed,
    k: int,
    l: int,
    f: Fixed,
)
    requires
        has_sizes(s, survey),
        pairs_within(pairs, s.objects.len()),
        0 <= k < pairs.len(),
        is_crossable(s.objects, pairs, k, f),
        0 <= l < pairs.len(),
        step_cap(s, survey, pairs, span, growth).raw > least_cap::<Fixed>().raw,
    ensures
        ({
            let cap = step_cap(s, survey, pairs, span, growth).raw;
            let horizon = growth.spec_larger(zero());
            let fastest = fastest_approach(s, survey, horizon, pairs).raw;
            let approach = approach_bound(s, survey, horizon, pairs[l]).raw;
            let centres = s.objects[pairs[l].0 as int].spec_velocity().spec_sub(
                s.objects[pairs[l].1 as int].spec_velocity(),
            ).spec_norm().raw;
            &&& 0 <= centres <= approach
            &&& (2 * cap - 1) * approach <= 2 * (f.raw * ONE)
            &&& (2 * cap - 1) * centres <= 2 * (f.raw * ONE)
            &&& 2 * fastest <= i64::MAX ==> (2 * cap - 1) * approach <= f.raw * ONE
            &&& 2 * fastest <= i64::MAX ==> (2 * cap - 1) * centres <= f.raw * ONE
        }),
{
    small_numbers();
    let cap = step_cap(s, survey, pairs, span, growth).raw as int;
    let horizon = growth.spec_larger(zero());
    let fastest = fastest_approach(s, survey, horizon, pairs);
    let smallest = smallest_feature(s.objects, pairs);
    assert(pairs[l].0 < s.objects.len() && pairs[l].1 < s.objects.len());
    an_approach_is_within_the_fastest(s, survey, horizon, pairs, l);
    an_approach_is_no_slower_than_the_centres(s, survey, horizon, pairs[l]);
    the_smallest_feature_is_within_all(s.objects, pairs, k, f);
    the_smallest_feature_is_positive(s.objects, pairs);
    no_cap_means_that_nothing_moves(s, survey, pairs, span, growth);
    let d = two::<Fixed>().spec_mul(fastest);
    twice_a_number(fastest);
    let q = nearest(smallest.raw * ONE, d.raw as nat);
    rounding_is_near(smallest.raw * ONE, d.raw as nat);
    assert(cap <= q);
    let approach = approach_bound(s, survey, horizon, pairs[l]).raw as int;
    let centres = s.objects[pairs[l].0 as int].spec_velocity().spec_sub(
        s.objects[pairs[l].1 as int].spec_velocity(),
    ).spec_norm().raw as int;
    a_step_is_bounded(cap, q, d.raw as int, smallest.raw * ONE, approach);
    a_step_is_bounded(cap, q, d.raw as int, smallest.raw * ONE, centres);
}

/// A way at a speed, in a step that is at most a rounded quotient.
proof fn a_step_is_bounded(cap: int, q: int, d: int, x: int, speed: int)
    requires
        0 < cap <= q,
        0 <= speed <= d,
        2 * (q * d - x) <= d,
    ensures
        (2 * cap - 1) * speed <= 2 * x,
        2 * speed <= d ==> (2 * cap - 1) * speed <= x,
{
    let c = 2 * cap - 1;
    assert(c * d <= (2 * q - 1) * d) by (nonlinear_arith)
        requires
            c <= 2 * q - 1,
            d >= 0,
    ;
    assert((2 * q - 1) * d == 2 * (q * d) - d) by (nonlinear_arith);
    assert(c * speed <= c * d) by (nonlinear_arith)
        requires
            c > 0,
            speed <= d,
    ;
    if 2 * speed <= d {
        assert(2 * (c * speed) <= c * d) by (nonlinear_arith)
            requires
                c > 0,
                2 * speed <= d,
        ;
    }
}

/// A longer horizon never loosens the cap: where a shorter one gives a cap, the
/// longer gives one that is no larger. A negative horizon counts as none.
pub proof fn a_longer_horizon_tightens_the_cap(
    s: SystemView<Fixed>,
    survey: SurveyView<Fixed>,
    pairs: Seq<(usize, usize)>,
    span: Fixed,
    g1: Fixed,
    g2: Fixed,
)
    requires
        has_sizes(s, survey),
        pairs_within(pairs, s.objects.len()),
        g1.raw <= g2.raw,
    ensures
        step_cap(s, survey, pairs, span, g1).raw > 0 ==> 0 < step_cap(
            s,
            survey,
            pairs,
            span,
            g2,
        ).raw <= step_cap(s, survey, pairs, span, g1).raw,
        g2.raw <= 0 ==> step_cap(s, survey, pairs, span, g1) == step_cap(
            s,
            survey,
            pairs,
            span,
            g2,
        ),
{
    small_numbers();
    let (h1, h2) = (g1.spec_larger(zero()), g2.spec_larger(zero()));
    the_fastest_approach_grows(s, survey, h1, h2, pairs);
    the_smallest_feature_is_positive(s.objects, pairs);
    no_cap_means_that_nothing_moves(s, survey, pairs, span, g1);
    no_cap_means_that_nothing_moves(s, survey, pairs, span, g2);
    let (f1, f2) = (
        fastest_approach(s, survey, h1, pairs),
        fastest_approach(s, survey, h2, pairs),
    );
    let smallest = smallest_feature(s.objects, pairs);
    if f1.raw > 0 {
        let (d1, d2) = (two::<Fixed>().spec_mul(f1), two::<Fixed>().spec_mul(f2));
        products_grow(f1, f2, two());
        twice_a_number(f1);
        rounding_shrinks(smallest.raw * ONE, d1.raw as nat, d2.raw as nat);
        assert(smallest.spec_div(d2).raw <= smallest.spec_div(d1).raw);
    }
}

/// Twice a positive number, as far as that can be held.
proof fn twice_a_number(a: Fixed)
    requires
        a.raw > 0,
    ensures
        two::<Fixed>().spec_mul(a).raw == if 2 * a.raw <= i64::MAX {
            2 * a.raw
        } else {
            i64::MAX as int
        },
{
    small_numbers();
    assert((2 * a.raw) * ONE == (2 * ONE) * a.raw) by (nonlinear_arith);
    rounding_is_the_nearest((2 * ONE) * a.raw, ONE as nat, 2 * a.raw);
}

/// The stretch of a matrix is the sum of the sizes in one of its rows, and none
/// of its rows has a larger one.
pub proof fn the_stretch_is_the_largest_row(m: Mat3<Fixed>)
    ensures
        ({
            let sum = |r: Vec3<Fixed>|
                r.x.spec_abs().spec_add(r.y.spec_abs()).spec_add(r.z.spec_abs());
            let stretch = spec_mat_inf_norm(m);
            &&& sum(m.r0).raw <= stretch.raw && sum(m.r1).raw <= stretch.raw && sum(m.r2).raw
                <= stretch.raw
            &&& stretch == sum(m.r0) || stretch == sum(m.r1) || stretch == sum(m.r2)
        }),
{
}

/// The speed of the tips of a body that turns with the angular momentum it has:
/// the root of three, times the stretch of its inverse inertia, times the angular
/// momentum, times the radius within which it lies.
pub open spec fn tip_speed(o: PhysicalObject<Fixed>, radius: Fixed) -> Fixed {
    Fixed::of_decimal(3, 0).spec_sqrt().spec_mul(spec_mat_inf_norm(o.inverse_inertia)).spec_mul(
        o.angular_momentum.spec_norm(),
    ).spec_mul(radius)
}

/// The speed that the tips of a body gain from a torque `torque` in the time
/// `growth`.
pub open spec fn tip_gain(
    o: PhysicalObject<Fixed>,
    radius: Fixed,
    torque: Fixed,
    growth: Fixed,
) -> Fixed {
    Fixed::of_decimal(3, 0).spec_sqrt().spec_mul(spec_mat_inf_norm(o.inverse_inertia)).spec_mul(
        growth.spec_mul(torque),
    ).spec_mul(radius)
}

proof fn a_spin_is_at_least_what_it_is(s: SystemView<Fixed>, growth: Fixed, k: int, radius: Fixed)
    requires
        growth.raw >= 0,
        radius.raw >= 0,
    ensures
        0 <= tip_speed(s.objects[k], radius).raw <= spin_bound(s, growth, k).spec_mul(radius).raw,
        0 <= tip_gain(s.objects[k], radius, s.external_torques[k].spec_norm(), growth).raw
            <= spin_bound(s, growth, k).spec_mul(radius).raw,
        0 <= tip_gain(
            s.objects[k],
            radius,
            spec_mat_inf_norm(s.objects[k].magnetic_moment).spec_mul(s.b_field.spec_norm()),
            growth,
        ).raw <= spin_bound(s, growth, k).spec_mul(radius).raw,
{
    small_numbers();
    let o = s.objects[k];
    let stretch = spec_mat_inf_norm(o.inverse_inertia);
    row_sums_are_not_negative(o.inverse_inertia);
    row_sums_are_not_negative(o.magnetic_moment);
    lengths_are_not_negative(s.external_torques[k]);
    lengths_are_not_negative(s.b_field);
    lengths_are_not_negative(o.angular_momentum);
    let pushed = s.external_torques[k].spec_norm();
    let magnetic = spec_mat_inf_norm(o.magnetic_moment).spec_mul(s.b_field.spec_norm());
    signs_are_kept(spec_mat_inf_norm(o.magnetic_moment), s.b_field.spec_norm());
    let torque = pushed.spec_add(magnetic);
    signs_are_kept(pushed, magnetic);
    products_grow(pushed, torque, growth);
    products_grow(magnetic, torque, growth);
    signs_are_kept(growth, pushed);
    signs_are_kept(growth, magnetic);
    signs_are_kept(growth, torque);
    let l = o.angular_momentum.spec_norm();
    let total = l.spec_add(growth.spec_mul(torque));
    signs_are_kept(l, growth.spec_mul(torque));
    let three = Fixed::of_decimal(3, 0).spec_sqrt();
    square_roots(Fixed::of_decimal(3, 0));
    let c = three.spec_mul(stretch);
    signs_are_kept(three, stretch);
    one_part_of_a_spin(c, l, total, radius);
    one_part_of_a_spin(c, growth.spec_mul(pushed), total, radius);
    one_part_of_a_spin(c, growth.spec_mul(magnetic), total, radius);
    if stretch.raw == 0 {
        assert(stretch == zero::<Fixed>());
        zero_times_a_number(three);
        zero_times_a_number(total);
        zero_times_a_number(radius);
    }
}

proof fn one_part_of_a_spin(c: Fixed, part: Fixed, total: Fixed, radius: Fixed)
    requires
        0 <= part.raw <= total.raw,
        c.raw >= 0,
        radius.raw >= 0,
    ensures
        0 <= c.spec_mul(part).spec_mul(radius).raw <= c.spec_mul(total).spec_mul(radius).raw,
{
    products_grow(part, total, c);
    products_grow(c.spec_mul(part), c.spec_mul(total), radius);
    signs_are_kept(c, part);
    signs_are_kept(c.spec_mul(part), radius);
}

/// The surfaces of a pair approach at least as fast as the centres do and the
/// tips of both bodies turn, from the angular momenta that the bodies have.
#[verifier::spinoff_prover]
pub proof fn spinning_bodies_approach(
    s: SystemView<Fixed>,
    survey: SurveyView<Fixed>,
    growth: Fixed,
    pair: (usize, usize),
)
    requires
        has_sizes(s, survey),
        growth.raw >= 0,
        pair.0 < s.objects.len(),
        pair.1 < s.objects.len(),
    ensures
        ({
            let (a, b) = (s.objects[pair.0 as int], s.objects[pair.1 as int]);
            let centres = a.spec_velocity().spec_sub(b.spec_velocity()).spec_norm();
            let tips = tip_speed(a, survey.bounding_radii[pair.0 as int]).spec_add(
                tip_speed(b, survey.bounding_radii[pair.1 as int]),
            );
            &&& centres.spec_add(tips).raw <= approach_bound(s, survey, growth, pair).raw
            &&& tip_speed(a, survey.bounding_radii[pair.0 as int]).raw <= approach_bound(
                s,
                survey,
                growth,
                pair,
            ).raw
            &&& tip_speed(b, survey.bounding_radii[pair.1 as int]).raw <= approach_bound(
                s,
                survey,
                growth,
                pair,
            ).raw
        }),
{
    let (i, j) = (pair.0 as int, pair.1 as int);
    let (ri, rj) = (survey.bounding_radii[i], survey.bounding_radii[j]);
    a_spin_is_at_least_what_it_is(s, growth, i, ri);
    a_spin_is_at_least_what_it_is(s, growth, j, rj);
    let (ti, tj) = (tip_speed(s.objects[i], ri), tip_speed(s.objects[j], rj));
    let (wi, wj) = (
        spin_bound(s, growth, i).spec_mul(ri),
        spin_bound(s, growth, j).spec_mul(rj),
    );
    let v = s.objects[i].spec_velocity().spec_sub(s.objects[j].spec_velocity()).spec_norm();
    lengths_are_not_negative(
        s.objects[i].spec_velocity().spec_sub(s.objects[j].spec_velocity()),
    );
    accelerations_are_not_negative(s, survey, i);
    accelerations_are_not_negative(s, survey, j);
    let acc = acceleration_bound(s, survey, i).spec_add(acceleration_bound(s, survey, j));
    signs_are_kept(acceleration_bound(s, survey, i), acceleration_bound(s, survey, j));
    let gain = acc.spec_mul(growth);
    signs_are_kept(acc, growth);
    assert(approach_bound(s, survey, growth, pair) == v.spec_add(gain).spec_add(wi.spec_add(wj)));
    parts_of_an_approach(v, gain, wi, wj, ti, tj);
}

proof fn parts_of_an_approach(
    v: Fixed,
    gain: Fixed,
    wi: Fixed,
    wj: Fixed,
    ti: Fixed,
    tj: Fixed,
)
    requires
        v.raw >= 0,
        gain.raw >= 0,
        0 <= ti.raw <= wi.raw,
        0 <= tj.raw <= wj.raw,
    ensures
        v.spec_add(ti.spec_add(tj)).raw <= v.spec_add(gain).spec_add(wi.spec_add(wj)).raw,
        ti.raw <= v.spec_add(gain).spec_add(wi.spec_add(wj)).raw,
        tj.raw <= v.spec_add(gain).spec_add(wi.spec_add(wj)).raw,
        wi.raw <= v.spec_add(gain).spec_add(wi.spec_add(wj)).raw,
        wj.raw <= v.spec_add(gain).spec_add(wi.spec_add(wj)).raw,
        gain.raw <= v.spec_add(gain).spec_add(wi.spec_add(wj)).raw,
{
}

/// The surfaces of a pair approach at least as fast as each cause of motion can
/// drive one of the bodies in the time `growth`: the pull of the other bodies,
/// uniform gravity, the electric field and the external force its centre, and the
/// external and the magnetic torque its tips.
#[verifier::spinoff_prover]
pub proof fn whatever_drives_a_body_counts(
    s: SystemView<Fixed>,
    survey: SurveyView<Fixed>,
    growth: Fixed,
    pair: (usize, usize),
    k: int,
)
    requires
        has_sizes(s, survey),
        growth.raw >= 0,
        pair.0 < s.objects.len(),
        pair.1 < s.objects.len(),
        k == pair.0 || k == pair.1,
    ensures
        ({
            let approach = approach_bound(s, survey, growth, pair).raw;
            let o = s.objects[k];
            let (force, radius) = (s.external_forces[k].spec_norm(), survey.bounding_radii[k]);
            let electric = o.charge.spec_abs().spec_mul(s.e_field.spec_norm());
            let magnetic = spec_mat_inf_norm(o.magnetic_moment).spec_mul(s.b_field.spec_norm());
            let torque = s.external_torques[k].spec_norm();
            &&& survey.accelerations[k].spec_norm().spec_mul(growth).raw <= approach
            &&& s.uniform_gravity.spec_norm().spec_mul(growth).raw <= approach
            &&& force.spec_mul(o.inverse_mass).spec_mul(growth).raw <= approach
            &&& electric.spec_mul(o.inverse_mass).spec_mul(growth).raw <= approach
            &&& tip_gain(o, radius, torque, growth).raw <= approach
            &&& tip_gain(o, radius, magnetic, growth).raw <= approach
        }),
{
    let (i, j) = (pair.0 as int, pair.1 as int);
    let (ri, rj) = (survey.bounding_radii[i], survey.bounding_radii[j]);
    a_spin_is_at_least_what_it_is(s, growth, i, ri);
    a_spin_is_at_least_what_it_is(s, growth, j, rj);
    let (wi, wj) = (
        spin_bound(s, growth, i).spec_mul(ri),
        spin_bound(s, growth, j).spec_mul(rj),
    );
    let v = s.objects[i].spec_velocity().spec_sub(s.objects[j].spec_velocity()).spec_norm();
    lengths_are_not_negative(
        s.objects[i].spec_velocity().spec_sub(s.objects[j].spec_velocity()),
    );
    accelerations_are_not_negative(s, survey, i);
    accelerations_are_not_negative(s, survey, j);
    let (ai, aj) = (acceleration_bound(s, survey, i), acceleration_bound(s, survey, j));
    let acc = ai.spec_add(aj);
    signs_are_kept(ai, aj);
    let gain = acc.spec_mul(growth);
    signs_are_kept(acc, growth);
    assert(approach_bound(s, survey, growth, pair) == v.spec_add(gain).spec_add(wi.spec_add(wj)));
    parts_of_an_approach(v, gain, wi, wj, wi, wj);
    an_acceleration_has_its_parts(s, survey, k, acc, growth);
}

proof fn an_acceleration_has_its_parts(
    s: SystemView<Fixed>,
    survey: SurveyView<Fixed>,
    k: int,
    acc: Fixed,
    growth: Fixed,
)
    requires
        has_sizes(s, survey),
        0 <= k < s.objects.len(),
        growth.raw >= 0,
        acceleration_bound(s, survey, k).raw <= acc.raw,
    ensures
        ({
            let o = s.objects[k];
            let force = s.external_forces[k].spec_norm();
            let electric = o.charge.spec_abs().spec_mul(s.e_field.spec_norm());
            let gain = acc.spec_mul(growth).raw;
            &&& survey.accelerations[k].spec_norm().spec_mul(growth).raw <= gain
            &&& s.uniform_gravity.spec_norm().spec_mul(growth).raw <= gain
            &&& force.spec_mul(o.inverse_mass).spec_mul(growth).raw <= gain
            &&& electric.spec_mul(o.inverse_mass).spec_mul(growth).raw <= gain
        }),
{
    let o = s.objects[k];
    let a = survey.accelerations[k].spec_norm();
    let g = s.uniform_gravity.spec_norm();
    let force = s.external_forces[k].spec_norm();
    lengths_are_not_negative(survey.accelerations[k]);
    lengths_are_not_negative(s.uniform_gravity);
    lengths_are_not_negative(s.e_field);
    lengths_are_not_negative(s.external_forces[k]);
    let electric = o.charge.spec_abs().spec_mul(s.e_field.spec_norm());
    signs_are_kept(o.charge.spec_abs(), s.e_field.spec_norm());
    let both = electric.spec_add(force);
    signs_are_kept(electric, force);
    products_grow(force, both, o.inverse_mass);
    products_grow(electric, both, o.inverse_mass);
    signs_are_kept(both, o.inverse_mass);
    signs_are_kept(force, o.inverse_mass);
    signs_are_kept(electric, o.inverse_mass);
    let driven = both.spec_mul(o.inverse_mass);
    let free = a.spec_add(g);
    signs_are_kept(a, g);
    assert(acceleration_bound(s, survey, k) == free.spec_add(driven));
    assert(a.raw <= acc.raw && g.raw <= acc.raw && driven.raw <= acc.raw);
    products_grow(a, acc, growth);
    products_grow(g, acc, growth);
    products_grow(force.spec_mul(o.inverse_mass), acc, growth);
    products_grow(electric.spec_mul(o.inverse_mass), acc, growth);
}

/// Whatever can move is capped: where the surfaces of some pair can approach,
/// the cap is not lifted.
pub proof fn whatever_moves_is_capped(
    s: SystemView<Fixed>,
    survey: SurveyView<Fixed>,
    pairs: Seq<(usize, usize)>,
    span: Fixed,
    growth: Fixed,
    k: int,
)
    requires
        0 <= k < pairs.len(),
        approach_bound(s, survey, growth.spec_larger(zero()), pairs[k]).raw > 0,
    ensures
        step_cap(s, survey, pairs, span, growth).raw >= least_cap::<Fixed>().raw > 0,
{
    an_approach_is_within_the_fastest(s, survey, growth.spec_larger(zero()), pairs, k);
    no_cap_means_that_nothing_moves(s, survey, pairs, span, growth);
}

/// A pair with a spinning body that lies within a radius is never left without a
/// cap.
pub proof fn a_spinning_body_is_capped(
    s: SystemView<Fixed>,
    survey: SurveyView<Fixed>,
    pairs: Seq<(usize, usize)>,
    span: Fixed,
    growth: Fixed,
    k: int,
)
    requires
        has_sizes(s, survey),
        pairs_within(pairs, s.objects.len()),
        0 <= k < pairs.len(),
        tip_speed(
            s.objects[pairs[k].0 as int],
            survey.bounding_radii[pairs[k].0 as int],
        ).raw > 0 || tip_speed(
            s.objects[pairs[k].1 as int],
            survey.bounding_radii[pairs[k].1 as int],
        ).raw > 0,
    ensures
        step_cap(s, survey, pairs, span, growth).raw >= least_cap::<Fixed>().raw > 0,
{
    small_numbers();
    assert(pairs[k].0 < s.objects.len() && pairs[k].1 < s.objects.len());
    spinning_bodies_approach(s, survey, growth.spec_larger(zero()), pairs[k]);
    whatever_moves_is_capped(s, survey, pairs, span, growth, k);
}

/// The feature of a shape is its thinnest dimension: none of those that can be
/// crossed is smaller, and it is one of them. A point has none.
pub proof fn a_feature_is_the_thinnest_dimension(b: Boundary<Fixed>)
    ensures
        match b {
            Boundary::Point => !feature(b).spec_is_finite(),
            Boundary::Sphere { radius } | Boundary::Disk { radius } => feature(b) == radius,
            Boundary::Torus { tube_radius } => feature(b) == tube_radius,
            Boundary::Cuboid { half_extents } => {
                let (x, y, z) = (half_extents[0], half_extents[1], half_extents[2]);
                &&& feature(b).raw <= x.raw && feature(b).raw <= y.raw && feature(b).raw <= z.raw
                &&& feature(b) == x || feature(b) == y || feature(b) == z
            },
            Boundary::Cylinder { radius, half_height } => {
                &&& feature(b).raw <= radius.raw && feature(b).raw <= half_height.raw
                &&& feature(b) == radius || feature(b) == half_height
            },
            Boundary::Dumbbell { r1, r2, rod_radius } => {
                &&& feature(b).raw <= r1.raw && feature(b).raw <= r2.raw && feature(b).raw
                    <= rod_radius.raw
                &&& feature(b) == r1 || feature(b) == r2 || feature(b) == rod_radius
            },
        },
{
}

/// The floor of the cap is the least number above zero: no feature that can be
/// crossed is too thin for a cap.
pub proof fn the_floor_of_the_cap_is_the_least_number()
    ensures
        least_cap::<Fixed>().raw == 1,
{
    assert(pow10(12) == 1000000000000) by {
        reveal_with_fuel(pow10, 13);
    }
    rounding_is_the_nearest(ONE as int, 1000000000000, 0);
}

/// The cap is no tighter than it has to be: unless it is the rest of the run, in
/// twice the cap, and one rounding more, the fastest pair approaches by the
/// thinnest feature that can be crossed.
pub proof fn the_cap_is_no_tighter_than_needed(
    s: SystemView<Fixed>,
    survey: SurveyView<Fixed>,
    pairs: Seq<(usize, usize)>,
    span: Fixed,
    growth: Fixed,
)
    requires
        smallest_feature(s.objects, pairs).spec_is_finite(),
        0 < step_cap(s, survey, pairs, span, growth).raw < span.spec_larger(least_cap()).raw,
    ensures
        ({
            let cap = step_cap(s, survey, pairs, span, growth).raw;
            let fastest = fastest_approach(s, survey, growth.spec_larger(zero()), pairs).raw;
            (2 * cap + 1) * fastest >= smallest_feature(s.objects, pairs).raw * ONE
        }),
{
    small_numbers();
    no_cap_means_that_nothing_moves(s, survey, pairs, span, growth);
    the_smallest_feature_is_positive(s.objects, pairs);
    let cap = step_cap(s, survey, pairs, span, growth).raw as int;
    let fastest = fastest_approach(s, survey, growth.spec_larger(zero()), pairs);
    let smallest = smallest_feature(s.objects, pairs);
    twice_a_number(fastest);
    let d = two::<Fixed>().spec_mul(fastest).raw as int;
    let q = nearest(smallest.raw * ONE, d as nat);
    rounding_is_near(smallest.raw * ONE, d as nat);
    assert(cap >= q);
    let (f, x) = (fastest.raw as int, smallest.raw * ONE);
    assert((2 * cap + 1) * f >= x) by (nonlinear_arith)
        requires
            cap >= q,
            -d <= 2 * (q * d - x),
            0 < d <= 2 * f,
            q >= 0,
    ;
}

/// The smallest feature is that of a paired body, unless none of the paired
/// bodies has one.
pub proof fn the_smallest_feature_is_that_of_a_body(
    objects: Seq<PhysicalObject<Fixed>>,
    pairs: Seq<(usize, usize)>,
)
    ensures
        smallest_feature(objects, pairs).spec_is_finite() ==> exists|k: int|
            0 <= k < pairs.len() && #[trigger] is_crossable(
                objects,
                pairs,
                k,
                smallest_feature(objects, pairs),
            ),
    decreases pairs.len(),
{
    small_numbers();
    if pairs.len() > 0 {
        let fewer = pairs.drop_last();
        the_smallest_feature_is_that_of_a_body(objects, fewer);
        let least = smallest_feature(objects, pairs);
        let before = smallest_feature(objects, fewer);
        the_smallest_feature_is_positive(objects, pairs);
        if least.spec_is_finite() {
            if least == before {
                let k = choose|k: int|
                    0 <= k < fewer.len() && #[trigger] is_crossable(objects, fewer, k, before);
                assert(fewer[k] == pairs[k]);
                assert(is_crossable(objects, pairs, k, least));
            } else {
                assert(is_crossable(objects, pairs, pairs.len() - 1, least));
            }
        }
    }
}

} // verus!
