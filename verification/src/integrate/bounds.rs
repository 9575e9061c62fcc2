//! The step cap that keeps fast bodies from passing through thin ones, and
//! the upkeep of unit quaternions.

use crate::integrate::dynamics::pairs_within;
use crate::linalg::{quat_at, read_quat, with_quat, write_quat, Mat3, Quat, Vec3};
use crate::scalar::{clamp, clamped, one, two, zero, Scalar};
use crate::system::{Boundary, PhysicalObject, PhysicalObjectSystem, SystemView, VARS_PER_OBJECT};
use vstd::prelude::*;

verus! {

/// The largest absolute row sum of a matrix, an upper bound on how much it
/// can stretch a vector.
pub open spec fn spec_mat_inf_norm<S: Scalar>(m: Mat3<S>) -> S {
    let row = |r: Vec3<S>| r.x.spec_abs().spec_add(r.y.spec_abs()).spec_add(r.z.spec_abs());
    row(m.r0).spec_larger(row(m.r1)).spec_larger(row(m.r2))
}

fn row_sum<S: Scalar>(r: Vec3<S>) -> (s: S)
    ensures
        s == r.x.spec_abs().spec_add(r.y.spec_abs()).spec_add(r.z.spec_abs()),
{
    r.x.abs().add(r.y.abs()).add(r.z.abs())
}

pub fn mat_inf_norm<S: Scalar>(m: &Mat3<S>) -> (r: S)
    ensures
        r == spec_mat_inf_norm(*m),
{
    row_sum(m.r0).larger(row_sum(m.r1)).larger(row_sum(m.r2))
}

/// What the cap needs to know of each body beyond what the body holds: the
/// gravitational acceleration at the present configuration, and the radius of
/// a ball about its centre that contains it.
#[derive(Clone, Debug)]
pub struct Survey<S> {
    pub accelerations: Vec<Vec3<S>>,
    pub bounding_radii: Vec<S>,
}

/// A survey, as mathematical values.
#[verifier::ext_equal]
pub struct SurveyView<S> {
    pub accelerations: Seq<Vec3<S>>,
    pub bounding_radii: Seq<S>,
}

impl<S: Scalar> View for Survey<S> {
    type V = SurveyView<S>;

    open spec fn view(&self) -> SurveyView<S> {
        SurveyView {
            accelerations: self.accelerations@,
            bounding_radii: self.bounding_radii@,
        }
    }
}

impl<S: Scalar> SurveyView<S> {
    /// Whether the survey covers `n` bodies.
    pub open spec fn covers(self, n: nat) -> bool {
        self.accelerations.len() == n && self.bounding_radii.len() == n
    }
}

/// The thinnest feature of a shape that another body could cross. A point has
/// none. An ideal disk has no thickness, so its radius stands in: the cap
/// then comes from whatever approaches it.
pub open spec fn feature<S: Scalar>(b: Boundary<S>) -> S {
    match b {
        Boundary::Point => S::spec_infinity(),
        Boundary::Sphere { radius } => radius,
        Boundary::Cuboid { half_extents } => half_extents[0].spec_smaller(
            half_extents[1],
        ).spec_smaller(half_extents[2]),
        Boundary::Torus { tube_radius } => tube_radius,
        Boundary::Disk { radius } => radius,
        Boundary::Cylinder { radius, half_height } => radius.spec_smaller(half_height),
        Boundary::Dumbbell { r1, r2, rod_radius } => r1.spec_smaller(r2).spec_smaller(rod_radius),
    }
}

fn thinnest_feature<S: Scalar>(b: &Boundary<S>) -> (r: S)
    ensures
        r == feature(*b),
{
    match *b {
        Boundary::Point => S::infinity(),
        Boundary::Sphere { radius } => radius,
        Boundary::Cuboid { half_extents } => half_extents[0].smaller(half_extents[1]).smaller(
            half_extents[2],
        ),
        Boundary::Torus { tube_radius } => tube_radius,
        Boundary::Disk { radius } => radius,
        Boundary::Cylinder { radius, half_height } => radius.smaller(half_height),
        Boundary::Dumbbell { r1, r2, rod_radius } => r1.smaller(r2).smaller(rod_radius),
    }
}

/// The linear acceleration that body `k` can reach: gravity of the bodies,
/// uniform gravity, the electric field, the external force. Magnetic forces
/// never change a speed.
pub open spec fn acceleration_bound<S: Scalar>(
    s: SystemView<S>,
    survey: SurveyView<S>,
    k: int,
) -> S {
    survey.accelerations[k].spec_norm().spec_add(s.uniform_gravity.spec_norm()).spec_add(
        s.objects[k].charge.spec_abs().spec_mul(s.e_field.spec_norm()).spec_add(
            s.external_forces[k].spec_norm(),
        ).spec_mul(s.objects[k].inverse_mass),
    )
}

/// The angular speed that body `k` can reach in the time `growth`: the stretch
/// of the inverse inertia, times the angular momentum with what external and
/// magnetic torque can add to it. Zero for a body that cannot turn.
pub open spec fn spin_bound<S: Scalar>(s: SystemView<S>, growth: S, k: int) -> S {
    let o = s.objects[k];
    let stretch = spec_mat_inf_norm(o.inverse_inertia);
    if stretch.spec_same(zero()) {
        zero()
    } else {
        let torque = s.external_torques[k].spec_norm().spec_add(
            spec_mat_inf_norm(o.magnetic_moment).spec_mul(s.b_field.spec_norm()),
        );
        S::of_decimal(3, 0).spec_sqrt().spec_mul(stretch).spec_mul(
            o.angular_momentum.spec_norm().spec_add(growth.spec_mul(torque)),
        )
    }
}

/// The fastest that surface points of a pair can approach within `growth`:
/// the relative speed of the centres and what acceleration can add to it,
/// plus each body's spin at its bounding radius.
pub open spec fn approach_bound<S: Scalar>(
    s: SystemView<S>,
    survey: SurveyView<S>,
    growth: S,
    pair: (usize, usize),
) -> S {
    let (i, j) = (pair.0 as int, pair.1 as int);
    let centres = s.objects[i].spec_velocity().spec_sub(
        s.objects[j].spec_velocity(),
    ).spec_norm().spec_add(
        acceleration_bound(s, survey, i).spec_add(acceleration_bound(s, survey, j)).spec_mul(
            growth,
        ),
    );
    let spins = spin_bound(s, growth, i).spec_mul(survey.bounding_radii[i]).spec_add(
        spin_bound(s, growth, j).spec_mul(survey.bounding_radii[j]),
    );
    centres.spec_add(spins)
}

/// The smaller of `least` and `f`, as far as `f` is a size at all.
pub open spec fn thinner<S: Scalar>(least: S, f: S) -> S {
    if zero::<S>().spec_less(f) {
        least.spec_smaller(f)
    } else {
        least
    }
}

fn thinner_of<S: Scalar>(least: S, f: S) -> (r: S)
    ensures
        r == thinner(least, f),
{
    if S::decimal(0, 0).less(f) {
        least.smaller(f)
    } else {
        least
    }
}

/// The smallest positive feature among paired bodies.
pub open spec fn smallest_feature<S: Scalar>(
    objects: Seq<PhysicalObject<S>>,
    pairs: Seq<(usize, usize)>,
) -> S
    decreases pairs.len(),
{
    if pairs.len() == 0 {
        S::spec_infinity()
    } else {
        let (i, j) = pairs.last();
        thinner(
            thinner(
                smallest_feature(objects, pairs.drop_last()),
                feature(objects[i as int].boundary),
            ),
            feature(objects[j as int].boundary),
        )
    }
}

/// The fastest approach among the pairs.
pub open spec fn fastest_approach<S: Scalar>(
    s: SystemView<S>,
    survey: SurveyView<S>,
    growth: S,
    pairs: Seq<(usize, usize)>,
) -> S
    decreases pairs.len(),
{
    if pairs.len() == 0 {
        zero()
    } else {
        fastest_approach(s, survey, growth, pairs.drop_last()).spec_larger(
            approach_bound(s, survey, growth, pairs.last()),
        )
    }
}

/// The least step cap there is: `1e-12`, or the least number above zero where
/// that is more.
pub open spec fn least_cap<S: Scalar>() -> S {
    S::of_decimal(1, -12i32).spec_larger(S::spec_tiny())
}

/// The step cap: the smallest positive feature over twice the fastest approach,
/// kept between the least cap and `span`, and `span` itself where there is no
/// feature to cross. Zero, which means no cap, only when nothing can move at
/// all.
pub open spec fn step_cap<S: Scalar>(
    s: SystemView<S>,
    survey: SurveyView<S>,
    pairs: Seq<(usize, usize)>,
    span: S,
    growth: S,
) -> S {
    let horizon = growth.spec_larger(zero());
    let smallest = smallest_feature(s.objects, pairs);
    let fastest = fastest_approach(s, survey, horizon, pairs);
    if !zero::<S>().spec_less(fastest) {
        zero()
    } else if smallest.spec_is_finite() {
        clamped(
            smallest.spec_div(two::<S>().spec_mul(fastest)),
            least_cap(),
            span.spec_larger(least_cap()),
        )
    } else {
        span.spec_larger(least_cap())
    }
}

/// Where there is a cap, it is the time in which the fastest approach covers half
/// the smallest feature, unless that is below the floor of a part in a million
/// million, or beyond the span.
pub proof fn a_cap_is_kept_between_its_bounds<S: Scalar>(
    s: SystemView<S>,
    survey: SurveyView<S>,
    pairs: Seq<(usize, usize)>,
    span: S,
    growth: S,
)
    ensures
        ({
            let cap = step_cap(s, survey, pairs, span, growth);
            let floor = S::of_decimal(1, -12i32).spec_larger(S::spec_tiny());
            let ceiling = span.spec_larger(floor);
            let fastest = fastest_approach(s, survey, growth.spec_larger(zero()), pairs);
            let crossing = smallest_feature(s.objects, pairs).spec_div(
                two::<S>().spec_mul(fastest),
            );
            zero::<S>().spec_less(fastest) ==> {
                ||| cap == floor && crossing.spec_less(floor)
                ||| cap == ceiling
                ||| cap == crossing && !crossing.spec_less(floor) && !ceiling.spec_less(crossing)
            }
        }),
{
}

fn bound_acceleration<S: Scalar>(
    system: &PhysicalObjectSystem<S>,
    survey: &Survey<S>,
    k: usize,
) -> (r: S)
    requires
        system@.wf(),
        survey@.covers(system@.objects.len()),
        k < system@.objects.len(),
    ensures
        r == acceleration_bound(system@, survey@, k as int),
{
    let o = system.objects[k];
    survey.accelerations[k].norm().add(system.uniform_gravity.norm()).add(
        o.charge.abs().mul(system.e_field.norm()).add(system.external_forces[k].norm()).mul(
            o.inverse_mass,
        ),
    )
}

fn bound_spin<S: Scalar>(system: &PhysicalObjectSystem<S>, growth: S, k: usize) -> (r: S)
    requires
        system@.wf(),
        k < system@.objects.len(),
    ensures
        r == spin_bound(system@, growth, k as int),
{
    let o = system.objects[k];
    let stretch = mat_inf_norm(&o.inverse_inertia);
    if stretch.same(S::decimal(0, 0)) {
        return S::decimal(0, 0);
    }
    let torque = system.external_torques[k].norm().add(
        mat_inf_norm(&o.magnetic_moment).mul(system.b_field.norm()),
    );
    S::decimal(3, 0).sqrt().mul(stretch).mul(o.angular_momentum.norm().add(growth.mul(torque)))
}

/// The largest step that cannot carry one body of a pair clear through the
/// other before the cap is refreshed, `growth` from now.
pub fn collision_hmax<S: Scalar>(
    system: &PhysicalObjectSystem<S>,
    survey: &Survey<S>,
    pairs: &Vec<(usize, usize)>,
    span: S,
    growth: S,
) -> (r: S)
    requires
        system@.wf(),
        survey@.covers(system@.objects.len()),
        pairs_within(pairs@, system@.objects.len()),
    ensures
        r == step_cap(system@, survey@, pairs@, span, growth),
{
    let growth = growth.larger(S::decimal(0, 0));
    let mut min_feature = S::infinity();
    let mut vmax = S::decimal(0, 0);
    let mut k: usize = 0;
    while k < pairs.len()
        invariant
            k <= pairs@.len(),
            system@.wf(),
            survey@.covers(system@.objects.len()),
            pairs_within(pairs@, system@.objects.len()),
            min_feature == smallest_feature(system@.objects, pairs@.take(k as int)),
            vmax == fastest_approach(system@, survey@, growth, pairs@.take(k as int)),
        decreases pairs@.len() - k,
    {
        let (i, j) = pairs[k];
        assert(pairs@[k as int].0 < system@.objects.len());
        assert(pairs@.take(k + 1).drop_last() =~= pairs@.take(k as int));
        let a = system.objects[i];
        let b = system.objects[j];
        min_feature = thinner_of(min_feature, thinnest_feature(&a.boundary));
        min_feature = thinner_of(min_feature, thinnest_feature(&b.boundary));
        let rel = a.velocity().sub(b.velocity()).norm().add(
            bound_acceleration(system, survey, i).add(
                bound_acceleration(system, survey, j),
            ).mul(growth),
        );
        let spin = bound_spin(system, growth, i).mul(survey.bounding_radii[i]).add(
            bound_spin(system, growth, j).mul(survey.bounding_radii[j]),
        );
        vmax = vmax.larger(rel.add(spin));
        k += 1;
    }
    assert(pairs@.take(k as int) =~= pairs@);
    if !S::decimal(0, 0).less(vmax) {
        return S::decimal(0, 0);
    }
    let least = S::decimal(1, -12).larger(S::tiny());
    if !min_feature.is_finite() {
        return span.larger(least);
    }
    clamp(min_feature.div(S::decimal(2, 0).mul(vmax)), least, span.larger(least))
}

/// A full state vector with the quaternions of its first `n` bodies made unit.
pub open spec fn renormalized<S: Scalar>(y: Seq<S>, n: nat) -> Seq<S>
    decreases n,
{
    if n == 0 {
        y
    } else {
        let i = n - 1;
        with_quat(
            renormalized(y, i as nat),
            13 * i + 6,
            quat_at(y, 13 * i + 6).spec_normalize(),
        )
    }
}

/// How far a quaternion is from unit length.
pub open spec fn norm_error<S: Scalar>(q: Quat<S>) -> S {
    q.spec_norm().spec_sub(one()).spec_abs()
}

/// The worst deviation from unit length among the first `n` quaternions.
pub open spec fn worst_norm_error<S: Scalar>(y: Seq<S>, n: nat) -> S
    decreases n,
{
    if n == 0 {
        zero()
    } else {
        worst_norm_error(y, (n - 1) as nat).spec_larger(
            norm_error(quat_at(y, 13 * (n - 1) + 6)),
        )
    }
}

/// Renormalizing keeps the length of a state vector.
pub proof fn renormalizing_keeps_the_length<S: Scalar>(y: Seq<S>, n: nat)
    requires
        13 * n <= y.len(),
    ensures
        renormalized(y, n).len() == y.len(),
    decreases n,
{
    if n > 0 {
        renormalizing_keeps_the_length(y, (n - 1) as nat);
    }
}

/// What renormalizing leaves alone: everything but the quaternions, and the
/// quaternions of later bodies.
pub proof fn renormalizing_touches_only_quaternions<S: Scalar>(y: Seq<S>, n: nat, k: int)
    requires
        13 * n <= y.len(),
        0 <= k < y.len(),
        k >= 13 * n || k % 13 < 6 || k % 13 >= 10,
    ensures
        renormalized(y, n)[k] == y[k],
    decreases n,
{
    if n > 0 {
        renormalizing_keeps_the_length(y, (n - 1) as nat);
        renormalizing_touches_only_quaternions(y, (n - 1) as nat, k);
    }
}

/// What renormalizing does to a body: its quaternion is made unit, and that
/// of no other body matters to it.
pub proof fn renormalizing_makes_every_quaternion_unit<S: Scalar>(y: Seq<S>, n: nat, i: int)
    requires
        13 * n <= y.len(),
        0 <= i < n,
    ensures
        quat_at(renormalized(y, n), 13 * i + 6) == quat_at(y, 13 * i + 6).spec_normalize(),
    decreases n,
{
    renormalizing_keeps_the_length(y, (n - 1) as nat);
    if i < n - 1 {
        renormalizing_makes_every_quaternion_unit(y, (n - 1) as nat, i);
    }
}

/// Makes every quaternion of a full state vector unit. Returns the worst
/// deviation from unit length seen.
pub fn renormalize_quats<S: Scalar>(y: &mut [S], n: usize) -> (worst: S)
    requires
        13 * n <= old(y)@.len(),
    ensures
        final(y)@ == renormalized(old(y)@, n as nat),
        worst == worst_norm_error(old(y)@, n as nat),
{
    let mut worst = S::decimal(0, 0);
    let len = y.len();
    let mut i: usize = 0;
    while i < n
        invariant
            i <= n,
            13 * n <= y@.len(),
            len == y@.len() == old(y)@.len(),
            y@ == renormalized(old(y)@, i as nat),
            worst == worst_norm_error(old(y)@, i as nat),
        decreases n - i,
    {
        let b = VARS_PER_OBJECT * i;
        proof {
            renormalizing_touches_only_quaternions(old(y)@, i as nat, b + 6);
            renormalizing_touches_only_quaternions(old(y)@, i as nat, b + 7);
            renormalizing_touches_only_quaternions(old(y)@, i as nat, b + 8);
            renormalizing_touches_only_quaternions(old(y)@, i as nat, b + 9);
        }
        let q = read_quat(y, b + 6);
        worst = worst.larger(q.norm().sub(S::decimal(1, 0)).abs());
        write_quat(y, b + 6, q.normalize());
        i += 1;
    }
    worst
}

} // verus!
