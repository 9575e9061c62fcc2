//! What the physics keeps exactly in fixed-point numbers.

use crate::constrain::{
    a_bare_rod_starts_consistent, direction, drift_is_the_largest_residual, error_sizes, largest,
    length_error, length_rate, positions, rate_sizes, rod_length, velocities, worst_error,
    worst_rate, DistanceConstraint,
};
use crate::fixed::rounding::{
    one_times_a_number, products_are_odd, rounding_is_the_nearest, small_numbers,
    square_roots, zero_added_to_a_number, zero_times_a_number,
};
use crate::fixed::{magnitude, Fixed, ONE};
use crate::integrate::bounds::{norm_error, worst_norm_error};
use crate::integrate::dynamics::{
    a_system_poses_its_own_bodies, both_layouts_give_one_force, force_in, full_pose, pose_of,
    rates, rhs_params, rotation_in, same_places, separable_force, sprk_params, turned,
    velocity_in, RhsParamsView,
};
use crate::integrate::run_start;
use crate::linalg::{quat_at, vec3_at, Mat3, Quat, Vec3};
use crate::scalar::{one, zero, Scalar};
use crate::system::{component, packed, PhysicalObject, SystemView};
use vstd::prelude::*;

verus! {

impl Vec3<Fixed> {
    /// Whether all components are proper.
    pub open spec fn is_proper(self) -> bool {
        self.x.is_proper() && self.y.is_proper() && self.z.is_proper()
    }

    /// The opposite vector.
    pub open spec fn opposite(self) -> Self {
        Vec3 { x: self.x.spec_neg(), y: self.y.spec_neg(), z: self.z.spec_neg() }
    }
}

impl Quat<Fixed> {
    /// Whether all components are proper.
    pub open spec fn is_proper(self) -> bool {
        self.w.is_proper() && self.x.is_proper() && self.y.is_proper() && self.z.is_proper()
    }

    /// The quaternion that is zero in all components.
    pub open spec fn nothing() -> Self {
        Quat { w: zero(), x: zero(), y: zero(), z: zero() }
    }
}

/// Nothing is left of a number less itself.
pub proof fn a_number_less_itself_is_zero(a: Fixed)
    ensures
        a.spec_sub(a) == zero::<Fixed>(),
{
    small_numbers();
}

/// An immovable body has no velocity, whatever its momentum.
pub proof fn an_immovable_body_has_no_velocity(o: PhysicalObject<Fixed>)
    requires
        o.spec_is_anchor(),
    ensures
        o.spec_velocity() == Vec3::<Fixed>::spec_zeros(),
{
    small_numbers();
    zero_times_a_number(o.momentum.x);
    zero_times_a_number(o.momentum.y);
    zero_times_a_number(o.momentum.z);
}

/// A rod made without a length has no error at all in the configuration it was
/// measured from.
pub proof fn a_bare_rod_starts_without_error(s: SystemView<Fixed>, i: usize, j: usize)
    requires
        i < s.objects.len(),
        j < s.objects.len(),
    ensures
        length_error(
            (DistanceConstraint { i, j, length: rod_length(s, i, j, None) }),
            positions(s.objects),
        ) == zero::<Fixed>(),
{
    a_bare_rod_starts_consistent(s, i, j);
    a_number_less_itself_is_zero(rod_length(s, i, j, None));
}

pub proof fn products_with_the_zero_vector(v: Vec3<Fixed>)
    ensures
        v.spec_dot(Vec3::spec_zeros()) == zero::<Fixed>(),
        Vec3::<Fixed>::spec_zeros().spec_dot(v) == zero::<Fixed>(),
        v.spec_cross(Vec3::spec_zeros()) == Vec3::<Fixed>::spec_zeros(),
{
    small_numbers();
    zero_times_a_number(v.x);
    zero_times_a_number(v.y);
    zero_times_a_number(v.z);
}

proof fn products_with_the_zero_matrix(m: Mat3<Fixed>, v: Vec3<Fixed>)
    ensures
        m.spec_apply(Vec3::spec_zeros()) == Vec3::<Fixed>::spec_zeros(),
        Mat3::<Fixed>::spec_zeros().spec_apply(v) == Vec3::<Fixed>::spec_zeros(),
        m.spec_mul(Mat3::spec_zeros()) == Mat3::<Fixed>::spec_zeros(),
        Mat3::<Fixed>::spec_zeros().spec_mul(m) == Mat3::<Fixed>::spec_zeros(),
{
    products_with_the_zero_vector(v);
    products_with_the_zero_vector(m.r0);
    products_with_the_zero_vector(m.r1);
    products_with_the_zero_vector(m.r2);
    let t = m.spec_transpose();
    products_with_the_zero_vector(t.r0);
    products_with_the_zero_vector(t.r1);
    products_with_the_zero_vector(t.r2);
}

/// Where no torque acts and there is no magnetic field, no angular momentum
/// changes, however the bodies tumble.
pub proof fn without_torque_angular_momentum_is_kept(
    p: RhsParamsView<Fixed>,
    y: Seq<Fixed>,
    i: int,
)
    requires
        p.ext_torque[i].spec_is_zero(),
        p.b_field.spec_is_zero(),
    ensures
        rates(p, y, i).angular_momentum == Vec3::<Fixed>::spec_zeros(),
{
    small_numbers();
    assert(p.b_field == Vec3::<Fixed>::spec_zeros());
    let r = rotation_in(y, i);
    products_with_the_zero_matrix(turned(r, p.magnetic[i]), p.b_field);
}

/// A body that cannot turn, or that has no angular momentum, keeps its
/// orientation.
pub proof fn without_spin_an_orientation_is_kept(p: RhsParamsView<Fixed>, y: Seq<Fixed>, i: int)
    requires
        p.inverse_inertia[i].spec_is_zero() || vec3_at(y, 13 * i + 10).spec_is_zero(),
    ensures
        rates(p, y, i).orientation == Quat::<Fixed>::nothing(),
{
    small_numbers();
    let r = rotation_in(y, i);
    let ang = vec3_at(y, 13 * i + 10);
    products_with_the_zero_matrix(r, ang);
    products_with_the_zero_matrix(r.spec_transpose(), ang);
    products_with_the_zero_matrix(turned(r, p.inverse_inertia[i]), ang);
    if ang.spec_is_zero() {
        assert(ang == Vec3::<Fixed>::spec_zeros());
    } else {
        assert(p.inverse_inertia[i] == Mat3::<Fixed>::spec_zeros());
    }
    let q = quat_at(y, 13 * i + 6);
    zero_times_a_number(q.w);
    zero_times_a_number(q.x);
    zero_times_a_number(q.y);
    zero_times_a_number(q.z);
    zero_times_a_number(Fixed::of_decimal(5, -1i32));
}

/// Without a magnetic field the two layouts of one system give every body the
/// same force, wherever they hold the same positions.
pub proof fn both_layouts_give_the_same_force(
    s: SystemView<Fixed>,
    pairs: Seq<(usize, usize)>,
    full: Seq<Fixed>,
    translational: Seq<Fixed>,
    i: int,
)
    requires
        0 <= i < s.objects.len(),
        same_places(full, translational, s.objects.len()),
        s.b_field.spec_is_zero(),
        s.e_field.is_proper(),
    ensures
        force_in(rhs_params(s, pairs), full, i) == separable_force(
            sprk_params(s, pairs),
            translational,
            i,
        ),
{
    small_numbers();
    assert(s.b_field == Vec3::<Fixed>::spec_zeros());
    products_with_the_zero_vector(velocity_in(rhs_params(s, pairs), full, i));
    zero_added_to_a_number(s.e_field.x);
    zero_added_to_a_number(s.e_field.y);
    zero_added_to_a_number(s.e_field.z);
    both_layouts_give_one_force(s, pairs, full, translational, i);
}

/// A quaternion of length one is left as it is when it is made unit.
pub proof fn a_unit_quaternion_stays(q: Quat<Fixed>)
    requires
        q.is_proper(),
        q.spec_norm() == one::<Fixed>(),
    ensures
        q.spec_normalize() == q,
{
    small_numbers();
    rounding_is_the_nearest(ONE * ONE, ONE as nat, ONE as int);
    one_times_a_number(q.w);
    one_times_a_number(q.x);
    one_times_a_number(q.y);
    one_times_a_number(q.z);
}

/// Where orientations have length one, the full state poses each pair exactly
/// as its two bodies stand.
pub proof fn unit_bodies_are_posed_as_they_stand(
    s: SystemView<Fixed>,
    pairs: Seq<(usize, usize)>,
    pair: (usize, usize),
)
    requires
        pair.0 < s.objects.len(),
        pair.1 < s.objects.len(),
        s.objects[pair.0 as int].orientation.is_proper(),
        s.objects[pair.1 as int].orientation.is_proper(),
        s.objects[pair.0 as int].orientation.spec_norm() == one::<Fixed>(),
        s.objects[pair.1 as int].orientation.spec_norm() == one::<Fixed>(),
    ensures
        full_pose(rhs_params(s, pairs), packed(s.objects), pair) == pose_of(s.objects, pair),
{
    a_system_poses_its_own_bodies(s, pairs, pair);
    a_unit_quaternion_stays(s.objects[pair.0 as int].orientation);
    a_unit_quaternion_stays(s.objects[pair.1 as int].orientation);
}

pub proof fn opposite_vectors_have_one_length(d: Vec3<Fixed>)
    requires
        d.is_proper(),
    ensures
        d.opposite().spec_norm_squared() == d.spec_norm_squared(),
        d.opposite().spec_norm() == d.spec_norm(),
{
    assert((-d.x.raw) * (-d.x.raw) == d.x.raw * d.x.raw) by (nonlinear_arith);
    assert((-d.y.raw) * (-d.y.raw) == d.y.raw * d.y.raw) by (nonlinear_arith);
    assert((-d.z.raw) * (-d.z.raw) == d.z.raw * d.z.raw) by (nonlinear_arith);
}

pub proof fn opposite_vectors_scale_alike(d: Vec3<Fixed>, k: Fixed)
    requires
        d.is_proper(),
    ensures
        d.opposite().spec_scale(k) == d.spec_scale(k).opposite(),
{
    products_are_odd(d.x, k);
    products_are_odd(d.y, k);
    products_are_odd(d.z, k);
}

/// Opposite vectors have opposite directions.
pub proof fn opposite_vectors_have_opposite_directions(d: Vec3<Fixed>)
    requires
        d.is_proper(),
    ensures
        direction(d.opposite()) == direction(d).opposite(),
{
    small_numbers();
    opposite_vectors_have_one_length(d);
    opposite_vectors_scale_alike(d, one::<Fixed>().spec_div(d.spec_norm()));
}

/// What a body is called rests on the numbers themselves: it is an anchor where
/// its inverse mass is zero, and spins where some component of its angular
/// momentum and some entry of its inverse inertia are not.
pub proof fn what_a_body_is_called(o: PhysicalObject<Fixed>)
    ensures
        o.spec_is_anchor() <==> o.inverse_mass.raw == 0,
        o.spec_is_spinning() <==> {
            let (l, m) = (o.angular_momentum, o.inverse_inertia);
            &&& l.x.raw != 0 || l.y.raw != 0 || l.z.raw != 0
            &&& m.r0.x.raw != 0 || m.r0.y.raw != 0 || m.r0.z.raw != 0 || m.r1.x.raw != 0
                || m.r1.y.raw != 0 || m.r1.z.raw != 0 || m.r2.x.raw != 0 || m.r2.y.raw != 0
                || m.r2.z.raw != 0
        },
{
    small_numbers();
}

/// The norm error that is reported is that of the worst body: none is worse, and
/// some body has it, or there is no error.
pub proof fn the_worst_norm_error_is_that_of_a_body(y: Seq<Fixed>, n: nat)
    ensures
        forall|i: int|
            0 <= i < n ==> #[trigger] length_defect(y, i) <= worst_norm_error(y, n).raw,
        worst_norm_error(y, n).raw == 0 || exists|i: int|
            0 <= i < n && #[trigger] length_defect(y, i) == worst_norm_error(y, n).raw,
        worst_norm_error(y, n).raw >= 0,
    decreases n,
{
    small_numbers();
    if n > 0 {
        let m = (n - 1) as nat;
        the_worst_norm_error_is_that_of_a_body(y, m);
        let e = length_defect(y, n - 1);
        let q = quat_at(y, 13 * (n - 1) + 6);
        square_roots(
            q.w.spec_mul(q.w).spec_add(q.x.spec_mul(q.x)).spec_add(q.y.spec_mul(q.y)).spec_add(
                q.z.spec_mul(q.z),
            ),
        );
        assert(norm_error(quat_at(y, 13 * (n - 1) + 6)).raw == e);
        if worst_norm_error(y, n).raw != e && worst_norm_error(y, n).raw != 0 {
            let i = choose|i: int|
                0 <= i < m && #[trigger] length_defect(y, i) == worst_norm_error(y, m).raw;
            assert(length_defect(y, i) == worst_norm_error(y, n).raw);
        }
    }
}

/// By how much the length of the quaternion of body `i` differs from one.
pub open spec fn length_defect(y: Seq<Fixed>, i: int) -> int {
    let q = Quat { w: y[13 * i + 6], x: y[13 * i + 7], y: y[13 * i + 8], z: y[13 * i + 9] };
    magnitude(q.spec_norm().raw - ONE) as int
}

/// The largest of some sizes is not negative, no size exceeds it, and unless
/// there are none it is one of them.
pub proof fn the_largest_is_attained(sizes: Seq<Fixed>)
    requires
        forall|k: int| 0 <= k < sizes.len() ==> (#[trigger] sizes[k]).raw >= 0,
    ensures
        largest(sizes).raw >= 0,
        forall|k: int| 0 <= k < sizes.len() ==> (#[trigger] sizes[k]).raw <= largest(sizes).raw,
        sizes.len() == 0 ==> largest(sizes) == zero::<Fixed>(),
        sizes.len() > 0 ==> exists|k: int|
            0 <= k < sizes.len() && #[trigger] sizes[k] == largest(sizes),
    decreases sizes.len(),
{
    small_numbers();
    if sizes.len() > 0 {
        let fewer = sizes.drop_last();
        the_largest_is_attained(fewer);
        let last = sizes[sizes.len() - 1];
        assert forall|k: int| 0 <= k < sizes.len() implies (#[trigger] sizes[k]).raw <= largest(
            sizes,
        ).raw by {
            if k < fewer.len() {
                assert(fewer[k] == sizes[k]);
            }
        }
        if largest(sizes) == last {
        } else {
            let k = choose|k: int| 0 <= k < fewer.len() && #[trigger] fewer[k] == largest(fewer);
            assert(sizes[k] == largest(sizes));
        }
    }
}

/// Drift is an upper bound on the size of every residual, and unless there are
/// no rods one of them attains it: in length and in rate.
pub proof fn drift_is_attained(cs: Seq<DistanceConstraint<Fixed>>, s: SystemView<Fixed>)
    requires
        forall|k: int|
            0 <= k < cs.len() ==> (#[trigger] cs[k]).i < s.objects.len() && cs[k].j
                < s.objects.len(),
    ensures
        ({
            let errors = error_sizes(cs, positions(s.objects));
            let worst = worst_error(cs, s);
            &&& worst.raw >= 0
            &&& forall|k: int| 0 <= k < cs.len() ==> (#[trigger] errors[k]).raw <= worst.raw
            &&& cs.len() > 0 ==> exists|k: int| 0 <= k < cs.len() && #[trigger] errors[k] == worst
        }),
        ({
            let speeds = rate_sizes(cs, positions(s.objects), velocities(s.objects));
            let worst = worst_rate(cs, s);
            &&& worst.raw >= 0
            &&& forall|k: int| 0 <= k < cs.len() ==> (#[trigger] speeds[k]).raw <= worst.raw
            &&& cs.len() > 0 ==> exists|k: int| 0 <= k < cs.len() && #[trigger] speeds[k] == worst
        }),
{
    drift_is_the_largest_residual(cs, s);
    the_largest_is_attained(error_sizes(cs, positions(s.objects)));
    the_largest_is_attained(rate_sizes(cs, positions(s.objects), velocities(s.objects)));
}

/// The block vector with the same vector added to every block.
pub open spec fn shifted(v: Seq<Fixed>, u: Vec3<Fixed>) -> Seq<Fixed> {
    Seq::new(v.len(), |k: int| v[k].spec_add(component(u, k % 3)))
}

/// A velocity that all bodies have in common changes no rate, as long as no sum
/// goes beyond the largest number.
pub proof fn a_common_velocity_changes_no_rate(
    c: DistanceConstraint<Fixed>,
    q: Seq<Fixed>,
    v: Seq<Fixed>,
    u: Vec3<Fixed>,
)
    requires
        c.fits(v.len()),
        forall|k: int|
            0 <= k < v.len() ==> -i64::MAX <= (#[trigger] v[k]).raw + component(u, k % 3).raw
                <= i64::MAX,
    ensures
        length_rate(c, q, shifted(v, u)) == length_rate(c, q, v),
{
    let (a, b) = (3 * c.i as int, 3 * c.j as int);
    assert(a % 3 == 0 && (a + 1) % 3 == 1 && (a + 2) % 3 == 2);
    assert(b % 3 == 0 && (b + 1) % 3 == 1 && (b + 2) % 3 == 2);
    let w = shifted(v, u);
    assert(w[a].raw == v[a].raw + u.x.raw && w[b].raw == v[b].raw + u.x.raw);
    assert(w[a + 1].raw == v[a + 1].raw + u.y.raw && w[b + 1].raw == v[b + 1].raw + u.y.raw);
    assert(w[a + 2].raw == v[a + 2].raw + u.z.raw && w[b + 2].raw == v[b + 2].raw + u.z.raw);
    assert(c.span(w) == c.span(v));
}

/// A step that does not go forward is refused.
pub proof fn a_step_goes_forward(s: SystemView<Fixed>, dt: Fixed)
    requires
        s.time.is_proper(),
        dt.raw <= 0,
        !(s.method is Ida),
    ensures
        run_start(s, s.time.spec_add(dt), 1).launch is Err,
{
}

} // verus!
