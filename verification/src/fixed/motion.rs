//! What moves and turns bodies, in fixed-point numbers: each cause on its own,
//! and all together.

use crate::fixed::algebra::{
    a_product, a_scalar_product, a_vector_product, cross_is_held, dot_is_held, is_about,
};
use crate::fixed::laws::products_with_the_zero_vector;
use crate::fixed::pulls::{
    a_product_of_three, cubed_distance, gravity_is_proper, pull_is_held,
};
use crate::fixed::rods::multiplies;
use crate::fixed::rounding::{
    products_are_odd, products_commute, rounding_is_near, rounding_is_the_nearest, signs_are_kept,
    small_numbers, square_roots, zero_added_to_a_number, zero_times_a_number,
};
use crate::fixed::{magnitude, Fixed, ONE};
use crate::integrate::dynamics::{
    force_in, full_places, gravity_on, pull, rhs_params, separable_force, sprk_params,
    translational_places, velocity_in, RhsParamsView,
};
use crate::linalg::{vec3_at, Vec3};
use crate::scalar::{zero, Scalar};
use crate::system::{component, SystemView};
use vstd::prelude::*;

verus! {

/// The parameters with nothing but the pull of the bodies on each other.
pub open spec fn gravity_alone(p: RhsParamsView<Fixed>) -> RhsParamsView<Fixed> {
    RhsParamsView {
        uniform_gravity: Vec3::spec_zeros(),
        e_field: Vec3::spec_zeros(),
        b_field: Vec3::spec_zeros(),
        ext_force: Seq::new(p.ext_force.len(), |k: int| Vec3::spec_zeros()),
        ..p
    }
}

/// The parameters with nothing but uniform gravity.
pub open spec fn weight_alone(p: RhsParamsView<Fixed>) -> RhsParamsView<Fixed> {
    RhsParamsView {
        g: zero(),
        e_field: Vec3::spec_zeros(),
        b_field: Vec3::spec_zeros(),
        ext_force: Seq::new(p.ext_force.len(), |k: int| Vec3::spec_zeros()),
        ..p
    }
}

/// The parameters with nothing but the electric and the magnetic field.
pub open spec fn fields_alone(p: RhsParamsView<Fixed>) -> RhsParamsView<Fixed> {
    RhsParamsView {
        g: zero(),
        uniform_gravity: Vec3::spec_zeros(),
        ext_force: Seq::new(p.ext_force.len(), |k: int| Vec3::spec_zeros()),
        ..p
    }
}

/// The parameters with nothing but the external forces.
pub open spec fn pushes_alone(p: RhsParamsView<Fixed>) -> RhsParamsView<Fixed> {
    RhsParamsView {
        g: zero(),
        uniform_gravity: Vec3::spec_zeros(),
        e_field: Vec3::spec_zeros(),
        b_field: Vec3::spec_zeros(),
        ..p
    }
}

proof fn nothing_is_pulled_without_gravity(
    g: Fixed,
    softening: Fixed,
    masses: Seq<Fixed>,
    places: Seq<Vec3<Fixed>>,
    i: int,
    upto: int,
)
    requires
        g.raw == 0,
    ensures
        gravity_on(g, softening, masses, places, i, upto) == Vec3::<Fixed>::spec_zeros(),
    decreases upto,
{
    small_numbers();
    if upto > 0 {
        let j = upto - 1;
        nothing_is_pulled_without_gravity(g, softening, masses, places, i, j);
        if j != i {
            let r = places[j].spec_sub(places[i]);
            assert(g == zero::<Fixed>());
            zero_times_a_number(masses[i]);
            zero_times_a_number(masses[j]);
            let cube = cubed_distance(softening, r);
            zero_over_a_number(cube);
            zero_times_a_number(r.x);
            zero_times_a_number(r.y);
            zero_times_a_number(r.z);
        }
    }
}

proof fn zero_over_a_number(a: Fixed)
    ensures
        zero::<Fixed>().spec_div(a) == zero::<Fixed>(),
{
    small_numbers();
    assert(0 * ONE * ONE == 0) by (nonlinear_arith);
    if a.raw > 0 {
        rounding_is_the_nearest(0, a.raw as nat, 0);
    } else if a.raw < 0 {
        rounding_is_the_nearest(0, (-a.raw) as nat, 0);
    }
}

/// Whether no other body pulls: there is none, or there is no gravity.
pub open spec fn nobody_pulls(p: RhsParamsView<Fixed>, i: int) -> bool {
    (p.n == 1 && i == 0) || p.g.raw == 0
}

proof fn nobody_pulls_means_no_pull(p: RhsParamsView<Fixed>, y: Seq<Fixed>, i: int)
    requires
        nobody_pulls(p, i),
    ensures
        gravity_on(p.g, p.softening, p.masses, full_places(y, p.n), i, p.n as int)
            == Vec3::<Fixed>::spec_zeros(),
{
    if p.g.raw == 0 {
        nothing_is_pulled_without_gravity(
            p.g,
            p.softening,
            p.masses,
            full_places(y, p.n),
            i,
            p.n as int,
        );
    } else {
        reveal_with_fuel(gravity_on, 2);
    }
}

proof fn adding_zeros(v: Vec3<Fixed>)
    requires
        v.is_proper(),
    ensures
        v.spec_add(Vec3::spec_zeros()) == v,
        Vec3::<Fixed>::spec_zeros().spec_add(v) == v,
{
    zero_added_to_a_number(v.x);
    zero_added_to_a_number(v.y);
    zero_added_to_a_number(v.z);
}

proof fn a_number_times_zero(v: Vec3<Fixed>, k: Fixed)
    ensures
        v.spec_scale(zero()) == Vec3::<Fixed>::spec_zeros(),
        Vec3::<Fixed>::spec_zeros().spec_scale(k) == Vec3::<Fixed>::spec_zeros(),
{
    zero_times_a_number(v.x);
    zero_times_a_number(v.y);
    zero_times_a_number(v.z);
    zero_times_a_number(k);
}

/// Where nothing but uniform gravity acts on a body, the force on it is its
/// weight: its mass times the uniform gravity, in each component.
pub proof fn weight_is_mass_times_gravity(p: RhsParamsView<Fixed>, y: Seq<Fixed>, i: int)
    requires
        nobody_pulls(p, i),
        p.charges[i].raw == 0,
        p.ext_force[i].spec_is_zero(),
    ensures
        ({
            let f = force_in(p, y, i);
            let (m, g) = (p.masses[i], p.uniform_gravity);
            &&& multiplies(g.x, m) ==> is_about(f.x.raw as int, m.raw * g.x.raw, 1)
            &&& multiplies(g.y, m) ==> is_about(f.y.raw as int, m.raw * g.y.raw, 1)
            &&& multiplies(g.z, m) ==> is_about(f.z.raw as int, m.raw * g.z.raw, 1)
            &&& f.x == m.spec_mul(g.x) && f.y == m.spec_mul(g.y) && f.z == m.spec_mul(g.z)
        }),
{
    the_weight(p, y, i);
    let (m, g) = (p.masses[i], p.uniform_gravity);
    products_commute(g.x, m);
    products_commute(g.y, m);
    products_commute(g.z, m);
    a_product(g.x, m);
    a_product(g.y, m);
    a_product(g.z, m);
    turn_two(g.x.raw as int, m.raw as int);
    turn_two(g.y.raw as int, m.raw as int);
    turn_two(g.z.raw as int, m.raw as int);
}

proof fn the_weight(p: RhsParamsView<Fixed>, y: Seq<Fixed>, i: int)
    requires
        nobody_pulls(p, i),
        p.charges[i].raw == 0,
        p.ext_force[i].spec_is_zero(),
    ensures
        force_in(p, y, i) == p.uniform_gravity.spec_scale(p.masses[i]),
{
    small_numbers();
    nobody_pulls_means_no_pull(p, y, i);
    let (m, g) = (p.masses[i], p.uniform_gravity);
    let nothing = Vec3::<Fixed>::spec_zeros();
    assert(p.ext_force[i] == nothing);
    assert(p.charges[i] == zero::<Fixed>());
    adding_zeros(g.spec_scale(m));
    a_number_times_zero(p.e_field.spec_add(velocity_in(p, y, i).spec_cross(p.b_field)), m);
}

proof fn turn_two(a: int, b: int)
    ensures
        a * b == b * a,
{
    assert(a * b == b * a) by (nonlinear_arith);
}

/// The same of the separable layout: it gives a body the weight that the full
/// layout gives it.
pub proof fn weight_is_the_same_in_both_layouts(
    s: SystemView<Fixed>,
    pairs: Seq<(usize, usize)>,
    full: Seq<Fixed>,
    translational: Seq<Fixed>,
    i: int,
)
    requires
        0 <= i < s.objects.len(),
        s.objects.len() == 1 || s.g_constant.raw == 0,
        s.objects[i].charge.raw == 0,
        s.external_forces[i].spec_is_zero(),
    ensures
        ({
            let f = separable_force(sprk_params(s, pairs), translational, i);
            let (m, g) = (s.objects[i].mass, s.uniform_gravity);
            &&& f == force_in(rhs_params(s, pairs), full, i)
            &&& f.x == m.spec_mul(g.x) && f.y == m.spec_mul(g.y) && f.z == m.spec_mul(g.z)
        }),
{
    small_numbers();
    let p = rhs_params(s, pairs);
    let q = sprk_params(s, pairs);
    weight_is_mass_times_gravity(p, full, i);
    let nothing = Vec3::<Fixed>::spec_zeros();
    assert(q.ext_force[i] == nothing);
    assert(q.charges[i] == zero::<Fixed>());
    let w = q.uniform_gravity.spec_scale(q.masses[i]);
    adding_zeros(w);
    a_number_times_zero(q.e_field, w.x);
    if s.g_constant.raw == 0 {
        nothing_is_pulled_without_gravity(
            q.g,
            q.softening,
            q.masses,
            translational_places(translational, q.n),
            i,
            q.n as int,
        );
    } else {
        reveal_with_fuel(gravity_on, 2);
    }
    products_commute(s.uniform_gravity.x, s.objects[i].mass);
    products_commute(s.uniform_gravity.y, s.objects[i].mass);
    products_commute(s.uniform_gravity.z, s.objects[i].mass);
}

/// Bodies of every mass fall alike: the weight of one, times the mass of the
/// other, is the weight of the other times the mass of the one, up to rounding.
pub proof fn all_bodies_fall_alike(p: RhsParamsView<Fixed>, y: Seq<Fixed>, i: int, j: int, c: int)
    requires
        nobody_pulls(p, i),
        nobody_pulls(p, j),
        p.charges[i].raw == 0,
        p.charges[j].raw == 0,
        p.ext_force[i].spec_is_zero(),
        p.ext_force[j].spec_is_zero(),
        multiplies(component(p.uniform_gravity, c), p.masses[i]),
        multiplies(component(p.uniform_gravity, c), p.masses[j]),
    ensures
        fall_alike(
            component(force_in(p, y, i), c),
            p.masses[i],
            component(force_in(p, y, j), c),
            p.masses[j],
        ),
{
    let g = component(p.uniform_gravity, c);
    one_weight(p, y, i, c);
    one_weight(p, y, j, c);
    two_weights(g.spec_mul(p.masses[i]), p.masses[i], g.spec_mul(p.masses[j]), p.masses[j], g);
}

proof fn one_weight(p: RhsParamsView<Fixed>, y: Seq<Fixed>, i: int, c: int)
    requires
        nobody_pulls(p, i),
        p.charges[i].raw == 0,
        p.ext_force[i].spec_is_zero(),
    ensures
        component(force_in(p, y, i), c) == component(p.uniform_gravity, c).spec_mul(
            p.masses[i],
        ),
{
    the_weight(p, y, i);
}

/// Whether two forces give two masses the same acceleration, up to rounding.
pub open spec fn fall_alike(f: Fixed, a: Fixed, h: Fixed, b: Fixed) -> bool {
    let slack = magnitude(a.raw as int) + magnitude(b.raw as int);
    -slack <= 2 * (f.raw * b.raw - h.raw * a.raw) <= slack
}

proof fn two_weights(f: Fixed, a: Fixed, h: Fixed, b: Fixed, g: Fixed)
    requires
        multiplies(g, a),
        multiplies(g, b),
        f == g.spec_mul(a),
        h == g.spec_mul(b),
    ensures
        fall_alike(f, a, h, b),
{
    a_product(g, a);
    a_product(g, b);
    turn_two(g.raw as int, a.raw as int);
    turn_two(g.raw as int, b.raw as int);
    let (x, y, k) = (a.raw as int, b.raw as int, g.raw as int);
    an_error_times(f.raw as int, x * k, y);
    an_error_times(h.raw as int, y * k, x);
    assert((x * k) * y == (y * k) * x) by (nonlinear_arith);
}

/// What half a fraction of error adds to a product.
proof fn an_error_times(c: int, x: int, k: int)
    requires
        is_about(c, x, 1),
    ensures
        -(4294967296 * magnitude(k)) <= 2 * (4294967296 * (c * k)) - 2 * (x * k) <= 4294967296
            * magnitude(k),
{
    let e = 2 * (c * 4294967296 - x);
    let m = magnitude(k) as int;
    assert(-(4294967296 * m) <= e * k <= 4294967296 * m) by (nonlinear_arith)
        requires
            -4294967296 <= e <= 4294967296,
            m == k || m == -k,
            m >= 0,
    ;
    assert(e * k == 2 * (4294967296 * (c * k)) - 2 * (x * k)) by (nonlinear_arith)
        requires
            e == 2 * (c * 4294967296 - x),
    ;
}

/// Where nothing but an external force acts on a body, the force on it is that
/// force.
pub proof fn an_external_force_pushes(p: RhsParamsView<Fixed>, y: Seq<Fixed>, i: int)
    requires
        nobody_pulls(p, i),
        p.uniform_gravity.spec_is_zero(),
        p.charges[i].raw == 0,
        p.ext_force[i].is_proper(),
    ensures
        force_in(p, y, i) == p.ext_force[i],
{
    small_numbers();
    nobody_pulls_means_no_pull(p, y, i);
    assert(p.uniform_gravity == Vec3::<Fixed>::spec_zeros());
    assert(p.charges[i] == zero::<Fixed>());
    a_number_times_zero(p.uniform_gravity, p.masses[i]);
    a_number_times_zero(
        p.e_field.spec_add(velocity_in(p, y, i).spec_cross(p.b_field)),
        p.masses[i],
    );
    adding_zeros(p.ext_force[i]);
    adding_zeros(Vec3::spec_zeros());
}

/// Where nothing but the fields act on a body, the force on it is its charge
/// times the electric field and the vector product of its velocity and
/// the magnetic field, in each component.
pub proof fn a_charge_feels_the_fields(p: RhsParamsView<Fixed>, y: Seq<Fixed>, i: int)
    requires
        nobody_pulls(p, i),
        p.uniform_gravity.spec_is_zero(),
        p.ext_force[i].spec_is_zero(),
    ensures
        ({
            let f = force_in(p, y, i);
            let v = velocity_in(p, y, i);
            let (e, b, q) = (p.e_field, p.b_field, p.charges[i]);
            let m = v.spec_cross(b);
            &&& f.x == q.spec_mul(e.x.spec_add(m.x))
            &&& f.y == q.spec_mul(e.y.spec_add(m.y))
            &&& f.z == q.spec_mul(e.z.spec_add(m.z))
            &&& cross_is_held(v, b) ==> {
                &&& is_about(m.x.raw as int, v.y.raw * b.z.raw - v.z.raw * b.y.raw, 2)
                &&& is_about(m.y.raw as int, v.z.raw * b.x.raw - v.x.raw * b.z.raw, 2)
                &&& is_about(m.z.raw as int, v.x.raw * b.y.raw - v.y.raw * b.x.raw, 2)
            }
            &&& q.raw == 0 ==> f == Vec3::<Fixed>::spec_zeros()
        }),
{
    small_numbers();
    nobody_pulls_means_no_pull(p, y, i);
    let nothing = Vec3::<Fixed>::spec_zeros();
    assert(p.uniform_gravity == nothing && p.ext_force[i] == nothing);
    a_number_times_zero(p.uniform_gravity, p.masses[i]);
    let v = velocity_in(p, y, i);
    let field = p.e_field.spec_add(v.spec_cross(p.b_field));
    let q = p.charges[i];
    adding_zeros(field.spec_scale(q));
    adding_zeros(nothing);
    products_commute(q, field.x);
    products_commute(q, field.y);
    products_commute(q, field.z);
    zero_times_a_number(field.x);
    zero_times_a_number(field.y);
    zero_times_a_number(field.z);
    if cross_is_held(v, p.b_field) {
        a_vector_product(v, p.b_field);
    }
    if q.raw == 0 {
        assert(q == zero::<Fixed>());
    }
}

/// The causes of motion act together as the sum of what each does alone: the
/// pull of the bodies, uniform gravity, the fields and the external force.
pub proof fn forces_superpose(p: RhsParamsView<Fixed>, y: Seq<Fixed>, i: int)
    requires
        0 <= i < p.ext_force.len(),
        p.ext_force[i].is_proper(),
    ensures
        force_in(p, y, i) == force_in(gravity_alone(p), y, i).spec_add(
            force_in(weight_alone(p), y, i),
        ).spec_add(force_in(fields_alone(p), y, i)).spec_add(
            force_in(pushes_alone(p), y, i),
        ),
{
    the_pull_alone(p, y, i);
    the_weight_alone(p, y, i);
    the_fields_alone(p, y, i);
    the_push_alone(p, y, i);
}

proof fn the_pull_alone(p: RhsParamsView<Fixed>, y: Seq<Fixed>, i: int)
    requires
        0 <= i < p.ext_force.len(),
    ensures
        force_in(gravity_alone(p), y, i) == gravity_on(
            p.g,
            p.softening,
            p.masses,
            full_places(y, p.n),
            i,
            p.n as int,
        ),
{
    small_numbers();
    let a = gravity_alone(p);
    let pulled = gravity_on(p.g, p.softening, p.masses, full_places(y, p.n), i, p.n as int);
    gravity_is_proper(p.g, p.softening, p.masses, full_places(y, p.n), i, p.n as int);
    a_number_times_zero(Vec3::spec_zeros(), p.masses[i]);
    a_number_times_zero(Vec3::spec_zeros(), p.charges[i]);
    products_with_the_zero_vector(velocity_in(a, y, i));
    adding_zeros(pulled);
    adding_zeros(Vec3::spec_zeros());
}

proof fn the_weight_alone(p: RhsParamsView<Fixed>, y: Seq<Fixed>, i: int)
    requires
        0 <= i < p.ext_force.len(),
    ensures
        force_in(weight_alone(p), y, i) == p.uniform_gravity.spec_scale(p.masses[i]),
{
    small_numbers();
    let a = weight_alone(p);
    nobody_pulls_means_no_pull(a, y, i);
    a_number_times_zero(Vec3::spec_zeros(), p.charges[i]);
    products_with_the_zero_vector(velocity_in(a, y, i));
    adding_zeros(p.uniform_gravity.spec_scale(p.masses[i]));
    adding_zeros(Vec3::spec_zeros());
}

proof fn the_fields_alone(p: RhsParamsView<Fixed>, y: Seq<Fixed>, i: int)
    requires
        0 <= i < p.ext_force.len(),
    ensures
        force_in(fields_alone(p), y, i) == p.e_field.spec_add(
            velocity_in(p, y, i).spec_cross(p.b_field),
        ).spec_scale(p.charges[i]),
{
    small_numbers();
    let a = fields_alone(p);
    nobody_pulls_means_no_pull(a, y, i);
    a_number_times_zero(Vec3::spec_zeros(), p.masses[i]);
    adding_zeros(
        p.e_field.spec_add(velocity_in(p, y, i).spec_cross(p.b_field)).spec_scale(p.charges[i]),
    );
    adding_zeros(Vec3::spec_zeros());
}

proof fn the_push_alone(p: RhsParamsView<Fixed>, y: Seq<Fixed>, i: int)
    requires
        0 <= i < p.ext_force.len(),
        p.ext_force[i].is_proper(),
    ensures
        force_in(pushes_alone(p), y, i) == p.ext_force[i],
{
    small_numbers();
    let a = pushes_alone(p);
    nobody_pulls_means_no_pull(a, y, i);
    a_number_times_zero(Vec3::spec_zeros(), p.masses[i]);
    a_number_times_zero(Vec3::spec_zeros(), p.charges[i]);
    products_with_the_zero_vector(velocity_in(a, y, i));
    adding_zeros(p.ext_force[i]);
    adding_zeros(Vec3::spec_zeros());
}

/// The cube of the distance over which two bodies pull each other: the square of
/// the distance, softened, times its root.
pub proof fn the_cube_of_the_distance(softening: Fixed, r: Vec3<Fixed>)
    requires
        dot_is_held(r, r),
        multiplies(softening, softening),
        r.spec_norm_squared().raw + softening.spec_mul(softening).raw < i64::MAX,
    ensures
        ({
            let square = r.spec_norm_squared().raw + softening.spec_mul(softening).raw;
            let exact = r.x.raw * r.x.raw + r.y.raw * r.y.raw + r.z.raw * r.z.raw + softening.raw
                * softening.raw;
            let distance = (Fixed { raw: square as i64 }).spec_sqrt();
            &&& is_about(square, exact, 4)
            &&& square >= 0 ==> distance.raw * distance.raw <= square * ONE < (distance.raw + 1) * (
            distance.raw + 1)
            &&& multiplies(Fixed { raw: square as i64 }, distance) ==> is_about(
                cubed_distance(softening, r).raw as int,
                square * distance.raw,
                1,
            )
        }),
{
    a_scalar_product(r, r);
    a_product(softening, softening);
    let square = r.spec_norm_squared().raw + softening.spec_mul(softening).raw;
    rounding_is_near(r.x.raw * r.x.raw, ONE as nat);
    let d = Fixed { raw: square as i64 };
    squares_are_not_negative(r.x);
    squares_are_not_negative(r.y);
    squares_are_not_negative(r.z);
    squares_are_not_negative(softening);
    assert(d == r.spec_norm_squared().spec_add(softening.spec_mul(softening)));
    square_roots(d);
    a_product(d, d.spec_sqrt());
}

proof fn squares_are_not_negative(a: Fixed)
    ensures
        a.spec_mul(a).raw >= 0,
{
    let x = a.raw * a.raw;
    assert(x >= 0) by (nonlinear_arith)
        requires
            x == a.raw * a.raw,
    ;
}

/// Whether `f` pulls along the way `x` with the strength of `product` over the
/// cube of the distance, up to rounding.
pub open spec fn pulls_along(f: int, x: int, product: int, cube: int) -> bool {
    let slack = cube * 4294967296 + magnitude(x) * cube;
    -slack <= 2 * (4294967296 * (f * cube) - 4294967296 * (x * product)) <= slack
}

/// The pull of one body on another is along the way to it, and is the product of
/// the constant and the masses over the cube of the distance, times the way: it
/// falls with the square of the distance.
pub proof fn a_pull_falls_with_the_square_of_the_distance(
    g: Fixed,
    softening: Fixed,
    m1: Fixed,
    m2: Fixed,
    r: Vec3<Fixed>,
)
    requires
        pull_is_held(g, softening, m1, m2, r),
    ensures
        ({
            let f = pull(g, softening, m1, m2, r);
            let cube = cubed_distance(softening, r).raw as int;
            let product = g.spec_mul(m1).spec_mul(m2).raw as int;
            let exact = (g.raw * m1.raw) * m2.raw;
            let slack = 4294967296 * magnitude(m2.raw as int) + 18446744073709551616;
            &&& -slack <= 2 * (18446744073709551616 * product - exact) <= slack
            &&& pulls_along(f.x.raw as int, r.x.raw as int, product, cube)
            &&& pulls_along(f.y.raw as int, r.y.raw as int, product, cube)
            &&& pulls_along(f.z.raw as int, r.z.raw as int, product, cube)
        }),
{
    let o = ONE as nat;
    let cube = cubed_distance(softening, r);
    let a = g.spec_mul(m1);
    let product = a.spec_mul(m2);
    let k = product.spec_div(cube);
    rounding_is_near(g.raw * m1.raw, o);
    rounding_is_near(a.raw * m2.raw, o);
    a_product_of_three(
        g.raw as int,
        m1.raw as int,
        m2.raw as int,
        a.raw as int,
        product.raw as int,
    );
    rounding_is_near(product.raw * ONE, cube.raw as nat);
    rounding_is_near(r.x.raw * k.raw, o);
    rounding_is_near(r.y.raw * k.raw, o);
    rounding_is_near(r.z.raw * k.raw, o);
    let f = pull(g, softening, m1, m2, r);
    let (p, c, s) = (product.raw as int, cube.raw as int, k.raw as int);
    a_component_pulls(f.x.raw as int, r.x.raw as int, p, c, s);
    a_component_pulls(f.y.raw as int, r.y.raw as int, p, c, s);
    a_component_pulls(f.z.raw as int, r.z.raw as int, p, c, s);
}

proof fn a_component_pulls(f: int, x: int, p: int, c: int, k: int)
    requires
        c > 0,
        -c <= 2 * (k * c - p * 4294967296) <= c,
        -4294967296 <= 2 * (f * 4294967296 - x * k) <= 4294967296,
    ensures
        pulls_along(f, x, p, c),
{
    let e = 2 * (f * 4294967296 - x * k);
    let h = 2 * (k * c - p * 4294967296);
    let m = magnitude(x) as int;
    assert(-(c * 4294967296) <= e * c <= c * 4294967296) by (nonlinear_arith)
        requires
            -4294967296 <= e <= 4294967296,
            c > 0,
    ;
    assert(-(m * c) <= x * h <= m * c) by (nonlinear_arith)
        requires
            -c <= h <= c,
            m == x || m == -x,
            m >= 0,
    ;
    let (xk, kc) = (x * k, k * c);
    assert(e * c == 2 * (4294967296 * (f * c)) - 2 * (xk * c)) by (nonlinear_arith)
        requires
            e == 2 * (f * 4294967296 - xk),
    ;
    assert(x * h == 2 * (x * kc) - 2 * (4294967296 * (x * p))) by (nonlinear_arith)
        requires
            h == 2 * (kc - p * 4294967296),
    ;
    assert((x * k) * c == x * (k * c)) by (nonlinear_arith);
}

/// Bodies attract each other: no component of a pull points away from the body
/// that pulls.
pub proof fn bodies_attract(g: Fixed, softening: Fixed, m1: Fixed, m2: Fixed, r: Vec3<Fixed>)
    requires
        g.raw >= 0,
        m1.raw >= 0,
        m2.raw >= 0,
        r.is_proper(),
    ensures
        ({
            let f = pull(g, softening, m1, m2, r);
            &&& r.x.raw >= 0 ==> f.x.raw >= 0
            &&& r.x.raw <= 0 ==> f.x.raw <= 0
            &&& r.y.raw >= 0 ==> f.y.raw >= 0
            &&& r.y.raw <= 0 ==> f.y.raw <= 0
            &&& r.z.raw >= 0 ==> f.z.raw >= 0
            &&& r.z.raw <= 0 ==> f.z.raw <= 0
        }),
{
    let cube = cubed_distance(softening, r);
    cubes_are_not_negative(softening, r);
    signs_are_kept(g, m1);
    signs_are_kept(g.spec_mul(m1), m2);
    let product = g.spec_mul(m1).spec_mul(m2);
    quotients_are_not_negative(product, cube);
    let k = product.spec_div(cube);
    signs_follow(r.x, k);
    signs_follow(r.y, k);
    signs_follow(r.z, k);
}

proof fn cubes_are_not_negative(softening: Fixed, r: Vec3<Fixed>)
    ensures
        cubed_distance(softening, r).raw >= 0,
{
    squares_are_not_negative(r.x);
    squares_are_not_negative(r.y);
    squares_are_not_negative(r.z);
    squares_are_not_negative(softening);
    let dist_sq = r.spec_norm_squared().spec_add(softening.spec_mul(softening));
    square_roots(dist_sq);
    signs_are_kept(dist_sq, dist_sq.spec_sqrt());
}

proof fn quotients_are_not_negative(a: Fixed, b: Fixed)
    requires
        a.raw >= 0,
        b.raw >= 0,
    ensures
        a.spec_div(b).raw >= 0,
{
    assert(a.raw * ONE * ONE >= 0) by (nonlinear_arith)
        requires
            a.raw >= 0,
            ONE == 4294967296,
    ;
}

proof fn signs_follow(a: Fixed, k: Fixed)
    requires
        a.is_proper(),
        k.raw >= 0,
    ensures
        a.raw >= 0 ==> a.spec_mul(k).raw >= 0,
        a.raw <= 0 ==> a.spec_mul(k).raw <= 0,
{
    if a.raw >= 0 {
        signs_are_kept(a, k);
    }
    if a.raw <= 0 {
        signs_are_kept(a.spec_neg(), k);
        products_are_odd(a, k);
    }
}

/// Of two bodies that only pull each other, each is pulled towards the other by
/// its pull.
pub proof fn two_bodies_pull_each_other(p: RhsParamsView<Fixed>, y: Seq<Fixed>)
    requires
        p.n == 2,
        p.ext_force.len() >= 2,
    ensures
        force_in(gravity_alone(p), y, 0) == pull(
            p.g,
            p.softening,
            p.masses[0],
            p.masses[1],
            vec3_at(y, 13).spec_sub(vec3_at(y, 0)),
        ),
        force_in(gravity_alone(p), y, 1) == pull(
            p.g,
            p.softening,
            p.masses[1],
            p.masses[0],
            vec3_at(y, 0).spec_sub(vec3_at(y, 13)),
        ),
{
    the_pull_alone(p, y, 0);
    the_pull_alone(p, y, 1);
    small_numbers();
    reveal_with_fuel(gravity_on, 3);
    let places = full_places(y, p.n);
    assert(places[0] == vec3_at(y, 0) && places[1] == vec3_at(y, 13));
    adding_zeros(pull(p.g, p.softening, p.masses[0], p.masses[1], places[1].spec_sub(places[0])));
    adding_zeros(pull(p.g, p.softening, p.masses[1], p.masses[0], places[0].spec_sub(places[1])));
}

} // verus!
