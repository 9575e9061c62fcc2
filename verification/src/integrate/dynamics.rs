//! The right-hand sides and root functions that the solvers call.
//!
//! The full state holds thirteen components per body, and its equations of
//! motion are
//!
//! ```text
//! dq/dt = p / m
//! dp/dt = sum over j of G m_i m_j D/(|D|^2 + e^2)^(3/2) + m g + q E + q v x B + F
//! do/dt = (0, w) o / 2     with  w = (R J R^T) L,  J the inverse inertia
//! dL/dt = T + (R M R^T) B
//! ```
//!
//! The translational state holds all positions, then all momenta, and drops
//! what depends on velocity or orientation.

use crate::linalg::{
    quat_at, read_quat, read_vec3, vec3_at, write_quat, write_vec3, Mat3, Quat, Vec3,
};
use crate::scalar::{zero, Scalar};
use crate::system::{
    a_packed_state_holds_each_body, packed, packed_translation, Boundary, PhysicalObject,
    PhysicalObjectSystem, SystemView, VARS_PER_OBJECT,
};
use vstd::prelude::*;

verus! {

/// What the full right-hand side and its root function read: a copy of the
/// system's parameters, which a solver callback can own.
#[derive(Clone, Debug)]
pub struct RhsParams<S> {
    pub n: usize,
    pub g: S,
    pub softening: S,
    pub uniform_gravity: Vec3<S>,
    pub e_field: Vec3<S>,
    pub b_field: Vec3<S>,
    pub masses: Vec<S>,
    pub inverse_masses: Vec<S>,
    pub charges: Vec<S>,
    pub inverse_inertia: Vec<Mat3<S>>,
    pub magnetic: Vec<Mat3<S>>,
    pub ext_force: Vec<Vec3<S>>,
    pub ext_torque: Vec<Vec3<S>>,
    /// The pairs that can collide, in the order of the root function; empty
    /// when rootfinding is not armed.
    pub pairs: Vec<(usize, usize)>,
    pub boundaries: Vec<Boundary<S>>,
}

/// The parameters of the full right-hand side, as mathematical values.
#[verifier::ext_equal]
pub struct RhsParamsView<S> {
    pub n: nat,
    pub g: S,
    pub softening: S,
    pub uniform_gravity: Vec3<S>,
    pub e_field: Vec3<S>,
    pub b_field: Vec3<S>,
    pub masses: Seq<S>,
    pub inverse_masses: Seq<S>,
    pub charges: Seq<S>,
    pub inverse_inertia: Seq<Mat3<S>>,
    pub magnetic: Seq<Mat3<S>>,
    pub ext_force: Seq<Vec3<S>>,
    pub ext_torque: Seq<Vec3<S>>,
    pub pairs: Seq<(usize, usize)>,
    pub boundaries: Seq<Boundary<S>>,
}

impl<S: Scalar> View for RhsParams<S> {
    type V = RhsParamsView<S>;

    open spec fn view(&self) -> RhsParamsView<S> {
        RhsParamsView {
            n: self.n as nat,
            g: self.g,
            softening: self.softening,
            uniform_gravity: self.uniform_gravity,
            e_field: self.e_field,
            b_field: self.b_field,
            masses: self.masses@,
            inverse_masses: self.inverse_masses@,
            charges: self.charges@,
            inverse_inertia: self.inverse_inertia@,
            magnetic: self.magnetic@,
            ext_force: self.ext_force@,
            ext_torque: self.ext_torque@,
            pairs: self.pairs@,
            boundaries: self.boundaries@,
        }
    }
}

/// The parameters of a system's full right-hand side.
pub open spec fn rhs_params<S: Scalar>(
    s: SystemView<S>,
    pairs: Seq<(usize, usize)>,
) -> RhsParamsView<S> {
    RhsParamsView {
        n: s.objects.len(),
        g: s.g_constant,
        softening: s.softening,
        uniform_gravity: s.uniform_gravity,
        e_field: s.e_field,
        b_field: s.b_field,
        masses: s.objects.map_values(|o: PhysicalObject<S>| o.mass),
        inverse_masses: s.objects.map_values(|o: PhysicalObject<S>| o.inverse_mass),
        charges: s.objects.map_values(|o: PhysicalObject<S>| o.charge),
        inverse_inertia: s.objects.map_values(|o: PhysicalObject<S>| o.inverse_inertia),
        magnetic: s.objects.map_values(|o: PhysicalObject<S>| o.magnetic_moment),
        ext_force: s.external_forces,
        ext_torque: s.external_torques,
        pairs,
        boundaries: s.objects.map_values(|o: PhysicalObject<S>| o.boundary),
    }
}

impl<S: Scalar> RhsParamsView<S> {
    /// Every body has its parameters, and every pair names two bodies.
    pub open spec fn wf(self) -> bool {
        &&& self.masses.len() == self.n
        &&& self.inverse_masses.len() == self.n
        &&& self.charges.len() == self.n
        &&& self.inverse_inertia.len() == self.n
        &&& self.magnetic.len() == self.n
        &&& self.ext_force.len() >= self.n
        &&& self.ext_torque.len() >= self.n
        &&& self.boundaries.len() == self.n
        &&& pairs_within(self.pairs, self.n)
    }
}

/// Whether every pair names two of `n` bodies.
pub open spec fn pairs_within(pairs: Seq<(usize, usize)>, n: nat) -> bool {
    forall|k: int| 0 <= k < pairs.len() ==> (#[trigger] pairs[k]).0 < n && pairs[k].1 < n
}

/// A copy of a vector.
pub(crate) fn copied<T: Copy>(v: &Vec<T>) -> (r: Vec<T>)
    ensures
        r@ == v@,
{
    let mut r: Vec<T> = Vec::new();
    let mut k: usize = 0;
    while k < v.len()
        invariant
            k <= v@.len(),
            r@ =~= v@.take(k as int),
        decreases v@.len() - k,
    {
        r.push(v[k]);
        k += 1;
    }
    r
}

impl<S: Scalar> RhsParams<S> {
    /// The parameters of a system, with no pairs armed.
    pub fn from_system(s: &PhysicalObjectSystem<S>) -> (r: Self)
        ensures
            r@ == rhs_params(s@, Seq::empty()),
    {
        let mut masses: Vec<S> = Vec::new();
        let mut inverse_masses: Vec<S> = Vec::new();
        let mut charges: Vec<S> = Vec::new();
        let mut inverse_inertia: Vec<Mat3<S>> = Vec::new();
        let mut magnetic: Vec<Mat3<S>> = Vec::new();
        let mut boundaries: Vec<Boundary<S>> = Vec::new();
        let n = s.objects.len();
        let mut i: usize = 0;
        while i < n
            invariant
                i <= n == s.objects@.len(),
                masses@.len() == i,
                inverse_masses@.len() == i,
                charges@.len() == i,
                inverse_inertia@.len() == i,
                magnetic@.len() == i,
                boundaries@.len() == i,
                forall|k: int|
                    #![trigger s.objects@[k]]
                    0 <= k < i ==> {
                        &&& masses@[k] == s.objects@[k].mass
                        &&& inverse_masses@[k] == s.objects@[k].inverse_mass
                        &&& charges@[k] == s.objects@[k].charge
                        &&& inverse_inertia@[k] == s.objects@[k].inverse_inertia
                        &&& magnetic@[k] == s.objects@[k].magnetic_moment
                        &&& boundaries@[k] == s.objects@[k].boundary
                    },
            decreases n - i,
        {
            let o = s.objects[i];
            masses.push(o.mass);
            inverse_masses.push(o.inverse_mass);
            charges.push(o.charge);
            inverse_inertia.push(o.inverse_inertia);
            magnetic.push(o.magnetic_moment);
            boundaries.push(o.boundary);
            i += 1;
        }
        RhsParams {
            n,
            g: s.g_constant,
            softening: s.softening,
            uniform_gravity: s.uniform_gravity,
            e_field: s.e_field,
            b_field: s.b_field,
            masses,
            inverse_masses,
            charges,
            inverse_inertia,
            magnetic,
            ext_force: copied(&s.external_forces),
            ext_torque: copied(&s.external_torques),
            pairs: Vec::new(),
            boundaries,
        }
    }
}

/// The softened pull of a body of mass `m2` on one of mass `m1`, where `r` is
/// the vector from the pulled body to the pulling one.
pub open spec fn pull<S: Scalar>(g: S, softening: S, m1: S, m2: S, r: Vec3<S>) -> Vec3<S> {
    let dist_sq = r.spec_norm_squared().spec_add(softening.spec_mul(softening));
    let dist = dist_sq.spec_sqrt();
    r.spec_scale(g.spec_mul(m1).spec_mul(m2).spec_div(dist_sq.spec_mul(dist)))
}

/// The pull on body `i` of those of the first `upto` bodies that are not `i`
/// itself, added up in order.
pub open spec fn gravity_on<S: Scalar>(
    g: S,
    softening: S,
    masses: Seq<S>,
    places: Seq<Vec3<S>>,
    i: int,
    upto: int,
) -> Vec3<S>
    decreases upto,
{
    if upto <= 0 {
        Vec3::spec_zeros()
    } else {
        let j = upto - 1;
        let sum = gravity_on(g, softening, masses, places, i, j);
        if j == i {
            sum
        } else {
            sum.spec_add(
                pull(g, softening, masses[i], masses[j], places[j].spec_sub(places[i])),
            )
        }
    }
}

fn pull_between<S: Scalar>(g: S, softening: S, m1: S, m2: S, r: Vec3<S>) -> (f: Vec3<S>)
    ensures
        f == pull(g, softening, m1, m2, r),
{
    let dist_sq = r.norm_squared().add(softening.mul(softening));
    let dist = dist_sq.sqrt();
    r.scale(g.mul(m1).mul(m2).div(dist_sq.mul(dist)))
}

/// The positions in a full state vector of `n` bodies.
pub open spec fn full_places<S>(y: Seq<S>, n: nat) -> Seq<Vec3<S>> {
    Seq::new(n, |j: int| vec3_at(y, 13 * j))
}

/// The positions in a translational state vector of `n` bodies.
pub open spec fn translational_places<S>(y: Seq<S>, n: nat) -> Seq<Vec3<S>> {
    Seq::new(n, |j: int| vec3_at(y, 3 * j))
}

/// The rates of change of one body.
pub struct Rates<S> {
    pub position: Vec3<S>,
    pub momentum: Vec3<S>,
    pub orientation: Quat<S>,
    pub angular_momentum: Vec3<S>,
}

/// The velocity of body `i` in the full state `y`.
pub open spec fn velocity_in<S: Scalar>(p: RhsParamsView<S>, y: Seq<S>, i: int) -> Vec3<S> {
    vec3_at(y, 13 * i + 3).spec_scale(p.inverse_masses[i])
}

/// The force on body `i` in the full state `y`: gravity of the other bodies,
/// uniform gravity, the Lorentz force, the external force.
pub open spec fn force_in<S: Scalar>(p: RhsParamsView<S>, y: Seq<S>, i: int) -> Vec3<S> {
    gravity_on(p.g, p.softening, p.masses, full_places(y, p.n), i, p.n as int).spec_add(
        p.uniform_gravity.spec_scale(p.masses[i]),
    ).spec_add(
        p.e_field.spec_add(velocity_in(p, y, i).spec_cross(p.b_field)).spec_scale(p.charges[i]),
    ).spec_add(p.ext_force[i])
}

/// The orientation of body `i` in the full state `y`, as a rotation.
pub open spec fn rotation_in<S: Scalar>(y: Seq<S>, i: int) -> Mat3<S> {
    quat_at(y, 13 * i + 6).spec_normalize().spec_to_rotation_matrix()
}

/// A tensor fixed in a body, seen from space when the body is turned by `r`.
pub open spec fn turned<S: Scalar>(r: Mat3<S>, tensor: Mat3<S>) -> Mat3<S> {
    r.spec_mul(tensor).spec_mul(r.spec_transpose())
}

/// The equations of motion of body `i` in the full state `y`.
pub open spec fn rates<S: Scalar>(p: RhsParamsView<S>, y: Seq<S>, i: int) -> Rates<S> {
    let r = rotation_in(y, i);
    let omega = turned(r, p.inverse_inertia[i]).spec_apply(vec3_at(y, 13 * i + 10));
    Rates {
        position: velocity_in(p, y, i),
        momentum: force_in(p, y, i),
        orientation: Quat::spec_pure(omega).spec_mul(quat_at(y, 13 * i + 6)).spec_scale(
            S::of_decimal(5, -1i32),
        ),
        angular_momentum: p.ext_torque[i].spec_add(
            turned(r, p.magnetic[i]).spec_apply(p.b_field),
        ),
    }
}

/// Whether the block of a full vector at `at` holds the rates `r`.
pub open spec fn holds_rates<S>(d: Seq<S>, at: int, r: Rates<S>) -> bool {
    &&& vec3_at(d, at) == r.position
    &&& vec3_at(d, at + 3) == r.momentum
    &&& quat_at(d, at + 6) == r.orientation
    &&& vec3_at(d, at + 10) == r.angular_momentum
}

/// Writes the rates of the full state `y` into `out`.
#[verifier::spinoff_prover]
#[verifier::rlimit(60)]
pub fn rhs_full<S: Scalar>(params: &RhsParams<S>, y: &[S], out: &mut [S])
    requires
        params@.wf(),
        13 * params.n <= y@.len(),
        13 * params.n <= old(out)@.len(),
    ensures
        final(out)@.len() == old(out)@.len(),
        forall|i: int|
            0 <= i < params.n ==> holds_rates(
                final(out)@,
                13 * i,
                #[trigger] rates(params@, y@, i),
            ),
        forall|k: int|
            13 * params.n <= k < old(out)@.len() ==> #[trigger] final(out)@[k] == old(out)@[k],
{
    let n = params.n;
    let len = y.len();
    let mut i: usize = 0;
    while i < n
        invariant
            i <= n == params.n,
            params@.wf(),
            len == y@.len(),
            13 * n <= y@.len(),
            13 * n <= out@.len(),
            out@.len() == old(out)@.len(),
            forall|l: int|
                0 <= l < i ==> holds_rates(out@, 13 * l, #[trigger] rates(params@, y@, l)),
            forall|k: int| 13 * n <= k < out@.len() ==> #[trigger] out@[k] == old(out)@[k],
        decreases n - i,
    {
        let b = VARS_PER_OBJECT * i;
        let pos = read_vec3(y, b);
        let v = read_vec3(y, b + 3).scale(params.inverse_masses[i]);
        let q = read_quat(y, b + 6);
        let ang = read_vec3(y, b + 10);
        let mut force = Vec3::zeros();
        let ghost places = full_places(y@, params@.n);
        let mut j: usize = 0;
        while j < n
            invariant
                j <= n == params.n,
                i < n,
                params@.wf(),
                len == y@.len(),
                13 * n <= y@.len(),
                places == full_places(y@, params@.n),
                pos == vec3_at(y@, 13 * i),
                force == gravity_on(
                    params.g,
                    params.softening,
                    params.masses@,
                    places,
                    i as int,
                    j as int,
                ),
            decreases n - j,
        {
            if i != j {
                let r_vec = read_vec3(y, VARS_PER_OBJECT * j).sub(pos);
                force = force.add(
                    pull_between(
                        params.g,
                        params.softening,
                        params.masses[i],
                        params.masses[j],
                        r_vec,
                    ),
                );
            }
            j += 1;
        }
        force = force.add(params.uniform_gravity.scale(params.masses[i]));
        force = force.add(params.e_field.add(v.cross(params.b_field)).scale(params.charges[i]));
        force = force.add(params.ext_force[i]);
        let r = q.normalize().to_rotation_matrix();
        let omega = r.mul(params.inverse_inertia[i]).mul(r.transpose()).apply(ang);
        let qdot = Quat::pure(omega).mul(q).scale(S::decimal(5, -1));
        let torque = params.ext_torque[i].add(
            r.mul(params.magnetic[i]).mul(r.transpose()).apply(params.b_field),
        );
        let ghost before = out@;
        write_vec3(out, b, v);
        write_vec3(out, b + 3, force);
        write_quat(out, b + 6, qdot);
        write_vec3(out, b + 10, torque);
        proof {
            assert(holds_rates(out@, 13 * i, rates(params@, y@, i as int)));
            assert forall|l: int| 0 <= l < i implies holds_rates(
                out@,
                13 * l,
                #[trigger] rates(params@, y@, l),
            ) by {
                assert(holds_rates(before, 13 * l, rates(params@, y@, l)));
            }
        }
        i += 1;
    }
}

/// What the signed separation of two bodies is computed from: which bodies they
/// are, so that whatever belongs to their shapes can be looked up, and where
/// they are.
#[derive(Clone, Copy, Debug)]
pub struct PairPose<S> {
    pub i: usize,
    pub j: usize,
    pub boundary_i: Boundary<S>,
    pub position_i: Vec3<S>,
    pub orientation_i: Quat<S>,
    pub boundary_j: Boundary<S>,
    pub position_j: Vec3<S>,
    pub orientation_j: Quat<S>,
}

/// The poses of a pair in the full state `y`, orientations made unit.
pub open spec fn full_pose<S: Scalar>(
    p: RhsParamsView<S>,
    y: Seq<S>,
    pair: (usize, usize),
) -> PairPose<S> {
    let (i, j) = pair;
    PairPose {
        i,
        j,
        boundary_i: p.boundaries[i as int],
        position_i: vec3_at(y, 13 * i),
        orientation_i: quat_at(y, 13 * i + 6).spec_normalize(),
        boundary_j: p.boundaries[j as int],
        position_j: vec3_at(y, 13 * j),
        orientation_j: quat_at(y, 13 * j + 6).spec_normalize(),
    }
}

/// The root function of the full state: writes the signed separation of every
/// armed pair, which `separation` computes from the poses that `y` gives them.
/// A downward zero crossing is a contact.
pub fn g_contacts<S: Scalar, F: Fn(PairPose<S>) -> S>(
    params: &RhsParams<S>,
    y: &[S],
    separation: F,
    gout: &mut [S],
)
    requires
        params@.wf(),
        13 * params.n <= y@.len(),
        params.pairs@.len() <= old(gout)@.len(),
        forall|pose: PairPose<S>| call_requires(separation, (pose,)),
    ensures
        final(gout)@.len() == old(gout)@.len(),
        forall|k: int|
            0 <= k < params.pairs@.len() ==> call_ensures(
                separation,
                (full_pose(params@, y@, params.pairs@[k]),),
                #[trigger] final(gout)@[k],
            ),
        forall|k: int|
            params.pairs@.len() <= k < old(gout)@.len() ==> #[trigger] final(gout)@[k] == old(
                gout,
            )@[k],
{
    let len = y.len();
    let mut k: usize = 0;
    while k < params.pairs.len()
        invariant
            k <= params.pairs@.len() <= gout@.len(),
            params@.wf(),
            len == y@.len(),
            13 * params.n <= y@.len(),
            gout@.len() == old(gout)@.len(),
            forall|pose: PairPose<S>| call_requires(separation, (pose,)),
            forall|l: int|
                0 <= l < k ==> call_ensures(
                    separation,
                    (full_pose(params@, y@, params.pairs@[l]),),
                    #[trigger] gout@[l],
                ),
            forall|l: int| k <= l < gout@.len() ==> #[trigger] gout@[l] == old(gout)@[l],
        decreases params.pairs@.len() - k,
    {
        let (i, j) = params.pairs[k];
        assert(params@.pairs[k as int].0 < params.n);
        let bi = VARS_PER_OBJECT * i;
        let bj = VARS_PER_OBJECT * j;
        let pose = PairPose {
            i,
            j,
            boundary_i: params.boundaries[i],
            position_i: read_vec3(y, bi),
            orientation_i: read_quat(y, bi + 6).normalize(),
            boundary_j: params.boundaries[j],
            position_j: read_vec3(y, bj),
            orientation_j: read_quat(y, bj + 6).normalize(),
        };
        gout[k] = separation(pose);
        k += 1;
    }
}

/// What the separable right-hand sides and their root function read.
#[derive(Clone, Debug)]
pub struct SprkParams<S> {
    pub n: usize,
    pub g: S,
    pub softening: S,
    pub uniform_gravity: Vec3<S>,
    pub e_field: Vec3<S>,
    pub masses: Vec<S>,
    pub inverse_masses: Vec<S>,
    pub charges: Vec<S>,
    pub ext_force: Vec<Vec3<S>>,
    pub pairs: Vec<(usize, usize)>,
    pub boundaries: Vec<Boundary<S>>,
    /// The bodies of a separable run cannot spin, so their orientations are
    /// constant.
    pub orientations: Vec<Quat<S>>,
}

/// The parameters of the separable right-hand sides, as mathematical values.
#[verifier::ext_equal]
pub struct SprkParamsView<S> {
    pub n: nat,
    pub g: S,
    pub softening: S,
    pub uniform_gravity: Vec3<S>,
    pub e_field: Vec3<S>,
    pub masses: Seq<S>,
    pub inverse_masses: Seq<S>,
    pub charges: Seq<S>,
    pub ext_force: Seq<Vec3<S>>,
    pub pairs: Seq<(usize, usize)>,
    pub boundaries: Seq<Boundary<S>>,
    pub orientations: Seq<Quat<S>>,
}

impl<S: Scalar> View for SprkParams<S> {
    type V = SprkParamsView<S>;

    open spec fn view(&self) -> SprkParamsView<S> {
        SprkParamsView {
            n: self.n as nat,
            g: self.g,
            softening: self.softening,
            uniform_gravity: self.uniform_gravity,
            e_field: self.e_field,
            masses: self.masses@,
            inverse_masses: self.inverse_masses@,
            charges: self.charges@,
            ext_force: self.ext_force@,
            pairs: self.pairs@,
            boundaries: self.boundaries@,
            orientations: self.orientations@,
        }
    }
}

/// The parameters of a system's separable right-hand sides.
pub open spec fn sprk_params<S: Scalar>(
    s: SystemView<S>,
    pairs: Seq<(usize, usize)>,
) -> SprkParamsView<S> {
    SprkParamsView {
        n: s.objects.len(),
        g: s.g_constant,
        softening: s.softening,
        uniform_gravity: s.uniform_gravity,
        e_field: s.e_field,
        masses: s.objects.map_values(|o: PhysicalObject<S>| o.mass),
        inverse_masses: s.objects.map_values(|o: PhysicalObject<S>| o.inverse_mass),
        charges: s.objects.map_values(|o: PhysicalObject<S>| o.charge),
        ext_force: s.external_forces,
        pairs,
        boundaries: s.objects.map_values(|o: PhysicalObject<S>| o.boundary),
        orientations: s.objects.map_values(|o: PhysicalObject<S>| o.orientation),
    }
}

impl<S: Scalar> SprkParamsView<S> {
    /// Every body has its parameters, and every pair names two bodies.
    pub open spec fn wf(self) -> bool {
        &&& self.masses.len() == self.n
        &&& self.inverse_masses.len() == self.n
        &&& self.charges.len() == self.n
        &&& self.ext_force.len() >= self.n
        &&& self.boundaries.len() == self.n
        &&& self.orientations.len() == self.n
        &&& pairs_within(self.pairs, self.n)
    }
}

impl<S: Scalar> SprkParams<S> {
    /// The parameters of a system, with no pairs armed.
    pub fn from_system(s: &PhysicalObjectSystem<S>) -> (r: Self)
        ensures
            r@ == sprk_params(s@, Seq::empty()),
    {
        let mut masses: Vec<S> = Vec::new();
        let mut inverse_masses: Vec<S> = Vec::new();
        let mut charges: Vec<S> = Vec::new();
        let mut boundaries: Vec<Boundary<S>> = Vec::new();
        let mut orientations: Vec<Quat<S>> = Vec::new();
        let n = s.objects.len();
        let mut i: usize = 0;
        while i < n
            invariant
                i <= n == s.objects@.len(),
                masses@.len() == i,
                inverse_masses@.len() == i,
                charges@.len() == i,
                boundaries@.len() == i,
                orientations@.len() == i,
                forall|k: int|
                    #![trigger s.objects@[k]]
                    0 <= k < i ==> {
                        &&& masses@[k] == s.objects@[k].mass
                        &&& inverse_masses@[k] == s.objects@[k].inverse_mass
                        &&& charges@[k] == s.objects@[k].charge
                        &&& boundaries@[k] == s.objects@[k].boundary
                        &&& orientations@[k] == s.objects@[k].orientation
                    },
            decreases n - i,
        {
            let o = s.objects[i];
            masses.push(o.mass);
            inverse_masses.push(o.inverse_mass);
            charges.push(o.charge);
            boundaries.push(o.boundary);
            orientations.push(o.orientation);
            i += 1;
        }
        SprkParams {
            n,
            g: s.g_constant,
            softening: s.softening,
            uniform_gravity: s.uniform_gravity,
            e_field: s.e_field,
            masses,
            inverse_masses,
            charges,
            ext_force: copied(&s.external_forces),
            pairs: Vec::new(),
            boundaries,
            orientations,
        }
    }
}

/// The force on body `i` in the translational state `y`: gravity of the other
/// bodies, uniform gravity, the electric force, the external force.
pub open spec fn separable_force<S: Scalar>(p: SprkParamsView<S>, y: Seq<S>, i: int) -> Vec3<S> {
    gravity_on(p.g, p.softening, p.masses, translational_places(y, p.n), i, p.n as int).spec_add(
        p.uniform_gravity.spec_scale(p.masses[i]),
    ).spec_add(p.e_field.spec_scale(p.charges[i])).spec_add(p.ext_force[i])
}

/// Writes the forces into the momentum half of `out`.
pub fn sprk_force<S: Scalar>(params: &SprkParams<S>, y: &[S], out: &mut [S])
    requires
        params@.wf(),
        3 * params.n <= y@.len(),
        6 * params.n <= old(out)@.len(),
    ensures
        final(out)@.len() == old(out)@.len(),
        forall|i: int|
            0 <= i < params.n ==> vec3_at(final(out)@, 3 * (params.n + i))
                == #[trigger] separable_force(params@, y@, i),
        forall|k: int|
            0 <= k < old(out)@.len() && !(3 * params.n <= k < 6 * params.n)
                ==> #[trigger] final(out)@[k] == old(out)@[k],
{
    let n = params.n;
    let len = y.len();
    let out_len = out.len();
    let mut i: usize = 0;
    while i < n
        invariant
            i <= n == params.n,
            params@.wf(),
            len == y@.len(),
            3 * n <= y@.len(),
            6 * n <= out@.len(),
            out_len == out@.len() == old(out)@.len(),
            forall|l: int|
                0 <= l < i ==> vec3_at(out@, 3 * (n + l)) == #[trigger] separable_force(
                    params@,
                    y@,
                    l,
                ),
            forall|k: int|
                0 <= k < out@.len() && !(3 * n <= k < 6 * n) ==> #[trigger] out@[k] == old(out)@[k],
        decreases n - i,
    {
        let pos = read_vec3(y, 3 * i);
        let mut force = Vec3::zeros();
        let ghost places = translational_places(y@, params@.n);
        let mut j: usize = 0;
        while j < n
            invariant
                j <= n == params.n,
                i < n,
                params@.wf(),
                len == y@.len(),
                3 * n <= y@.len(),
                places == translational_places(y@, params@.n),
                pos == vec3_at(y@, 3 * i),
                force == gravity_on(
                    params.g,
                    params.softening,
                    params.masses@,
                    places,
                    i as int,
                    j as int,
                ),
            decreases n - j,
        {
            if i != j {
                let r_vec = read_vec3(y, 3 * j).sub(pos);
                force = force.add(
                    pull_between(
                        params.g,
                        params.softening,
                        params.masses[i],
                        params.masses[j],
                        r_vec,
                    ),
                );
            }
            j += 1;
        }
        force = force.add(params.uniform_gravity.scale(params.masses[i]));
        force = force.add(params.e_field.scale(params.charges[i]));
        force = force.add(params.ext_force[i]);
        let ghost before = out@;
        write_vec3(out, 3 * (n + i), force);
        proof {
            assert forall|l: int| 0 <= l < i implies vec3_at(out@, 3 * (n + l))
                == #[trigger] separable_force(params@, y@, l) by {
                assert(vec3_at(before, 3 * (n + l)) == separable_force(params@, y@, l));
            }
        }
        i += 1;
    }
}

/// The velocity of body `i` in the translational state `y`.
pub open spec fn separable_velocity<S: Scalar>(
    p: SprkParamsView<S>,
    y: Seq<S>,
    i: int,
) -> Vec3<S> {
    vec3_at(y, 3 * (p.n + i)).spec_scale(p.inverse_masses[i])
}

/// Writes the velocities into the position half of `out`.
pub fn sprk_velocity<S: Scalar>(params: &SprkParams<S>, y: &[S], out: &mut [S])
    requires
        params@.wf(),
        6 * params.n <= y@.len(),
        3 * params.n <= old(out)@.len(),
    ensures
        final(out)@.len() == old(out)@.len(),
        forall|i: int|
            0 <= i < params.n ==> vec3_at(final(out)@, 3 * i) == #[trigger] separable_velocity(
                params@,
                y@,
                i,
            ),
        forall|k: int|
            3 * params.n <= k < old(out)@.len() ==> #[trigger] final(out)@[k] == old(out)@[k],
{
    let n = params.n;
    let len = y.len();
    let mut i: usize = 0;
    while i < n
        invariant
            i <= n == params.n,
            params@.wf(),
            len == y@.len(),
            6 * n <= y@.len(),
            3 * n <= out@.len(),
            out@.len() == old(out)@.len(),
            forall|l: int|
                0 <= l < i ==> vec3_at(out@, 3 * l) == #[trigger] separable_velocity(
                    params@,
                    y@,
                    l,
                ),
            forall|k: int| 3 * n <= k < out@.len() ==> #[trigger] out@[k] == old(out)@[k],
        decreases n - i,
    {
        let momentum = read_vec3(y, 3 * (n + i));
        let ghost before = out@;
        write_vec3(out, 3 * i, momentum.scale(params.inverse_masses[i]));
        proof {
            assert forall|l: int| 0 <= l < i implies vec3_at(out@, 3 * l)
                == #[trigger] separable_velocity(params@, y@, l) by {
                assert(vec3_at(before, 3 * l) == separable_velocity(params@, y@, l));
            }
        }
        i += 1;
    }
}

/// The poses of a pair in the translational state `y`.
pub open spec fn separable_pose<S: Scalar>(
    p: SprkParamsView<S>,
    y: Seq<S>,
    pair: (usize, usize),
) -> PairPose<S> {
    let (i, j) = pair;
    PairPose {
        i,
        j,
        boundary_i: p.boundaries[i as int],
        position_i: vec3_at(y, 3 * i),
        orientation_i: p.orientations[i as int],
        boundary_j: p.boundaries[j as int],
        position_j: vec3_at(y, 3 * j),
        orientation_j: p.orientations[j as int],
    }
}

/// The root function of the translational state: writes the signed separation
/// of every armed pair, which `separation` computes from the positions that
/// `y` gives them and their constant orientations.
pub fn g_contacts_sprk<S: Scalar, F: Fn(PairPose<S>) -> S>(
    params: &SprkParams<S>,
    y: &[S],
    separation: F,
    gout: &mut [S],
)
    requires
        params@.wf(),
        3 * params.n <= y@.len(),
        params.pairs@.len() <= old(gout)@.len(),
        forall|pose: PairPose<S>| call_requires(separation, (pose,)),
    ensures
        final(gout)@.len() == old(gout)@.len(),
        forall|k: int|
            0 <= k < params.pairs@.len() ==> call_ensures(
                separation,
                (separable_pose(params@, y@, params.pairs@[k]),),
                #[trigger] final(gout)@[k],
            ),
        forall|k: int|
            params.pairs@.len() <= k < old(gout)@.len() ==> #[trigger] final(gout)@[k] == old(
                gout,
            )@[k],
{
    let len = y.len();
    let mut k: usize = 0;
    while k < params.pairs.len()
        invariant
            k <= params.pairs@.len() <= gout@.len(),
            params@.wf(),
            len == y@.len(),
            3 * params.n <= y@.len(),
            gout@.len() == old(gout)@.len(),
            forall|pose: PairPose<S>| call_requires(separation, (pose,)),
            forall|l: int|
                0 <= l < k ==> call_ensures(
                    separation,
                    (separable_pose(params@, y@, params.pairs@[l]),),
                    #[trigger] gout@[l],
                ),
            forall|l: int| k <= l < gout@.len() ==> #[trigger] gout@[l] == old(gout)@[l],
        decreases params.pairs@.len() - k,
    {
        let (i, j) = params.pairs[k];
        assert(params@.pairs[k as int].0 < params.n);
        let pose = PairPose {
            i,
            j,
            boundary_i: params.boundaries[i],
            position_i: read_vec3(y, 3 * i),
            orientation_i: params.orientations[i],
            boundary_j: params.boundaries[j],
            position_j: read_vec3(y, 3 * j),
            orientation_j: params.orientations[j],
        };
        gout[k] = separation(pose);
        k += 1;
    }
}

/// The pose of two bodies as they stand.
pub open spec fn pose_of<S: Scalar>(
    objects: Seq<PhysicalObject<S>>,
    pair: (usize, usize),
) -> PairPose<S> {
    let (a, b) = (objects[pair.0 as int], objects[pair.1 as int]);
    PairPose {
        i: pair.0,
        j: pair.1,
        boundary_i: a.boundary,
        position_i: a.position,
        orientation_i: a.orientation,
        boundary_j: b.boundary,
        position_j: b.position,
        orientation_j: b.orientation,
    }
}

/// The state and the parameters of a system pose each pair as its two bodies
/// stand, the full state with orientations made unit.
pub proof fn a_system_poses_its_own_bodies<S: Scalar>(
    s: SystemView<S>,
    pairs: Seq<(usize, usize)>,
    pair: (usize, usize),
)
    requires
        pair.0 < s.objects.len(),
        pair.1 < s.objects.len(),
    ensures
        full_pose(rhs_params(s, pairs), packed(s.objects), pair) == (PairPose {
            orientation_i: s.objects[pair.0 as int].orientation.spec_normalize(),
            orientation_j: s.objects[pair.1 as int].orientation.spec_normalize(),
            ..pose_of(s.objects, pair)
        }),
        separable_pose(sprk_params(s, pairs), packed_translation(s.objects), pair) == pose_of(
            s.objects,
            pair,
        ),
{
    a_packed_state_holds_each_body(s.objects, pair.0 as int);
    a_packed_state_holds_each_body(s.objects, pair.1 as int);
}

/// Whether a full and a translational state vector of `n` bodies hold the same
/// positions.
pub open spec fn same_places<S>(full: Seq<S>, translational: Seq<S>, n: nat) -> bool {
    forall|j: int|
        0 <= j < n ==> #[trigger] vec3_at(full, 13 * j) == vec3_at(translational, 3 * j)
}

/// The two state vectors packed from the same bodies hold the same positions.
pub proof fn packed_states_hold_the_same_places<S: Scalar>(objects: Seq<PhysicalObject<S>>)
    ensures
        same_places(packed(objects), packed_translation(objects), objects.len()),
{
    assert forall|j: int| 0 <= j < objects.len() implies #[trigger] vec3_at(
        packed(objects),
        13 * j,
    ) == vec3_at(packed_translation(objects), 3 * j) by {
        a_packed_state_holds_each_body(objects, j);
    }
}

/// The two layouts of one system give a body the same force wherever they hold
/// the same positions and the magnetic field adds nothing to the electric one.
pub proof fn both_layouts_give_one_force<S: Scalar>(
    s: SystemView<S>,
    pairs: Seq<(usize, usize)>,
    full: Seq<S>,
    translational: Seq<S>,
    i: int,
)
    requires
        0 <= i < s.objects.len(),
        same_places(full, translational, s.objects.len()),
        s.e_field.spec_add(
            velocity_in(rhs_params(s, pairs), full, i).spec_cross(s.b_field),
        ) == s.e_field,
    ensures
        force_in(rhs_params(s, pairs), full, i) == separable_force(
            sprk_params(s, pairs),
            translational,
            i,
        ),
{
    let n = s.objects.len();
    assert forall|j: int| 0 <= j < n implies full_places(full, n)[j] == translational_places(
        translational,
        n,
    )[j] by {
        assert(vec3_at(full, 13 * j) == vec3_at(translational, 3 * j));
    }
    assert(full_places(full, n) =~= translational_places(translational, n));
}

/// What the callbacks know of the bodies is what the bodies are, in their order,
/// in both layouts.
pub proof fn parameters_are_those_of_the_bodies<S: Scalar>(
    s: SystemView<S>,
    pairs: Seq<(usize, usize)>,
    i: int,
)
    requires
        0 <= i < s.objects.len(),
    ensures
        ({
            let (o, p, r) = (s.objects[i], rhs_params(s, pairs), sprk_params(s, pairs));
            &&& p.n == s.objects.len() && r.n == s.objects.len()
            &&& p.masses[i] == o.mass && r.masses[i] == o.mass
            &&& p.inverse_masses[i] == o.inverse_mass && r.inverse_masses[i] == o.inverse_mass
            &&& p.charges[i] == o.charge && r.charges[i] == o.charge
            &&& p.inverse_inertia[i] == o.inverse_inertia
            &&& p.magnetic[i] == o.magnetic_moment
            &&& p.boundaries[i] == o.boundary && r.boundaries[i] == o.boundary
            &&& r.orientations[i] == o.orientation
            &&& p.ext_force[i] == s.external_forces[i] && r.ext_force[i] == s.external_forces[i]
            &&& p.ext_torque[i] == s.external_torques[i]
            &&& p.g == s.g_constant && r.g == s.g_constant
            &&& p.softening == s.softening && r.softening == s.softening
            &&& p.uniform_gravity == s.uniform_gravity && r.uniform_gravity == s.uniform_gravity
            &&& p.e_field == s.e_field && r.e_field == s.e_field && p.b_field == s.b_field
            &&& p.pairs == pairs && r.pairs == pairs
        }),
{
}

/// The two bodies of a pair stand where the state has them: each with its own
/// boundary, its position from the head of its block and, in the full state, the
/// unit quaternion along the four numbers behind its momentum.
pub proof fn a_pair_stands_where_the_state_has_it<S: Scalar>(
    p: RhsParamsView<S>,
    r: SprkParamsView<S>,
    y: Seq<S>,
    pair: (usize, usize),
)
    ensures
        ({
            let (f, t) = (full_pose(p, y, pair), separable_pose(r, y, pair));
            let (i, j) = (pair.0 as int, pair.1 as int);
            &&& f.i == i && f.j == j && t.i == i && t.j == j
            &&& f.boundary_i == p.boundaries[i] && f.boundary_j == p.boundaries[j]
            &&& t.boundary_i == r.boundaries[i] && t.boundary_j == r.boundaries[j]
            &&& f.position_i.x == y[13 * i] && f.position_i.y == y[13 * i + 1]
            &&& f.position_i.z == y[13 * i + 2]
            &&& f.position_j.x == y[13 * j] && f.position_j.y == y[13 * j + 1]
            &&& f.position_j.z == y[13 * j + 2]
            &&& t.position_i.x == y[3 * i] && t.position_i.y == y[3 * i + 1]
            &&& t.position_i.z == y[3 * i + 2]
            &&& t.position_j.x == y[3 * j] && t.position_j.y == y[3 * j + 1]
            &&& t.position_j.z == y[3 * j + 2]
            &&& f.orientation_i == (Quat {
                w: y[13 * i + 6],
                x: y[13 * i + 7],
                y: y[13 * i + 8],
                z: y[13 * i + 9],
            }).spec_normalize()
            &&& f.orientation_j == (Quat {
                w: y[13 * j + 6],
                x: y[13 * j + 7],
                y: y[13 * j + 8],
                z: y[13 * j + 9],
            }).spec_normalize()
            &&& t.orientation_i == r.orientations[i] && t.orientation_j == r.orientations[j]
        }),
{
}

/// The rate of a position is the momentum over the mass, component by component
/// and in both layouts.
pub proof fn a_velocity_is_momentum_over_mass<S: Scalar>(
    p: RhsParamsView<S>,
    full: Seq<S>,
    q: SprkParamsView<S>,
    translational: Seq<S>,
    i: int,
)
    ensures
        rates(p, full, i).position.x == full[13 * i + 3].spec_mul(p.inverse_masses[i]),
        rates(p, full, i).position.y == full[13 * i + 4].spec_mul(p.inverse_masses[i]),
        rates(p, full, i).position.z == full[13 * i + 5].spec_mul(p.inverse_masses[i]),
        ({
            let v = separable_velocity(q, translational, i);
            let at = 3 * q.n + 3 * i;
            &&& v.x == translational[at].spec_mul(q.inverse_masses[i])
            &&& v.y == translational[at + 1].spec_mul(q.inverse_masses[i])
            &&& v.z == translational[at + 2].spec_mul(q.inverse_masses[i])
        }),
{
    assert(3 * (q.n + i) == 3 * q.n + 3 * i);
}

/// The rate of a momentum is the force on the body, and the rate of a position
/// its velocity.
pub proof fn a_force_changes_momentum<S: Scalar>(p: RhsParamsView<S>, y: Seq<S>, i: int)
    ensures
        rates(p, y, i).momentum == force_in(p, y, i),
        rates(p, y, i).position == velocity_in(p, y, i),
{
}

/// A body turns at half its angular velocity times its quaternion, where the
/// angular velocity is the angular momentum seen from the body, times the inverse
/// inertia of the body, seen from space again.
pub proof fn a_body_turns_at_its_angular_velocity<S: Scalar>(
    p: RhsParamsView<S>,
    y: Seq<S>,
    i: int,
)
    ensures
        ({
            let q = Quat {
                w: y[13 * i + 6],
                x: y[13 * i + 7],
                y: y[13 * i + 8],
                z: y[13 * i + 9],
            };
            let l = Vec3 { x: y[13 * i + 10], y: y[13 * i + 11], z: y[13 * i + 12] };
            let r = q.spec_normalize().spec_to_rotation_matrix();
            let inverse = r.spec_mul(p.inverse_inertia[i]).spec_mul(r.spec_transpose());
            let omega = inverse.spec_apply(l);
            let turn = (Quat { w: zero::<S>(), x: omega.x, y: omega.y, z: omega.z }).spec_mul(q);
            let half = S::of_decimal(5, -1i32);
            let rate = rates(p, y, i).orientation;
            &&& rate.w == turn.w.spec_mul(half) && rate.x == turn.x.spec_mul(half)
            &&& rate.y == turn.y.spec_mul(half) && rate.z == turn.z.spec_mul(half)
        }),
{
}

/// The rate of an angular momentum is the external torque and the torque of the
/// magnetic field on the moment of the body, seen from space.
pub proof fn torque_changes_angular_momentum<S: Scalar>(
    p: RhsParamsView<S>,
    y: Seq<S>,
    i: int,
)
    ensures
        ({
            let q = Quat {
                w: y[13 * i + 6],
                x: y[13 * i + 7],
                y: y[13 * i + 8],
                z: y[13 * i + 9],
            };
            let r = q.spec_normalize().spec_to_rotation_matrix();
            let moment = r.spec_mul(p.magnetic[i]).spec_mul(r.spec_transpose());
            let magnetic = moment.spec_apply(p.b_field);
            let rate = rates(p, y, i).angular_momentum;
            &&& rate.x == p.ext_torque[i].x.spec_add(magnetic.x)
            &&& rate.y == p.ext_torque[i].y.spec_add(magnetic.y)
            &&& rate.z == p.ext_torque[i].z.spec_add(magnetic.z)
        }),
{
}

/// A body does not pull itself: its own mass enters its gravity only as the
/// mass that is pulled, so a system of one body has no gravity of its own.
pub proof fn a_lone_body_feels_no_gravity<S: Scalar>(
    g: S,
    softening: S,
    masses: Seq<S>,
    places: Seq<Vec3<S>>,
)
    ensures
        gravity_on(g, softening, masses, places, 0, 1) == Vec3::<S>::spec_zeros(),
{
    reveal_with_fuel(gravity_on, 2);
}

} // verus!
