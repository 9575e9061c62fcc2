//! Bodies, the system they form, and the flat state vectors the solvers see.

use crate::constrain::{ConstraintSet, DistanceConstraint};
use crate::integrate::Method;
use crate::linalg::{
    quat_at, read_quat, read_vec3, vec3_at, Mat3, Quat, Vec3,
};
use crate::scalar::Scalar;
use vstd::prelude::*;

verus! {

/// Components of the full state vector per body: position, momentum,
/// orientation quaternion, angular momentum.
pub const VARS_PER_OBJECT: usize = 13;

/// The shape of a body, by the lengths that bound its thinnest feature. What
/// else belongs to a shape stays with whoever computes separations, which are
/// told the two bodies.
#[derive(Clone, Copy, Debug)]
pub enum Boundary<S> {
    Point,
    Sphere { radius: S },
    Cuboid { half_extents: [S; 3] },
    Torus { tube_radius: S },
    Disk { radius: S },
    Cylinder { radius: S, half_height: S },
    Dumbbell { r1: S, r2: S, rod_radius: S },
}

/// A rigid body. A body whose `inverse_mass` is zero is immovable.
#[derive(Clone, Copy, Debug)]
pub struct PhysicalObject<S> {
    pub position: Vec3<S>,
    pub momentum: Vec3<S>,
    pub orientation: Quat<S>,
    pub angular_momentum: Vec3<S>,
    pub mass: S,
    pub inverse_mass: S,
    pub charge: S,
    pub inverse_inertia: Mat3<S>,
    pub magnetic_moment: Mat3<S>,
    pub boundary: Boundary<S>,
}

impl<S: Scalar> PhysicalObject<S> {
    /// The velocity `p / m`, which is zero for an immovable body.
    pub open spec fn spec_velocity(self) -> Vec3<S> {
        self.momentum.spec_scale(self.inverse_mass)
    }

    pub fn velocity(&self) -> (r: Vec3<S>)
        ensures
            r == self.spec_velocity(),
    {
        self.momentum.scale(self.inverse_mass)
    }

    /// Whether the body is immovable.
    pub open spec fn spec_is_anchor(self) -> bool {
        self.inverse_mass.spec_same(crate::scalar::zero())
    }

    pub fn is_anchor(&self) -> (r: bool)
        ensures
            r == self.spec_is_anchor(),
    {
        self.inverse_mass.same(S::decimal(0, 0))
    }

    /// Whether the body has spinning rigid-body state: angular momentum, and
    /// an inertia that lets it turn.
    pub open spec fn spec_is_spinning(self) -> bool {
        !self.angular_momentum.spec_is_zero() && !self.inverse_inertia.spec_is_zero()
    }

    pub fn is_spinning(&self) -> (r: bool)
        ensures
            r == self.spec_is_spinning(),
    {
        !self.angular_momentum.is_zero() && !self.inverse_inertia.is_zero()
    }

    /// The body with the four dynamic quantities of the block of a full state
    /// vector that starts at `at`.
    pub open spec fn with_full_state(self, d: Seq<S>, at: int) -> Self {
        PhysicalObject {
            position: vec3_at(d, at),
            momentum: vec3_at(d, at + 3),
            orientation: quat_at(d, at + 6),
            angular_momentum: vec3_at(d, at + 10),
            ..self
        }
    }

    /// Component `c` of the body's block of a full state vector.
    pub open spec fn full_component(self, c: int) -> S {
        if c < 3 {
            component(self.position, c)
        } else if c < 6 {
            component(self.momentum, c - 3)
        } else if c == 6 {
            self.orientation.w
        } else if c == 7 {
            self.orientation.x
        } else if c == 8 {
            self.orientation.y
        } else if c == 9 {
            self.orientation.z
        } else {
            component(self.angular_momentum, c - 10)
        }
    }
}

/// Component `c` of a vector, counted from zero.
pub open spec fn component<S>(v: Vec3<S>, c: int) -> S {
    if c == 0 {
        v.x
    } else if c == 1 {
        v.y
    } else {
        v.z
    }
}

/// The full state vector of a sequence of bodies: thirteen components for
/// each, in order.
pub open spec fn packed<S: Scalar>(objects: Seq<PhysicalObject<S>>) -> Seq<S> {
    Seq::new(13 * objects.len(), |k: int| objects[k / 13].full_component(k % 13))
}

/// The bodies with the dynamic quantities of a full state vector.
pub open spec fn unpacked<S: Scalar>(objects: Seq<PhysicalObject<S>>, d: Seq<S>) -> Seq<
    PhysicalObject<S>,
> {
    Seq::new(objects.len(), |i: int| objects[i].with_full_state(d, 13 * i))
}

/// The translational state vector: all positions, then all momenta.
pub open spec fn packed_translation<S: Scalar>(objects: Seq<PhysicalObject<S>>) -> Seq<S> {
    let n = objects.len() as int;
    Seq::new(
        (6 * n) as nat,
        |k: int|
            if k < 3 * n {
                component(objects[k / 3].position, k % 3)
            } else {
                component(objects[(k - 3 * n) / 3].momentum, (k - 3 * n) % 3)
            },
    )
}

/// The bodies with the positions and momenta of a translational state vector.
pub open spec fn unpacked_translation<S: Scalar>(
    objects: Seq<PhysicalObject<S>>,
    d: Seq<S>,
) -> Seq<PhysicalObject<S>> {
    let n = objects.len() as int;
    Seq::new(
        objects.len(),
        |i: int|
            PhysicalObject {
                position: vec3_at(d, 3 * i),
                momentum: vec3_at(d, 3 * (n + i)),
                ..objects[i]
            },
    )
}

/// The component of a full state vector that belongs to body `i`.
proof fn packed_component<S: Scalar>(objects: Seq<PhysicalObject<S>>, i: int, c: int)
    requires
        0 <= i < objects.len(),
        0 <= c < 13,
    ensures
        packed(objects)[13 * i + c] == objects[i].full_component(c),
{
    assert((13 * i + c) / 13 == i && (13 * i + c) % 13 == c);
}

/// The components of a translational state vector that belong to body `i`.
proof fn packed_translation_component<S: Scalar>(
    objects: Seq<PhysicalObject<S>>,
    i: int,
    c: int,
)
    requires
        0 <= i < objects.len(),
        0 <= c < 3,
    ensures
        packed_translation(objects)[3 * i + c] == component(objects[i].position, c),
        packed_translation(objects)[3 * (objects.len() + i) + c] == component(
            objects[i].momentum,
            c,
        ),
{
    let n = objects.len() as int;
    assert((3 * i + c) / 3 == i && (3 * i + c) % 3 == c);
    assert(3 * (n + i) + c - 3 * n == 3 * i + c);
}

/// Each body's quantities stand in its own places of a packed state.
pub proof fn a_packed_state_holds_each_body<S: Scalar>(objects: Seq<PhysicalObject<S>>, i: int)
    requires
        0 <= i < objects.len(),
    ensures
        vec3_at(packed(objects), 13 * i) == objects[i].position,
        vec3_at(packed(objects), 13 * i + 3) == objects[i].momentum,
        quat_at(packed(objects), 13 * i + 6) == objects[i].orientation,
        vec3_at(packed(objects), 13 * i + 10) == objects[i].angular_momentum,
        vec3_at(packed_translation(objects), 3 * i) == objects[i].position,
        vec3_at(packed_translation(objects), 3 * (objects.len() + i)) == objects[i].momentum,
{
    assert forall|c: int| 0 <= c < 13 implies #[trigger] packed(objects)[13 * i + c]
        == objects[i].full_component(c) by {
        packed_component(objects, i, c);
    }
    packed_translation_component(objects, i, 0);
    packed_translation_component(objects, i, 1);
    packed_translation_component(objects, i, 2);
    assert(packed(objects)[13 * i] == packed(objects)[13 * i + 0]);
}

/// Whether `d` holds the state of these bodies, component by component: position,
/// momentum, orientation and angular momentum of each in turn.
pub open spec fn holds_full_state<S>(d: Seq<S>, objects: Seq<PhysicalObject<S>>) -> bool {
    &&& d.len() == 13 * objects.len()
    &&& forall|i: int|
        0 <= i < objects.len() ==> {
            let o = #[trigger] objects[i];
            &&& d[13 * i] == o.position.x && d[13 * i + 1] == o.position.y && d[13 * i + 2]
                == o.position.z
            &&& d[13 * i + 3] == o.momentum.x && d[13 * i + 4] == o.momentum.y && d[13 * i + 5]
                == o.momentum.z
            &&& d[13 * i + 6] == o.orientation.w && d[13 * i + 7] == o.orientation.x && d[13 * i
                + 8] == o.orientation.y && d[13 * i + 9] == o.orientation.z
            &&& d[13 * i + 10] == o.angular_momentum.x && d[13 * i + 11] == o.angular_momentum.y
                && d[13 * i + 12] == o.angular_momentum.z
        }
}

/// Whether `d` holds the positions of all these bodies, and then their momenta,
/// component by component.
pub open spec fn holds_translational_state<S>(
    d: Seq<S>,
    objects: Seq<PhysicalObject<S>>,
) -> bool {
    let n = objects.len();
    &&& d.len() == 6 * n
    &&& forall|i: int|
        0 <= i < n ==> {
            let o = #[trigger] objects[i];
            &&& d[3 * i] == o.position.x && d[3 * i + 1] == o.position.y && d[3 * i + 2]
                == o.position.z
            &&& d[3 * n + 3 * i] == o.momentum.x && d[3 * n + 3 * i + 1] == o.momentum.y && d[3 * n
                + 3 * i + 2] == o.momentum.z
        }
}

/// A packed state holds the state of its bodies, component by component.
pub proof fn a_packed_state_is_in_order<S: Scalar>(objects: Seq<PhysicalObject<S>>)
    ensures
        holds_full_state(packed(objects), objects),
        holds_translational_state(packed_translation(objects), objects),
{
    let n = objects.len();
    assert forall|i: int| 0 <= i < n implies {
        let o = #[trigger] objects[i];
        let d = packed(objects);
        &&& d[13 * i] == o.position.x && d[13 * i + 1] == o.position.y && d[13 * i + 2]
            == o.position.z
        &&& d[13 * i + 3] == o.momentum.x && d[13 * i + 4] == o.momentum.y && d[13 * i + 5]
            == o.momentum.z
        &&& d[13 * i + 6] == o.orientation.w && d[13 * i + 7] == o.orientation.x && d[13 * i + 8]
            == o.orientation.y && d[13 * i + 9] == o.orientation.z
        &&& d[13 * i + 10] == o.angular_momentum.x && d[13 * i + 11] == o.angular_momentum.y
            && d[13 * i + 12] == o.angular_momentum.z
    } by {
        a_packed_state_holds_each_body(objects, i);
    }
    assert forall|i: int| 0 <= i < n implies {
        let o = #[trigger] objects[i];
        let d = packed_translation(objects);
        &&& d[3 * i] == o.position.x && d[3 * i + 1] == o.position.y && d[3 * i + 2]
            == o.position.z
        &&& d[3 * n + 3 * i] == o.momentum.x && d[3 * n + 3 * i + 1] == o.momentum.y && d[3 * n + 3
            * i + 2] == o.momentum.z
    } by {
        a_packed_state_holds_each_body(objects, i);
        assert(3 * (n + i) == 3 * n + 3 * i);
    }
}

/// Bodies that were filled from a state vector are in the state that it holds,
/// component by component.
pub proof fn an_unpacked_state_is_in_order<S: Scalar>(
    objects: Seq<PhysicalObject<S>>,
    d: Seq<S>,
)
    ensures
        d.len() == 13 * objects.len() ==> holds_full_state(d, unpacked(objects, d)),
        d.len() == 6 * objects.len() ==> holds_translational_state(
            d,
            unpacked_translation(objects, d),
        ),
{
}

/// Writing a packed state back gives every body exactly what it had.
pub proof fn unpacking_undoes_packing<S: Scalar>(objects: Seq<PhysicalObject<S>>)
    ensures
        unpacked(objects, packed(objects)) == objects,
{
    assert forall|i: int| 0 <= i < objects.len() implies unpacked(objects, packed(objects))[i]
        == objects[i] by {
        packed_component(objects, i, 0);
        packed_component(objects, i, 1);
        packed_component(objects, i, 2);
        packed_component(objects, i, 3);
        packed_component(objects, i, 4);
        packed_component(objects, i, 5);
        packed_component(objects, i, 6);
        packed_component(objects, i, 7);
        packed_component(objects, i, 8);
        packed_component(objects, i, 9);
        packed_component(objects, i, 10);
        packed_component(objects, i, 11);
        packed_component(objects, i, 12);
    }
    assert(unpacked(objects, packed(objects)) =~= objects);
}

/// The same of the translational state: positions and momenta come back.
pub proof fn unpacking_undoes_packing_translation<S: Scalar>(objects: Seq<PhysicalObject<S>>)
    ensures
        unpacked_translation(objects, packed_translation(objects)) == objects,
{
    let d = packed_translation(objects);
    assert forall|i: int| 0 <= i < objects.len() implies unpacked_translation(objects, d)[i]
        == objects[i] by {
        packed_translation_component(objects, i, 0);
        packed_translation_component(objects, i, 1);
        packed_translation_component(objects, i, 2);
    }
    assert(unpacked_translation(objects, d) =~= objects);
}

/// Packing bodies that were just filled from a state vector gives that vector
/// back, component for component.
pub proof fn packing_undoes_unpacking<S: Scalar>(objects: Seq<PhysicalObject<S>>, d: Seq<S>)
    requires
        d.len() == 13 * objects.len(),
    ensures
        packed(unpacked(objects, d)) == d,
{
    assert forall|k: int| 0 <= k < d.len() implies packed(unpacked(objects, d))[k] == d[k] by {
        let i = k / 13;
        let c = k % 13;
        assert(k == 13 * i + c && 0 <= c < 13 && 0 <= i < objects.len());
        packed_component(unpacked(objects, d), i, c);
    }
    assert(packed(unpacked(objects, d)) =~= d);
}

/// The same of the translational state vector.
pub proof fn packing_undoes_unpacking_translation<S: Scalar>(
    objects: Seq<PhysicalObject<S>>,
    d: Seq<S>,
)
    requires
        d.len() == 6 * objects.len(),
    ensures
        packed_translation(unpacked_translation(objects, d)) == d,
{
    let n = objects.len() as int;
    let filled = unpacked_translation(objects, d);
    assert forall|k: int| 0 <= k < d.len() implies packed_translation(filled)[k] == d[k] by {
        let j = if k < 3 * n {
            k
        } else {
            k - 3 * n
        };
        let i = j / 3;
        let c = j % 3;
        assert(j == 3 * i + c && 0 <= c < 3 && 0 <= i < n);
        packed_translation_component(filled, i, c);
    }
    assert(packed_translation(filled) =~= d);
}

/// A system of bodies, its fields, its settings and its constraints.
#[derive(Clone, Debug)]
pub struct PhysicalObjectSystem<S> {
    pub objects: Vec<PhysicalObject<S>>,
    pub external_forces: Vec<Vec3<S>>,
    pub external_torques: Vec<Vec3<S>>,
    pub g_constant: S,
    pub softening: S,
    pub uniform_gravity: Vec3<S>,
    pub e_field: Vec3<S>,
    pub b_field: Vec3<S>,
    pub time: S,
    pub rtol: S,
    pub atol: S,
    pub method: Method<S>,
    pub collide_enabled: bool,
    pub contact_slop: S,
    /// The pairs that touched during the last run.
    pub contacts: Vec<(usize, usize)>,
    pub collision_count: u64,
    /// Contact events in one burst beyond which impacts turn plastic.
    pub max_events_in_burst: usize,
    pub constraints: ConstraintSet<S>,
}

/// What a system holds, as mathematical values.
#[verifier::ext_equal]
pub struct SystemView<S> {
    pub objects: Seq<PhysicalObject<S>>,
    pub external_forces: Seq<Vec3<S>>,
    pub external_torques: Seq<Vec3<S>>,
    pub g_constant: S,
    pub softening: S,
    pub uniform_gravity: Vec3<S>,
    pub e_field: Vec3<S>,
    pub b_field: Vec3<S>,
    pub time: S,
    pub rtol: S,
    pub atol: S,
    pub method: Method<S>,
    pub collide_enabled: bool,
    pub contact_slop: S,
    pub contacts: Seq<(usize, usize)>,
    pub collision_count: u64,
    pub max_events_in_burst: usize,
    pub constraints: Seq<DistanceConstraint<S>>,
}

impl<S: Scalar> View for PhysicalObjectSystem<S> {
    type V = SystemView<S>;

    open spec fn view(&self) -> SystemView<S> {
        SystemView {
            objects: self.objects@,
            external_forces: self.external_forces@,
            external_torques: self.external_torques@,
            g_constant: self.g_constant,
            softening: self.softening,
            uniform_gravity: self.uniform_gravity,
            e_field: self.e_field,
            b_field: self.b_field,
            time: self.time,
            rtol: self.rtol,
            atol: self.atol,
            method: self.method,
            collide_enabled: self.collide_enabled,
            contact_slop: self.contact_slop,
            contacts: self.contacts@,
            collision_count: self.collision_count,
            max_events_in_burst: self.max_events_in_burst,
            constraints: self.constraints@,
        }
    }
}

impl<S: Scalar> SystemView<S> {
    /// A force and a torque for each body, and sizes that a machine can count:
    /// the full state vector, and twice the burst limit.
    pub open spec fn wf(self) -> bool {
        &&& self.external_forces.len() >= self.objects.len()
        &&& self.external_torques.len() >= self.objects.len()
        &&& 13 * self.objects.len() <= usize::MAX
        &&& 2 * self.max_events_in_burst <= usize::MAX
    }
}

impl<S: Scalar> PhysicalObjectSystem<S> {
    /// The length of the full state vector.
    pub fn state_len(&self) -> (r: usize)
        requires
            13 * self@.objects.len() <= usize::MAX,
        ensures
            r == packed(self@.objects).len(),
    {
        VARS_PER_OBJECT * self.objects.len()
    }

    /// The full state vector of the bodies.
    pub fn pack_state(&self) -> (d: Vec<S>)
        ensures
            d@ == packed(self@.objects),
    {
        let mut d: Vec<S> = Vec::new();
        let mut i: usize = 0;
        while i < self.objects.len()
            invariant
                i <= self.objects@.len(),
                d@ =~= packed(self.objects@.take(i as int)),
            decreases self.objects@.len() - i,
        {
            let o = self.objects[i];
            d.push(o.position.x);
            d.push(o.position.y);
            d.push(o.position.z);
            d.push(o.momentum.x);
            d.push(o.momentum.y);
            d.push(o.momentum.z);
            d.push(o.orientation.w);
            d.push(o.orientation.x);
            d.push(o.orientation.y);
            d.push(o.orientation.z);
            d.push(o.angular_momentum.x);
            d.push(o.angular_momentum.y);
            d.push(o.angular_momentum.z);
            proof {
                let now = self.objects@.take(i + 1);
                assert forall|k: int| 0 <= k < 13 * (i + 1) implies d@[k] == packed(now)[k] by {
                    if k < 13 * i {
                        assert(k / 13 < i);
                    } else {
                        assert(k / 13 == i && k % 13 == k - 13 * i);
                    }
                }
            }
            i += 1;
        }
        assert(self.objects@.take(i as int) =~= self.objects@);
        d
    }

    /// Takes over the dynamic quantities of a full state vector.
    pub fn unpack_state(&mut self, d: &[S])
        requires
            d@.len() == 13 * old(self)@.objects.len(),
        ensures
            final(self)@ == (SystemView {
                objects: unpacked(old(self)@.objects, d@),
                ..old(self)@
            }),
    {
        let ghost before = self@;
        let len = d.len();
        let mut i: usize = 0;
        while i < self.objects.len()
            invariant
                i <= self.objects@.len(),
                self.objects@.len() == before.objects.len(),
                len == d@.len(),
                d@.len() == 13 * before.objects.len(),
                self@ =~= (SystemView { objects: self.objects@, ..before }),
                forall|k: int|
                    0 <= k < i ==> #[trigger] self.objects@[k]
                        == before.objects[k].with_full_state(d@, 13 * k),
                forall|k: int|
                    i <= k < self.objects@.len() ==> #[trigger] self.objects@[k]
                        == before.objects[k],
            decreases self.objects@.len() - i,
        {
            let b = VARS_PER_OBJECT * i;
            let mut o = self.objects[i];
            o.position = read_vec3(d, b);
            o.momentum = read_vec3(d, b + 3);
            o.orientation = read_quat(d, b + 6);
            o.angular_momentum = read_vec3(d, b + 10);
            self.objects.set(i, o);
            i += 1;
        }
        assert(self@.objects =~= unpacked(before.objects, d@));
    }

    /// The translational state vector of the bodies.
    pub fn pack_translation(&self) -> (d: Vec<S>)
        ensures
            d@ == packed_translation(self@.objects),
    {
        let mut d: Vec<S> = Vec::new();
        let n = self.objects.len();
        let mut i: usize = 0;
        while i < n
            invariant
                i <= n,
                n == self.objects@.len(),
                d@.len() == 3 * i,
                forall|k: int|
                    0 <= k < 3 * i ==> #[trigger] d@[k] == component(
                        self.objects@[k / 3].position,
                        k % 3,
                    ),
            decreases n - i,
        {
            let o = self.objects[i];
            d.push(o.position.x);
            d.push(o.position.y);
            d.push(o.position.z);
            i += 1;
        }
        let mut i: usize = 0;
        while i < n
            invariant
                i <= n,
                n == self.objects@.len(),
                d@.len() == 3 * (n + i),
                forall|k: int|
                    0 <= k < 3 * n ==> #[trigger] d@[k] == component(
                        self.objects@[k / 3].position,
                        k % 3,
                    ),
                forall|k: int|
                    3 * n <= k < 3 * (n + i) ==> #[trigger] d@[k] == component(
                        self.objects@[(k - 3 * n) / 3].momentum,
                        (k - 3 * n) % 3,
                    ),
            decreases n - i,
        {
            let o = self.objects[i];
            d.push(o.momentum.x);
            d.push(o.momentum.y);
            d.push(o.momentum.z);
            i += 1;
        }
        assert(d@ =~= packed_translation(self.objects@));
        d
    }

    /// Takes over the positions and momenta of a translational state vector.
    pub fn unpack_translation(&mut self, d: &[S])
        requires
            d@.len() == 6 * old(self)@.objects.len(),
        ensures
            final(self)@ == (SystemView {
                objects: unpacked_translation(old(self)@.objects, d@),
                ..old(self)@
            }),
    {
        let ghost before = self@;
        let n = self.objects.len();
        let len = d.len();
        let mut i: usize = 0;
        while i < n
            invariant
                i <= n,
                n == self.objects@.len(),
                self.objects@.len() == before.objects.len(),
                len == d@.len(),
                d@.len() == 6 * n,
                self@ =~= (SystemView { objects: self.objects@, ..before }),
                forall|k: int|
                    0 <= k < i ==> #[trigger] self.objects@[k] == unpacked_translation(
                        before.objects,
                        d@,
                    )[k],
                forall|k: int|
                    i <= k < self.objects@.len() ==> #[trigger] self.objects@[k]
                        == before.objects[k],
            decreases n - i,
        {
            let mut o = self.objects[i];
            o.position = read_vec3(d, 3 * i);
            o.momentum = read_vec3(d, 3 * (n + i));
            self.objects.set(i, o);
            i += 1;
        }
        assert(self@.objects =~= unpacked_translation(before.objects, d@));
    }
}

} // verus!
