//! Rigid holonomic constraints, and the algebra a differential-algebraic
//! solver needs of them.
//!
//! A constraint is a geometric relation the motion must satisfy exactly: a
//! scalar `g(q) = 0` over the body positions `q`. The only kind is the rigid
//! rod, which holds two bodies at a fixed distance:
//!
//! ```text
//! g(q) = |q_j - q_i| - L,     with gradient  dg/dq_j = -dg/dq_i = d/|d|
//! ```
//!
//! where `d = q_j - q_i`. The distance is not squared, so the gradient has
//! length one at every configuration and `g` is in the units of the
//! coordinates.
//!
//! A rod to a body whose inverse mass is zero is a pin joint to the world:
//! such a body is an anchor, and no multiplier pushes it.

use crate::linalg::{read_vec3, vec3_at, with_vec3, write_vec3, Vec3};
use crate::scalar::{one, zero, Scalar};
use crate::system::{component, PhysicalObject, PhysicalObjectSystem, SystemView};
use crate::text::{a_text_mentions_its_parts, append_number, mentions, numeral};
use vstd::prelude::*;

verus! {

/// A rigid distance constraint: `|q_j - q_i|` is held at `length`.
#[derive(Clone, Copy, Debug, PartialEq)]
pub struct DistanceConstraint<S> {
    pub i: usize,
    pub j: usize,
    pub length: S,
}

/// Every constraint acting on a system, in multiplier order.
#[derive(Clone, Debug, PartialEq)]
pub struct ConstraintSet<S> {
    pub distances: Vec<DistanceConstraint<S>>,
}

impl<S: Scalar> View for ConstraintSet<S> {
    type V = Seq<DistanceConstraint<S>>;

    open spec fn view(&self) -> Seq<DistanceConstraint<S>> {
        self.distances@
    }
}

impl<S: Scalar> Default for ConstraintSet<S> {
    fn default() -> (r: Self)
        ensures
            r@ == Seq::<DistanceConstraint<S>>::empty(),
    {
        ConstraintSet { distances: Vec::new() }
    }
}

/// `d / |d|`, or the zero vector when `|d|` is zero.
pub open spec fn direction<S: Scalar>(d: Vec3<S>) -> Vec3<S> {
    if d.spec_norm().spec_same(zero()) {
        Vec3::spec_zeros()
    } else {
        d.spec_scale(one::<S>().spec_div(d.spec_norm()))
    }
}

/// The unit vector along `d`. A rod can only reach length zero if it has
/// already collapsed through its own length, so the zero vector is a guard,
/// not a supported state.
pub fn unit<S: Scalar>(d: Vec3<S>) -> (r: Vec3<S>)
    ensures
        r == direction(d),
{
    let n = d.norm();
    if n.same(S::decimal(0, 0)) {
        Vec3::zeros()
    } else {
        d.scale(S::decimal(1, 0).div(n))
    }
}

impl<S: Scalar> DistanceConstraint<S> {
    /// Whether the rod joins the bodies `a` and `b`, in either order.
    pub open spec fn joins(self, a: usize, b: usize) -> bool {
        (self.i == a && self.j == b) || (self.i == b && self.j == a)
    }

    /// The vector from body `i` to body `j` in the block vector `q`.
    pub open spec fn span(self, q: Seq<S>) -> Vec3<S> {
        vec3_at(q, 3 * self.j).spec_sub(vec3_at(q, 3 * self.i))
    }

    /// Whether both bodies have a block in a vector of this length.
    pub open spec fn fits(self, len: nat) -> bool {
        3 * self.i + 2 < len && 3 * self.j + 2 < len
    }
}

/// Whether every rod of a set has both its blocks in a vector of this length.
pub open spec fn all_fit<S: Scalar>(cs: Seq<DistanceConstraint<S>>, len: nat) -> bool {
    forall|k: int| 0 <= k < cs.len() ==> (#[trigger] cs[k]).fits(len)
}

/// Whether every end of a rod that is not an anchor has its block in a vector
/// of this length.
pub open spec fn free_ends_fit<S: Scalar>(
    cs: Seq<DistanceConstraint<S>>,
    anchors: Seq<bool>,
    len: nat,
) -> bool {
    forall|k: int|
        0 <= k < cs.len() ==> {
            let c = #[trigger] cs[k];
            &&& c.i < anchors.len() && c.j < anchors.len()
            &&& anchors[c.i as int] || 3 * c.i + 2 < len
            &&& anchors[c.j as int] || 3 * c.j + 2 < len
        }
}

/// The error `g` of the rod `c`: its length in the configuration `q`, less
/// the length it is held at.
pub open spec fn length_error<S: Scalar>(c: DistanceConstraint<S>, q: Seq<S>) -> S {
    c.span(q).spec_norm().spec_sub(c.length)
}

/// The rate of that error: the part of the relative velocity along the rod.
pub open spec fn length_rate<S: Scalar>(c: DistanceConstraint<S>, q: Seq<S>, v: Seq<S>) -> S {
    direction(c.span(q)).spec_dot(c.span(v))
}

/// The block vector with `v` added to the block at `at`.
pub open spec fn accumulated<S: Scalar>(d: Seq<S>, at: int, v: Vec3<S>) -> Seq<S> {
    with_vec3(d, at, vec3_at(d, at).spec_add(v))
}

fn accumulate3<S: Scalar>(d: &mut [S], at: usize, v: Vec3<S>)
    requires
        at + 2 < old(d)@.len(),
    ensures
        final(d)@ == accumulated(old(d)@, at as int, v),
{
    let sum = read_vec3(d, at).add(v);
    write_vec3(d, at, sum);
}

/// `out` with the forces of one rod added: the multiplier `w` along the rod
/// on body `j` and against it on body `i`, anchors left out.
pub open spec fn pushed_by_rod<S: Scalar>(
    c: DistanceConstraint<S>,
    anchors: Seq<bool>,
    q: Seq<S>,
    w: S,
    out: Seq<S>,
) -> Seq<S> {
    let along = direction(c.span(q));
    let first = if anchors[c.i as int] {
        out
    } else {
        accumulated(out, 3 * c.i, along.spec_scale(w.spec_neg()))
    };
    if anchors[c.j as int] {
        first
    } else {
        accumulated(first, 3 * c.j, along.spec_scale(w))
    }
}

/// `out` with the forces of all rods added, in multiplier order.
pub open spec fn pushed<S: Scalar>(
    cs: Seq<DistanceConstraint<S>>,
    anchors: Seq<bool>,
    q: Seq<S>,
    m: Seq<S>,
    out: Seq<S>,
) -> Seq<S>
    decreases cs.len(),
{
    if cs.len() == 0 {
        out
    } else {
        pushed_by_rod(
            cs.last(),
            anchors,
            q,
            m[cs.len() - 1],
            pushed(cs.drop_last(), anchors, q, m, out),
        )
    }
}

/// The distance between two bodies of a system.
pub open spec fn separation<S: Scalar>(s: SystemView<S>, i: int, j: int) -> S {
    s.objects[j].position.spec_sub(s.objects[i].position).spec_norm()
}

/// The length a new rod gets: the one asked for, or else the distance the two
/// bodies are already at.
pub open spec fn rod_length<S: Scalar>(
    s: SystemView<S>,
    i: usize,
    j: usize,
    length: Option<S>,
) -> S {
    match length {
        Some(l) => l,
        None => separation(s, i as int, j as int),
    }
}

/// Whether a rod can be held at this length.
pub open spec fn is_rod_length<S: Scalar>(length: S) -> bool {
    length.spec_is_finite() && zero::<S>().spec_less(length)
}

/// Whether some rod of the set already joins the two bodies.
pub open spec fn already_joined<S: Scalar>(
    cs: Seq<DistanceConstraint<S>>,
    i: usize,
    j: usize,
) -> bool {
    exists|k: int| 0 <= k < cs.len() && (#[trigger] cs[k]).joins(i, j)
}

/// Why a rod between `i` and `j` is refused: the first objection that
/// applies, or none.
pub open spec fn rod_refusal<S: Scalar>(
    cs: Seq<DistanceConstraint<S>>,
    s: SystemView<S>,
    i: usize,
    j: usize,
    length: Option<S>,
) -> Option<Seq<char>> {
    let n = s.objects.len();
    if i >= n || j >= n {
        let last = if n == 0 {
            0
        } else {
            (n - 1) as nat
        };
        Some(
            "CONSTRAIN needs two existing objects (obj0..obj"@ + numeral(last) + "); got obj"@
                + numeral(i as nat) + " and obj"@ + numeral(j as nat),
        )
    } else if i == j {
        Some("CONSTRAIN needs two DIFFERENT objects"@)
    } else if already_joined(cs, i, j) {
        Some(
            "obj"@ + numeral(i as nat) + " and obj"@ + numeral(j as nat)
                + " are already constrained — DEL the constraint first (CONSTRAINTS lists them)"@,
        )
    } else if !is_rod_length(rod_length(s, i, j, length)) {
        Some(
            "CONSTRAIN length must be positive and finite (got "@ + rod_length(
                s,
                i,
                j,
                length,
            ).shown()@ + ")"@,
        )
    } else if s.objects[i as int].spec_is_anchor() && s.objects[j as int].spec_is_anchor() {
        Some(
            "obj"@ + numeral(i as nat) + " and obj"@ + numeral(j as nat)
                + " both have inverse_mass = 0 — a rod between two anchors constrains nothing and makes the DAE singular"@,
        )
    } else {
        None
    }
}

/// What holds of every set built by adding rods to bodies of a system of `n`:
/// each rod joins two different bodies at a usable length, and no two rods
/// join the same two.
pub open spec fn well_formed<S: Scalar>(cs: Seq<DistanceConstraint<S>>, n: nat) -> bool {
    &&& forall|k: int|
        0 <= k < cs.len() ==> {
            let c = #[trigger] cs[k];
            c.i < n && c.j < n && c.i != c.j && is_rod_length(c.length)
        }
    &&& forall|k: int, l: int|
        0 <= k < l < cs.len() ==> !(#[trigger] cs[k]).joins(
            (#[trigger] cs[l]).i,
            cs[l].j,
        )
}

/// Whether body `k` is the first of the system with spinning state.
pub open spec fn first_spinning<S: Scalar>(objects: Seq<PhysicalObject<S>>, k: int) -> bool {
    &&& 0 <= k < objects.len()
    &&& objects[k].spec_is_spinning()
    &&& forall|l: int| 0 <= l < k ==> !(#[trigger] objects[l]).spec_is_spinning()
}

/// Whether no body of the system has spinning state.
pub open spec fn none_spinning<S: Scalar>(objects: Seq<PhysicalObject<S>>) -> bool {
    forall|l: int| 0 <= l < objects.len() ==> !(#[trigger] objects[l]).spec_is_spinning()
}

/// Whether `k` is the first body on which an external torque acts.
pub open spec fn first_torque<S: Scalar>(torques: Seq<Vec3<S>>, k: int) -> bool {
    &&& 0 <= k < torques.len()
    &&& !torques[k].spec_is_zero()
    &&& forall|l: int| 0 <= l < k ==> (#[trigger] torques[l]).spec_is_zero()
}

/// Whether no external torque acts.
pub open spec fn no_torque<S: Scalar>(torques: Seq<Vec3<S>>) -> bool {
    forall|l: int| 0 <= l < torques.len() ==> (#[trigger] torques[l]).spec_is_zero()
}

/// The refusal of a body with spinning state.
pub open spec fn spinning_refusal(k: int) -> Seq<char> {
    "constrained (IDA) integration is translational only: obj"@ + numeral(k as nat)
        + " has spinning rigid-body state (nonzero angular momentum and invertible inertia). Constraints act on positions, not orientations; zero the spin, or drop the constraint and use METHOD ADAMS or BDF"@
}

/// The refusal of an external torque.
pub open spec fn torque_refusal(k: int) -> Seq<char> {
    "constrained (IDA) integration cannot apply external torques (obj"@ + numeral(k as nat)
        + "): constraints act on positions only"@
}

/// The worst length error of a set of rods in the present configuration.
pub open spec fn worst_error<S: Scalar>(
    cs: Seq<DistanceConstraint<S>>,
    s: SystemView<S>,
) -> S
    decreases cs.len(),
{
    if cs.len() == 0 {
        zero()
    } else {
        let c = cs.last();
        worst_error(cs.drop_last(), s).spec_larger(
            separation(s, c.i as int, c.j as int).spec_sub(c.length).spec_abs(),
        )
    }
}

/// The worst rate of a length error in the present configuration.
pub open spec fn worst_rate<S: Scalar>(cs: Seq<DistanceConstraint<S>>, s: SystemView<S>) -> S
    decreases cs.len(),
{
    if cs.len() == 0 {
        zero()
    } else {
        let c = cs.last();
        let a = s.objects[c.i as int];
        let b = s.objects[c.j as int];
        worst_rate(cs.drop_last(), s).spec_larger(
            direction(b.position.spec_sub(a.position)).spec_dot(
                b.spec_velocity().spec_sub(a.spec_velocity()),
            ).spec_abs(),
        )
    }
}

impl<S: Scalar> ConstraintSet<S> {
    /// Number of scalar constraints, which is the number of multipliers.
    pub fn len(&self) -> (r: usize)
        ensures
            r == self@.len(),
    {
        self.distances.len()
    }

    pub fn is_empty(&self) -> (r: bool)
        ensures
            r == (self@.len() == 0),
    {
        self.distances.len() == 0
    }

    fn joined(&self, i: usize, j: usize) -> (r: bool)
        ensures
            r == already_joined(self@, i, j),
    {
        let mut k: usize = 0;
        while k < self.distances.len()
            invariant
                k <= self.distances@.len(),
                forall|l: int| 0 <= l < k ==> !(#[trigger] self@[l]).joins(i, j),
            decreases self.distances@.len() - k,
        {
            let c = self.distances[k];
            if (c.i == i && c.j == j) || (c.i == j && c.j == i) {
                assert(self@[k as int].joins(i, j));
                return true;
            }
            k += 1;
        }
        false
    }

    /// Adds a rod between `i` and `j`. `length` defaults to the distance they
    /// are already at. Returns the rod's place in the set.
    ///
    /// Refuses, by name, what would make the constraint Jacobian singular.
    pub fn add_distance(
        &mut self,
        system: &PhysicalObjectSystem<S>,
        i: usize,
        j: usize,
        length: Option<S>,
    ) -> (r: Result<usize, String>)
        ensures
            match rod_refusal(old(self)@, system@, i, j, length) {
                None => {
                    &&& r == Ok::<usize, String>(old(self)@.len() as usize)
                    &&& final(self)@ == old(self)@.push(
                        (DistanceConstraint { i, j, length: rod_length(system@, i, j, length) }),
                    )
                },
                Some(why) => {
                    &&& r is Err
                    &&& r->Err_0@ == why
                    &&& *final(self) == *old(self)
                },
            },
    {
        let n = system.objects.len();
        if i >= n || j >= n {
            let mut e = String::from_str("CONSTRAIN needs two existing objects (obj0..obj");
            append_number(&mut e, if n == 0 { 0 } else { (n - 1) as u64 });
            e.append("); got obj");
            append_number(&mut e, i as u64);
            e.append(" and obj");
            append_number(&mut e, j as u64);
            return Err(e);
        }
        if i == j {
            return Err(String::from_str("CONSTRAIN needs two DIFFERENT objects"));
        }
        if self.joined(i, j) {
            let mut e = String::from_str("obj");
            append_number(&mut e, i as u64);
            e.append(" and obj");
            append_number(&mut e, j as u64);
            e.append(
                " are already constrained — DEL the constraint first (CONSTRAINTS lists them)",
            );
            return Err(e);
        }
        let here = system.objects[j].position.sub(system.objects[i].position).norm();
        let length = match length {
            Some(l) => l,
            None => here,
        };
        if !(length.is_finite() && S::decimal(0, 0).less(length)) {
            let mut e = String::from_str("CONSTRAIN length must be positive and finite (got ");
            e.append(length.show().as_str());
            e.append(")");
            return Err(e);
        }
        if system.objects[i].is_anchor() && system.objects[j].is_anchor() {
            let mut e = String::from_str("obj");
            append_number(&mut e, i as u64);
            e.append(" and obj");
            append_number(&mut e, j as u64);
            e.append(
                " both have inverse_mass = 0 — a rod between two anchors constrains nothing and makes the DAE singular",
            );
            return Err(e);
        }
        self.distances.push(DistanceConstraint { i, j, length });
        Ok(self.distances.len() - 1)
    }

    /// Refuses a constrained run whose physics the rods cannot express,
    /// naming the first offending body: spinning state anywhere, and failing
    /// that an external torque.
    pub fn gate(&self, system: &PhysicalObjectSystem<S>) -> (r: Result<(), String>)
        ensures
            r is Ok <==> none_spinning(system@.objects) && no_torque(system@.external_torques),
            r matches Err(e) ==> {
                ||| exists|k: int| #[trigger]
                    first_spinning(system@.objects, k) && e@ == spinning_refusal(k)
                ||| none_spinning(system@.objects) && exists|k: int| #[trigger]
                    first_torque(system@.external_torques, k) && e@ == torque_refusal(k)
            },
    {
        let mut k: usize = 0;
        while k < system.objects.len()
            invariant
                k <= system.objects@.len(),
                forall|l: int|
                    0 <= l < k ==> !(#[trigger] system.objects@[l]).spec_is_spinning(),
            decreases system.objects@.len() - k,
        {
            if system.objects[k].is_spinning() {
                let mut e = String::from_str(
                    "constrained (IDA) integration is translational only: obj",
                );
                append_number(&mut e, k as u64);
                e.append(
                    " has spinning rigid-body state (nonzero angular momentum and invertible inertia). Constraints act on positions, not orientations; zero the spin, or drop the constraint and use METHOD ADAMS or BDF",
                );
                assert(first_spinning(system@.objects, k as int));
                return Err(e);
            }
            k += 1;
        }
        let mut k: usize = 0;
        while k < system.external_torques.len()
            invariant
                k <= system.external_torques@.len(),
                none_spinning(system@.objects),
                forall|l: int|
                    0 <= l < k ==> (#[trigger] system.external_torques@[l]).spec_is_zero(),
            decreases system.external_torques@.len() - k,
        {
            if !system.external_torques[k].is_zero() {
                let mut e = String::from_str(
                    "constrained (IDA) integration cannot apply external torques (obj",
                );
                append_number(&mut e, k as u64);
                e.append("): constraints act on positions only");
                assert(first_torque(system@.external_torques, k as int));
                return Err(e);
            }
            k += 1;
        }
        Ok(())
    }

    /// Writes the length error `g` of every rod.
    pub fn residual(&self, q: &[S], out: &mut [S])
        requires
            all_fit(self@, q@.len()),
            self@.len() <= old(out)@.len(),
        ensures
            final(out)@.len() == old(out)@.len(),
            forall|k: int|
                0 <= k < self@.len() ==> #[trigger] final(out)@[k] == length_error(self@[k], q@),
            forall|k: int|
                self@.len() <= k < old(out)@.len() ==> #[trigger] final(out)@[k] == old(out)@[k],
    {
        let len = q.len();
        let mut k: usize = 0;
        while k < self.distances.len()
            invariant
                k <= self.distances@.len() <= out@.len(),
                len == q@.len(),
                all_fit(self@, q@.len()),
                out@.len() == old(out)@.len(),
                forall|l: int|
                    0 <= l < k ==> #[trigger] out@[l] == length_error(self@[l], q@),
                forall|l: int| k <= l < out@.len() ==> #[trigger] out@[l] == old(out)@[l],
            decreases self.distances@.len() - k,
        {
            let c = self.distances[k];
            assert(self@[k as int].fits(q@.len()));
            let d = read_vec3(q, 3 * c.j).sub(read_vec3(q, 3 * c.i));
            out[k] = d.norm().sub(c.length);
            k += 1;
        }
    }

    /// Writes the rate of the length error of every rod: zero means that the
    /// rod is neither stretching nor shortening.
    pub fn velocity_residual(&self, q: &[S], v: &[S], out: &mut [S])
        requires
            all_fit(self@, q@.len()),
            all_fit(self@, v@.len()),
            self@.len() <= old(out)@.len(),
        ensures
            final(out)@.len() == old(out)@.len(),
            forall|k: int|
                0 <= k < self@.len() ==> #[trigger] final(out)@[k] == length_rate(
                    self@[k],
                    q@,
                    v@,
                ),
            forall|k: int|
                self@.len() <= k < old(out)@.len() ==> #[trigger] final(out)@[k] == old(out)@[k],
    {
        let len = q.len();
        let mut k: usize = 0;
        while k < self.distances.len()
            invariant
                k <= self.distances@.len() <= out@.len(),
                len == q@.len(),
                all_fit(self@, q@.len()),
                all_fit(self@, v@.len()),
                out@.len() == old(out)@.len(),
                forall|l: int|
                    0 <= l < k ==> #[trigger] out@[l] == length_rate(self@[l], q@, v@),
                forall|l: int| k <= l < out@.len() ==> #[trigger] out@[l] == old(out)@[l],
            decreases self.distances@.len() - k,
        {
            let c = self.distances[k];
            assert(self@[k as int].fits(q@.len()));
            assert(self@[k as int].fits(v@.len()));
            let d = read_vec3(q, 3 * c.j).sub(read_vec3(q, 3 * c.i));
            let dv = read_vec3(v, 3 * c.j).sub(read_vec3(v, 3 * c.i));
            out[k] = unit(d).dot(dv);
            k += 1;
        }
    }

    /// Adds the forces of the multipliers `m` to `out`, a block vector over
    /// the bodies, skipping anchors.
    pub fn add_jacobian_transpose(&self, anchors: &[bool], q: &[S], m: &[S], out: &mut [S])
        requires
            all_fit(self@, q@.len()),
            free_ends_fit(self@, anchors@, old(out)@.len()),
            self@.len() <= m@.len(),
        ensures
            final(out)@ == pushed(self@, anchors@, q@, m@, old(out)@),
    {
        let len = q.len();
        let mut k: usize = 0;
        assert(self@.take(0).len() == 0);
        while k < self.distances.len()
            invariant
                k <= self.distances@.len() <= m@.len(),
                len == q@.len(),
                all_fit(self@, q@.len()),
                free_ends_fit(self@, anchors@, out@.len()),
                out@ == pushed(self@.take(k as int), anchors@, q@, m@, old(out)@),
            decreases self.distances@.len() - k,
        {
            let c = self.distances[k];
            assert(self@[k as int].fits(q@.len()));
            assert(self@[k as int] == c);
            assert(self@.take(k + 1).drop_last() =~= self@.take(k as int));
            let along = unit(read_vec3(q, 3 * c.j).sub(read_vec3(q, 3 * c.i)));
            let w = m[k];
            if !anchors[c.i] {
                accumulate3(out, 3 * c.i, along.scale(w.neg()));
            }
            if !anchors[c.j] {
                accumulate3(out, 3 * c.j, along.scale(w));
            }
            k += 1;
        }
        assert(self@.take(k as int) =~= self@);
    }

    /// Which bodies are anchors.
    pub fn anchor_flags(system: &PhysicalObjectSystem<S>) -> (r: Vec<bool>)
        ensures
            r@ == system@.objects.map_values(|o: PhysicalObject<S>| o.spec_is_anchor()),
    {
        let mut r: Vec<bool> = Vec::new();
        let mut k: usize = 0;
        while k < system.objects.len()
            invariant
                k <= system.objects@.len(),
                r@.len() == k,
                forall|l: int|
                    0 <= l < k ==> #[trigger] r@[l] == system.objects@[l].spec_is_anchor(),
            decreases system.objects@.len() - k,
        {
            r.push(system.objects[k].is_anchor());
            k += 1;
        }
        assert(r@ =~= system@.objects.map_values(|o: PhysicalObject<S>| o.spec_is_anchor()));
        r
    }

    /// The worst length error and the worst rate over the set, in the present
    /// configuration: whether the constraints are actually being held.
    pub fn drift(&self, system: &PhysicalObjectSystem<S>) -> (r: (S, S))
        requires
            forall|k: int|
                0 <= k < self@.len() ==> (#[trigger] self@[k]).i < system@.objects.len()
                    && self@[k].j < system@.objects.len(),
        ensures
            r == (worst_error(self@, system@), worst_rate(self@, system@)),
    {
        let mut g = S::decimal(0, 0);
        let mut gdot = S::decimal(0, 0);
        let mut k: usize = 0;
        while k < self.distances.len()
            invariant
                k <= self.distances@.len(),
                forall|l: int|
                    0 <= l < self@.len() ==> (#[trigger] self@[l]).i < system@.objects.len()
                        && self@[l].j < system@.objects.len(),
                g == worst_error(self@.take(k as int), system@),
                gdot == worst_rate(self@.take(k as int), system@),
            decreases self.distances@.len() - k,
        {
            let c = self.distances[k];
            assert(self@[k as int].i < system@.objects.len());
            assert(self@.take(k + 1).drop_last() =~= self@.take(k as int));
            let a = system.objects[c.i];
            let b = system.objects[c.j];
            let d = b.position.sub(a.position);
            let dv = b.velocity().sub(a.velocity());
            g = g.larger(d.norm().sub(c.length).abs());
            gdot = gdot.larger(unit(d).dot(dv).abs());
            k += 1;
        }
        assert(self@.take(k as int) =~= self@);
        (g, gdot)
    }
}

/// The block vector of the positions of a sequence of bodies.
pub open spec fn positions<S: Scalar>(objects: Seq<PhysicalObject<S>>) -> Seq<S> {
    Seq::new(3 * objects.len(), |k: int| component(objects[k / 3].position, k % 3))
}

/// The block vector of the velocities of a sequence of bodies.
pub open spec fn velocities<S: Scalar>(objects: Seq<PhysicalObject<S>>) -> Seq<S> {
    Seq::new(3 * objects.len(), |k: int| component(objects[k / 3].spec_velocity(), k % 3))
}

/// The block of body `b` is its position, and its velocity.
proof fn block_of_body<S: Scalar>(objects: Seq<PhysicalObject<S>>, b: int)
    requires
        0 <= b < objects.len(),
    ensures
        vec3_at(positions(objects), 3 * b) == objects[b].position,
        vec3_at(velocities(objects), 3 * b) == objects[b].spec_velocity(),
{
    assert((3 * b) / 3 == b && (3 * b) % 3 == 0);
    assert((3 * b + 1) / 3 == b && (3 * b + 1) % 3 == 1);
    assert((3 * b + 2) / 3 == b && (3 * b + 2) % 3 == 2);
}

/// Whatever rod `add_distance` accepts, the set it leaves is well formed again:
/// two different bodies of the system, a usable length, no pair twice.
pub proof fn accepted_rods_keep_the_set_well_formed<S: Scalar>(
    cs: Seq<DistanceConstraint<S>>,
    s: SystemView<S>,
    i: usize,
    j: usize,
    length: Option<S>,
)
    requires
        well_formed(cs, s.objects.len()),
        rod_refusal(cs, s, i, j, length) is None,
    ensures
        well_formed(
            cs.push((DistanceConstraint { i, j, length: rod_length(s, i, j, length) })),
            s.objects.len(),
        ),
{
    let c = DistanceConstraint { i, j, length: rod_length(s, i, j, length) };
    let more = cs.push(c);
    assert forall|k: int, l: int| 0 <= k < l < more.len() implies !(#[trigger] more[k]).joins(
        (#[trigger] more[l]).i,
        more[l].j,
    ) by {
        assert(more[k] == cs[k]);
        if l < cs.len() {
            assert(more[l] == cs[l]);
        }
    }
}

/// Once a rod joins two bodies, a second one between them is refused, whichever
/// of the two is named first.
pub proof fn a_joined_pair_is_refused_in_either_order<S: Scalar>(
    cs: Seq<DistanceConstraint<S>>,
    s: SystemView<S>,
    i: usize,
    j: usize,
    length: Option<S>,
    again: Option<S>,
)
    requires
        rod_refusal(cs, s, i, j, length) is None,
    ensures
        ({
            let more = cs.push(
                (DistanceConstraint { i, j, length: rod_length(s, i, j, length) }),
            );
            &&& rod_refusal(more, s, i, j, again) is Some
            &&& rod_refusal(more, s, j, i, again) is Some
        }),
{
    let more = cs.push((DistanceConstraint { i, j, length: rod_length(s, i, j, length) }));
    assert(more[cs.len() as int].joins(i, j));
    assert(more[cs.len() as int].joins(j, i));
}

/// A rod between two anchors is refused before it is ever made, whatever its
/// length and whatever the set.
pub proof fn a_rod_between_anchors_is_refused<S: Scalar>(
    cs: Seq<DistanceConstraint<S>>,
    s: SystemView<S>,
    i: usize,
    j: usize,
    length: Option<S>,
)
    requires
        i < s.objects.len(),
        j < s.objects.len(),
        s.objects[i as int].spec_is_anchor(),
        s.objects[j as int].spec_is_anchor(),
    ensures
        rod_refusal(cs, s, i, j, length) is Some,
{
}

/// A rod made without a length is consistent at once: in the configuration it
/// was measured from, its error is its own length less that length.
pub proof fn a_bare_rod_starts_consistent<S: Scalar>(s: SystemView<S>, i: usize, j: usize)
    requires
        i < s.objects.len(),
        j < s.objects.len(),
    ensures
        ({
            let here = rod_length(s, i, j, None);
            length_error(
                (DistanceConstraint { i, j, length: here }),
                positions(s.objects),
            ) == here.spec_sub(here)
        }),
{
    block_of_body(s.objects, i as int);
    block_of_body(s.objects, j as int);
}

/// The largest of some numbers, and of zero.
pub open spec fn largest<S: Scalar>(values: Seq<S>) -> S
    decreases values.len(),
{
    if values.len() == 0 {
        zero()
    } else {
        largest(values.drop_last()).spec_larger(values.last())
    }
}

/// How far each rod is from its length in the configuration `q`.
pub open spec fn error_sizes<S: Scalar>(cs: Seq<DistanceConstraint<S>>, q: Seq<S>) -> Seq<S> {
    Seq::new(cs.len(), |k: int| length_error(cs[k], q).spec_abs())
}

/// How fast each rod changes its length in the configuration `q`.
pub open spec fn rate_sizes<S: Scalar>(
    cs: Seq<DistanceConstraint<S>>,
    q: Seq<S>,
    v: Seq<S>,
) -> Seq<S> {
    Seq::new(cs.len(), |k: int| length_rate(cs[k], q, v).spec_abs())
}

/// The drift of a set is what the residuals say of it: the largest size of a
/// length error and of a rate, in the system's own configuration.
pub proof fn drift_is_the_largest_residual<S: Scalar>(
    cs: Seq<DistanceConstraint<S>>,
    s: SystemView<S>,
)
    requires
        forall|k: int|
            0 <= k < cs.len() ==> (#[trigger] cs[k]).i < s.objects.len() && cs[k].j
                < s.objects.len(),
    ensures
        worst_error(cs, s) == largest(error_sizes(cs, positions(s.objects))),
        worst_rate(cs, s) == largest(
            rate_sizes(cs, positions(s.objects), velocities(s.objects)),
        ),
    decreases cs.len(),
{
    let (q, v) = (positions(s.objects), velocities(s.objects));
    if cs.len() > 0 {
        let fewer = cs.drop_last();
        let c = cs[cs.len() - 1];
        block_of_body(s.objects, c.i as int);
        block_of_body(s.objects, c.j as int);
        drift_is_the_largest_residual(fewer, s);
        assert(error_sizes(cs, q).drop_last() =~= error_sizes(fewer, q));
        assert(rate_sizes(cs, q, v).drop_last() =~= rate_sizes(fewer, q, v));
    }
}

/// A rod is taken exactly when it joins two different bodies of the system that
/// no rod joins yet, at a length that is finite and above zero, and at least one
/// of the two can move. Without a length it gets the distance that the two are
/// at.
pub proof fn a_rod_is_taken_exactly_when_it_constrains<S: Scalar>(
    cs: Seq<DistanceConstraint<S>>,
    s: SystemView<S>,
    i: usize,
    j: usize,
    length: Option<S>,
)
    ensures
        rod_refusal(cs, s, i, j, length) is None <==> {
            let here = s.objects[j as int].position.spec_sub(
                s.objects[i as int].position,
            ).spec_norm();
            let l = if length is Some {
                length->Some_0
            } else {
                here
            };
            &&& i < s.objects.len() && j < s.objects.len() && i != j
            &&& forall|k: int|
                0 <= k < cs.len() ==> {
                    let c = #[trigger] cs[k];
                    !(c.i == i && c.j == j) && !(c.i == j && c.j == i)
                }
            &&& l.spec_is_finite() && zero::<S>().spec_less(l)
            &&& !(s.objects[i as int].inverse_mass.spec_same(zero())
                && s.objects[j as int].inverse_mass.spec_same(zero()))
        },
{
    if already_joined(cs, i, j) {
        let k = choose|k: int| 0 <= k < cs.len() && (#[trigger] cs[k]).joins(i, j);
        assert(cs[k].joins(i, j));
    } else {
        assert forall|k: int| 0 <= k < cs.len() implies {
            let c = #[trigger] cs[k];
            !(c.i == i && c.j == j) && !(c.i == j && c.j == i)
        } by {
            assert(!cs[k].joins(i, j));
        }
    }
}

/// A rod that is refused for the bodies it is to join is refused by their names.
pub proof fn a_refused_rod_names_its_bodies<S: Scalar>(
    cs: Seq<DistanceConstraint<S>>,
    s: SystemView<S>,
    i: usize,
    j: usize,
    length: Option<S>,
)
    requires
        i != j,
        i < s.objects.len() && j < s.objects.len() ==> already_joined(cs, i, j) || is_rod_length(
            rod_length(s, i, j, length),
        ),
    ensures
        rod_refusal(cs, s, i, j, length) matches Some(why) ==> mentions(why, numeral(i as nat))
            && mentions(why, numeral(j as nat)),
{
    let n = s.objects.len();
    let (a, b) = (numeral(i as nat), numeral(j as nat));
    let none = Seq::<char>::empty();
    if i >= n || j >= n {
        let last = if n == 0 {
            0
        } else {
            (n - 1) as nat
        };
        let head = "CONSTRAIN needs two existing objects (obj0..obj"@ + numeral(last)
            + "); got obj"@;
        a_text_mentions_its_parts(head, a, " and obj"@ + b);
        a_text_mentions_its_parts(head + a + " and obj"@, b, none);
        assert(head + a + (" and obj"@ + b) =~= head + a + " and obj"@ + b);
        assert(head + a + " and obj"@ + b + none =~= head + a + " and obj"@ + b);
    } else if already_joined(cs, i, j) {
        named_in_order(
            a,
            b,
            " are already constrained — DEL the constraint first (CONSTRAINTS lists them)"@,
        );
    } else {
        named_in_order(
            a,
            b,
            " both have inverse_mass = 0 — a rod between two anchors constrains nothing and makes the DAE singular"@,
        );
    }
}

proof fn named_in_order(a: Seq<char>, b: Seq<char>, tail: Seq<char>)
    ensures
        mentions("obj"@ + a + " and obj"@ + b + tail, a),
        mentions("obj"@ + a + " and obj"@ + b + tail, b),
{
    a_text_mentions_its_parts("obj"@, a, " and obj"@ + b + tail);
    a_text_mentions_its_parts("obj"@ + a + " and obj"@, b, tail);
    assert("obj"@ + a + (" and obj"@ + b + tail) =~= "obj"@ + a + " and obj"@ + b + tail);
}

/// The error of a rod is how much longer it is than it is held at, and its rate
/// the relative velocity of its ends, second less first, along it.
pub proof fn an_error_is_how_much_longer_a_rod_is<S: Scalar>(
    c: DistanceConstraint<S>,
    q: Seq<S>,
    v: Seq<S>,
)
    ensures
        ({
            let (i, j) = (3 * c.i as int, 3 * c.j as int);
            let d = Vec3 {
                x: q[j].spec_sub(q[i]),
                y: q[j + 1].spec_sub(q[i + 1]),
                z: q[j + 2].spec_sub(q[i + 2]),
            };
            let u = Vec3 {
                x: v[j].spec_sub(v[i]),
                y: v[j + 1].spec_sub(v[i + 1]),
                z: v[j + 2].spec_sub(v[i + 2]),
            };
            &&& length_error(c, q) == d.spec_norm().spec_sub(c.length)
            &&& length_rate(c, q, v) == direction(d).spec_dot(u)
        }),
{
}

/// Without constraints there is no drift.
pub proof fn no_rods_no_drift<S: Scalar>(s: SystemView<S>)
    ensures
        worst_error(Seq::<DistanceConstraint<S>>::empty(), s) == zero::<S>(),
        worst_rate(Seq::<DistanceConstraint<S>>::empty(), s) == zero::<S>(),
{
}

/// The multipliers never push an anchor, nor a body that no rod joins: its
/// block of the forces is what it was.
pub proof fn only_joined_free_bodies_are_pushed<S: Scalar>(
    cs: Seq<DistanceConstraint<S>>,
    anchors: Seq<bool>,
    q: Seq<S>,
    m: Seq<S>,
    out: Seq<S>,
    b: int,
)
    requires
        0 <= b < anchors.len(),
        3 * b + 2 < out.len(),
        free_ends_fit(cs, anchors, out.len()),
        anchors[b] || forall|k: int|
            0 <= k < cs.len() ==> (#[trigger] cs[k]).i != b && cs[k].j != b,
    ensures
        vec3_at(pushed(cs, anchors, q, m, out), 3 * b) == vec3_at(out, 3 * b),
        pushed(cs, anchors, q, m, out).len() == out.len(),
    decreases cs.len(),
{
    if cs.len() > 0 {
        let fewer = cs.drop_last();
        assert(free_ends_fit(fewer, anchors, out.len())) by {
            assert(forall|k: int| 0 <= k < fewer.len() ==> #[trigger] fewer[k] == cs[k]);
        }
        only_joined_free_bodies_are_pushed(fewer, anchors, q, m, out, b);
        assert(cs[cs.len() - 1] == cs.last());
    }
}

/// A rod pushes its two free bodies along itself, by the multiplier on one and
/// by its negative on the other.
pub proof fn a_rod_pushes_its_ends_apart<S: Scalar>(
    c: DistanceConstraint<S>,
    anchors: Seq<bool>,
    q: Seq<S>,
    w: S,
    out: Seq<S>,
)
    requires
        c.i != c.j,
        free_ends_fit(seq![c], anchors, out.len()),
    ensures
        !anchors[c.i as int] ==> vec3_at(pushed_by_rod(c, anchors, q, w, out), 3 * c.i) == vec3_at(
            out,
            3 * c.i,
        ).spec_add(direction(c.span(q)).spec_scale(w.spec_neg())),
        !anchors[c.j as int] ==> vec3_at(pushed_by_rod(c, anchors, q, w, out), 3 * c.j) == vec3_at(
            out,
            3 * c.j,
        ).spec_add(direction(c.span(q)).spec_scale(w)),
{
    assert(seq![c][0] == c);
}

} // verus!
