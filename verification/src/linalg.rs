//! Vectors, matrices and quaternions in three dimensions.

use crate::scalar::{one, two, zero, Scalar};
use vstd::prelude::*;

verus! {

/// A vector.
#[derive(Clone, Copy, Debug)]
pub struct Vec3<S> {
    pub x: S,
    pub y: S,
    pub z: S,
}

impl<S: Scalar> Vec3<S> {
    /// The zero vector.
    pub open spec fn spec_zeros() -> Self {
        Vec3 { x: zero(), y: zero(), z: zero() }
    }

    pub fn zeros() -> (r: Self)
        ensures
            r == Self::spec_zeros(),
    {
        Vec3 { x: S::decimal(0, 0), y: S::decimal(0, 0), z: S::decimal(0, 0) }
    }

    pub fn new(x: S, y: S, z: S) -> (r: Self)
        ensures
            r == (Vec3 { x, y, z }),
    {
        Vec3 { x, y, z }
    }

    /// The componentwise sum.
    pub open spec fn spec_add(self, other: Self) -> Self {
        Vec3 {
            x: self.x.spec_add(other.x),
            y: self.y.spec_add(other.y),
            z: self.z.spec_add(other.z),
        }
    }

    pub fn add(self, other: Self) -> (r: Self)
        ensures
            r == self.spec_add(other),
    {
        Vec3 { x: self.x.add(other.x), y: self.y.add(other.y), z: self.z.add(other.z) }
    }

    /// The componentwise difference.
    pub open spec fn spec_sub(self, other: Self) -> Self {
        Vec3 {
            x: self.x.spec_sub(other.x),
            y: self.y.spec_sub(other.y),
            z: self.z.spec_sub(other.z),
        }
    }

    pub fn sub(self, other: Self) -> (r: Self)
        ensures
            r == self.spec_sub(other),
    {
        Vec3 { x: self.x.sub(other.x), y: self.y.sub(other.y), z: self.z.sub(other.z) }
    }

    /// The vector with each component multiplied by `k`.
    pub open spec fn spec_scale(self, k: S) -> Self {
        Vec3 { x: self.x.spec_mul(k), y: self.y.spec_mul(k), z: self.z.spec_mul(k) }
    }

    pub fn scale(self, k: S) -> (r: Self)
        ensures
            r == self.spec_scale(k),
    {
        Vec3 { x: self.x.mul(k), y: self.y.mul(k), z: self.z.mul(k) }
    }

    /// The scalar product.
    pub open spec fn spec_dot(self, other: Self) -> S {
        self.x.spec_mul(other.x).spec_add(self.y.spec_mul(other.y)).spec_add(
            self.z.spec_mul(other.z),
        )
    }

    pub fn dot(self, other: Self) -> (r: S)
        ensures
            r == self.spec_dot(other),
    {
        self.x.mul(other.x).add(self.y.mul(other.y)).add(self.z.mul(other.z))
    }

    /// The vector product.
    pub open spec fn spec_cross(self, other: Self) -> Self {
        Vec3 {
            x: self.y.spec_mul(other.z).spec_sub(self.z.spec_mul(other.y)),
            y: self.z.spec_mul(other.x).spec_sub(self.x.spec_mul(other.z)),
            z: self.x.spec_mul(other.y).spec_sub(self.y.spec_mul(other.x)),
        }
    }

    pub fn cross(self, other: Self) -> (r: Self)
        ensures
            r == self.spec_cross(other),
    {
        Vec3 {
            x: self.y.mul(other.z).sub(self.z.mul(other.y)),
            y: self.z.mul(other.x).sub(self.x.mul(other.z)),
            z: self.x.mul(other.y).sub(self.y.mul(other.x)),
        }
    }

    /// The squared length.
    pub open spec fn spec_norm_squared(self) -> S {
        self.spec_dot(self)
    }

    pub fn norm_squared(self) -> (r: S)
        ensures
            r == self.spec_norm_squared(),
    {
        self.dot(self)
    }

    /// The length.
    pub open spec fn spec_norm(self) -> S {
        self.spec_norm_squared().spec_sqrt()
    }

    pub fn norm(self) -> (r: S)
        ensures
            r == self.spec_norm(),
    {
        self.norm_squared().sqrt()
    }

    /// Numeric equality of all components.
    pub open spec fn spec_same(self, other: Self) -> bool {
        &&& self.x.spec_same(other.x)
        &&& self.y.spec_same(other.y)
        &&& self.z.spec_same(other.z)
    }

    pub fn same(self, other: Self) -> (r: bool)
        ensures
            r == self.spec_same(other),
    {
        self.x.same(other.x) && self.y.same(other.y) && self.z.same(other.z)
    }

    /// Numeric equality with the zero vector.
    pub open spec fn spec_is_zero(self) -> bool {
        self.spec_same(Self::spec_zeros())
    }

    pub fn is_zero(self) -> (r: bool)
        ensures
            r == self.spec_is_zero(),
    {
        self.same(Self::zeros())
    }
}

/// A matrix, by its rows.
#[derive(Clone, Copy, Debug)]
pub struct Mat3<S> {
    pub r0: Vec3<S>,
    pub r1: Vec3<S>,
    pub r2: Vec3<S>,
}

impl<S: Scalar> Mat3<S> {
    /// The zero matrix.
    pub open spec fn spec_zeros() -> Self {
        Mat3 { r0: Vec3::spec_zeros(), r1: Vec3::spec_zeros(), r2: Vec3::spec_zeros() }
    }

    pub fn zeros() -> (r: Self)
        ensures
            r == Self::spec_zeros(),
    {
        Mat3 { r0: Vec3::zeros(), r1: Vec3::zeros(), r2: Vec3::zeros() }
    }

    /// Rows and columns exchanged.
    pub open spec fn spec_transpose(self) -> Self {
        Mat3 {
            r0: Vec3 { x: self.r0.x, y: self.r1.x, z: self.r2.x },
            r1: Vec3 { x: self.r0.y, y: self.r1.y, z: self.r2.y },
            r2: Vec3 { x: self.r0.z, y: self.r1.z, z: self.r2.z },
        }
    }

    pub fn transpose(self) -> (r: Self)
        ensures
            r == self.spec_transpose(),
    {
        Mat3 {
            r0: Vec3 { x: self.r0.x, y: self.r1.x, z: self.r2.x },
            r1: Vec3 { x: self.r0.y, y: self.r1.y, z: self.r2.y },
            r2: Vec3 { x: self.r0.z, y: self.r1.z, z: self.r2.z },
        }
    }

    /// The product with a column vector.
    pub open spec fn spec_apply(self, v: Vec3<S>) -> Vec3<S> {
        Vec3 { x: self.r0.spec_dot(v), y: self.r1.spec_dot(v), z: self.r2.spec_dot(v) }
    }

    pub fn apply(self, v: Vec3<S>) -> (r: Vec3<S>)
        ensures
            r == self.spec_apply(v),
    {
        Vec3 { x: self.r0.dot(v), y: self.r1.dot(v), z: self.r2.dot(v) }
    }

    /// The matrix product.
    pub open spec fn spec_mul(self, other: Self) -> Self {
        let columns = other.spec_transpose();
        Mat3 {
            r0: columns.spec_apply(self.r0),
            r1: columns.spec_apply(self.r1),
            r2: columns.spec_apply(self.r2),
        }
    }

    pub fn mul(self, other: Self) -> (r: Self)
        ensures
            r == self.spec_mul(other),
    {
        let columns = other.transpose();
        Mat3 {
            r0: columns.apply(self.r0),
            r1: columns.apply(self.r1),
            r2: columns.apply(self.r2),
        }
    }

    /// Numeric equality with the zero matrix.
    pub open spec fn spec_is_zero(self) -> bool {
        self.r0.spec_is_zero() && self.r1.spec_is_zero() && self.r2.spec_is_zero()
    }

    pub fn is_zero(self) -> (r: bool)
        ensures
            r == self.spec_is_zero(),
    {
        self.r0.is_zero() && self.r1.is_zero() && self.r2.is_zero()
    }
}

/// A quaternion with scalar part `w`.
#[derive(Clone, Copy, Debug)]
pub struct Quat<S> {
    pub w: S,
    pub x: S,
    pub y: S,
    pub z: S,
}

impl<S: Scalar> Quat<S> {
    pub fn new(w: S, x: S, y: S, z: S) -> (r: Self)
        ensures
            r == (Quat { w, x, y, z }),
    {
        Quat { w, x, y, z }
    }

    /// The quaternion `(0, v)`.
    pub open spec fn spec_pure(v: Vec3<S>) -> Self {
        Quat { w: zero(), x: v.x, y: v.y, z: v.z }
    }

    pub fn pure(v: Vec3<S>) -> (r: Self)
        ensures
            r == Self::spec_pure(v),
    {
        Quat { w: S::decimal(0, 0), x: v.x, y: v.y, z: v.z }
    }

    /// Each component multiplied by `k`.
    pub open spec fn spec_scale(self, k: S) -> Self {
        Quat {
            w: self.w.spec_mul(k),
            x: self.x.spec_mul(k),
            y: self.y.spec_mul(k),
            z: self.z.spec_mul(k),
        }
    }

    pub fn scale(self, k: S) -> (r: Self)
        ensures
            r == self.spec_scale(k),
    {
        Quat { w: self.w.mul(k), x: self.x.mul(k), y: self.y.mul(k), z: self.z.mul(k) }
    }

    /// The Hamilton product.
    pub open spec fn spec_mul(self, q: Self) -> Self {
        Quat {
            w: self.w.spec_mul(q.w).spec_sub(self.x.spec_mul(q.x)).spec_sub(
                self.y.spec_mul(q.y),
            ).spec_sub(self.z.spec_mul(q.z)),
            x: self.w.spec_mul(q.x).spec_add(self.x.spec_mul(q.w)).spec_add(
                self.y.spec_mul(q.z),
            ).spec_sub(self.z.spec_mul(q.y)),
            y: self.w.spec_mul(q.y).spec_sub(self.x.spec_mul(q.z)).spec_add(
                self.y.spec_mul(q.w),
            ).spec_add(self.z.spec_mul(q.x)),
            z: self.w.spec_mul(q.z).spec_add(self.x.spec_mul(q.y)).spec_sub(
                self.y.spec_mul(q.x),
            ).spec_add(self.z.spec_mul(q.w)),
        }
    }

    pub fn mul(self, q: Self) -> (r: Self)
        ensures
            r == self.spec_mul(q),
    {
        Quat {
            w: self.w.mul(q.w).sub(self.x.mul(q.x)).sub(self.y.mul(q.y)).sub(self.z.mul(q.z)),
            x: self.w.mul(q.x).add(self.x.mul(q.w)).add(self.y.mul(q.z)).sub(self.z.mul(q.y)),
            y: self.w.mul(q.y).sub(self.x.mul(q.z)).add(self.y.mul(q.w)).add(self.z.mul(q.x)),
            z: self.w.mul(q.z).add(self.x.mul(q.y)).sub(self.y.mul(q.x)).add(self.z.mul(q.w)),
        }
    }

    /// The length.
    pub open spec fn spec_norm(self) -> S {
        self.w.spec_mul(self.w).spec_add(self.x.spec_mul(self.x)).spec_add(
            self.y.spec_mul(self.y),
        ).spec_add(self.z.spec_mul(self.z)).spec_sqrt()
    }

    pub fn norm(self) -> (r: S)
        ensures
            r == self.spec_norm(),
    {
        self.w.mul(self.w).add(self.x.mul(self.x)).add(self.y.mul(self.y)).add(
            self.z.mul(self.z),
        ).sqrt()
    }

    /// The quaternion of length one in the same direction.
    pub open spec fn spec_normalize(self) -> Self {
        self.spec_scale(one::<S>().spec_div(self.spec_norm()))
    }

    pub fn normalize(self) -> (r: Self)
        ensures
            r == self.spec_normalize(),
    {
        self.scale(S::decimal(1, 0).div(self.norm()))
    }

    /// The rotation matrix of a quaternion of length one.
    pub open spec fn spec_to_rotation_matrix(self) -> Mat3<S> {
        let (w, x, y, z) = (self.w, self.x, self.y, self.z);
        let twice = |a: S| two::<S>().spec_mul(a);
        Mat3 {
            r0: Vec3 {
                x: one::<S>().spec_sub(twice(y.spec_mul(y).spec_add(z.spec_mul(z)))),
                y: twice(x.spec_mul(y).spec_sub(w.spec_mul(z))),
                z: twice(x.spec_mul(z).spec_add(w.spec_mul(y))),
            },
            r1: Vec3 {
                x: twice(x.spec_mul(y).spec_add(w.spec_mul(z))),
                y: one::<S>().spec_sub(twice(x.spec_mul(x).spec_add(z.spec_mul(z)))),
                z: twice(y.spec_mul(z).spec_sub(w.spec_mul(x))),
            },
            r2: Vec3 {
                x: twice(x.spec_mul(z).spec_sub(w.spec_mul(y))),
                y: twice(y.spec_mul(z).spec_add(w.spec_mul(x))),
                z: one::<S>().spec_sub(twice(x.spec_mul(x).spec_add(y.spec_mul(y)))),
            },
        }
    }

    pub fn to_rotation_matrix(self) -> (r: Mat3<S>)
        ensures
            r == self.spec_to_rotation_matrix(),
    {
        let (w, x, y, z) = (self.w, self.x, self.y, self.z);
        let one = S::decimal(1, 0);
        let two = S::decimal(2, 0);
        Mat3 {
            r0: Vec3 {
                x: one.sub(two.mul(y.mul(y).add(z.mul(z)))),
                y: two.mul(x.mul(y).sub(w.mul(z))),
                z: two.mul(x.mul(z).add(w.mul(y))),
            },
            r1: Vec3 {
                x: two.mul(x.mul(y).add(w.mul(z))),
                y: one.sub(two.mul(x.mul(x).add(z.mul(z)))),
                z: two.mul(y.mul(z).sub(w.mul(x))),
            },
            r2: Vec3 {
                x: two.mul(x.mul(z).sub(w.mul(y))),
                y: two.mul(y.mul(z).add(w.mul(x))),
                z: one.sub(two.mul(x.mul(x).add(y.mul(y)))),
            },
        }
    }
}

/// The vector at components `at`, `at + 1`, `at + 2` of a packed state.
pub open spec fn vec3_at<S>(d: Seq<S>, at: int) -> Vec3<S> {
    Vec3 { x: d[at], y: d[at + 1], z: d[at + 2] }
}

/// The quaternion at components `at` to `at + 3` of a packed state.
pub open spec fn quat_at<S>(d: Seq<S>, at: int) -> Quat<S> {
    Quat { w: d[at], x: d[at + 1], y: d[at + 2], z: d[at + 3] }
}

/// A packed state with the vector `v` written at `at`.
pub open spec fn with_vec3<S>(d: Seq<S>, at: int, v: Vec3<S>) -> Seq<S> {
    d.update(at, v.x).update(at + 1, v.y).update(at + 2, v.z)
}

/// A packed state with the quaternion `q` written at `at`.
pub open spec fn with_quat<S>(d: Seq<S>, at: int, q: Quat<S>) -> Seq<S> {
    d.update(at, q.w).update(at + 1, q.x).update(at + 2, q.y).update(at + 3, q.z)
}

pub fn read_vec3<S: Scalar>(d: &[S], at: usize) -> (r: Vec3<S>)
    requires
        at + 2 < d@.len(),
    ensures
        r == vec3_at(d@, at as int),
{
    Vec3 { x: d[at], y: d[at + 1], z: d[at + 2] }
}

pub fn write_vec3<S: Scalar>(d: &mut [S], at: usize, v: Vec3<S>)
    requires
        at + 2 < old(d)@.len(),
    ensures
        final(d)@ == with_vec3(old(d)@, at as int, v),
{
    d[at] = v.x;
    d[at + 1] = v.y;
    d[at + 2] = v.z;
}

pub fn read_quat<S: Scalar>(d: &[S], at: usize) -> (r: Quat<S>)
    requires
        at + 3 < d@.len(),
    ensures
        r == quat_at(d@, at as int),
{
    Quat { w: d[at], x: d[at + 1], y: d[at + 2], z: d[at + 3] }
}

pub fn write_quat<S: Scalar>(d: &mut [S], at: usize, q: Quat<S>)
    requires
        at + 3 < old(d)@.len(),
    ensures
        final(d)@ == with_quat(old(d)@, at as int, q),
{
    d[at] = q.w;
    d[at + 1] = q.x;
    d[at + 2] = q.y;
    d[at + 3] = q.z;
}

} // verus!
