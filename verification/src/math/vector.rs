use std::ops::{Add, Mul, Sub};
use vstd::prelude::*;
use vstd::std_specs::ops::{AddSpec, AddSpecImpl, MulSpec, MulSpecImpl, SubSpec, SubSpecImpl};

verus! {

/// A point or direction of the plane with coordinates of type `S`.
#[derive(Debug, Default, Clone, Copy, PartialEq)]
pub struct Vector2<S> {
    pub x: S,
    pub y: S,
}

impl<S> Vector2<S> {
    /// The vector `(x, y)`.
    pub fn new(x: S, y: S) -> (v: Self)
        ensures
            v.x == x,
            v.y == y,
    {
        Vector2 { x, y }
    }
}

impl<S: Sub<Output = S>> Vector2<S> {
    /// The difference of two vectors, coordinate by coordinate.
    pub open spec fn minus(self, rhs: Vector2<S>) -> Vector2<S> {
        Vector2 { x: self.x.sub_spec(rhs.x), y: self.y.sub_spec(rhs.y) }
    }
}

impl<S: Add<Output = S>> Add for Vector2<S> {
    type Output = Vector2<S>;

    fn add(self, rhs: Vector2<S>) -> (sum: Vector2<S>) {
        Vector2 { x: self.x + rhs.x, y: self.y + rhs.y }
    }
}

impl<S: Add<Output = S>> AddSpecImpl for Vector2<S> {
    open spec fn obeys_add_spec() -> bool {
        S::obeys_add_spec()
    }

    open spec fn add_req(self, rhs: Vector2<S>) -> bool {
        self.x.add_req(rhs.x) && self.y.add_req(rhs.y)
    }

    open spec fn add_spec(self, rhs: Vector2<S>) -> Vector2<S> {
        Vector2 { x: self.x.add_spec(rhs.x), y: self.y.add_spec(rhs.y) }
    }
}

impl<S: Sub<Output = S>> Sub for Vector2<S> {
    type Output = Vector2<S>;

    fn sub(self, rhs: Vector2<S>) -> (difference: Vector2<S>) {
        Vector2 { x: self.x - rhs.x, y: self.y - rhs.y }
    }
}

impl<S: Sub<Output = S>> SubSpecImpl for Vector2<S> {
    open spec fn obeys_sub_spec() -> bool {
        S::obeys_sub_spec()
    }

    open spec fn sub_req(self, rhs: Vector2<S>) -> bool {
        self.x.sub_req(rhs.x) && self.y.sub_req(rhs.y)
    }

    open spec fn sub_spec(self, rhs: Vector2<S>) -> Vector2<S> {
        Vector2 { x: self.x.sub_spec(rhs.x), y: self.y.sub_spec(rhs.y) }
    }
}

impl<S: Copy + Mul<Output = S>> Mul<S> for Vector2<S> {
    type Output = Vector2<S>;

    fn mul(self, rhs: S) -> (scaled: Vector2<S>) {
        Vector2 { x: self.x * rhs, y: self.y * rhs }
    }
}

impl<S: Copy + Mul<Output = S>> MulSpecImpl<S> for Vector2<S> {
    open spec fn obeys_mul_spec() -> bool {
        S::obeys_mul_spec()
    }

    open spec fn mul_req(self, rhs: S) -> bool {
        self.x.mul_req(rhs) && self.y.mul_req(rhs)
    }

    open spec fn mul_spec(self, rhs: S) -> Vector2<S> {
        Vector2 { x: self.x.mul_spec(rhs), y: self.y.mul_spec(rhs) }
    }
}

/// A point or direction of space with coordinates of type `S`.
#[derive(Debug, Default, Clone, Copy, PartialEq)]
pub struct Vector3<S> {
    pub x: S,
    pub y: S,
    pub z: S,
}

impl<S: Add<Output = S>> Add for Vector3<S> {
    type Output = Vector3<S>;

    fn add(self, rhs: Vector3<S>) -> (sum: Vector3<S>) {
        Vector3 { x: self.x + rhs.x, y: self.y + rhs.y, z: self.z + rhs.z }
    }
}

impl<S: Add<Output = S>> AddSpecImpl for Vector3<S> {
    open spec fn obeys_add_spec() -> bool {
        S::obeys_add_spec()
    }

    open spec fn add_req(self, rhs: Vector3<S>) -> bool {
        self.x.add_req(rhs.x) && self.y.add_req(rhs.y) && self.z.add_req(rhs.z)
    }

    open spec fn add_spec(self, rhs: Vector3<S>) -> Vector3<S> {
        Vector3 { x: self.x.add_spec(rhs.x), y: self.y.add_spec(rhs.y), z: self.z.add_spec(rhs.z) }
    }
}

impl<S: Sub<Output = S>> Sub for Vector3<S> {
    type Output = Vector3<S>;

    fn sub(self, rhs: Vector3<S>) -> (difference: Vector3<S>) {
        Vector3 { x: self.x - rhs.x, y: self.y - rhs.y, z: self.z - rhs.z }
    }
}

impl<S: Sub<Output = S>> SubSpecImpl for Vector3<S> {
    open spec fn obeys_sub_spec() -> bool {
        S::obeys_sub_spec()
    }

    open spec fn sub_req(self, rhs: Vector3<S>) -> bool {
        self.x.sub_req(rhs.x) && self.y.sub_req(rhs.y) && self.z.sub_req(rhs.z)
    }

    open spec fn sub_spec(self, rhs: Vector3<S>) -> Vector3<S> {
        Vector3 { x: self.x.sub_spec(rhs.x), y: self.y.sub_spec(rhs.y), z: self.z.sub_spec(rhs.z) }
    }
}

impl<S: Copy + Mul<Output = S>> Mul<S> for Vector3<S> {
    type Output = Vector3<S>;

    fn mul(self, rhs: S) -> (scaled: Vector3<S>) {
        Vector3 { x: self.x * rhs, y: self.y * rhs, z: self.z * rhs }
    }
}

impl<S: Copy + Mul<Output = S>> MulSpecImpl<S> for Vector3<S> {
    open spec fn obeys_mul_spec() -> bool {
        S::obeys_mul_spec()
    }

    open spec fn mul_req(self, rhs: S) -> bool {
        self.x.mul_req(rhs) && self.y.mul_req(rhs) && self.z.mul_req(rhs)
    }

    open spec fn mul_spec(self, rhs: S) -> Vector3<S> {
        Vector3 { x: self.x.mul_spec(rhs), y: self.y.mul_spec(rhs), z: self.z.mul_spec(rhs) }
    }
}

impl<S> Vector3<S> {
    /// The vector `(x, y, z)`.
    pub fn new(x: S, y: S, z: S) -> (v: Self)
        ensures
            v.x == x,
            v.y == y,
            v.z == z,
    {
        Vector3 { x, y, z }
    }
}

impl<S: Copy> Vector3<S> {
    /// The vector whose coordinates all equal `n`.
    pub fn splat(n: S) -> (v: Self)
        ensures
            v == (Vector3 { x: n, y: n, z: n }),
    {
        Vector3 { x: n, y: n, z: n }
    }

    /// The first two coordinates.
    pub fn xy(&self) -> (v: Vector2<S>)
        ensures
            v == (Vector2 { x: self.x, y: self.y }),
    {
        Vector2 { x: self.x, y: self.y }
    }
}

impl<S: Sub<Output = S>> Vector3<S> {
    /// The difference of two vectors, coordinate by coordinate.
    pub open spec fn minus(self, rhs: Vector3<S>) -> Vector3<S> {
        Vector3 { x: self.x.sub_spec(rhs.x), y: self.y.sub_spec(rhs.y), z: self.z.sub_spec(rhs.z) }
    }
}

impl<S: Mul<Output = S>> Vector3<S> {
    /// The vector with every coordinate multiplied by `k`.
    pub open spec fn scaled(self, k: S) -> Vector3<S> {
        Vector3 { x: self.x.mul_spec(k), y: self.y.mul_spec(k), z: self.z.mul_spec(k) }
    }
}

impl<S: Copy + Sub<Output = S> + Mul<Output = S>> Vector3<S> {
    /// The cross product `self x other`,
    /// `(y * oz - z * oy, z * ox - x * oz, x * oy - y * ox)`.
    pub open spec fn cross_value(self, other: Vector3<S>) -> Vector3<S> {
        Vector3 {
            x: self.y.mul_spec(other.z).sub_spec(self.z.mul_spec(other.y)),
            y: self.z.mul_spec(other.x).sub_spec(self.x.mul_spec(other.z)),
            z: self.x.mul_spec(other.y).sub_spec(self.y.mul_spec(other.x)),
        }
    }

    /// The cross product of two vectors.
    pub fn cross(&self, other: &Vector3<S>) -> (r: Vector3<S>)
        requires
            crate::math::ring_total::<S>(),
        ensures
            crate::math::ring_exact::<S>() ==> r == self.cross_value(*other),
    {
        Vector3 {
            x: self.y * other.z - self.z * other.y,
            y: self.z * other.x - self.x * other.z,
            z: self.x * other.y - self.y * other.x,
        }
    }
}

impl<S: Copy + Add<Output = S> + Mul<Output = S>> Vector3<S> {
    /// The dot product `x * ox + y * oy + z * oz`.
    pub open spec fn dot_value(self, other: Vector3<S>) -> S {
        self.x.mul_spec(other.x).add_spec(self.y.mul_spec(other.y)).add_spec(
            self.z.mul_spec(other.z),
        )
    }

    /// The dot product of two vectors.
    pub fn dot(&self, other: &Vector3<S>) -> (r: S)
        requires
            forall|a: S, b: S| #[trigger] a.add_req(b),
            forall|a: S, b: S| #[trigger] a.mul_req(b),
        ensures
            S::obeys_add_spec() && S::obeys_mul_spec() ==> r == self.dot_value(*other),
    {
        self.x * other.x + self.y * other.y + self.z * other.z
    }
}

/// A point in homogeneous coordinates of type `S`.
#[derive(Debug, Default, Clone, Copy, PartialEq)]
pub struct Vector4<S> {
    pub x: S,
    pub y: S,
    pub z: S,
    pub w: S,
}

impl<S> Vector4<S> {
    /// The vector `(x, y, z, w)`.
    pub fn new(x: S, y: S, z: S, w: S) -> (v: Self)
        ensures
            v.x == x,
            v.y == y,
            v.z == z,
            v.w == w,
    {
        Vector4 { x, y, z, w }
    }
}

impl<S: Copy> Vector4<S> {
    /// The first three coordinates.
    pub fn xyz(&self) -> (v: Vector3<S>)
        ensures
            v == (Vector3 { x: self.x, y: self.y, z: self.z }),
    {
        Vector3 { x: self.x, y: self.y, z: self.z }
    }
}

} // verus!
