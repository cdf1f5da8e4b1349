use std::ops::{Add, Mul};
use vstd::prelude::*;
use vstd::std_specs::convert::FromSpec;
use vstd::std_specs::ops::{AddSpec, DivSpec, MulSpec, SubSpec};

use crate::math::{blend_exact, blend_total, number, scalar_exact, scalar_total, Scalar};

verus! {

/// The weighted sum `v0 * w0 + v1 * w1 + v2 * w2` of three values.
pub fn barycentric_interpolate<T, W>(w0: W, w1: W, w2: W, v0: T, v1: T, v2: T) -> (r: T) where
    T: Mul<W, Output = T> + Add<Output = T>,

    requires
        blend_total::<T, W>(),
    ensures
        blend_exact::<T, W>() ==> r == v0.mul_spec(w0).add_spec(v1.mul_spec(w1)).add_spec(
            v2.mul_spec(w2),
        ),
{
    v0 * w0 + v1 * w1 + v2 * w2
}

/// The blend `a * (1 - t) + b * t`.
pub open spec fn lerp_value<T: Add<Output = T> + Mul<S, Output = T>, S: Scalar>(
    a: T,
    b: T,
    t: S,
) -> T {
    a.mul_spec(number::<S>(1).sub_spec(t)).add_spec(b.mul_spec(t))
}

/// Linear interpolation from `a` at `t = 0` to `b` at `t = 1`.
pub fn lerp<T, S>(a: T, b: T, t: S) -> (r: T) where
    T: Copy + Add<Output = T> + Mul<S, Output = T>,
    S: Scalar,

    requires
        scalar_total::<S>(),
        blend_total::<T, S>(),
    ensures
        scalar_exact::<S>() && blend_exact::<T, S>() ==> r == lerp_value(a, b, t),
{
    let one = S::from(1u8);
    a * (one - t) + b * t
}

/// Bilinear interpolation of the corners of a cell: first along `x` on both
/// rows, from `c00` to `c10` and from `c01` to `c11`, then along `y`.
pub fn bi_lerp<T, S>(c00: T, c01: T, c10: T, c11: T, dx: S, dy: S) -> (r: T) where
    T: Copy + Add<Output = T> + Mul<S, Output = T>,
    S: Scalar,

    requires
        scalar_total::<S>(),
        blend_total::<T, S>(),
    ensures
        scalar_exact::<S>() && blend_exact::<T, S>() ==> r == lerp_value(
            lerp_value(c00, c10, dx),
            lerp_value(c01, c11, dx),
            dy,
        ),
{
    let a = lerp(c00, c10, dx);
    let b = lerp(c01, c11, dx);
    lerp(a, b, dy)
}

/// Perspective-correct interpolation: the barycentric blend of three values
/// that were scaled by the `1/w` of their corner, divided by the
/// interpolated `1/w`, which undoes the scaling.
pub fn perspective_interpolate<T, S>(bary: (S, S, S), inv_d_lerped: S, elements: (T, T, T)) -> (r:
    T) where T: Copy + Add<Output = T> + Mul<S, Output = T>, S: Scalar
    requires
        scalar_total::<S>(),
        blend_total::<T, S>(),
    ensures
        scalar_exact::<S>() && blend_exact::<T, S>() ==> r == elements.0.mul_spec(
            bary.0,
        ).add_spec(elements.1.mul_spec(bary.1)).add_spec(elements.2.mul_spec(bary.2)).mul_spec(
            number::<S>(1).div_spec(inv_d_lerped),
        ),
{
    let one = S::from(1u8);
    let v_prime = barycentric_interpolate(
        bary.0,
        bary.1,
        bary.2,
        elements.0,
        elements.1,
        elements.2,
    );
    v_prime * (one / inv_d_lerped)
}

} // verus!
