pub mod interpolate;
pub mod vector;

pub use interpolate::{barycentric_interpolate, bi_lerp, lerp, perspective_interpolate};
pub use vector::{Vector2, Vector3, Vector4};

use std::ops::{Add, Div, Mul, Rem, Sub};
use vstd::prelude::*;
use vstd::std_specs::cmp::{PartialOrdIs, PartialOrdSpec};
use vstd::std_specs::convert::FromSpec;
use vstd::std_specs::ops::{AddSpec, DivSpec, MulSpec, RemSpec, SubSpec};

verus! {

/// Values that can be blended: added, subtracted and multiplied among
/// themselves, and scaled by a weight of type `W`.
pub trait Arithmetic<W>: Add<Output = Self> + Sub<Output = Self> + Mul<Output = Self> + Mul<
    W,
    Output = Self,
> + Sized {

}

impl<T, W> Arithmetic<W> for T where
    T: Add<Output = T> + Sub<Output = T> + Mul<Output = T> + Mul<W, Output = T> + Sized,
 {
}

/// The numbers the pipeline computes with: ordered, with the four basic
/// operations and the remainder, and with the small whole numbers among
/// them.
pub trait Scalar: Copy + PartialOrd + From<u8> + Add<Output = Self> + Sub<Output = Self> + Mul<
    Output = Self,
> + Div<Output = Self> + Rem<Output = Self> {

}

impl<S> Scalar for S where
    S: Copy + PartialOrd + From<u8> + Add<Output = S> + Sub<Output = S> + Mul<Output = S> + Div<
        Output = S,
    > + Rem<Output = S>,
 {
}

/// Whether every operation of `S` is defined for all operands, as it is for
/// numbers that have infinities rather than overflow.
pub open spec fn scalar_total<S: Scalar>() -> bool {
    &&& forall|a: S, b: S| #[trigger] a.add_req(b)
    &&& forall|a: S, b: S| #[trigger] a.sub_req(b)
    &&& forall|a: S, b: S| #[trigger] a.mul_req(b)
    &&& forall|a: S, b: S| #[trigger] a.div_req(b)
    &&& forall|a: S, b: S| #[trigger] a.rem_req(b)
}

/// Whether the operations of `S` compute what their specifications say.
pub open spec fn scalar_exact<S: Scalar>() -> bool {
    &&& S::obeys_add_spec()
    &&& S::obeys_sub_spec()
    &&& S::obeys_mul_spec()
    &&& S::obeys_div_spec()
    &&& S::obeys_rem_spec()
    &&& <S as FromSpec<u8>>::obeys_from_spec()
    &&& order_known::<S>()
}

/// The whole number `n` as an `S`.
pub open spec fn number<S: Scalar>(n: u8) -> S {
    S::from_spec(n)
}

/// Whether comparisons of values of type `S` have a fixed meaning.
pub open spec fn order_known<S: PartialOrd>() -> bool {
    S::obeys_partial_cmp_spec()
}

/// Whether `a` is strictly less than `b`.
pub open spec fn less<S: PartialOrd>(a: S, b: S) -> bool {
    a.is_lt(&b)
}

/// Is `a` strictly less than `b`?
pub fn is_less<S: PartialOrd>(a: &S, b: &S) -> (r: bool)
    ensures
        order_known::<S>() ==> r == less(*a, *b),
{
    *a < *b
}

/// Whether `a` is less than or equal to `b`.
pub open spec fn at_most<S: PartialOrd>(a: S, b: S) -> bool {
    a.is_le(&b)
}

/// Is `a` less than or equal to `b`?
pub fn is_at_most<S: PartialOrd>(a: &S, b: &S) -> (r: bool)
    ensures
        order_known::<S>() ==> r == at_most(*a, *b),
{
    *a <= *b
}

/// Whether differences and products of `S` are defined for all operands.
pub open spec fn ring_total<S: Sub<Output = S> + Mul<Output = S>>() -> bool {
    &&& forall|a: S, b: S| #[trigger] a.sub_req(b)
    &&& forall|a: S, b: S| #[trigger] a.mul_req(b)
}

/// Whether `-` and `*` on `S` compute what `sub_spec` and `mul_spec` say.
pub open spec fn ring_exact<S: Sub<Output = S> + Mul<Output = S>>() -> bool {
    S::obeys_sub_spec() && S::obeys_mul_spec()
}

/// Whether sums of `T` and its products with weights of type `S` are defined
/// for all operands.
pub open spec fn blend_total<T: Add<Output = T> + Mul<S, Output = T>, S>() -> bool {
    &&& forall|a: T, b: T| #[trigger] a.add_req(b)
    &&& forall|a: T, k: S| #[trigger] a.mul_req(k)
}

/// Whether `+` on `T` and `*` of a `T` by an `S` compute what their
/// specifications say.
pub open spec fn blend_exact<T: Add<Output = T> + Mul<S, Output = T>, S>() -> bool {
    T::obeys_add_spec() && <T as MulSpec<S>>::obeys_mul_spec()
}

} // verus!
