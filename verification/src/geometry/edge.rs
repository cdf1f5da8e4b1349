use std::ops::{Mul, Sub};
use vstd::prelude::*;
use vstd::std_specs::ops::{MulSpec, SubSpec};

use crate::math::{ring_exact, ring_total, Vector2};

verus! {

/// The edge function: twice the signed area of the triangle `(v0, v1, p)`,
/// `(p.x - v0.x) * (v1.y - v0.y) - (p.y - v0.y) * (v1.x - v0.x)`.
pub open spec fn edge_value<S: Sub<Output = S> + Mul<Output = S>>(
    v0: Vector2<S>,
    v1: Vector2<S>,
    p: Vector2<S>,
) -> S {
    p.x.sub_spec(v0.x).mul_spec(v1.y.sub_spec(v0.y)).sub_spec(
        p.y.sub_spec(v0.y).mul_spec(v1.x.sub_spec(v0.x)),
    )
}

/// Whether every step of the edge function is defined on these points.
pub open spec fn edge_defined<S: Sub<Output = S> + Mul<Output = S>>(
    v0: Vector2<S>,
    v1: Vector2<S>,
    p: Vector2<S>,
) -> bool {
    &&& p.x.sub_req(v0.x)
    &&& v1.y.sub_req(v0.y)
    &&& p.y.sub_req(v0.y)
    &&& v1.x.sub_req(v0.x)
    &&& p.x.sub_spec(v0.x).mul_req(v1.y.sub_spec(v0.y))
    &&& p.y.sub_spec(v0.y).mul_req(v1.x.sub_spec(v0.x))
    &&& p.x.sub_spec(v0.x).mul_spec(v1.y.sub_spec(v0.y)).sub_req(
        p.y.sub_spec(v0.y).mul_spec(v1.x.sub_spec(v0.x)),
    )
}

/// The edge function of `p` against the edge from `v0` to `v1`.
pub fn edge_function<S>(v0: Vector2<S>, v1: Vector2<S>, p: Vector2<S>) -> (e: S) where
    S: Copy + Sub<Output = S> + Mul<Output = S>,

    requires
        ring_total::<S>() || (ring_exact::<S>() && edge_defined(v0, v1, p)),
    ensures
        ring_exact::<S>() ==> e == edge_value(v0, v1, p),
{
    (p.x - v0.x) * (v1.y - v0.y) - (p.y - v0.y) * (v1.x - v0.x)
}

/// `(a - b) * (c - d)` multiplied out.
proof fn lemma_expand(a: int, b: int, c: int, d: int)
    ensures
        (a - b) * (c - d) == a * c - a * d - b * c + b * d,
{
    assert((a - b) * (c - d) == a * c - a * d - b * c + b * d) by (nonlinear_arith);
}

/// Products do not depend on the order of their factors.
proof fn lemma_commute(a: int, b: int)
    ensures
        a * b == b * a,
{
    assert(a * b == b * a) by (nonlinear_arith);
}

/// Coordinates on which the edge function of `i64` points cannot overflow.
pub open spec fn in_range(v: Vector2<i64>) -> bool {
    &&& -0x4000_0000 < v.x < 0x4000_0000
    &&& -0x4000_0000 < v.y < 0x4000_0000
}

/// On whole-number coordinates in range the edge function is defined and is
/// the plain integer expression.
pub proof fn lemma_edge_over_integers(v0: Vector2<i64>, v1: Vector2<i64>, p: Vector2<i64>)
    requires
        in_range(v0),
        in_range(v1),
        in_range(p),
    ensures
        ring_exact::<i64>(),
        edge_defined(v0, v1, p),
        edge_value(v0, v1, p) == (p.x - v0.x) * (v1.y - v0.y) - (p.y - v0.y) * (v1.x - v0.x),
{
    let a = p.x - v0.x;
    let b = v1.y - v0.y;
    let c = p.y - v0.y;
    let d = v1.x - v0.x;
    assert(-0x4000_0000_0000_0000 < a * b < 0x4000_0000_0000_0000) by (nonlinear_arith)
        requires
            -0x8000_0000 < a < 0x8000_0000,
            -0x8000_0000 < b < 0x8000_0000,
    ;
    assert(-0x4000_0000_0000_0000 < c * d < 0x4000_0000_0000_0000) by (nonlinear_arith)
        requires
            -0x8000_0000 < c < 0x8000_0000,
            -0x8000_0000 < d < 0x8000_0000,
    ;
}

/// Partition of unity in exact arithmetic: for every point `p`, the three
/// edge functions of a triangle add up to its signed area, so that the
/// barycentric weights, which are the edge functions divided by that area,
/// add up to one.
pub proof fn lemma_edge_functions_sum_to_area(
    s0: Vector2<i64>,
    s1: Vector2<i64>,
    s2: Vector2<i64>,
    p: Vector2<i64>,
)
    requires
        in_range(s0),
        in_range(s1),
        in_range(s2),
        in_range(p),
    ensures
        edge_value(s1, s2, p) + edge_value(s2, s0, p) + edge_value(s0, s1, p) == edge_value(
            s0,
            s1,
            s2,
        ),
{
    lemma_edge_over_integers(s1, s2, p);
    lemma_edge_over_integers(s2, s0, p);
    lemma_edge_over_integers(s0, s1, p);
    lemma_edge_over_integers(s0, s1, s2);
    let (ax, ay) = (s0.x as int, s0.y as int);
    let (bx, by) = (s1.x as int, s1.y as int);
    let (cx, cy) = (s2.x as int, s2.y as int);
    let (px, py) = (p.x as int, p.y as int);
    lemma_expand(px, bx, cy, by);
    lemma_expand(py, by, cx, bx);
    lemma_expand(px, cx, ay, cy);
    lemma_expand(py, cy, ax, cx);
    lemma_expand(px, ax, by, ay);
    lemma_expand(py, ay, bx, ax);
    lemma_expand(cx, ax, by, ay);
    lemma_expand(cy, ay, bx, ax);
    lemma_commute(bx, by);
    lemma_commute(cx, cy);
    lemma_commute(ax, ay);
    lemma_commute(by, cx);
    lemma_commute(bx, cy);
}

/// Reversing the winding of a triangle negates its signed area, so that of a
/// triangle and its mirror image exactly one is culled unless the area is
/// zero.
pub proof fn lemma_reversed_winding_negates_area(
    v0: Vector2<i64>,
    v1: Vector2<i64>,
    v2: Vector2<i64>,
)
    requires
        in_range(v0),
        in_range(v1),
        in_range(v2),
    ensures
        edge_value(v0, v2, v1) == -edge_value(v0, v1, v2),
{
    lemma_edge_over_integers(v0, v1, v2);
    lemma_edge_over_integers(v0, v2, v1);
    let (ax, ay) = (v0.x as int, v0.y as int);
    let (bx, by) = (v1.x as int, v1.y as int);
    let (cx, cy) = (v2.x as int, v2.y as int);
    lemma_expand(bx, ax, cy, ay);
    lemma_expand(by, ay, cx, ax);
    lemma_expand(cx, ax, by, ay);
    lemma_expand(cy, ay, bx, ax);
    lemma_commute(bx, cy);
    lemma_commute(by, cx);
    lemma_commute(ax, cy);
    lemma_commute(ax, by);
    lemma_commute(ay, bx);
    lemma_commute(ay, cx);
    lemma_commute(ax, ay);
}

} // verus!
