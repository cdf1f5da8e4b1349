use std::ops::{Add, Mul, Sub};
use vstd::prelude::*;
use vstd::std_specs::convert::FromSpec;
use vstd::std_specs::ops::{AddSpec, DivSpec, MulSpec, SubSpec};

use crate::error::FileError;
use crate::geometry::mesh::{addresses, parts_fit, prefix_below, Indices, Mesh};
use crate::math::{
    at_most, is_at_most, is_less, less, number, ring_exact, ring_total, scalar_exact,
    scalar_total, Scalar, Vector2, Vector3,
};

verus! {

/// The share of the triangle that corner `corner` belongs to.
pub open spec fn share_of<V>(shares: Seq<Option<V>>, corner: int) -> Option<V> {
    shares[corner / 3]
}

/// What slot `slot` has gathered once the first `upto` corners have been
/// visited: starting from `zero`, every corner that addresses the slot adds
/// the share of its triangle, in corner order. A triangle without a share
/// adds nothing.
pub open spec fn accumulated<V: Add<Output = V>>(
    zero: V,
    corners: Seq<usize>,
    shares: Seq<Option<V>>,
    slot: int,
    upto: int,
) -> V
    decreases upto,
{
    if upto <= 0 {
        zero
    } else {
        let before = accumulated(zero, corners, shares, slot, upto - 1);
        let corner = upto - 1;
        match share_of(shares, corner) {
            Some(share) if corners[corner] == slot => before.add_spec(share),
            _ => before,
        }
    }
}

/// A triangle without a share leaves every slot as it was.
pub proof fn lemma_skipped_triangle<V: Add<Output = V>>(
    zero: V,
    corners: Seq<usize>,
    shares: Seq<Option<V>>,
    slot: int,
    t: int,
)
    requires
        0 <= t < shares.len(),
        shares[t] is None,
    ensures
        accumulated(zero, corners, shares, slot, 3 * t + 3) == accumulated(
            zero,
            corners,
            shares,
            slot,
            3 * t,
        ),
{
    assert((3 * t + 2) / 3 == t);
    assert((3 * t + 1) / 3 == t);
    assert((3 * t) / 3 == t);
    assert(accumulated(zero, corners, shares, slot, 3 * t + 1) == accumulated(
        zero,
        corners,
        shares,
        slot,
        3 * t,
    ));
    assert(accumulated(zero, corners, shares, slot, 3 * t + 2) == accumulated(
        zero,
        corners,
        shares,
        slot,
        3 * t + 1,
    ));
}

/// The mesh without triangle `t`: its three corners are cut out of the
/// corner stream.
pub open spec fn corners_without(corners: Seq<usize>, t: int) -> Seq<usize> {
    corners.subrange(0, 3 * t) + corners.subrange(3 * t + 3, corners.len() as int)
}

/// Two meshes that agree on their first `upto` corners, and on the shares of
/// the triangles those corners belong to, gather the same value in every
/// slot over those corners.
proof fn lemma_accumulated_agrees<V: Add<Output = V>>(
    zero: V,
    corners_a: Seq<usize>,
    shares_a: Seq<Option<V>>,
    corners_b: Seq<usize>,
    shares_b: Seq<Option<V>>,
    slot: int,
    upto: int,
)
    requires
        forall|c: int| 0 <= c < upto ==> corners_a[c] == corners_b[c],
        forall|c: int| 0 <= c < upto ==> #[trigger] share_of(shares_a, c) == share_of(shares_b, c),
    ensures
        accumulated(zero, corners_a, shares_a, slot, upto) == accumulated(
            zero,
            corners_b,
            shares_b,
            slot,
            upto,
        ),
    decreases upto,
{
    if upto > 0 {
        lemma_accumulated_agrees(zero, corners_a, shares_a, corners_b, shares_b, slot, upto - 1);
        assert(share_of(shares_a, upto - 1) == share_of(shares_b, upto - 1));
        assert(corners_a[upto - 1] == corners_b[upto - 1]);
    }
}

/// A triangle without a share injects nothing: every slot ends up with
/// exactly what it would hold if the triangle were not part of the mesh, that
/// is, with the shares of its other incident triangles only.
pub proof fn lemma_degenerate_triangle_is_ignored<V: Add<Output = V>>(
    zero: V,
    corners: Seq<usize>,
    shares: Seq<Option<V>>,
    slot: int,
    t: int,
    upto: int,
)
    requires
        0 <= t < shares.len(),
        shares[t] is None,
        3 * t + 3 <= upto <= corners.len(),
        upto <= 3 * shares.len(),
    ensures
        accumulated(zero, corners, shares, slot, upto) == accumulated(
            zero,
            corners_without(corners, t),
            shares.remove(t),
            slot,
            upto - 3,
        ),
    decreases upto,
{
    let cut = corners_without(corners, t);
    let rest = shares.remove(t);
    if upto == 3 * t + 3 {
        lemma_skipped_triangle(zero, corners, shares, slot, t);
        assert forall|c: int| 0 <= c < 3 * t implies #[trigger] share_of(shares, c) == share_of(
            rest,
            c,
        ) by {
            assert(c / 3 < t);
        }
        lemma_accumulated_agrees(zero, corners, shares, cut, rest, slot, 3 * t);
    } else {
        lemma_degenerate_triangle_is_ignored(zero, corners, shares, slot, t, upto - 1);
        let corner = upto - 1;
        assert(cut[corner - 3] == corners[corner]);
        assert((corner - 3) / 3 == corner / 3 - 1);
        assert(corner / 3 > t);
        assert(rest[(corner - 3) / 3] == shares[corner / 3]);
    }
}

/// A slot that no triangle with a share addresses stays at `zero`.
pub proof fn lemma_untouched_slot_stays_zero<V: Add<Output = V>>(
    zero: V,
    corners: Seq<usize>,
    shares: Seq<Option<V>>,
    slot: int,
    upto: int,
)
    requires
        forall|c: int|
            0 <= c < upto && corners[c] == slot ==> #[trigger] share_of(shares, c) is None,
    ensures
        accumulated(zero, corners, shares, slot, upto) == zero,
    decreases upto,
{
    if upto > 0 {
        lemma_untouched_slot_stays_zero(zero, corners, shares, slot, upto - 1);
        let corner = upto - 1;
        if corners[corner] == slot {
            assert(share_of(shares, corner) is None);
        }
    }
}

/// Whether every addition of the accumulation is defined: at each corner
/// the value gathered so far accepts the share that comes next.
pub open spec fn accumulation_defined<V: Add<Output = V>>(
    zero: V,
    corners: Seq<usize>,
    shares: Seq<Option<V>>,
) -> bool {
    forall|c: int|
        0 <= c < 3 * shares.len() && (#[trigger] share_of(shares, c)) is Some ==> accumulated(
            zero,
            corners,
            shares,
            corners[c] as int,
            c,
        ).add_req(share_of(shares, c)->0)
}

/// Whether sums of `V` are defined for all operands.
pub open spec fn sums_total<V: Add<Output = V>>() -> bool {
    forall|a: V, b: V| #[trigger] a.add_req(b)
}

/// Sums per-triangle shares into per-vertex slots through shared index
/// addressing: triangle `t` adds `shares[t]` to the slots named by corners
/// `3t`, `3t + 1` and `3t + 2`, once per corner. Triangles whose share is
/// `None` are skipped.
#[verifier::rlimit(50)]
pub fn accumulate<V>(slots: usize, corners: &Vec<usize>, shares: &Vec<Option<V>>, zero: V) -> (sums:
    Vec<V>) where V: Copy + Add<Output = V>
    requires
        shares@.len() == corners@.len() / 3,
        forall|c: int| 0 <= c < 3 * shares@.len() ==> corners@[c] < slots,
        sums_total::<V>() || (V::obeys_add_spec() && accumulation_defined(
            zero,
            corners@,
            shares@,
        )),
    ensures
        sums@.len() == slots,
        V::obeys_add_spec() ==> forall|k: int|
            0 <= k < slots ==> #[trigger] sums@[k] == accumulated(
                zero,
                corners@,
                shares@,
                k,
                3 * (shares@.len() as int),
            ),
{
    let mut sums: Vec<V> = Vec::new();
    let mut k: usize = 0;
    while k < slots
        invariant
            k <= slots,
            sums@.len() == k,
            forall|j: int| 0 <= j < k ==> #[trigger] sums@[j] == zero,
        decreases slots - k,
    {
        sums.push(zero);
        k += 1;
    }
    let count = shares.len();
    let total = corners.len();
    let mut t: usize = 0;
    while t < count
        invariant
            t <= count,
            count == shares@.len(),
            total == corners@.len(),
            shares@.len() == corners@.len() / 3,
            sums@.len() == slots,
            forall|c: int| 0 <= c < 3 * shares@.len() ==> corners@[c] < slots,
            sums_total::<V>() || (V::obeys_add_spec() && accumulation_defined(
                zero,
                corners@,
                shares@,
            )),
            V::obeys_add_spec() ==> forall|k: int|
                0 <= k < slots ==> #[trigger] sums@[k] == accumulated(
                    zero,
                    corners@,
                    shares@,
                    k,
                    3 * (t as int),
                ),
        decreases count - t,
    {
        if let Some(share) = shares[t] {
            let mut i: usize = 0;
            while i < 3
                invariant
                    i <= 3,
                    t < count,
                    count == shares@.len(),
                    total == corners@.len(),
                    shares@.len() == corners@.len() / 3,
                    sums@.len() == slots,
                    shares@[t as int] == Some(share),
                    forall|c: int| 0 <= c < 3 * shares@.len() ==> corners@[c] < slots,
                    sums_total::<V>() || (V::obeys_add_spec() && accumulation_defined(
                        zero,
                        corners@,
                        shares@,
                    )),
                    V::obeys_add_spec() ==> forall|k: int|
                        0 <= k < slots ==> #[trigger] sums@[k] == accumulated(
                            zero,
                            corners@,
                            shares@,
                            k,
                            3 * t + i,
                        ),
                decreases 3 - i,
            {
                assert(3 * t + i < total);
                let c = 3 * t + i;
                let slot = corners[c];
                assert(c / 3 == t);
                assert(share_of(shares@, c as int) == Some(share));
                let sum = sums[slot] + share;
                sums.set(slot, sum);
                i += 1;
            }
        } else {
            proof {
                if V::obeys_add_spec() {
                    assert forall|k: int| 0 <= k < slots implies #[trigger] sums@[k]
                        == accumulated(zero, corners@, shares@, k, 3 * (t as int) + 3) by {
                        lemma_skipped_triangle(zero, corners@, shares@, k, t as int);
                    }
                }
            }
        }
        assert(3 * (t as int) + 3 == 3 * ((t + 1) as int));
        t += 1;
    }
    sums
}

/// The unweighted normal of the face `(v0, v1, v2)`: the cross product of
/// its edges `v1 - v0` and `v2 - v0`, whose length is twice the area of the
/// face.
pub open spec fn face_normal_value<S: Copy + Sub<Output = S> + Mul<Output = S>>(
    v0: Vector3<S>,
    v1: Vector3<S>,
    v2: Vector3<S>,
) -> Vector3<S> {
    v1.minus(v0).cross_value(v2.minus(v0))
}

/// The unweighted normal of a face, see [`face_normal_value`].
pub fn face_normal<S>(v0: Vector3<S>, v1: Vector3<S>, v2: Vector3<S>) -> (n: Vector3<S>) where
    S: Copy + Sub<Output = S> + Mul<Output = S>,

    requires
        ring_total::<S>(),
    ensures
        ring_exact::<S>() ==> n == face_normal_value(v0, v1, v2),
{
    (v1 - v0).cross(&(v2 - v0))
}

/// The absolute value of `a`.
pub open spec fn magnitude_of<S: Scalar>(a: S) -> S {
    if less(a, number::<S>(0)) {
        number::<S>(0).sub_spec(a)
    } else {
        a
    }
}

/// Twice the signed area of a triangle in UV space,
/// `d1.x * d2.y - d2.x * d1.y` for the edges `d1 = uv1 - uv0` and
/// `d2 = uv2 - uv0`.
pub open spec fn uv_area<S: Scalar>(uv0: Vector2<S>, uv1: Vector2<S>, uv2: Vector2<S>) -> S {
    let d1 = uv1.minus(uv0);
    let d2 = uv2.minus(uv0);
    d1.x.mul_spec(d2.y).sub_spec(d2.x.mul_spec(d1.y))
}

/// The tangent and bitangent of a triangle, or `None` when its corners are
/// so close to one line in UV space that the magnitude of its [`uv_area`]
/// is not above zero or not at least `epsilon`. A triangle without UV area
/// has no frame, whatever `epsilon` is. With `e1`, `e2` the edges in space, `d1`, `d2`
/// the edges in UV space and `f` the reciprocal of the UV area, the tangent
/// is `(e1 * d2.y - e2 * d1.y) * f` and the bitangent
/// `(e2 * d1.x - e1 * d2.x) * f`.
pub open spec fn tangent_frame_value<S: Scalar>(
    v: (Vector3<S>, Vector3<S>, Vector3<S>),
    uv: (Vector2<S>, Vector2<S>, Vector2<S>),
    epsilon: S,
) -> Option<(Vector3<S>, Vector3<S>)> {
    let e1 = v.1.minus(v.0);
    let e2 = v.2.minus(v.0);
    let d1 = uv.1.minus(uv.0);
    let d2 = uv.2.minus(uv.0);
    let det = uv_area(uv.0, uv.1, uv.2);
    if !less(number::<S>(0), magnitude_of(det)) || !at_most(epsilon, magnitude_of(det)) {
        None
    } else {
        let f = number::<S>(1).div_spec(det);
        Some(
            (
                e1.scaled(d2.y).minus(e2.scaled(d1.y)).scaled(f),
                e2.scaled(d1.x).minus(e1.scaled(d2.x)).scaled(f),
            ),
        )
    }
}

/// Solves for the tangent frame of one triangle, see
/// [`tangent_frame_value`]. A triangle that is degenerate in UV space has
/// none, so that no division by a vanishing area takes place.
pub fn tangent_frame<S: Scalar>(
    v: (Vector3<S>, Vector3<S>, Vector3<S>),
    uv: (Vector2<S>, Vector2<S>, Vector2<S>),
    epsilon: S,
) -> (frame: Option<(Vector3<S>, Vector3<S>)>)
    requires
        scalar_total::<S>(),
    ensures
        scalar_exact::<S>() ==> frame == tangent_frame_value(v, uv, epsilon),
{
    let zero = S::from(0u8);
    let one = S::from(1u8);
    let e1 = v.1 - v.0;
    let e2 = v.2 - v.0;
    let d1 = uv.1 - uv.0;
    let d2 = uv.2 - uv.0;
    let det = d1.x * d2.y - d2.x * d1.y;
    let magnitude = if is_less(&det, &zero) {
        zero - det
    } else {
        det
    };
    if !is_less(&zero, &magnitude) || !is_at_most(&epsilon, &magnitude) {
        return None;
    }
    let f = one / det;
    let tangent = (e1 * d2.y - e2 * d1.y) * f;
    let bi_tangent = (e2 * d1.x - e1 * d2.x) * f;
    Some((tangent, bi_tangent))
}

/// A triangle whose UV area has a magnitude that is not above zero has no
/// tangent frame, whatever the threshold: no reciprocal of a vanishing area
/// is ever formed.
pub proof fn lemma_vanishing_uv_area_has_no_frame<S: Scalar>(
    v: (Vector3<S>, Vector3<S>, Vector3<S>),
    uv: (Vector2<S>, Vector2<S>, Vector2<S>),
    epsilon: S,
)
    requires
        !less(number::<S>(0), magnitude_of(uv_area(uv.0, uv.1, uv.2))),
    ensures
        tangent_frame_value(v, uv, epsilon) is None,
{
}

/// A triangle whose UV area is exactly zero has no tangent frame, whatever
/// the threshold. The order of `S` must not place zero below itself.
pub proof fn lemma_zero_uv_area_has_no_frame<S: Scalar>(
    v: (Vector3<S>, Vector3<S>, Vector3<S>),
    uv: (Vector2<S>, Vector2<S>, Vector2<S>),
    epsilon: S,
)
    requires
        uv_area(uv.0, uv.1, uv.2) == number::<S>(0),
        !less(number::<S>(0), number::<S>(0)),
    ensures
        tangent_frame_value(v, uv, epsilon) is None,
{
}

/// The corners of triangle `t`, looked up in `set` through `stream`.
pub open spec fn corners_of<V>(set: Seq<V>, stream: Seq<usize>, t: int) -> (V, V, V) {
    (set[stream[3 * t] as int], set[stream[3 * t + 1] as int], set[stream[3 * t + 2] as int])
}

/// The share of every triangle in normal synthesis: its unweighted face
/// normal.
pub open spec fn normal_shares<S: Copy + Sub<Output = S> + Mul<Output = S>>(
    vertices: Seq<Vector3<S>>,
    v: Seq<usize>,
) -> Seq<Option<Vector3<S>>> {
    Seq::new(
        v.len() / 3,
        |t: int|
            {
                let c = corners_of(vertices, v, t);
                Some(face_normal_value(c.0, c.1, c.2))
            },
    )
}

/// The face normals of all triangles of a mesh, see [`normal_shares`].
pub fn face_normals<S>(vertices: &Vec<Vector3<S>>, indices: &Indices) -> (shares: Vec<
    Option<Vector3<S>>,
>) where S: Copy + Sub<Output = S> + Mul<Output = S>
    requires
        ring_total::<S>(),
        prefix_below(indices.v@, 3 * (indices.v@.len() / 3), vertices@.len()),
    ensures
        shares@.len() == indices.v@.len() / 3,
        ring_exact::<S>() ==> shares@ == normal_shares(vertices@, indices.v@),
{
    let count = indices.triangle_count();
    let mut shares: Vec<Option<Vector3<S>>> = Vec::new();
    let mut t: usize = 0;
    while t < count
        invariant
            t <= count,
            count == indices.v@.len() / 3,
            ring_total::<S>(),
            prefix_below(indices.v@, 3 * (indices.v@.len() / 3), vertices@.len()),
            shares@.len() == t,
            ring_exact::<S>() ==> forall|i: int|
                0 <= i < t ==> #[trigger] shares@[i] == normal_shares(vertices@, indices.v@)[i],
        decreases count - t,
    {
        let ids = indices.triangle(t);
        let n = face_normal(vertices[ids[0]], vertices[ids[1]], vertices[ids[2]]);
        shares.push(Some(n));
        t += 1;
    }
    assert(ring_exact::<S>() ==> shares@ =~= normal_shares(vertices@, indices.v@));
    shares
}

/// The shares of every triangle in tangent synthesis: its tangent and its
/// bitangent, or none of either when it is degenerate in UV space.
pub open spec fn tangent_shares<S: Scalar>(
    vertices: Seq<Vector3<S>>,
    uv: Seq<Vector2<S>>,
    v: Seq<usize>,
    t: Seq<usize>,
    epsilon: S,
) -> (Seq<Option<Vector3<S>>>, Seq<Option<Vector3<S>>>) {
    (
        Seq::new(
            v.len() / 3,
            |i: int|
                match tangent_frame_value(corners_of(vertices, v, i), corners_of(uv, t, i), epsilon) {
                    Some(frame) => Some(frame.0),
                    None => None,
                },
        ),
        Seq::new(
            v.len() / 3,
            |i: int|
                match tangent_frame_value(corners_of(vertices, v, i), corners_of(uv, t, i), epsilon) {
                    Some(frame) => Some(frame.1),
                    None => None,
                },
        ),
    )
}

/// A triangle of a mesh whose UV area is exactly zero has no share in
/// tangent synthesis, whatever the threshold, so that by
/// [`lemma_degenerate_triangle_is_ignored`] every position ends up with what
/// its other triangles give it. The order of `S` must not place zero below
/// itself.
pub proof fn lemma_zero_uv_area_has_no_share<S: Scalar>(
    vertices: Seq<Vector3<S>>,
    uv: Seq<Vector2<S>>,
    v: Seq<usize>,
    t: Seq<usize>,
    epsilon: S,
    i: int,
)
    requires
        0 <= i < v.len() / 3,
        ({
            let c = corners_of(uv, t, i);
            uv_area(c.0, c.1, c.2) == number::<S>(0)
        }),
        !less(number::<S>(0), number::<S>(0)),
    ensures
        tangent_shares(vertices, uv, v, t, epsilon).0[i] is None,
        tangent_shares(vertices, uv, v, t, epsilon).1[i] is None,
{
    lemma_zero_uv_area_has_no_frame(corners_of(vertices, v, i), corners_of(uv, t, i), epsilon);
}

/// The tangent frames of all triangles of a mesh, see [`tangent_shares`].
#[verifier::rlimit(50)]
pub fn tangent_frames<S: Scalar>(
    vertices: &Vec<Vector3<S>>,
    uv: &Vec<Vector2<S>>,
    indices: &Indices,
    epsilon: S,
) -> (shares: (Vec<Option<Vector3<S>>>, Vec<Option<Vector3<S>>>))
    requires
        scalar_total::<S>(),
        prefix_below(indices.v@, 3 * (indices.v@.len() / 3), vertices@.len()),
        prefix_below(indices.uv@, 3 * (indices.v@.len() / 3), uv@.len()),
    ensures
        shares.0@.len() == indices.v@.len() / 3,
        shares.1@.len() == indices.v@.len() / 3,
        scalar_exact::<S>() ==> (shares.0@, shares.1@) == tangent_shares(
            vertices@,
            uv@,
            indices.v@,
            indices.uv@,
            epsilon,
        ),
{
    let count = indices.triangle_count();
    let mut tangents: Vec<Option<Vector3<S>>> = Vec::new();
    let mut bi_tangents: Vec<Option<Vector3<S>>> = Vec::new();
    let ghost expected = tangent_shares(vertices@, uv@, indices.v@, indices.uv@, epsilon);
    let mut t: usize = 0;
    while t < count
        invariant
            t <= count,
            count == indices.v@.len() / 3,
            scalar_total::<S>(),
            prefix_below(indices.v@, 3 * (indices.v@.len() / 3), vertices@.len()),
            prefix_below(indices.uv@, 3 * (indices.v@.len() / 3), uv@.len()),
            expected == tangent_shares(vertices@, uv@, indices.v@, indices.uv@, epsilon),
            tangents@.len() == t,
            bi_tangents@.len() == t,
            scalar_exact::<S>() ==> forall|i: int|
                0 <= i < t ==> #[trigger] tangents@[i] == expected.0[i],
            scalar_exact::<S>() ==> forall|i: int|
                0 <= i < t ==> #[trigger] bi_tangents@[i] == expected.1[i],
        decreases count - t,
    {
        let ids = indices.triangle(t);
        let len = indices.uv.len();
        assert(3 * t + 2 < len);
        let v = (vertices[ids[0]], vertices[ids[1]], vertices[ids[2]]);
        let coords = (
            uv[indices.uv[3 * t]],
            uv[indices.uv[3 * t + 1]],
            uv[indices.uv[3 * t + 2]],
        );
        match tangent_frame(v, coords, epsilon) {
            Some(frame) => {
                tangents.push(Some(frame.0));
                bi_tangents.push(Some(frame.1));
            },
            None => {
                tangents.push(None);
                bi_tangents.push(None);
            },
        }
        t += 1;
    }
    proof {
        if scalar_exact::<S>() {
            assert(tangents@ =~= expected.0);
            assert(bi_tangents@ =~= expected.1);
        }
    }
    (tangents, bi_tangents)
}

/// The zero vector.
pub open spec fn zero3<S: Scalar>() -> Vector3<S> {
    Vector3 { x: number::<S>(0), y: number::<S>(0), z: number::<S>(0) }
}

/// Whether `v` is something that `normalize` returned. What `normalize`
/// guarantees of all it returns, unit length for one, holds of `v`.
pub open spec fn is_normalized<V, N: Fn(V) -> V>(normalize: N, v: V) -> bool {
    exists|sum: V| call_ensures(normalize, (sum,), v)
}

/// Whatever `normalize` guarantees of all it returns holds of every baked
/// vector. With a `normalize` that only returns vectors of unit length,
/// every baked normal, tangent and bitangent has unit length.
pub proof fn lemma_normalized_has_what_normalize_guarantees<V, N: Fn(V) -> V>(
    normalize: N,
    v: V,
    guaranteed: spec_fn(V) -> bool,
)
    requires
        is_normalized(normalize, v),
        forall|sum: V, unit: V| #[trigger] call_ensures(normalize, (sum,), unit) ==> guaranteed(unit),
    ensures
        guaranteed(v),
{
}

/// Applies `normalize` to every vector of `sums`.
fn normalize_all<V: Copy, N: Fn(V) -> V>(sums: &Vec<V>, normalize: &N) -> (units: Vec<V>)
    requires
        forall|v: V| call_requires(*normalize, (v,)),
    ensures
        units@.len() == sums@.len(),
        forall|k: int|
            0 <= k < sums@.len() ==> call_ensures(*normalize, (sums@[k],), #[trigger] units@[k]),
        forall|k: int| 0 <= k < sums@.len() ==> is_normalized(*normalize, #[trigger] units@[k]),
{
    let mut units: Vec<V> = Vec::new();
    let mut k: usize = 0;
    while k < sums.len()
        invariant
            k <= sums@.len(),
            units@.len() == k,
            forall|v: V| call_requires(*normalize, (v,)),
            forall|i: int|
                0 <= i < k ==> call_ensures(*normalize, (sums@[i],), #[trigger] units@[i]),
        decreases sums@.len() - k,
    {
        units.push(normalize(sums[k]));
        k += 1;
    }
    units
}

/// Every vector between two values of `S` can be added.
proof fn lemma_vector_sums_total<S: Scalar>()
    requires
        scalar_total::<S>(),
    ensures
        sums_total::<Vector3<S>>(),
{
    assert forall|a: Vector3<S>, b: Vector3<S>| #[trigger] a.add_req(b) by {
        assert(a.x.add_req(b.x));
        assert(a.y.add_req(b.y));
        assert(a.z.add_req(b.z));
    }
}

/// Normal synthesis: every position receives the normalized sum of the
/// unweighted normals of the faces around it, and the normal stream becomes
/// a copy of the position stream. Faces of larger area weigh more.
pub fn bake_normals<S: Scalar, N: Fn(Vector3<S>) -> Vector3<S>>(
    vertices: &Vec<Vector3<S>>,
    indices: &mut Indices,
    normalize: &N,
) -> (normals: Vec<Vector3<S>>)
    requires
        scalar_total::<S>(),
        prefix_below(old(indices).v@, 3 * (old(indices).v@.len() / 3), vertices@.len()),
        forall|v: Vector3<S>| call_requires(*normalize, (v,)),
    ensures
        final(indices).v@ == old(indices).v@,
        final(indices).uv@ == old(indices).uv@,
        final(indices).n@ == Indices::normal_stream_after_bake(old(indices).v@, old(indices).n@),
        normals@.len() == vertices@.len(),
        forall|k: int|
            0 <= k < vertices@.len() ==> is_normalized(*normalize, #[trigger] normals@[k]),
        scalar_exact::<S>() ==> forall|k: int|
            0 <= k < vertices@.len() ==> call_ensures(
                *normalize,
                (
                    accumulated(
                        zero3::<S>(),
                        old(indices).v@,
                        normal_shares(vertices@, old(indices).v@),
                        k,
                        3 * (old(indices).v@.len() as int / 3),
                    ),
                ),
                #[trigger] normals@[k],
            ),
{
    indices.bake_normal_indices();
    let shares = face_normals(vertices, indices);
    let zero = S::from(0u8);
    proof {
        lemma_vector_sums_total::<S>();
    }
    let sums = accumulate(vertices.len(), &indices.v, &shares, Vector3 { x: zero, y: zero, z: zero });
    normalize_all(&sums, normalize)
}

/// Tangent synthesis: every position receives the normalized sum of the
/// tangents, and of the bitangents, of the triangles around it. Triangles
/// that are degenerate in UV space contribute nothing.
pub fn bake_tangents<S: Scalar, N: Fn(Vector3<S>) -> Vector3<S>>(
    vertices: &Vec<Vector3<S>>,
    uv: &Vec<Vector2<S>>,
    indices: &Indices,
    epsilon: S,
    normalize: &N,
) -> (frames: (Vec<Vector3<S>>, Vec<Vector3<S>>))
    requires
        scalar_total::<S>(),
        prefix_below(indices.v@, 3 * (indices.v@.len() / 3), vertices@.len()),
        prefix_below(indices.uv@, 3 * (indices.v@.len() / 3), uv@.len()),
        forall|v: Vector3<S>| call_requires(*normalize, (v,)),
    ensures
        frames.0@.len() == vertices@.len(),
        frames.1@.len() == vertices@.len(),
        forall|k: int|
            0 <= k < vertices@.len() ==> is_normalized(*normalize, #[trigger] frames.0@[k]),
        forall|k: int|
            0 <= k < vertices@.len() ==> is_normalized(*normalize, #[trigger] frames.1@[k]),
        scalar_exact::<S>() ==> forall|k: int|
            0 <= k < vertices@.len() ==> call_ensures(
                *normalize,
                (
                    accumulated(
                        zero3::<S>(),
                        indices.v@,
                        tangent_shares(vertices@, uv@, indices.v@, indices.uv@, epsilon).0,
                        k,
                        3 * (indices.v@.len() as int / 3),
                    ),
                ),
                #[trigger] frames.0@[k],
            ),
        scalar_exact::<S>() ==> forall|k: int|
            0 <= k < vertices@.len() ==> call_ensures(
                *normalize,
                (
                    accumulated(
                        zero3::<S>(),
                        indices.v@,
                        tangent_shares(vertices@, uv@, indices.v@, indices.uv@, epsilon).1,
                        k,
                        3 * (indices.v@.len() as int / 3),
                    ),
                ),
                #[trigger] frames.1@[k],
            ),
{
    let shares = tangent_frames(vertices, uv, indices, epsilon);
    let zero = S::from(0u8);
    let origin = Vector3 { x: zero, y: zero, z: zero };
    proof {
        lemma_vector_sums_total::<S>();
    }
    let tangent_sums = accumulate(vertices.len(), &indices.v, &shares.0, origin);
    let bi_tangent_sums = accumulate(vertices.len(), &indices.v, &shares.1, origin);
    (normalize_all(&tangent_sums, normalize), normalize_all(&bi_tangent_sums, normalize))
}

/// Whether a mesh can be baked from these inputs: the index streams must
/// address their sets wherever baking reads through them, and the baked
/// parts must fit together. `vertices`, `normals` and `uv` are the sizes of
/// the sets handed in.
pub open spec fn bakeable(vertices: nat, normals: nat, uv: nat, indices: Indices) -> bool {
    let corners = (3 * (indices.v@.len() / 3)) as nat;
    let tangents = if uv > 0 {
        vertices
    } else {
        0
    };
    &&& (normals == 0 || uv > 0) ==> prefix_below(indices.v@, corners, vertices)
    &&& uv > 0 ==> prefix_below(indices.uv@, corners, uv)
    &&& parts_fit(
        vertices,
        if normals == 0 {
            vertices
        } else {
            normals
        },
        uv,
        tangents,
        tangents,
        indices.v@,
        baked_normal_stream(normals, indices),
        baked_uv_stream(uv, indices),
    )
}

/// The normal stream of the baked mesh: a copy of the position stream when
/// normals are synthesized, else the stream handed in.
pub open spec fn baked_normal_stream(normals: nat, indices: Indices) -> Seq<usize> {
    if normals == 0 {
        Indices::normal_stream_after_bake(indices.v@, indices.n@)
    } else {
        indices.n@
    }
}

/// The UV stream of the baked mesh: the stream handed in when there are
/// UVs, else that stream padded with zeros to the length of the position
/// stream.
pub open spec fn baked_uv_stream(uv: nat, indices: Indices) -> Seq<usize> {
    if uv > 0 {
        indices.uv@
    } else {
        Indices::uv_stream_after_pad(indices.v@, indices.uv@)
    }
}

impl<S: Scalar> Mesh<Vector3<S>, Vector2<S>> {
    /// Bakes a mesh. Normals are synthesized when `vnormals` is empty:
    /// every position then receives what `normalize` makes of the sum of the
    /// unweighted normals of its faces. Tangents and bitangents are
    /// synthesized when there are UVs, in the same way from the tangent frames
    /// of the triangles, leaving out those whose UV area has a magnitude
    /// that is not above zero or is below `epsilon`. Malformed input, see [`bakeable`], is rejected with
    /// [`FileError::Invalid`].
    #[verifier::rlimit(50)]
    pub fn new<N: Fn(Vector3<S>) -> Vector3<S>>(
        vertices: Vec<Vector3<S>>,
        uv: Vec<Vector2<S>>,
        indices: Indices,
        vnormals: Vec<Vector3<S>>,
        epsilon: S,
        normalize: N,
    ) -> (r: Result<Self, FileError>)
        requires
            scalar_total::<S>(),
            forall|v: Vector3<S>| call_requires(normalize, (v,)),
        ensures
            match r {
                Ok(m) => {
                    &&& bakeable(vertices@.len(), vnormals@.len(), uv@.len(), indices)
                    &&& m.wf()
                    &&& m.vertices == vertices
                    &&& m.uv == uv
                    &&& m.indices.v@ == indices.v@
                    &&& m.indices.n@ == baked_normal_stream(vnormals@.len(), indices)
                    &&& m.indices.uv@ == baked_uv_stream(uv@.len(), indices)
                    &&& vnormals@.len() > 0 ==> m.normals == vnormals
                    &&& vnormals@.len() == 0 ==> m.normals@.len() == vertices@.len()
                    &&& vnormals@.len() == 0 ==> forall|k: int|
                        0 <= k < vertices@.len() ==> is_normalized(
                            normalize,
                            #[trigger] m.normals@[k],
                        )
                    &&& uv@.len() > 0 ==> forall|k: int|
                        0 <= k < vertices@.len() ==> is_normalized(
                            normalize,
                            #[trigger] m.tangents@[k],
                        ) && is_normalized(normalize, m.bi_tangents@[k])
                    &&& vnormals@.len() == 0 && scalar_exact::<S>() ==> forall|k: int|
                        0 <= k < vertices@.len() ==> call_ensures(
                            normalize,
                            (
                                accumulated(
                                    zero3::<S>(),
                                    indices.v@,
                                    normal_shares(vertices@, indices.v@),
                                    k,
                                    3 * (indices.v@.len() as int / 3),
                                ),
                            ),
                            #[trigger] m.normals@[k],
                        )
                    &&& uv@.len() > 0 && scalar_exact::<S>() ==> forall|k: int|
                        0 <= k < vertices@.len() ==> call_ensures(
                            normalize,
                            (
                                accumulated(
                                    zero3::<S>(),
                                    indices.v@,
                                    tangent_shares(
                                        vertices@,
                                        uv@,
                                        indices.v@,
                                        indices.uv@,
                                        epsilon,
                                    ).0,
                                    k,
                                    3 * (indices.v@.len() as int / 3),
                                ),
                            ),
                            #[trigger] m.tangents@[k],
                        )
                    &&& uv@.len() > 0 && scalar_exact::<S>() ==> forall|k: int|
                        0 <= k < vertices@.len() ==> call_ensures(
                            normalize,
                            (
                                accumulated(
                                    zero3::<S>(),
                                    indices.v@,
                                    tangent_shares(
                                        vertices@,
                                        uv@,
                                        indices.v@,
                                        indices.uv@,
                                        epsilon,
                                    ).1,
                                    k,
                                    3 * (indices.v@.len() as int / 3),
                                ),
                            ),
                            #[trigger] m.bi_tangents@[k],
                        )
                },
                Err(e) => e is Invalid && !bakeable(
                    vertices@.len(),
                    vnormals@.len(),
                    uv@.len(),
                    indices,
                ),
            },
    {
        let mut indices = indices;
        let mut normals = vnormals;
        let total = indices.len();
        let corners = 3 * (total / 3);
        let needs_normals = normals.len() == 0;
        let has_uv = uv.len() > 0;
        if (needs_normals || has_uv) && !addresses(&indices.v, corners, vertices.len()) {
            return Err(FileError::Invalid);
        }
        if has_uv && !addresses(&indices.uv, corners, uv.len()) {
            return Err(FileError::Invalid);
        }
        if needs_normals {
            normals = bake_normals(&vertices, &mut indices, &normalize);
        }
        let (tangents, bi_tangents) = if has_uv {
            bake_tangents(&vertices, &uv, &indices, epsilon, &normalize)
        } else {
            indices.pad_uv_indices();
            (Vec::new(), Vec::new())
        };
        Mesh::from_parts(vertices, uv, indices, normals, tangents, bi_tangents)
    }
}

} // verus!
