use vstd::arithmetic::div_mod::lemma_fundamental_div_mod_converse;
use vstd::prelude::*;

use crate::buffer::{color_of, Buffers};
use crate::geometry::edge::{edge_defined, edge_function, edge_value};
use crate::math::{
    at_most, is_at_most, is_less, less, number, order_known, ring_exact, ring_total,
    scalar_exact, scalar_total, Scalar, Vector2, Vector4,
};
use std::ops::{Mul, Sub};
use vstd::std_specs::convert::FromSpec;
use vstd::std_specs::ops::{AddSpec, DivSpec, MulSpec, SubSpec};

verus! {

/// An axis-aligned block of pixels, both corners included. It is empty when
/// a maximum lies below its minimum.
#[derive(Debug, Clone, Copy, PartialEq, Eq, Structural)]
pub struct PixelRect {
    pub min_x: i32,
    pub min_y: i32,
    pub max_x: i32,
    pub max_y: i32,
}

impl PixelRect {
    /// Whether pixel `(x, y)` lies in the block.
    pub open spec fn contains(&self, x: int, y: int) -> bool {
        self.min_x <= x <= self.max_x && self.min_y <= y <= self.max_y
    }

    /// Whether the block lies on a target of `w` by `h` pixels.
    pub open spec fn within(&self, w: int, h: int) -> bool {
        0 <= self.min_x && self.max_x < w && 0 <= self.min_y && self.max_y < h
    }
}

/// The bounding box `[min_x, max_x] x [min_y, max_y]` clamped to the target
/// `[0, w - 1] x [0, h - 1]`.
pub open spec fn clipped(min_x: i32, min_y: i32, max_x: i32, max_y: i32, w: i32, h: i32) -> PixelRect
    recommends
        w > i32::MIN,
        h > i32::MIN,
{
    PixelRect {
        min_x: if min_x > 0 {
            min_x
        } else {
            0
        },
        min_y: if min_y > 0 {
            min_y
        } else {
            0
        },
        max_x: if max_x < w - 1 {
            max_x
        } else {
            (w - 1) as i32
        },
        max_y: if max_y < h - 1 {
            max_y
        } else {
            (h - 1) as i32
        },
    }
}

/// Clamps the bounding box of a triangle, given in whole pixels, to the
/// target.
pub fn clip_rect(min_x: i32, min_y: i32, max_x: i32, max_y: i32, w: i32, h: i32) -> (r: PixelRect)
    requires
        w > i32::MIN,
        h > i32::MIN,
    ensures
        r == clipped(min_x, min_y, max_x, max_y, w, h),
        r.within(w as int, h as int),
{
    PixelRect {
        min_x: if min_x > 0 {
            min_x
        } else {
            0
        },
        min_y: if min_y > 0 {
            min_y
        } else {
            0
        },
        max_x: if max_x < w - 1 {
            max_x
        } else {
            w - 1
        },
        max_y: if max_y < h - 1 {
            max_y
        } else {
            h - 1
        },
    }
}

/// Place of pixel `(x, y)` in the buffers of a target `w` pixels wide.
pub open spec fn pixel_index(x: int, y: int, w: int) -> int {
    y * w + x
}

/// The place of pixel `(x, y)` in the buffers of a `w` by `h` target, or
/// `None` when the pixel lies off the target.
pub fn pixel_slot(x: i32, y: i32, w: i32, h: i32) -> (slot: Option<usize>)
    requires
        w * h <= usize::MAX,
    ensures
        slot == (if 0 <= x < w && 0 <= y < h {
            Some(pixel_index(x as int, y as int, w as int) as usize)
        } else {
            None
        }),
{
    if x >= 0 && y >= 0 && x < w && y < h {
        proof {
            lemma_pixel_index(x as int, y as int, w as int, h as int);
        }
        Some((y as usize) * (w as usize) + (x as usize))
    } else {
        None
    }
}

/// What the pipeline may leave at pixel `(x, y)`, which held depth `stored`
/// and colour `shown`, once it has offered the pixel to the triangle: the
/// pixel is as before when `depth_at` reports it uncovered or the depth it
/// reports is not strictly nearer than `stored`; else it holds that depth
/// and the colour that `color_at` gave for it.
pub open spec fn fragment_outcome<D: PartialOrd, DF: Fn(i32, i32) -> Option<D>, CF: Fn(
    i32,
    i32,
) -> [u8; 4]>(
    depth_at: DF,
    color_at: CF,
    x: i32,
    y: i32,
    stored: D,
    shown: [u8; 4],
    depth: D,
    color: [u8; 4],
) -> bool {
    ||| call_ensures(depth_at, (x, y), None::<D>) && depth == stored && color == shown
    ||| exists|z: D|
        {
            &&& #[trigger] call_ensures(depth_at, (x, y), Some(z))
            &&& order_known::<D>() ==> !less(z, stored)
            &&& depth == stored
            &&& color == shown
        }
    ||| exists|z: D|
        {
            &&& #[trigger] call_ensures(depth_at, (x, y), Some(z))
            &&& order_known::<D>() ==> less(z, stored)
            &&& depth == z
            &&& call_ensures(color_at, (x, y), color)
        }
}

/// The state of pixel `(x, y)` while a triangle is drawn: a pixel that has
/// been offered to the triangle shows a [`fragment_outcome`], any other is
/// untouched.
pub open spec fn pixel_state<D: PartialOrd, DF: Fn(i32, i32) -> Option<D>, CF: Fn(i32, i32) -> [u8;
    4]>(
    depth_at: DF,
    color_at: CF,
    before: Buffers<D>,
    now: Buffers<D>,
    at: int,
    x: i32,
    y: i32,
    offered: bool,
) -> bool {
    if offered {
        fragment_outcome(
            depth_at,
            color_at,
            x,
            y,
            before.z_buffer@[at],
            color_of(before.f_buffer@, at),
            now.z_buffer@[at],
            color_of(now.f_buffer@, at),
        )
    } else {
        now.z_buffer@[at] == before.z_buffer@[at] && color_of(now.f_buffer@, at) == color_of(
            before.f_buffer@,
            at,
        )
    }
}

/// Every pixel of the block that comes before `(cx, cy)` in row-major order
/// has been offered to the triangle, and no other pixel of the target.
pub open spec fn drawn_up_to<D: PartialOrd, DF: Fn(i32, i32) -> Option<D>, CF: Fn(i32, i32) -> [u8;
    4]>(
    depth_at: DF,
    color_at: CF,
    before: Buffers<D>,
    now: Buffers<D>,
    w: int,
    h: int,
    bounds: PixelRect,
    cx: int,
    cy: int,
) -> bool {
    forall|x: i32, y: i32|
        0 <= x < w && 0 <= y < h ==> pixel_state(
            depth_at,
            color_at,
            before,
            now,
            #[trigger] pixel_index(x as int, y as int, w),
            x,
            y,
            bounds.contains(x as int, y as int) && (y < cy || (y == cy && x < cx)),
        )
}

/// What drawing a triangle does to a target: every pixel of `bounds` has
/// been offered to the triangle and shows a [`fragment_outcome`]; every
/// other pixel is untouched.
pub open spec fn drawn<D: PartialOrd, DF: Fn(i32, i32) -> Option<D>, CF: Fn(i32, i32) -> [u8; 4]>(
    depth_at: DF,
    color_at: CF,
    before: Buffers<D>,
    now: Buffers<D>,
    w: int,
    h: int,
    bounds: PixelRect,
) -> bool {
    drawn_up_to(depth_at, color_at, before, now, w, h, bounds, bounds.max_x + 1, bounds.max_y as int)
}

/// Every pixel of a target has a place in its buffers.
pub proof fn lemma_pixel_on_target(x: int, y: int, w: int, h: int)
    requires
        0 <= x < w,
        0 <= y < h,
    ensures
        0 <= pixel_index(x, y, w) < w * h,
{
    lemma_pixel_index(x, y, w, h);
}

/// Two pixels of a target share a place in the buffers only if they are the
/// same pixel, and every pixel has a place.
proof fn lemma_pixel_index(x: int, y: int, w: int, h: int)
    requires
        0 <= x < w,
        0 <= y < h,
    ensures
        0 <= pixel_index(x, y, w) < w * h,
        pixel_index(x, y, w) / w == y,
        pixel_index(x, y, w) % w == x,
        0 <= y * w,
{
    lemma_fundamental_div_mod_converse(y * w + x, w, y, x);
    assert((y + 1) * w <= h * w) by (nonlinear_arith)
        requires
            y + 1 <= h,
            w >= 0,
    ;
    assert((y + 1) * w == y * w + w) by (nonlinear_arith);
    assert(h * w == w * h) by (nonlinear_arith);
    assert(y * w >= 0) by (nonlinear_arith)
        requires
            y >= 0,
            w >= 0,
    ;
}

/// Offers every pixel of `bounds` to a triangle, row by row. `depth_at`
/// tells whether the triangle covers the centre of a pixel and at what
/// depth; a covered pixel whose depth is strictly nearer than the stored one
/// receives that depth and the colour `color_at` computes for it. Pixels
/// outside `bounds` are not touched, and `color_at` is only asked for pixels
/// that pass the depth test.
#[verifier::rlimit(50)]
pub fn draw_triangle_shaded<D, DF, CF>(
    buffers: &mut Buffers<D>,
    w: i32,
    h: i32,
    bounds: PixelRect,
    depth_at: DF,
    color_at: CF,
) where D: Copy + PartialOrd, DF: Fn(i32, i32) -> Option<D>, CF: Fn(i32, i32) -> [u8; 4]
    requires
        0 <= w,
        0 <= h,
        old(buffers).holds(w * h),
        bounds.within(w as int, h as int),
        forall|x: i32, y: i32| call_requires(depth_at, (x, y)),
        forall|x: i32, y: i32| call_requires(color_at, (x, y)),
    ensures
        final(buffers).holds(w * h),
        drawn(depth_at, color_at, *old(buffers), *final(buffers), w as int, h as int, bounds),
{
    let ghost before = *buffers;
    let mut y: i32 = bounds.min_y;
    while y <= bounds.max_y
        invariant
            0 <= w,
            0 <= h,
            buffers.holds(w * h),
            bounds.within(w as int, h as int),
            bounds.min_y <= y,
            y <= bounds.max_y + 1 || bounds.max_y < bounds.min_y,
            forall|x: i32, y: i32| call_requires(depth_at, (x, y)),
            forall|x: i32, y: i32| call_requires(color_at, (x, y)),
            drawn_up_to(
                depth_at,
                color_at,
                before,
                *buffers,
                w as int,
                h as int,
                bounds,
                bounds.min_x as int,
                y as int,
            ),
        decreases bounds.max_y + 1 - y,
    {
        let mut x: i32 = bounds.min_x;
        while x <= bounds.max_x
            invariant
                0 <= w,
                0 <= h,
                buffers.holds(w * h),
                bounds.within(w as int, h as int),
                bounds.min_y <= y <= bounds.max_y,
                bounds.min_x <= x,
                x <= bounds.max_x + 1 || bounds.max_x < bounds.min_x,
                forall|x: i32, y: i32| call_requires(depth_at, (x, y)),
                forall|x: i32, y: i32| call_requires(color_at, (x, y)),
                drawn_up_to(
                    depth_at,
                    color_at,
                    before,
                    *buffers,
                    w as int,
                    h as int,
                    bounds,
                    x as int,
                    y as int,
                ),
            decreases bounds.max_x + 1 - x,
        {
            let ghost entry = *buffers;
            let depths = buffers.z_buffer.len();
            proof {
                lemma_pixel_index(x as int, y as int, w as int, h as int);
            }
            let at = (y as usize) * (w as usize) + (x as usize);
            assert(at == pixel_index(x as int, y as int, w as int));
            match depth_at(x, y) {
                Some(z) => {
                    let stored = buffers.z_buffer[at];
                    if is_less(&z, &stored) {
                        let color = color_at(x, y);
                        buffers.store(at, z, color);
                        assert(color_of(buffers.f_buffer@, at as int) == color);
                    }
                },
                None => {},
            }
            proof {
                assert forall|px: i32, py: i32| 0 <= px < w && 0 <= py < h implies pixel_state(
                    depth_at,
                    color_at,
                    before,
                    *buffers,
                    #[trigger] pixel_index(px as int, py as int, w as int),
                    px,
                    py,
                    bounds.contains(px as int, py as int) && (py < y || (py == y && px < x + 1)),
                ) by {
                    let p = pixel_index(px as int, py as int, w as int);
                    lemma_pixel_index(px as int, py as int, w as int, h as int);
                    assert(pixel_state(
                        depth_at,
                        color_at,
                        before,
                        entry,
                        p,
                        px,
                        py,
                        bounds.contains(px as int, py as int) && (py < y || (py == y && px < x)),
                    ));
                    if p != at {
                        assert(buffers.z_buffer@[p] == entry.z_buffer@[p]);
                        assert(color_of(buffers.f_buffer@, p) == color_of(entry.f_buffer@, p));
                    } else {
                        assert(px == x && py == y);
                    }
                }
            }
            x += 1;
        }
        y += 1;
    }
    proof {
        assert forall|px: i32, py: i32| 0 <= px < w && 0 <= py < h implies pixel_state(
            depth_at,
            color_at,
            before,
            *buffers,
            #[trigger] pixel_index(px as int, py as int, w as int),
            px,
            py,
            bounds.contains(px as int, py as int) && (py < bounds.max_y || (py == bounds.max_y
                && px < bounds.max_x + 1)),
        ) by {
            let p = pixel_index(px as int, py as int, w as int);
            assert(pixel_state(
                depth_at,
                color_at,
                before,
                *buffers,
                p,
                px,
                py,
                bounds.contains(px as int, py as int) && (py < y || (py == y && px
                    < bounds.min_x)),
            ));
        }
    }
}

/// Whether the screen triangle `(v0, v1, v2)` faces away from the viewer:
/// its signed area is strictly below zero.
pub fn is_backfacing<S: Scalar>(v0: Vector2<S>, v1: Vector2<S>, v2: Vector2<S>) -> (culled: bool)
    requires
        ring_total::<S>() || (ring_exact::<S>() && edge_defined(v0, v1, v2)),
    ensures
        scalar_exact::<S>() ==> culled == less(edge_value(v0, v1, v2), number::<S>(0)),
{
    let area = edge_function(v0, v1, v2);
    let zero = S::from(0u8);
    is_less(&area, &zero)
}

/// The barycentric weights of `p` in the screen triangle `(s0, s1, s2)`:
/// the edge functions of `p` against the three edges, each scaled by
/// `inv_area`, the reciprocal of the signed area of the triangle. The
/// weight of a corner comes from the edge opposite to it.
pub fn barycentric<S>(
    s0: Vector2<S>,
    s1: Vector2<S>,
    s2: Vector2<S>,
    p: Vector2<S>,
    inv_area: S,
) -> (w: (S, S, S)) where S: Copy + Sub<Output = S> + Mul<Output = S>
    requires
        ring_total::<S>(),
    ensures
        ring_exact::<S>() ==> w == (
            edge_value(s1, s2, p).mul_spec(inv_area),
            edge_value(s2, s0, p).mul_spec(inv_area),
            edge_value(s0, s1, p).mul_spec(inv_area),
        ),
{
    let w0 = edge_function(s1, s2, p) * inv_area;
    let w1 = edge_function(s2, s0, p) * inv_area;
    let w2 = edge_function(s0, s1, p) * inv_area;
    (w0, w1, w2)
}

/// Whether barycentric weights `w` place a pixel in the triangle: all three
/// are at least zero. Pixels on a shared edge belong to both triangles.
pub open spec fn inside<S: Scalar>(w: (S, S, S)) -> bool {
    let zero = number::<S>(0);
    at_most(zero, w.0) && at_most(zero, w.1) && at_most(zero, w.2)
}

/// Whether a pixel with barycentric weights `w` belongs to the triangle, see
/// [`inside`].
pub fn covers<S: Scalar>(w: (S, S, S)) -> (r: bool)
    ensures
        scalar_exact::<S>() ==> r == inside(w),
{
    let zero = S::from(0u8);
    is_at_most(&zero, &w.0) && is_at_most(&zero, &w.1) && is_at_most(&zero, &w.2)
}

/// How the pipeline disposes of a triangle.
#[derive(Debug, Clone, Copy, PartialEq, Eq, Structural)]
pub enum Fate {
    /// The triangle is rasterized.
    Rendered,
    /// The triangle faces away from the viewer, or its screen area is not
    /// above zero, or is below the threshold under which it is not
    /// rasterized.
    Culled,
    /// A corner lies on or behind the plane `w = 0`; the triangle is dropped
    /// whole.
    ClippedAway,
}

/// The fate of a triangle with clip-space `w` coordinates `w` and screen
/// points `s`: it is clipped away when any `w` is at most zero; else culled
/// when its signed area is below zero, is not above zero, or is not at least
/// `epsilon`; else rendered. A triangle without area is never rendered,
/// whatever `epsilon` is.
pub open spec fn fate_of<S: Scalar>(
    w: (S, S, S),
    s: (Vector2<S>, Vector2<S>, Vector2<S>),
    epsilon: S,
) -> Fate {
    let zero = number::<S>(0);
    let area = edge_value(s.0, s.1, s.2);
    if at_most(w.0, zero) || at_most(w.1, zero) || at_most(w.2, zero) {
        Fate::ClippedAway
    } else if less(area, zero) || !less(zero, area) || !at_most(epsilon, area) {
        Fate::Culled
    } else {
        Fate::Rendered
    }
}

/// A triangle whose signed area is not above zero is never rendered, whatever
/// the threshold.
pub proof fn lemma_area_not_above_zero_is_not_rendered<S: Scalar>(
    w: (S, S, S),
    s: (Vector2<S>, Vector2<S>, Vector2<S>),
    epsilon: S,
)
    requires
        !less(number::<S>(0), edge_value(s.0, s.1, s.2)),
    ensures
        fate_of(w, s, epsilon) != Fate::Rendered,
{
}

/// A triangle whose signed area is exactly zero, such as one with coincident
/// or collinear corners in exact arithmetic, is never rendered, whatever the
/// threshold. The order of `S` must not place zero below itself.
pub proof fn lemma_zero_area_is_not_rendered<S: Scalar>(
    w: (S, S, S),
    s: (Vector2<S>, Vector2<S>, Vector2<S>),
    epsilon: S,
)
    requires
        edge_value(s.0, s.1, s.2) == number::<S>(0),
        !less(number::<S>(0), number::<S>(0)),
    ensures
        fate_of(w, s, epsilon) != Fate::Rendered,
{
}

/// Decides the near-plane rejection: is any of the three clip-space `w` at
/// most zero?
pub fn behind_near_plane<S: Scalar>(w: (S, S, S)) -> (r: bool)
    ensures
        scalar_exact::<S>() ==> r == (at_most(w.0, number::<S>(0)) || at_most(
            w.1,
            number::<S>(0),
        ) || at_most(w.2, number::<S>(0))),
{
    let zero = S::from(0u8);
    is_at_most(&w.0, &zero) || is_at_most(&w.1, &zero) || is_at_most(&w.2, &zero)
}

/// Decides what happens to a triangle once its corners have been shaded and
/// projected, see [`fate_of`].
pub fn triage<S: Scalar>(
    w: (S, S, S),
    s: (Vector2<S>, Vector2<S>, Vector2<S>),
    epsilon: S,
) -> (fate: Fate)
    requires
        ring_total::<S>() || (ring_exact::<S>() && edge_defined(s.0, s.1, s.2)),
    ensures
        scalar_exact::<S>() ==> fate == fate_of(w, s, epsilon),
{
    if behind_near_plane(w) {
        return Fate::ClippedAway;
    }
    let zero = S::from(0u8);
    let area = edge_function(s.0, s.1, s.2);
    if is_less(&area, &zero) || !is_less(&zero, &area) || !is_at_most(&epsilon, &area) {
        Fate::Culled
    } else {
        Fate::Rendered
    }
}

/// A projected corner: its place on the screen, its depth, and the
/// reciprocal of its clip-space `w`.
#[derive(Debug, Clone, Copy, PartialEq)]
pub struct RasterIn<S> {
    pub s: Vector2<S>,
    pub z: S,
    pub inv_w: S,
}

/// One half, as the quotient of one and two.
pub open spec fn half<S: Scalar>() -> S {
    number::<S>(1).div_spec(number::<S>(2))
}

/// Where a point in normalized device coordinates falls on a screen of
/// `width` by `height` pixels whose origin is the top left corner:
/// `x = (ndc.x + 1) / 2 * width` and `y = (1 - (ndc.y + 1) / 2) * height`.
/// Depth is `ndc.z`, and `ndc.w` is passed on as the reciprocal of `w`.
pub open spec fn on_screen<S: Scalar>(ndc: Vector4<S>, width: S, height: S) -> RasterIn<S> {
    let one = number::<S>(1);
    RasterIn {
        s: Vector2 {
            x: ndc.x.add_spec(one).mul_spec(half::<S>()).mul_spec(width),
            y: one.sub_spec(ndc.y.add_spec(one).mul_spec(half::<S>())).mul_spec(height),
        },
        z: ndc.z,
        inv_w: ndc.w,
    }
}

/// Maps normalized device coordinates to the screen, flipping `y`, see
/// [`on_screen`].
pub fn clip_to_screen<S: Scalar>(v_ndc: &Vector4<S>, width: S, height: S) -> (r: RasterIn<S>)
    requires
        scalar_total::<S>(),
    ensures
        scalar_exact::<S>() ==> r == on_screen(*v_ndc, width, height),
{
    let one = S::from(1u8);
    let two = S::from(2u8);
    let half = one / two;
    let screen_x = (v_ndc.x + one) * half * width;
    let screen_y = (one - (v_ndc.y + one) * half) * height;
    RasterIn { s: Vector2 { x: screen_x, y: screen_y }, z: v_ndc.z, inv_w: v_ndc.w }
}

/// The perspective divide: a clip-space point scaled by the reciprocal of
/// its `w`, with that reciprocal kept in place of `w`.
pub open spec fn divided<S: Scalar>(clip: Vector4<S>) -> Vector4<S> {
    let inv_w = number::<S>(1).div_spec(clip.w);
    Vector4 {
        x: clip.x.mul_spec(inv_w),
        y: clip.y.mul_spec(inv_w),
        z: clip.z.mul_spec(inv_w),
        w: inv_w,
    }
}

/// Projects a clip-space point onto a screen of `width` by `height` pixels:
/// the perspective divide followed by the screen mapping.
pub fn project<S: Scalar>(clip: &Vector4<S>, width: S, height: S) -> (r: RasterIn<S>)
    requires
        scalar_total::<S>(),
    ensures
        scalar_exact::<S>() ==> r == on_screen(divided(*clip), width, height),
{
    let one = S::from(1u8);
    let inv_w = one / clip.w;
    let v_ndc = Vector4 { x: clip.x * inv_w, y: clip.y * inv_w, z: clip.z * inv_w, w: inv_w };
    clip_to_screen(&v_ndc, width, height)
}

/// The screen-space gradient of a quantity that varies linearly across a
/// triangle, from its values `f` at the corners `s`: with differences taken
/// against corner 0, `d/dx = (f10 * y20 - f20 * y10) * inv_area` and
/// `d/dy = (f10 * x20 - f20 * x10) * inv_area`. The gradient is the same at
/// every pixel of the triangle.
pub open spec fn gradient_value<S: Scalar>(
    f: (S, S, S),
    s: (Vector2<S>, Vector2<S>, Vector2<S>),
    inv_area: S,
) -> (S, S) {
    let f10 = f.1.sub_spec(f.0);
    let f20 = f.2.sub_spec(f.0);
    let x10 = s.1.x.sub_spec(s.0.x);
    let y10 = s.1.y.sub_spec(s.0.y);
    let x20 = s.2.x.sub_spec(s.0.x);
    let y20 = s.2.y.sub_spec(s.0.y);
    (
        f10.mul_spec(y20).sub_spec(f20.mul_spec(y10)).mul_spec(inv_area),
        f10.mul_spec(x20).sub_spec(f20.mul_spec(x10)).mul_spec(inv_area),
    )
}

/// The screen-space gradient of a quantity given at the corners of a
/// triangle, see [`gradient_value`].
pub fn gradient<S: Scalar>(
    f: (S, S, S),
    s: (Vector2<S>, Vector2<S>, Vector2<S>),
    inv_area: S,
) -> (d: (S, S))
    requires
        scalar_total::<S>(),
    ensures
        scalar_exact::<S>() ==> d == gradient_value(f, s, inv_area),
{
    let f10 = f.1 - f.0;
    let f20 = f.2 - f.0;
    let x10 = s.1.x - s.0.x;
    let y10 = s.1.y - s.0.y;
    let x20 = s.2.x - s.0.x;
    let y20 = s.2.y - s.0.y;
    ((f10 * y20 - f20 * y10) * inv_area, (f10 * x20 - f20 * x10) * inv_area)
}

/// The derivative of a quantity `q` recovered, by the quotient rule, from
/// the derivative `d` of `q / w` and the derivative `dw` of `1 / w` at a
/// pixel where `q` has the value `value` and `1 / w` the value `inv_w`:
/// `(d - value * dw) * (1 / inv_w)`.
pub fn unprojected_derivative<S: Scalar>(d: S, dw: S, value: S, inv_w: S) -> (r: S)
    requires
        scalar_total::<S>(),
    ensures
        scalar_exact::<S>() ==> r == d.sub_spec(value.mul_spec(dw)).mul_spec(
            number::<S>(1).div_spec(inv_w),
        ),
{
    let one = S::from(1u8);
    (d - value * dw) * (one / inv_w)
}

/// A triangle ready for the pixel walk: its three projected corners and the
/// reciprocal of its signed screen area.
#[derive(Debug, Clone, Copy, PartialEq)]
pub struct Setup<S> {
    pub c0: RasterIn<S>,
    pub c1: RasterIn<S>,
    pub c2: RasterIn<S>,
    pub inv_area: S,
}

/// The three projected corners of a triangle on a screen of `width` by
/// `height` pixels.
pub open spec fn projected<S: Scalar>(
    clip: (Vector4<S>, Vector4<S>, Vector4<S>),
    width: S,
    height: S,
) -> (RasterIn<S>, RasterIn<S>, RasterIn<S>) {
    (
        on_screen(divided(clip.0), width, height),
        on_screen(divided(clip.1), width, height),
        on_screen(divided(clip.2), width, height),
    )
}

/// What the set-up of a triangle yields: its fate, decided on the clip-space
/// `w` of its corners and on its projected corners, and, for a rendered
/// triangle only, those corners with the reciprocal of their signed area.
pub open spec fn set_up_value<S: Scalar>(
    clip: (Vector4<S>, Vector4<S>, Vector4<S>),
    width: S,
    height: S,
    epsilon: S,
) -> (Fate, Option<Setup<S>>) {
    let corners = projected(clip, width, height);
    let screen = (corners.0.s, corners.1.s, corners.2.s);
    let fate = fate_of((clip.0.w, clip.1.w, clip.2.w), screen, epsilon);
    (
        fate,
        if fate == Fate::Rendered {
            Some(
                Setup {
                    c0: corners.0,
                    c1: corners.1,
                    c2: corners.2,
                    inv_area: number::<S>(1).div_spec(edge_value(screen.0, screen.1, screen.2)),
                },
            )
        } else {
            None
        },
    )
}

/// Sets a triangle up for rasterization from the clip-space positions of its
/// corners. A triangle with a corner on or behind the plane `w = 0` is
/// rejected before anything is divided by `w`; a triangle that faces away or
/// has no area to speak of is culled before anything is divided by its
/// area.
pub fn set_up<S: Scalar>(
    clip: (Vector4<S>, Vector4<S>, Vector4<S>),
    width: S,
    height: S,
    epsilon: S,
) -> (r: (Fate, Option<Setup<S>>))
    requires
        scalar_total::<S>(),
    ensures
        scalar_exact::<S>() ==> r == set_up_value(clip, width, height, epsilon),
        r.0 == Fate::Rendered <==> r.1 is Some,
{
    let w = (clip.0.w, clip.1.w, clip.2.w);
    if behind_near_plane(w) {
        return (Fate::ClippedAway, None);
    }
    let c0 = project(&clip.0, width, height);
    let c1 = project(&clip.1, width, height);
    let c2 = project(&clip.2, width, height);
    match triage(w, (c0.s, c1.s, c2.s), epsilon) {
        Fate::Rendered => {
            let one = S::from(1u8);
            let area = edge_function(c0.s, c1.s, c2.s);
            (Fate::Rendered, Some(Setup { c0, c1, c2, inv_area: one / area }))
        },
        Fate::Culled => (Fate::Culled, None),
        Fate::ClippedAway => (Fate::ClippedAway, None),
    }
}

/// What a triangle gives a pixel it covers: the barycentric weights of the
/// pixel centre, the interpolated `1/w`, and the depth.
#[derive(Debug, Clone, Copy, PartialEq)]
pub struct Coverage<S> {
    pub w0: S,
    pub w1: S,
    pub w2: S,
    pub inv_w: S,
    pub z: S,
}

/// The barycentric weights of `p`, see [`barycentric`].
pub open spec fn weights<S: Scalar>(
    s: (Vector2<S>, Vector2<S>, Vector2<S>),
    p: Vector2<S>,
    inv_area: S,
) -> (S, S, S) {
    (
        edge_value(s.1, s.2, p).mul_spec(inv_area),
        edge_value(s.2, s.0, p).mul_spec(inv_area),
        edge_value(s.0, s.1, p).mul_spec(inv_area),
    )
}

/// Coverage and depth of the point `p`: nothing when one of its barycentric
/// weights `w0, w1, w2` is not at least zero; else the weights, the
/// interpolated `1/w`, which is the sum of `wi * inv_wi`, and the
/// perspective-correct depth, which is the sum of `wi * zi * inv_wi` divided
/// by the interpolated `1/w`.
pub open spec fn coverage_value<S: Scalar>(setup: Setup<S>, p: Vector2<S>) -> Option<Coverage<S>> {
    let c = (setup.c0, setup.c1, setup.c2);
    let w = weights((c.0.s, c.1.s, c.2.s), p, setup.inv_area);
    if !inside(w) {
        None
    } else {
        let inv_w = w.0.mul_spec(c.0.inv_w).add_spec(w.1.mul_spec(c.1.inv_w)).add_spec(
            w.2.mul_spec(c.2.inv_w),
        );
        let sum = w.0.mul_spec(c.0.z).mul_spec(c.0.inv_w).add_spec(
            w.1.mul_spec(c.1.z).mul_spec(c.1.inv_w),
        ).add_spec(w.2.mul_spec(c.2.z).mul_spec(c.2.inv_w));
        Some(Coverage { w0: w.0, w1: w.1, w2: w.2, inv_w, z: sum.div_spec(inv_w) })
    }
}

/// Tests whether a triangle covers the point `p` and interpolates its depth
/// there, see [`coverage_value`].
pub fn coverage<S: Scalar>(setup: &Setup<S>, p: Vector2<S>) -> (r: Option<Coverage<S>>)
    requires
        scalar_total::<S>(),
    ensures
        scalar_exact::<S>() ==> r == coverage_value(*setup, p),
{
    let c = (setup.c0, setup.c1, setup.c2);
    let w = barycentric(c.0.s, c.1.s, c.2.s, p, setup.inv_area);
    if !covers(w) {
        return None;
    }
    let inv_w = w.0 * c.0.inv_w + w.1 * c.1.inv_w + w.2 * c.2.inv_w;
    let sum = w.0 * c.0.z * c.0.inv_w + w.1 * c.1.z * c.1.inv_w + w.2 * c.2.z * c.2.inv_w;
    Some(Coverage { w0: w.0, w1: w.1, w2: w.2, inv_w, z: sum / inv_w })
}

/// Whether the numbers of `S`, and the whole numbers taken into `S`,
/// compute what their specifications say.
pub open spec fn pixels_exact<S: Scalar + From<i32>>() -> bool {
    scalar_exact::<S>() && <S as FromSpec<i32>>::obeys_from_spec()
}

/// The centre of pixel `(x, y)`, half a pixel right of and below its corner.
pub open spec fn pixel_centre<S: Scalar + From<i32>>(x: i32, y: i32) -> Vector2<S> {
    Vector2 {
        x: <S as FromSpec<i32>>::from_spec(x).add_spec(half::<S>()),
        y: <S as FromSpec<i32>>::from_spec(y).add_spec(half::<S>()),
    }
}

/// The centre of pixel `(x, y)`, see [`pixel_centre`].
pub fn centre_of<S: Scalar + From<i32>>(x: i32, y: i32) -> (p: Vector2<S>)
    requires
        scalar_total::<S>(),
    ensures
        pixels_exact::<S>() ==> p == pixel_centre::<S>(x, y),
{
    let half = S::from(1u8) / S::from(2u8);
    Vector2 { x: S::from(x) + half, y: S::from(y) + half }
}

/// What rasterizing a triangle leaves at pixel `(x, y)`, which held depth
/// `stored` and colour `shown`: where the triangle covers the centre of the
/// pixel at a depth strictly nearer than `stored`, that depth and the colour
/// `color_at` gave for the pixel and its coverage; else what the pixel
/// held. The depth is the perspective-correct one of [`coverage_value`].
pub open spec fn covered_outcome<S: Scalar + From<i32>, CF: Fn(i32, i32, Coverage<S>) -> [u8; 4]>(
    setup: Setup<S>,
    color_at: CF,
    x: i32,
    y: i32,
    stored: S,
    shown: [u8; 4],
    depth: S,
    color: [u8; 4],
) -> bool {
    match coverage_value(setup, pixel_centre::<S>(x, y)) {
        Some(c) if less(c.z, stored) => depth == c.z && call_ensures(color_at, (x, y, c), color),
        _ => depth == stored && color == shown,
    }
}

/// What rasterizing a triangle does to a target: every pixel of `bounds`
/// shows its [`covered_outcome`]; every other pixel is untouched.
pub open spec fn rasterized<S: Scalar + From<i32>, CF: Fn(i32, i32, Coverage<S>) -> [u8; 4]>(
    setup: Setup<S>,
    color_at: CF,
    before: Buffers<S>,
    now: Buffers<S>,
    w: int,
    h: int,
    bounds: PixelRect,
) -> bool {
    forall|x: i32, y: i32|
        0 <= x < w && 0 <= y < h ==> {
            let at = #[trigger] pixel_index(x as int, y as int, w);
            if bounds.contains(x as int, y as int) {
                covered_outcome(
                    setup,
                    color_at,
                    x,
                    y,
                    before.z_buffer@[at],
                    color_of(before.f_buffer@, at),
                    now.z_buffer@[at],
                    color_of(now.f_buffer@, at),
                )
            } else {
                now.z_buffer@[at] == before.z_buffer@[at] && color_of(now.f_buffer@, at)
                    == color_of(before.f_buffer@, at)
            }
        }
}

/// Rasterizes a triangle that has been set up: every pixel of `bounds` whose
/// centre the triangle covers is depth-tested with the perspective-correct
/// depth at that centre, and where it passes receives that depth and the
/// colour `color_at` computes from the coverage. `color_at` is asked for no
/// other pixel.
pub fn rasterize<S, CF>(
    buffers: &mut Buffers<S>,
    w: i32,
    h: i32,
    bounds: PixelRect,
    setup: &Setup<S>,
    color_at: &CF,
) where S: Scalar + From<i32>, CF: Fn(i32, i32, Coverage<S>) -> [u8; 4]
    requires
        0 <= w,
        0 <= h,
        old(buffers).holds(w * h),
        bounds.within(w as int, h as int),
        scalar_total::<S>(),
        forall|x: i32, y: i32, c: Coverage<S>| call_requires(*color_at, (x, y, c)),
    ensures
        final(buffers).holds(w * h),
        pixels_exact::<S>() ==> rasterized(
            *setup,
            *color_at,
            *old(buffers),
            *final(buffers),
            w as int,
            h as int,
            bounds,
        ),
{
    let depth_at = |x: i32, y: i32| -> (r: Option<S>)
        ensures
            pixels_exact::<S>() ==> r == (match coverage_value(*setup, pixel_centre::<S>(x, y)) {
                Some(c) => Some(c.z),
                None => None,
            }),
        {
            match coverage(setup, centre_of(x, y)) {
                Some(c) => Some(c.z),
                None => None,
            }
        };
    let shade = |x: i32, y: i32| -> (color: [u8; 4])
        ensures
            pixels_exact::<S>() ==> (match coverage_value(*setup, pixel_centre::<S>(x, y)) {
                Some(c) => call_ensures(*color_at, (x, y, c), color),
                None => true,
            }),
        {
            match coverage(setup, centre_of(x, y)) {
                Some(c) => color_at(x, y, c),
                None => [0u8, 0u8, 0u8, 0u8],
            }
        };
    draw_triangle_shaded(buffers, w, h, bounds, depth_at, shade);
    proof {
        if pixels_exact::<S>() {
            assert forall|x: i32, y: i32| 0 <= x < w && 0 <= y < h implies ({
                let at = #[trigger] pixel_index(x as int, y as int, w as int);
                if bounds.contains(x as int, y as int) {
                    covered_outcome(
                        *setup,
                        *color_at,
                        x,
                        y,
                        old(buffers).z_buffer@[at],
                        color_of(old(buffers).f_buffer@, at),
                        buffers.z_buffer@[at],
                        color_of(buffers.f_buffer@, at),
                    )
                } else {
                    buffers.z_buffer@[at] == old(buffers).z_buffer@[at] && color_of(
                        buffers.f_buffer@,
                        at,
                    ) == color_of(old(buffers).f_buffer@, at)
                }
            }) by {
                let at = pixel_index(x as int, y as int, w as int);
                assert(pixel_state(
                    depth_at,
                    shade,
                    *old(buffers),
                    *buffers,
                    at,
                    x,
                    y,
                    bounds.contains(x as int, y as int) && (y < bounds.max_y || (y == bounds.max_y
                        && x < bounds.max_x + 1)),
                ));
            }
        }
    }
}

} // verus!
