use vstd::prelude::*;

use crate::buffer::{addressable, color_of, depth_tested, with_color, Buffers};
use crate::math::{order_known, scalar_total, Scalar};
use crate::raster::{
    clip_rect, clipped, draw_triangle_shaded, drawn, lemma_pixel_on_target, pixel_index,
    pixel_slot, pixels_exact, rasterize, rasterized, Coverage, Setup,
};

verus! {

/// Size of the render target in pixels.
pub struct WinSize {
    pub width: u32,
    pub height: u32,
}

/// A render target: its size, its colour and depth buffers, and the depth
/// that an empty pixel holds.
pub struct Renderer<D> {
    win_size: WinSize,
    buffers: Buffers<D>,
    far: D,
}

impl<D: Copy> Renderer<D> {
    /// Width of the target in pixels.
    pub closed spec fn width(&self) -> u32 {
        self.win_size.width
    }

    /// Height of the target in pixels.
    pub closed spec fn height(&self) -> u32 {
        self.win_size.height
    }

    /// The colour and depth buffers.
    pub closed spec fn buffers(&self) -> Buffers<D> {
        self.buffers
    }

    /// The depth of an empty pixel.
    pub closed spec fn far(&self) -> D {
        self.far
    }

    /// The target can be addressed and the buffers fit its size.
    pub open spec fn wf(&self) -> bool {
        &&& addressable(self.width(), self.height())
        &&& self.buffers().holds(self.width() * self.height())
    }

    /// A cleared target of `win_width` by `win_height` pixels whose empty
    /// pixels lie at depth `far`.
    pub fn new(win_width: u32, win_height: u32, far: D) -> (r: Self)
        requires
            addressable(win_width, win_height),
        ensures
            r.wf(),
            r.width() == win_width,
            r.height() == win_height,
            r.far() == far,
            r.buffers().is_clear(far),
    {
        Renderer {
            win_size: WinSize { width: win_width, height: win_height },
            buffers: Buffers::new(win_width, win_height, far),
            far,
        }
    }

    /// Size of the target.
    pub fn size(&self) -> (s: (u32, u32))
        ensures
            s == (self.width(), self.height()),
    {
        (self.win_size.width, self.win_size.height)
    }

    /// Clears the target for the next frame.
    pub fn reset_buffers(&mut self)
        ensures
            old(self).wf() ==> final(self).wf(),
            final(self).width() == old(self).width(),
            final(self).height() == old(self).height(),
            final(self).far() == old(self).far(),
            final(self).buffers().f_buffer@.len() == old(self).buffers().f_buffer@.len(),
            final(self).buffers().z_buffer@.len() == old(self).buffers().z_buffer@.len(),
            final(self).buffers().is_clear(old(self).far()),
    {
        self.buffers.reset(self.far);
    }

    /// Changes the size of the target. The buffers are cut or grown at
    /// their end: what fits keeps its place, new entries are clear.
    pub fn resize(&mut self, width: u32, height: u32)
        requires
            addressable(width, height),
        ensures
            final(self).wf(),
            final(self).width() == width,
            final(self).height() == height,
            final(self).far() == old(self).far(),
            final(self).buffers().is_resized(old(self).buffers(), width * height, old(self).far()),
    {
        self.win_size.height = height;
        self.win_size.width = width;
        self.buffers.resize(width, height, self.far);
    }

    /// Copies the colour buffer into `target`, which must have its length.
    pub fn present(&self, target: &mut [u8])
        requires
            old(target)@.len() == self.buffers().f_buffer@.len(),
        ensures
            final(target)@ == self.buffers().f_buffer@,
    {
        let len = self.buffers.f_buffer.len();
        let mut i: usize = 0;
        while i < len
            invariant
                i <= len,
                len == self.buffers.f_buffer@.len(),
                target@.len() == len,
                forall|j: int| 0 <= j < i ==> target@[j] == self.buffers.f_buffer@[j],
            decreases len - i,
        {
            target[i] = self.buffers.f_buffer[i];
            i += 1;
        }
        assert(target@ =~= self.buffers.f_buffer@);
    }
}

impl<D: Copy + PartialOrd> Renderer<D> {
    /// Depth-tests a single fragment against pixel `(x, y)` and stores it if
    /// it is strictly nearer. A fragment off the target is dropped. Tells
    /// whether the fragment was stored.
    pub fn plot(&mut self, x: i32, y: i32, z: D, color: [u8; 4]) -> (written: bool)
        requires
            old(self).wf(),
        ensures
            final(self).wf(),
            final(self).width() == old(self).width(),
            final(self).height() == old(self).height(),
            final(self).far() == old(self).far(),
            !(0 <= x < old(self).width() && 0 <= y < old(self).height()) ==> !written,
            !written ==> final(self).buffers() == old(self).buffers(),
            written ==> {
                let at = pixel_index(x as int, y as int, old(self).width() as int);
                &&& final(self).buffers().z_buffer@ == old(self).buffers().z_buffer@.update(at, z)
                &&& final(self).buffers().f_buffer@ == with_color(
                    old(self).buffers().f_buffer@,
                    at,
                    color,
                )
            },
            order_known::<D>() && 0 <= x < old(self).width() && 0 <= y < old(self).height() ==> {
                let at = pixel_index(x as int, y as int, old(self).width() as int);
                (final(self).buffers().z_buffer@[at], color_of(final(self).buffers().f_buffer@, at))
                    == depth_tested(
                    old(self).buffers().z_buffer@[at],
                    color_of(old(self).buffers().f_buffer@, at),
                    z,
                    color,
                )
            },
    {
        let w = self.win_size.width as i32;
        let h = self.win_size.height as i32;
        let depths = self.buffers.z_buffer.len();
        assert(w * h == self.win_size.width * self.win_size.height) by (nonlinear_arith)
            requires
                w == self.win_size.width,
                h == self.win_size.height,
        ;
        match pixel_slot(x, y, w, h) {
            Some(at) => {
                proof {
                    lemma_pixel_on_target(x as int, y as int, w as int, h as int);
                }
                self.buffers.write_fragment(at, z, color)
            },
            None => false,
        }
    }

    /// Rasterizes one triangle into the target. `[min_x, max_x] x
    /// [min_y, max_y]` is the bounding box of the triangle in whole pixels;
    /// only its part on the target is visited. See
    /// [`draw_triangle_shaded`] for what happens to each pixel.
    pub fn draw_triangle<DF, CF>(
        &mut self,
        min_x: i32,
        min_y: i32,
        max_x: i32,
        max_y: i32,
        depth_at: DF,
        color_at: CF,
    ) where DF: Fn(i32, i32) -> Option<D>, CF: Fn(i32, i32) -> [u8; 4]
        requires
            old(self).wf(),
            forall|x: i32, y: i32| call_requires(depth_at, (x, y)),
            forall|x: i32, y: i32| call_requires(color_at, (x, y)),
        ensures
            final(self).wf(),
            final(self).width() == old(self).width(),
            final(self).height() == old(self).height(),
            final(self).far() == old(self).far(),
            ({
                let w = old(self).width() as i32;
                let h = old(self).height() as i32;
                let bounds = clipped(min_x, min_y, max_x, max_y, w, h);
                drawn(
                    depth_at,
                    color_at,
                    old(self).buffers(),
                    final(self).buffers(),
                    w as int,
                    h as int,
                    bounds,
                )
            }),
    {
        let w = self.win_size.width as i32;
        let h = self.win_size.height as i32;
        let bounds = clip_rect(min_x, min_y, max_x, max_y, w, h);
        draw_triangle_shaded(&mut self.buffers, w, h, bounds, depth_at, color_at);
    }
}

impl<S: Scalar + From<i32>> Renderer<S> {
    /// Rasterizes a triangle that has been set up into the target, with
    /// depths of the number type the triangle is given in. `[min_x, max_x] x
    /// [min_y, max_y]` is the bounding box of the triangle in whole pixels;
    /// only its part on the target is visited. See [`rasterize`] for what
    /// happens to each pixel.
    pub fn rasterize<CF>(
        &mut self,
        min_x: i32,
        min_y: i32,
        max_x: i32,
        max_y: i32,
        setup: &Setup<S>,
        color_at: &CF,
    ) where CF: Fn(i32, i32, Coverage<S>) -> [u8; 4]
        requires
            old(self).wf(),
            scalar_total::<S>(),
            forall|x: i32, y: i32, c: Coverage<S>| call_requires(*color_at, (x, y, c)),
        ensures
            final(self).wf(),
            final(self).width() == old(self).width(),
            final(self).height() == old(self).height(),
            final(self).far() == old(self).far(),
            pixels_exact::<S>() ==> rasterized(
                *setup,
                *color_at,
                old(self).buffers(),
                final(self).buffers(),
                old(self).width() as int,
                old(self).height() as int,
                clipped(
                    min_x,
                    min_y,
                    max_x,
                    max_y,
                    old(self).width() as i32,
                    old(self).height() as i32,
                ),
            ),
    {
        let w = self.win_size.width as i32;
        let h = self.win_size.height as i32;
        let bounds = clip_rect(min_x, min_y, max_x, max_y, w, h);
        rasterize(&mut self.buffers, w, h, bounds, setup, color_at);
    }
}

} // verus!
