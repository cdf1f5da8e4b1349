use vstd::prelude::*;

use crate::math::{is_less, less, order_known};

verus! {

/// The byte every channel of the colour buffer is cleared to.
pub const DEFAULT_BG_COLOR: u8 = 77;

/// The colour buffer: four bytes (red, green, blue, alpha) per pixel.
pub type FrameBuffer = Vec<u8>;

/// The depth buffer: one depth of type `D` per pixel.
pub type DepthBuffer<D> = Vec<D>;

/// Whether buffers for a `width` by `height` target can be addressed: the
/// colour buffer must not outgrow `u32`, nor a side `i32`.
pub open spec fn addressable(width: u32, height: u32) -> bool {
    &&& 4 * (width * height) <= u32::MAX
    &&& width <= i32::MAX
    &&& height <= i32::MAX
}

/// Checks whether buffers for a `width` by `height` target can be addressed.
pub fn is_addressable(width: u32, height: u32) -> (ok: bool)
    ensures
        ok == addressable(width, height),
{
    if width > 0x7fff_ffff || height > 0x7fff_ffff {
        return false;
    }
    match width.checked_mul(height) {
        Some(pixels) => {
            if pixels <= 0x3fff_ffff {
                true
            } else {
                false
            }
        },
        None => {
            assert(4 * (width * height) > u32::MAX);
            false
        },
    }
}

/// The colour of pixel `pixel` in a colour buffer.
pub open spec fn color_of(frame: Seq<u8>, pixel: int) -> [u8; 4] {
    [frame[4 * pixel], frame[4 * pixel + 1], frame[4 * pixel + 2], frame[4 * pixel + 3]]
}

/// `frame` with the four bytes of pixel `pixel` replaced by `color`.
pub open spec fn with_color(frame: Seq<u8>, pixel: int, color: [u8; 4]) -> Seq<u8> {
    frame.update(4 * pixel, color[0]).update(4 * pixel + 1, color[1]).update(
        4 * pixel + 2,
        color[2],
    ).update(4 * pixel + 3, color[3])
}

/// What a pixel holds after a fragment of depth `z` and colour `color` has
/// been depth-tested against it: the fragment if it is strictly nearer than
/// the depth `stored`, else what the pixel held.
pub open spec fn depth_tested<D: PartialOrd>(
    stored: D,
    shown: [u8; 4],
    z: D,
    color: [u8; 4],
) -> (D, [u8; 4]) {
    if less(z, stored) {
        (z, color)
    } else {
        (stored, shown)
    }
}

/// Depth test monotonicity: of two fragments for one pixel, the first
/// strictly nearer than the second and than what the pixel holds, the pixel
/// ends up with the first, whichever of the two is drawn first.
pub proof fn lemma_nearer_fragment_wins<D: PartialOrd>(
    stored: D,
    shown: [u8; 4],
    near: D,
    near_color: [u8; 4],
    far: D,
    far_color: [u8; 4],
)
    requires
        less(near, stored),
        less(near, far),
        !less(far, near),
    ensures
        ({
            let first = depth_tested(stored, shown, near, near_color);
            depth_tested(first.0, first.1, far, far_color) == (near, near_color)
        }),
        ({
            let first = depth_tested(stored, shown, far, far_color);
            depth_tested(first.0, first.1, near, near_color) == (near, near_color)
        }),
{
}

/// The colour and depth buffers of a render target.
pub struct Buffers<D> {
    pub f_buffer: FrameBuffer,
    pub z_buffer: DepthBuffer<D>,
}

impl<D> Buffers<D> {
    /// The buffers describe `pixels` pixels: one depth and four colour bytes
    /// each.
    pub open spec fn holds(&self, pixels: int) -> bool {
        &&& self.z_buffer@.len() == pixels
        &&& self.f_buffer@.len() == 4 * pixels
    }

    /// The buffers are what `before` becomes when it is cut or grown at its
    /// end to `pixels` pixels: entries that both have are equal, new colour
    /// bytes are the background byte, new depths are `far`.
    pub open spec fn is_resized(&self, before: Self, pixels: int, far: D) -> bool {
        &&& self.holds(pixels)
        &&& forall|i: int|
            0 <= i < self.f_buffer@.len() ==> self.f_buffer@[i] == (if i
                < before.f_buffer@.len() {
                before.f_buffer@[i]
            } else {
                DEFAULT_BG_COLOR
            })
        &&& forall|i: int|
            0 <= i < self.z_buffer@.len() ==> self.z_buffer@[i] == (if i
                < before.z_buffer@.len() {
                before.z_buffer@[i]
            } else {
                far
            })
    }

    /// Every colour byte is the background byte and every depth is `far`.
    pub open spec fn is_clear(&self, far: D) -> bool {
        &&& forall|i: int| 0 <= i < self.f_buffer@.len() ==> self.f_buffer@[i] == DEFAULT_BG_COLOR
        &&& forall|i: int| 0 <= i < self.z_buffer@.len() ==> self.z_buffer@[i] == far
    }
}

impl<D: Copy> Buffers<D> {
    /// Buffers for a `width` by `height` target, cleared to the background
    /// colour and to the depth `far`.
    pub fn new(width: u32, height: u32, far: D) -> (b: Self)
        requires
            4 * (width * height) <= u32::MAX,
        ensures
            b.holds(width * height),
            b.is_clear(far),
    {
        let mut b = Buffers { f_buffer: Vec::new(), z_buffer: Vec::new() };
        b.resize(width, height, far);
        b
    }

    /// Clears every pixel to the background colour and the depth `far`.
    pub fn reset(&mut self, far: D)
        ensures
            final(self).f_buffer@.len() == old(self).f_buffer@.len(),
            final(self).z_buffer@.len() == old(self).z_buffer@.len(),
            final(self).is_clear(far),
    {
        let colors = self.f_buffer.len();
        let mut i: usize = 0;
        while i < colors
            invariant
                i <= colors,
                colors == self.f_buffer@.len(),
                self.z_buffer@ == old(self).z_buffer@,
                forall|j: int| 0 <= j < i ==> self.f_buffer@[j] == DEFAULT_BG_COLOR,
            decreases colors - i,
        {
            self.f_buffer.set(i, DEFAULT_BG_COLOR);
            i += 1;
        }
        let depths = self.z_buffer.len();
        let mut k: usize = 0;
        while k < depths
            invariant
                k <= depths,
                depths == self.z_buffer@.len(),
                colors == self.f_buffer@.len(),
                forall|j: int| 0 <= j < colors ==> self.f_buffer@[j] == DEFAULT_BG_COLOR,
                forall|j: int| 0 <= j < k ==> self.z_buffer@[j] == far,
            decreases depths - k,
        {
            self.z_buffer.set(k, far);
            k += 1;
        }
    }

    /// Brings the buffers to the size of a `width` by `height` target.
    /// Pixels that both sizes have keep their place in the buffers and what
    /// they held; new ones are clear.
    pub fn resize(&mut self, width: u32, height: u32, far: D)
        requires
            4 * (width * height) <= u32::MAX,
        ensures
            final(self).is_resized(*old(self), width * height, far),
    {
        assert(width * height <= u32::MAX) by (nonlinear_arith)
            requires
                4 * (width * height) <= u32::MAX,
                width >= 0,
                height >= 0,
        ;
        let size: u32 = width * height;
        let colors = (size * 4) as usize;
        let depths = size as usize;
        self.f_buffer.truncate(colors);
        while self.f_buffer.len() < colors
            invariant
                self.z_buffer@ == old(self).z_buffer@,
                self.f_buffer@.len() <= colors || self.f_buffer@.len() <= old(self).f_buffer@.len(),
                old(self).f_buffer@.len() >= colors ==> self.f_buffer@.len() == colors,
                old(self).f_buffer@.len() < colors ==> self.f_buffer@.len() >= old(
                    self,
                ).f_buffer@.len(),
                forall|i: int|
                    0 <= i < self.f_buffer@.len() ==> self.f_buffer@[i] == (if i < old(
                        self,
                    ).f_buffer@.len() {
                        old(self).f_buffer@[i]
                    } else {
                        DEFAULT_BG_COLOR
                    }),
            decreases colors - self.f_buffer@.len(),
        {
            self.f_buffer.push(DEFAULT_BG_COLOR);
        }
        self.z_buffer.truncate(depths);
        while self.z_buffer.len() < depths
            invariant
                self.f_buffer@.len() == colors,
                forall|i: int|
                    0 <= i < self.f_buffer@.len() ==> self.f_buffer@[i] == (if i < old(
                        self,
                    ).f_buffer@.len() {
                        old(self).f_buffer@[i]
                    } else {
                        DEFAULT_BG_COLOR
                    }),
                old(self).z_buffer@.len() >= depths ==> self.z_buffer@.len() == depths,
                old(self).z_buffer@.len() < depths ==> self.z_buffer@.len() >= old(
                    self,
                ).z_buffer@.len(),
                self.z_buffer@.len() <= depths || self.z_buffer@.len() <= old(self).z_buffer@.len(),
                forall|i: int|
                    0 <= i < self.z_buffer@.len() ==> self.z_buffer@[i] == (if i < old(
                        self,
                    ).z_buffer@.len() {
                        old(self).z_buffer@[i]
                    } else {
                        far
                    }),
            decreases depths - self.z_buffer@.len(),
        {
            self.z_buffer.push(far);
        }
    }

    /// Stores a fragment at `pixel` without a depth test.
    pub fn store(&mut self, pixel: usize, z: D, color: [u8; 4])
        requires
            pixel < old(self).z_buffer@.len(),
            old(self).f_buffer@.len() == 4 * old(self).z_buffer@.len(),
        ensures
            final(self).z_buffer@ == old(self).z_buffer@.update(pixel as int, z),
            final(self).f_buffer@ == with_color(old(self).f_buffer@, pixel as int, color),
    {
        let depths = self.z_buffer.len();
        let colors = self.f_buffer.len();
        let at = 4 * pixel;
        self.z_buffer.set(pixel, z);
        self.f_buffer.set(at, color[0]);
        self.f_buffer.set(at + 1, color[1]);
        self.f_buffer.set(at + 2, color[2]);
        self.f_buffer.set(at + 3, color[3]);
    }
}

impl<D: Copy + PartialOrd> Buffers<D> {
    /// Depth-tests a fragment against pixel `pixel` and stores it if it is
    /// strictly nearer than what the pixel holds. Tells whether it was
    /// stored.
    pub fn write_fragment(&mut self, pixel: usize, z: D, color: [u8; 4]) -> (written: bool)
        requires
            pixel < old(self).z_buffer@.len(),
            old(self).f_buffer@.len() == 4 * old(self).z_buffer@.len(),
        ensures
            order_known::<D>() ==> written == less(z, old(self).z_buffer@[pixel as int]),
            order_known::<D>() ==> (
                final(self).z_buffer@[pixel as int],
                color_of(final(self).f_buffer@, pixel as int),
            ) == depth_tested(
                old(self).z_buffer@[pixel as int],
                color_of(old(self).f_buffer@, pixel as int),
                z,
                color,
            ),
            written ==> final(self).z_buffer@ == old(self).z_buffer@.update(pixel as int, z),
            written ==> final(self).f_buffer@ == with_color(
                old(self).f_buffer@,
                pixel as int,
                color,
            ),
            !written ==> *final(self) == *old(self),
    {
        let stored = self.z_buffer[pixel];
        if is_less(&z, &stored) {
            self.store(pixel, z, color);
            true
        } else {
            false
        }
    }
}

} // verus!
