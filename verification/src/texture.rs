use vstd::arithmetic::div_mod::lemma_fundamental_div_mod_converse;
use vstd::arithmetic::logarithm::{lemma_log0, lemma_log_s, log};
use vstd::prelude::*;

use crate::error::FileError;
use crate::math::{
    blend_exact, blend_total, is_less, less, number, scalar_exact, scalar_total, Scalar,
};
use std::ops::{Add, Mul};
use vstd::std_specs::convert::FromSpec;
use vstd::std_specs::ops::{AddSpec, DivSpec, MulSpec, RemSpec, SubSpec};

verus! {

/// How texture coordinates outside `[0, 1]` are brought back into range.
#[derive(Debug, Clone, Copy, PartialEq, Eq, Structural)]
pub enum Wrap {
    /// Coordinates are clamped to `[0, 1]`.
    Clamp,
    /// Coordinates are taken modulo 1.
    Repeat,
    /// Coordinates are taken modulo 2 and reflected above 1.
    Mirror,
}

/// The coordinate `p` brought into `[0, 1]` under `wrap`: clamped; or its
/// remainder modulo one, raised by one when negative; or its remainder
/// modulo two, raised by two when negative and reflected at one.
pub open spec fn wrapped<S: Scalar>(wrap: Wrap, p: S) -> S {
    let zero = number::<S>(0);
    let one = number::<S>(1);
    let two = number::<S>(2);
    match wrap {
        Wrap::Clamp => if less(p, zero) {
            zero
        } else if less(one, p) {
            one
        } else {
            p
        },
        Wrap::Repeat => {
            let r = p.rem_spec(one);
            if less(r, zero) {
                r.add_spec(one)
            } else {
                r
            }
        },
        Wrap::Mirror => {
            let r = p.rem_spec(two);
            let m = if less(r, zero) {
                r.add_spec(two)
            } else {
                r
            };
            if less(one, m) {
                two.sub_spec(m)
            } else {
                m
            }
        },
    }
}

/// Wrap round trip under `Repeat`, in exact whole-number arithmetic: a
/// coordinate and the coordinate one further wrap to the same place.
pub proof fn lemma_repeat_has_period_one(p: u64)
    requires
        p < u64::MAX,
    ensures
        wrapped(Wrap::Repeat, (p + 1) as u64) == wrapped(Wrap::Repeat, p),
{
}

/// Wrap round trip under `Mirror`, in exact whole-number arithmetic: a
/// coordinate wraps to the same place as its mirror image at one, and as
/// the coordinate two further.
pub proof fn lemma_mirror_reflects_at_one(p: u64)
    ensures
        p <= 2 ==> wrapped(Wrap::Mirror, (2 - p) as u64) == wrapped(Wrap::Mirror, p),
        p < u64::MAX - 1 ==> wrapped(Wrap::Mirror, (p + 2) as u64) == wrapped(Wrap::Mirror, p),
{
    assert(number::<u64>(0) == 0u64 && number::<u64>(1) == 1u64 && number::<u64>(2) == 2u64);
    assert(p.rem_spec(2u64) == p % 2);
    if p <= 2 {
        let q = (2 - p) as u64;
        assert(q.rem_spec(2u64) == q % 2);
        assert(q % 2 == p % 2);
    }
    if p < u64::MAX - 1 {
        let q = (p + 2) as u64;
        assert(q.rem_spec(2u64) == q % 2);
        assert(q % 2 == p % 2);
    }
}

/// Wrap round trip under `Clamp`, in exact whole-number arithmetic: every
/// coordinate from one on wraps to where one wraps, and every coordinate in
/// `[0, 1]` to itself.
pub proof fn lemma_clamp_holds_at_the_ends(p: u64)
    ensures
        p >= 1 ==> wrapped(Wrap::Clamp, p) == wrapped(Wrap::Clamp, 1u64),
        p <= 1 ==> wrapped(Wrap::Clamp, p) == p,
{
}

/// Resolves a texture coordinate under a wrap mode, see [`wrapped`].
pub fn wrap_uv<S: Scalar>(wrap: Wrap, p: S) -> (r: S)
    requires
        scalar_total::<S>(),
    ensures
        scalar_exact::<S>() ==> r == wrapped(wrap, p),
{
    let zero = S::from(0u8);
    let one = S::from(1u8);
    let two = S::from(2u8);
    match wrap {
        Wrap::Clamp => {
            if is_less(&p, &zero) {
                zero
            } else if is_less(&one, &p) {
                one
            } else {
                p
            }
        },
        Wrap::Repeat => {
            let r = p % one;
            if is_less(&r, &zero) {
                r + one
            } else {
                r
            }
        },
        Wrap::Mirror => {
            let r = p % two;
            let m = if is_less(&r, &zero) {
                r + two
            } else {
                r
            };
            if is_less(&one, &m) {
                two - m
            } else {
                m
            }
        },
    }
}

/// Half of `extent`, but at least one texel.
pub open spec fn halved(extent: int) -> int {
    if extent / 2 >= 1 {
        extent / 2
    } else {
        1
    }
}

/// The texel index `at`, pulled back onto the last texel of an axis of
/// `extent` texels when it lies beyond it.
pub open spec fn clamped(at: int, extent: int) -> int {
    if at < extent - 1 {
        at
    } else {
        extent - 1
    }
}

/// Number of levels of the mip chain of a `width` by `height` image: the
/// image itself and every halving down to one texel by one.
pub open spec fn mip_levels(width: int, height: int) -> int
    decreases width + height,
{
    if width < 1 || height < 1 || (width <= 1 && height <= 1) {
        1
    } else {
        1 + mip_levels(halved(width), halved(height))
    }
}

/// The mip chain of an image has `floor(log2(max(width, height))) + 1`
/// levels.
pub proof fn lemma_mip_levels_is_log2(width: int, height: int)
    requires
        width >= 1,
        height >= 1,
    ensures
        mip_levels(width, height) == log(
            2,
            if width >= height {
                width
            } else {
                height
            },
        ) + 1,
    decreases width + height,
{
    let longest = if width >= height {
        width
    } else {
        height
    };
    if width <= 1 && height <= 1 {
        lemma_log0(2, longest);
    } else {
        lemma_mip_levels_is_log2(halved(width), halved(height));
        lemma_log_s(2, longest);
    }
}

/// One level of a mip chain: a grid of `width * height` texels in row-major
/// order, row 0 at the top.
#[derive(Clone)]
pub struct Mip<T> {
    width: usize,
    height: usize,
    data: Vec<T>,
}

impl<T> View for Mip<T> {
    type V = Seq<T>;

    /// The texels in row-major order.
    closed spec fn view(&self) -> Seq<T> {
        self.data@
    }
}

impl<T> Mip<T> {
    /// Number of columns.
    pub closed spec fn spec_width(&self) -> usize {
        self.width
    }

    /// Number of rows.
    pub closed spec fn spec_height(&self) -> usize {
        self.height
    }

    /// The grid is not empty and holds exactly `width * height` texels.
    pub open spec fn wf(&self) -> bool {
        &&& self.width() >= 1
        &&& self.height() >= 1
        &&& self@.len() == self.width() * self.height()
    }

    /// The texel in column `x` of row `y`.
    pub open spec fn texel_at(&self, x: int, y: int) -> T {
        self@[y * self.width() + x]
    }

    /// The four texels that a 2 by 2 box filter reads for the texel `(x, y)`
    /// of the next smaller level, with reads beyond the last column or row
    /// clamped to it: top left, top right, bottom left, bottom right.
    pub open spec fn block(&self, x: int, y: int) -> (T, T, T, T) {
        let x0 = clamped(2 * x, self.width() as int);
        let x1 = clamped(2 * x + 1, self.width() as int);
        let y0 = clamped(2 * y, self.height() as int);
        let y1 = clamped(2 * y + 1, self.height() as int);
        (self.texel_at(x0, y0), self.texel_at(x1, y0), self.texel_at(x0, y1), self.texel_at(x1, y1))
    }

    /// The four texels that bilinear filtering blends when the sample point
    /// falls into the cell whose top left texel is `(x, y)`: `(x, y)`,
    /// `(x, y + 1)`, `(x + 1, y)` and `(x + 1, y + 1)`, with the neighbours
    /// clamped to the last column and row.
    pub open spec fn taps(&self, x: int, y: int) -> [T; 4] {
        let x1 = clamped(x + 1, self.width() as int);
        let y1 = clamped(y + 1, self.height() as int);
        [self.texel_at(x, y), self.texel_at(x, y1), self.texel_at(x1, y), self.texel_at(x1, y1)]
    }

    /// Wraps a texel grid. Fails with [`FileError::Invalid`] when a side is
    /// zero or `data` does not hold exactly `width * height` texels.
    pub fn new(width: usize, height: usize, data: Vec<T>) -> (r: Result<Self, FileError>)
        ensures
            match r {
                Ok(m) => m.wf() && m.width() == width && m.height() == height && m@ == data@,
                Err(e) => e is Invalid && !(width >= 1 && height >= 1 && data@.len() == width
                    * height),
            },
    {
        if width == 0 || height == 0 {
            return Err(FileError::Invalid);
        }
        let held = data.len();
        match width.checked_mul(height) {
            Some(texels) => {
                if texels == held {
                    Ok(Mip { width, height, data })
                } else {
                    Err(FileError::Invalid)
                }
            },
            None => Err(FileError::Invalid),
        }
    }

    /// Number of columns.
    #[verifier::when_used_as_spec(spec_width)]
    pub fn width(&self) -> (w: usize)
        ensures
            w == self.width(),
    {
        self.width
    }

    /// Number of rows.
    #[verifier::when_used_as_spec(spec_height)]
    pub fn height(&self) -> (h: usize)
        ensures
            h == self.height(),
    {
        self.height
    }
}

/// A texel of row `y` and column `x` lies inside the grid.
proof fn lemma_texel_in_grid(x: int, y: int, width: int, height: int)
    requires
        0 <= x < width,
        0 <= y < height,
    ensures
        0 <= y * width + x < width * height,
        y * width >= 0,
{
    assert(y * width >= 0) by (nonlinear_arith)
        requires
            y >= 0,
            width >= 0,
    ;
    assert((y + 1) * width <= height * width) by (nonlinear_arith)
        requires
            y + 1 <= height,
            width >= 0,
    ;
    assert((y + 1) * width == y * width + width) by (nonlinear_arith);
    assert(height * width == width * height) by (nonlinear_arith);
}

impl<T: Copy> Mip<T> {
    /// The texel in column `u` of row `v`.
    pub fn texel(&self, u: usize, v: usize) -> (t: T)
        requires
            self.wf(),
            u < self.width(),
            v < self.height(),
        ensures
            t == self.texel_at(u as int, v as int),
    {
        let held = self.data.len();
        proof {
            lemma_texel_in_grid(u as int, v as int, self.width as int, self.height as int);
        }
        self.data[v * self.width + u]
    }

    /// The bilinear footprint of the cell whose top left texel is
    /// `(x0, y0)`, see [`Mip::taps`].
    pub fn bi_taps(&self, x0: usize, y0: usize) -> (t: [T; 4])
        requires
            self.wf(),
            x0 < self.width(),
            y0 < self.height(),
        ensures
            t == self.taps(x0 as int, y0 as int),
    {
        let x1 = if x0 + 1 < self.width {
            x0 + 1
        } else {
            self.width - 1
        };
        let y1 = if y0 + 1 < self.height {
            y0 + 1
        } else {
            self.height - 1
        };
        let c00 = self.texel(x0, y0);
        let c01 = self.texel(x0, y1);
        let c10 = self.texel(x1, y0);
        let c11 = self.texel(x1, y1);
        let t = [c00, c01, c10, c11];
        assert(t =~= self.taps(x0 as int, y0 as int));
        t
    }
}

/// The box filter of mip reduction: the mean `(a + b + c + d) * (1 / 4)` of
/// the four texels of a block.
pub fn box_average<T, S>(a: T, b: T, c: T, d: T) -> (mean: T) where
    T: Copy + Add<Output = T> + Mul<S, Output = T>,
    S: Scalar,

    requires
        scalar_total::<S>(),
        blend_total::<T, S>(),
    ensures
        scalar_exact::<S>() && blend_exact::<T, S>() ==> mean == a.add_spec(b).add_spec(
            c,
        ).add_spec(d).mul_spec(number::<S>(1).div_spec(number::<S>(4))),
{
    let quarter = S::from(1u8) / S::from(4u8);
    (a + b + c + d) * quarter
}

/// Whether `coarse` is `fine` reduced by one level: each side is halved (but
/// stays at least one texel long), and every texel of `coarse` is what
/// `blend` returned for the 2 by 2 block of `fine` beneath it.
#[verifier::opaque]
pub open spec fn is_reduction<T, F: Fn(T, T, T, T) -> T>(
    blend: F,
    fine: Mip<T>,
    coarse: Mip<T>,
) -> bool {
    &&& coarse.wf()
    &&& coarse.width() == halved(fine.width() as int)
    &&& coarse.height() == halved(fine.height() as int)
    &&& forall|x: int, y: int|
        0 <= x < coarse.width() && 0 <= y < coarse.height() ==> call_ensures(
            blend,
            fine.block(x, y),
            #[trigger] coarse.texel_at(x, y),
        )
}

impl<T: Copy> Mip<T> {
    /// The next smaller level: every texel is `blend` of the 2 by 2 block
    /// beneath it, with reads clamped at the right and bottom edge of a level
    /// of odd size.
    #[verifier::rlimit(50)]
    pub fn reduce<F: Fn(T, T, T, T) -> T>(&self, blend: &F) -> (coarse: Mip<T>)
        requires
            self.wf(),
            forall|a: T, b: T, c: T, d: T| call_requires(*blend, (a, b, c, d)),
        ensures
            is_reduction(*blend, *self, coarse),
            coarse.wf(),
            coarse.width() == halved(self.width() as int),
            coarse.height() == halved(self.height() as int),
    {
        let new_w = if self.width / 2 >= 1 {
            self.width / 2
        } else {
            1
        };
        let new_h = if self.height / 2 >= 1 {
            self.height / 2
        } else {
            1
        };
        let held = self.data.len();
        assert(new_w * new_h <= self.width * self.height) by (nonlinear_arith)
            requires
                0 <= new_w <= self.width,
                0 <= new_h <= self.height,
        ;
        let mut data: Vec<T> = Vec::new();
        let mut y: usize = 0;
        while y < new_h
            invariant
                self.wf(),
                y <= new_h,
                new_w == halved(self.width as int),
                new_h == halved(self.height as int),
                new_w * new_h <= usize::MAX,
                data@.len() == y * new_w,
                forall|a: T, b: T, c: T, d: T| call_requires(*blend, (a, b, c, d)),
                forall|k: int|
                    0 <= k < data@.len() ==> call_ensures(
                        *blend,
                        self.block(k % (new_w as int), k / (new_w as int)),
                        #[trigger] data@[k],
                    ),
            decreases new_h - y,
        {
            let mut x: usize = 0;
            while x < new_w
                invariant
                    self.wf(),
                    y < new_h,
                    x <= new_w,
                    new_w == halved(self.width as int),
                    new_h == halved(self.height as int),
                    new_w * new_h <= usize::MAX,
                    data@.len() == y * new_w + x,
                    forall|a: T, b: T, c: T, d: T| call_requires(*blend, (a, b, c, d)),
                    forall|k: int|
                        0 <= k < data@.len() ==> call_ensures(
                            *blend,
                            self.block(k % (new_w as int), k / (new_w as int)),
                            #[trigger] data@[k],
                        ),
                decreases new_w - x,
            {
                let x0 = if 2 * x < self.width - 1 {
                    2 * x
                } else {
                    self.width - 1
                };
                let x1 = if 2 * x + 1 < self.width - 1 {
                    2 * x + 1
                } else {
                    self.width - 1
                };
                let y0 = if 2 * y < self.height - 1 {
                    2 * y
                } else {
                    self.height - 1
                };
                let y1 = if 2 * y + 1 < self.height - 1 {
                    2 * y + 1
                } else {
                    self.height - 1
                };
                let c0 = self.texel(x0, y0);
                let c1 = self.texel(x1, y0);
                let c2 = self.texel(x0, y1);
                let c3 = self.texel(x1, y1);
                let texel = blend(c0, c1, c2, c3);
                proof {
                    lemma_fundamental_div_mod_converse(
                        y * new_w + x,
                        new_w as int,
                        y as int,
                        x as int,
                    );
                }
                data.push(texel);
                x += 1;
            }
            assert(y * new_w + new_w == (y + 1) * new_w) by (nonlinear_arith);
            y += 1;
        }
        let coarse = Mip { width: new_w, height: new_h, data };
        proof {
            reveal(is_reduction);
            assert(new_h * new_w == new_w * new_h) by (nonlinear_arith);
            assert forall|x: int, y: int|
                0 <= x < coarse.width() && 0 <= y < coarse.height() implies call_ensures(
                *blend,
                self.block(x, y),
                #[trigger] coarse.texel_at(x, y),
            ) by {
                lemma_texel_in_grid(x, y, new_w as int, new_h as int);
                lemma_fundamental_div_mod_converse(y * new_w + x, new_w as int, y, x);
            }
        }
        coarse
    }
}

/// A texture: a chain of mip levels, finest first, and the wrap mode that
/// brings coordinates into range before sampling.
pub struct Texture<T> {
    mipmap: Vec<Mip<T>>,
    wrap: Wrap,
}

impl<T> Default for Texture<T> {
    /// The empty texture: no level at all, clamped.
    fn default() -> (t: Self)
        ensures
            t.levels().len() == 0,
            t.wrap() == Wrap::Clamp,
    {
        Texture { mipmap: Vec::new(), wrap: Wrap::Clamp }
    }
}

impl<T> Texture<T> {
    /// The mip levels, the base image first.
    pub closed spec fn levels(&self) -> Seq<Mip<T>> {
        self.mipmap@
    }

    /// The wrap mode.
    pub closed spec fn spec_wrap(&self) -> Wrap {
        self.wrap
    }

    /// Every level is a well-formed grid.
    pub open spec fn wf(&self) -> bool {
        forall|i: int| 0 <= i < self.levels().len() ==> (#[trigger] self.levels()[i]).wf()
    }

    /// Whether the levels form the complete mip chain that `blend` derives
    /// from the base image: each level is the reduction of the one before
    /// it, down to a last level of one texel.
    pub open spec fn is_baked_with<F: Fn(T, T, T, T) -> T>(&self, blend: F) -> bool {
        let levels = self.levels();
        &&& levels.len() >= 1
        &&& levels[0].wf()
        &&& forall|i: int|
            1 <= i < levels.len() ==> is_reduction(blend, levels[i - 1], #[trigger] levels[i])
        &&& levels.last().width() == 1
        &&& levels.last().height() == 1
        &&& levels.len() == mip_levels(levels[0].width() as int, levels[0].height() as int)
    }

    /// A texture of one level, the base image. Fails with
    /// [`FileError::Invalid`] when a side is zero or `data` does not hold
    /// exactly `w * h` texels.
    pub fn new(w: usize, h: usize, data: Vec<T>, wrap_mode: Wrap) -> (r: Result<Self, FileError>)
        ensures
            match r {
                Ok(t) => {
                    &&& t.wf()
                    &&& t.levels().len() == 1
                    &&& t.levels()[0].width() == w
                    &&& t.levels()[0].height() == h
                    &&& t.levels()[0]@ == data@
                    &&& t.wrap() == wrap_mode
                },
                Err(e) => e is Invalid && !(w >= 1 && h >= 1 && data@.len() == w * h),
            },
    {
        match Mip::new(w, h, data) {
            Ok(base) => {
                let mut mipmap: Vec<Mip<T>> = Vec::new();
                mipmap.push(base);
                Ok(Texture { mipmap, wrap: wrap_mode })
            },
            Err(e) => Err(e),
        }
    }

    /// The wrap mode.
    #[verifier::when_used_as_spec(spec_wrap)]
    pub fn wrap(&self) -> (w: Wrap)
        ensures
            w == self.wrap(),
    {
        self.wrap
    }

    /// Resolves a texture coordinate under the wrap mode of this texture.
    pub fn wrap_uv<S: Scalar>(&self, p: S) -> (r: S)
        requires
            scalar_total::<S>(),
        ensures
            scalar_exact::<S>() ==> r == wrapped(self.wrap(), p),
    {
        wrap_uv(self.wrap, p)
    }

    /// Number of mip levels.
    pub fn level_count(&self) -> (n: usize)
        ensures
            n == self.levels().len(),
    {
        self.mipmap.len()
    }

    /// The level for `lod`, the coarsest one when `lod` lies beyond it.
    pub fn get_level(&self, lod: usize) -> (m: &Mip<T>)
        requires
            self.levels().len() >= 1,
        ensures
            *m == self.levels()[if lod < self.levels().len() - 1 {
                lod as int
            } else {
                self.levels().len() - 1
            }],
    {
        let last = self.mipmap.len() - 1;
        let level = if lod < last {
            lod
        } else {
            last
        };
        &self.mipmap[level]
    }

    /// The two levels that trilinear filtering blends for a level of detail
    /// whose integral part is `lod`: that level and the next coarser one,
    /// both held at the coarsest level.
    pub fn level_pair(&self, lod: usize) -> (r: (&Mip<T>, &Mip<T>))
        requires
            self.levels().len() >= 1,
        ensures
            *r.0 == self.levels()[if lod < self.levels().len() - 1 {
                lod as int
            } else {
                self.levels().len() - 1
            }],
            *r.1 == self.levels()[if lod + 1 < self.levels().len() - 1 {
                lod + 1
            } else {
                self.levels().len() - 1
            }],
    {
        let last = self.mipmap.len() - 1;
        let next = if lod < last {
            lod + 1
        } else {
            last
        };
        (self.get_level(lod), self.get_level(next))
    }

    /// The longer side of the base image.
    pub fn size(&self) -> (s: usize)
        requires
            self.levels().len() >= 1,
        ensures
            s == (if self.levels()[0].width() >= self.levels()[0].height() {
                self.levels()[0].width()
            } else {
                self.levels()[0].height()
            }),
    {
        let base = &self.mipmap[0];
        if base.width >= base.height {
            base.width
        } else {
            base.height
        }
    }

    /// Width and height of the base image.
    pub fn dimensions(&self) -> (d: (usize, usize))
        requires
            self.levels().len() >= 1,
        ensures
            d == (self.levels()[0].width(), self.levels()[0].height()),
    {
        let base = &self.mipmap[0];
        (base.width, base.height)
    }

    /// Index of the coarsest level, zero for the empty texture.
    pub fn max_lod(&self) -> (l: usize)
        ensures
            l == (if self.levels().len() == 0 {
                0
            } else {
                self.levels().len() - 1
            }),
    {
        if self.mipmap.len() == 0 {
            0
        } else {
            self.mipmap.len() - 1
        }
    }
}

impl<T: Copy> Texture<T> {
    /// Derives the mip chain from the base image by repeated 2 by 2
    /// reduction, until a level of one texel is reached.
    #[verifier::rlimit(50)]
    pub fn bake<F: Fn(T, T, T, T) -> T>(&mut self, blend: F)
        requires
            old(self).levels().len() == 1,
            old(self).levels()[0].wf(),
            forall|a: T, b: T, c: T, d: T| call_requires(blend, (a, b, c, d)),
        ensures
            final(self).is_baked_with(blend),
            final(self).wf(),
            final(self).levels()[0] == old(self).levels()[0],
            final(self).wrap() == old(self).wrap(),
    {
        let ghost base = self.mipmap@[0];
        let mut last: usize = 0;
        loop
            invariant
                self.mipmap@.len() == last + 1,
                self.mipmap@[0] == base,
                self.wrap == old(self).wrap,
                base.wf(),
                forall|i: int| 0 <= i < self.mipmap@.len() ==> (#[trigger] self.mipmap@[i]).wf(),
                forall|i: int|
                    1 <= i < self.mipmap@.len() ==> is_reduction(
                        blend,
                        self.mipmap@[i - 1],
                        #[trigger] self.mipmap@[i],
                    ),
                forall|a: T, b: T, c: T, d: T| call_requires(blend, (a, b, c, d)),
                mip_levels(base.width() as int, base.height() as int) == last + mip_levels(
                    self.mipmap@[last as int].width() as int,
                    self.mipmap@[last as int].height() as int,
                ),
            ensures
                self.mipmap@.len() == last + 1,
                self.mipmap@[last as int].width() == 1,
                self.mipmap@[last as int].height() == 1,
            decreases
                    self.mipmap@[last as int].width() + self.mipmap@[last as int].height(),
        {
            let fine = &self.mipmap[last];
            if fine.width <= 1 && fine.height <= 1 {
                break ;
            }
            let coarse = fine.reduce(&blend);
            self.mipmap.push(coarse);
            let count = self.mipmap.len();
            last = count - 1;
        }
    }
}

} // verus!
