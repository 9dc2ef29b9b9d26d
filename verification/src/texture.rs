//! Textures: rectangles of packed colours, read texel by texel or sampled
//! with bilinear filtering and wrap-around.

use vstd::prelude::*;
use crate::color::{bilinear, bilinear_interpolation};
use crate::fixed::UNIT;

verus! {

/// A rectangle of packed colours, row after row.
pub struct Bitmap {
    pub width: int,
    pub height: int,
    pub pixels: Seq<u32>,
}

impl Bitmap {
    /// There is one colour for each place.
    pub open spec fn wf(self) -> bool {
        &&& 0 <= self.width
        &&& 0 <= self.height
        &&& self.pixels.len() == self.width * self.height
    }

    /// The colour in column `x` of row `y`, or 0 outside the rectangle.
    pub open spec fn texel(self, x: int, y: int) -> u32 {
        if 0 <= x < self.width && 0 <= y < self.height {
            self.pixels[y * self.width + x]
        } else {
            0
        }
    }

    /// The colour at `(u, v)`, where `UNIT` is one full width or height: the
    /// blend of the four texels around the point, those past the right edge
    /// or the bottom being the ones at the left edge or the top. An empty
    /// bitmap has colour 0 everywhere.
    pub open spec fn sample(self, u: int, v: int) -> int {
        if self.width <= 0 || self.height <= 0 {
            0
        } else {
            let x = u * self.width;
            let y = v * self.height;
            let x1 = (x / (UNIT as int)) % self.width;
            let y1 = (y / (UNIT as int)) % self.height;
            let x2 = (x1 + 1) % self.width;
            let y2 = (y1 + 1) % self.height;
            bilinear(
                self.texel(x1, y1),
                self.texel(x2, y1),
                self.texel(x1, y2),
                self.texel(x2, y2),
                x % (UNIT as int),
                y % (UNIT as int),
            )
        }
    }
}

/// A place inside a rectangle has its index inside the rectangle's area.
pub proof fn lemma_index_in_area(x: int, y: int, width: int, height: int)
    requires
        0 <= x < width,
        0 <= y < height,
    ensures
        0 <= y * width + x < width * height,
        y * width + x < (y + 1) * width,
{
    assert(0 <= y * width && (y + 1) * width <= height * width && (y + 1) * width == y * width
        + width) by (nonlinear_arith)
        requires
            0 <= y < height,
            0 < width,
    ;
    assert(height * width == width * height) by (nonlinear_arith);
}

/// Sampling repeats with period `UNIT` in both directions: a texture tiles
/// the plane without a seam.
pub proof fn lemma_sample_periodic(bitmap: Bitmap, u: int, v: int)
    requires
        bitmap.wf(),
    ensures
        bitmap.sample(u + UNIT, v) == bitmap.sample(u, v),
        bitmap.sample(u, v + UNIT) == bitmap.sample(u, v),
{
    if bitmap.width > 0 && bitmap.height > 0 {
        let unit = UNIT as int;
        let w = bitmap.width;
        let h = bitmap.height;
        assert((u + unit) * w == u * w + w * unit) by (nonlinear_arith);
        assert((v + unit) * h == v * h + h * unit) by (nonlinear_arith);
        lemma_shift_by_multiples(u * w, w);
        lemma_shift_by_multiples(v * h, h);
    }
}

/// Adding `n` times `UNIT` to a number adds `n` to its quotient by `UNIT`,
/// which leaves the quotient's remainder by `n` as it was, and leaves the
/// number's own remainder by `UNIT` as it was.
proof fn lemma_shift_by_multiples(x: int, n: int)
    requires
        0 < n,
    ensures
        ((x + n * UNIT) / (UNIT as int)) % n == (x / (UNIT as int)) % n,
        (x + n * UNIT) % (UNIT as int) == x % (UNIT as int),
{
    let unit = UNIT as int;
    let q = x / unit;
    assert((x + n * unit) / unit == q + n && (x + n * unit) % unit == x % unit)
        by (nonlinear_arith)
        requires
            unit == 65536,
            q == x / unit,
    ;
    assert((q + n) % n == q % n) by (nonlinear_arith)
        requires
            0 < n,
    ;
}

/// A texture: at most 2^32 - 1 texels wide and high.
pub struct Texture {
    width: u32,
    height: u32,
    pixels: Vec<u32>,
}

impl View for Texture {
    type V = Bitmap;

    closed spec fn view(&self) -> Bitmap {
        Bitmap { width: self.width as int, height: self.height as int, pixels: self.pixels@ }
    }
}

impl Texture {
    #[verifier::type_invariant]
    pub open spec fn wf(&self) -> bool {
        &&& self@.wf()
        &&& self@.width <= u32::MAX
        &&& self@.height <= u32::MAX
    }

    /// The texture of the given size and colours, if there is one colour for
    /// each place.
    pub fn new(width: u32, height: u32, pixels: Vec<u32>) -> (texture: Option<Texture>)
        ensures
            texture is Some <==> pixels.len() == width * height,
            texture is Some ==> texture.unwrap()@ == (Bitmap {
                width: width as int,
                height: height as int,
                pixels: pixels@,
            }),
    {
        assert(0 <= width * height <= 0xffff_ffff * 0xffff_ffff) by (nonlinear_arith)
            requires
                0 <= width <= 0xffff_ffff,
                0 <= height <= 0xffff_ffff,
        ;
        if pixels.len() as u128 == width as u128 * height as u128 {
            Some(Texture { width, height, pixels })
        } else {
            None
        }
    }

    /// A texture without texels.
    pub fn empty() -> (texture: Texture)
        ensures
            texture@ == (Bitmap { width: 0, height: 0, pixels: Seq::empty() }),
    {
        Texture { width: 0, height: 0, pixels: Vec::new() }
    }

    /// The number of columns.
    pub fn width(&self) -> (w: u32)
        ensures
            w == self@.width,
    {
        self.width
    }

    /// The number of rows.
    pub fn height(&self) -> (h: u32)
        ensures
            h == self@.height,
    {
        self.height
    }

    /// The texels, row after row.
    pub fn pixels(&self) -> (pixels: &Vec<u32>)
        ensures
            pixels@ == self@.pixels,
            pixels.len() == self@.width * self@.height,
    {
        proof {
            use_type_invariant(self);
        }
        &self.pixels
    }

    /// The colour in column `x` of row `y`, or 0 outside the texture.
    pub fn get_pixel(&self, x: u32, y: u32) -> (color: u32)
        ensures
            color == self@.texel(x as int, y as int),
    {
        proof {
            use_type_invariant(self);
        }
        if x < self.width && y < self.height {
            let area: usize = self.pixels.len();
            proof {
                lemma_index_in_area(x as int, y as int, self.width as int, self.height as int);
                assert(area == self.width * self.height);
            }
            self.pixels[y as usize * self.width as usize + x as usize]
        } else {
            0
        }
    }

    /// The colour at `(u, v)`, filtered and wrapped.
    pub fn sample_texture(&self, u: u64, v: u64) -> (color: u32)
        ensures
            color == self@.sample(u as int, v as int),
    {
        if self.width == 0 || self.height == 0 {
            return 0;
        }
        let unit: u128 = 65536;
        assert(u * self.width <= 0xffff_ffff_ffff_ffff * 0xffff_ffff && v * self.height
            <= 0xffff_ffff_ffff_ffff * 0xffff_ffff) by (nonlinear_arith)
            requires
                0 <= u <= 0xffff_ffff_ffff_ffff,
                0 <= v <= 0xffff_ffff_ffff_ffff,
                0 <= self.width <= 0xffff_ffff,
                0 <= self.height <= 0xffff_ffff,
        ;
        let x: u128 = u as u128 * self.width as u128;
        let y: u128 = v as u128 * self.height as u128;
        let x1: u32 = ((x / unit) % self.width as u128) as u32;
        let y1: u32 = ((y / unit) % self.height as u128) as u32;
        let x2: u32 = if x1 + 1 == self.width {
            0
        } else {
            x1 + 1
        };
        let y2: u32 = if y1 + 1 == self.height {
            0
        } else {
            y1 + 1
        };
        let tx: u32 = (x % unit) as u32;
        let ty: u32 = (y % unit) as u32;
        proof {
            let w = self@.width;
            let h = self@.height;
            assert(x == u as int * w);
            assert(y == v as int * h);
            assert(x1 == ((u as int * w) / (UNIT as int)) % w);
            assert(y1 == ((v as int * h) / (UNIT as int)) % h);
            assert(x2 == (x1 + 1) % (w as int)) by (nonlinear_arith)
                requires
                    0 <= x1 < w,
                    x2 == if x1 + 1 == w { 0int } else { x1 + 1 },
            ;
            assert(y2 == (y1 + 1) % (h as int)) by (nonlinear_arith)
                requires
                    0 <= y1 < h,
                    y2 == if y1 + 1 == h { 0int } else { y1 + 1 },
            ;
        }
        bilinear_interpolation(
            self.get_pixel(x1, y1),
            self.get_pixel(x2, y1),
            self.get_pixel(x1, y2),
            self.get_pixel(x2, y2),
            tx,
            ty,
        )
    }
}

} // verus!
