//! Surface color lookup: solid color, 3D checker pattern, image-sampled.
use vstd::prelude::*;

use crate::float3::{nonneg_s, Color, V3};
use crate::fx::{fmul, fmul_s, quot, sin_fx, sin_s, FX_ONE};

verus! {

/// A texture: where a surface gets its color.
pub enum Texture {
    /// A constant color, ignoring the sample coordinates.
    Solid { color: Color },
    /// A 3D lattice: the sign of `sin(freq x) sin(freq y) sin(freq z)` at
    /// the hit point picks the odd or the even child.
    Checker { odd: Box<Texture>, even: Box<Texture>, freq: i64 },
    /// A decoded image, sampled nearest-neighbor by `(u, v)`.
    Image { pixels: Vec<Color>, width: usize, height: usize },
}

/// Structural validity: image buffers match their dimensions (which fit in
/// 32 bits, a machine limit of the indexing), and every stored color is
/// nonnegative (a valid linear color).
pub open spec fn tex_wf(t: Texture) -> bool
    decreases t,
{
    match t {
        Texture::Solid { color } => nonneg_s(color@),
        Texture::Checker { odd, even, freq } => tex_wf(*odd) && tex_wf(*even),
        Texture::Image { pixels, width, height } => 1 <= width < 0x1_0000 && 1 <= height < 0x1_0000
            && pixels@.len() == width * height && (forall|i: int|
            0 <= i < pixels@.len() ==> nonneg_s(#[trigger] pixels@[i]@)),
    }
}

/// The product of the three sines that drives the checker pattern.
pub open spec fn checker_sines_s(freq: int, p: V3) -> int {
    fmul_s(fmul_s(sin_s(fmul_s(p.x, freq)), sin_s(fmul_s(p.y, freq))), sin_s(fmul_s(p.z, freq)))
}

/// One image axis coordinate: truncate the scaled coordinate and clamp it
/// into the valid index range.
pub open spec fn image_axis_s(c: int, extent: int) -> int {
    let i = quot(c * extent, FX_ONE as int);
    if i < 0 {
        0
    } else if i > extent - 1 {
        extent - 1
    } else {
        i
    }
}

/// What `value` returns.
pub open spec fn tex_value_s(t: Texture, u: int, v: int, p: V3) -> V3
    decreases t,
{
    match t {
        Texture::Solid { color } => color@,
        Texture::Checker { odd, even, freq } => {
            if checker_sines_s(freq as int, p) < 0 {
                tex_value_s(*odd, u, v, p)
            } else {
                tex_value_s(*even, u, v, p)
            }
        },
        Texture::Image { pixels, width, height } => {
            let x = image_axis_s(u, width as int);
            let y = image_axis_s(crate::fx::fsub_s(FX_ONE as int, v), height as int);
            pixels@[y * width as int + x]@
        },
    }
}

/// A valid texture yields nonnegative colors everywhere.
pub proof fn lemma_tex_value_nonneg(t: Texture, u: int, v: int, p: V3)
    requires
        tex_wf(t),
    ensures
        nonneg_s(tex_value_s(t, u, v, p)),
    decreases t,
{
    match t {
        Texture::Solid { color } => {},
        Texture::Checker { odd, even, freq } => {
            lemma_tex_value_nonneg(*odd, u, v, p);
            lemma_tex_value_nonneg(*even, u, v, p);
        },
        Texture::Image { pixels, width, height } => {
            let x = image_axis_s(u, width as int);
            let y = image_axis_s(crate::fx::fsub_s(FX_ONE as int, v), height as int);
            assert(0 <= x < width as int);
            assert(0 <= y < height as int);
            assert(y * (width as int) + x < (height as int) * (width as int)) by (nonlinear_arith)
                requires
                    0 <= x < width as int,
                    0 <= y < height as int,
            ;
            assert((width as int) * (height as int) == (height as int) * (width as int));
            assert(y * (width as int) + x >= 0) by (nonlinear_arith)
                requires
                    0 <= x,
                    0 <= y,
                    width as int >= 1,
            ;
            assert(nonneg_s(pixels@[y * (width as int) + x]@));
        },
    }
}

/// One image axis coordinate, clamped.
fn image_axis(c: i64, extent: usize) -> (r: usize)
    requires
        1 <= extent < 0x1_0000,
    ensures
        r as int == image_axis_s(c as int, extent as int),
        r < extent,
{
    proof {
        crate::fx::lemma_quot_bound(c as int * extent as int, FX_ONE as int);
        assert(c as int * extent as int <= 0x7fff_ffff_ffff_ffff * 0x1_0000
            && c as int * extent as int >= -0x8000_0000_0000_0000 * 0x1_0000) by (nonlinear_arith)
            requires
                -0x8000_0000_0000_0000 <= c as int <= 0x7fff_ffff_ffff_ffff,
                0 <= extent as int <= 0x1_0000,
        ;
    }
    let scaled: i128 = (c as i128) * (extent as i128);
    let i: i128 = crate::fx::div_trunc(scaled, FX_ONE as i128);
    if i < 0 {
        0
    } else if i > extent as i128 - 1 {
        extent - 1
    } else {
        i as usize
    }
}

impl Texture {
    /// A constant-color texture.
    pub fn solid(color: Color) -> (r: Self)
        ensures
            r == (Texture::Solid { color }),
    {
        Texture::Solid { color }
    }

    /// A checker texture alternating between two children at `freq`.
    pub fn checker(odd: Texture, even: Texture, freq: i64) -> (r: Self)
        ensures
            r == (Texture::Checker { odd: Box::new(odd), even: Box::new(even), freq }),
    {
        Texture::Checker { odd: Box::new(odd), even: Box::new(even), freq }
    }

    /// An image texture over a decoded row-major pixel buffer.
    pub fn image(pixels: Vec<Color>, width: usize, height: usize) -> (r: Self)
        requires
            width >= 1,
            height >= 1,
            pixels@.len() == width * height,
        ensures
            r == (Texture::Image { pixels, width, height }),
    {
        Texture::Image { pixels, width, height }
    }

    /// The color of this texture at surface coordinates `(u, v)` and hit
    /// point `p`.
    pub fn value(&self, u: i64, v: i64, p: Color) -> (r: Color)
        requires
            tex_wf(*self),
        ensures
            r@ == tex_value_s(*self, u as int, v as int, p@),
        decreases *self,
    {
        match self {
            Texture::Solid { color } => *color,
            Texture::Checker { odd, even, freq } => {
                let sines = fmul(
                    fmul(sin_fx(fmul(p.x(), *freq)), sin_fx(fmul(p.y(), *freq))),
                    sin_fx(fmul(p.z(), *freq)),
                );
                if sines < 0 {
                    odd.value(u, v, p)
                } else {
                    even.value(u, v, p)
                }
            },
            Texture::Image { pixels, width, height } => {
                let w: usize = *width;
                let h: usize = *height;
                let flipped = crate::fx::fsub(FX_ONE, v);
                let x = image_axis(u, w);
                let y = image_axis(flipped, h);
                proof {
                    assert((y as int) * (w as int) + (x as int) < (h as int) * (w as int))
                        by (nonlinear_arith)
                        requires
                            0 <= (x as int) < (w as int),
                            0 <= (y as int) < (h as int),
                    ;
                    assert((w as int) * (h as int) == (h as int) * (w as int));
                    assert((y as int) * (w as int) <= 0xffff * 0xffff) by (nonlinear_arith)
                        requires
                            0 <= (y as int) <= 0xffff,
                            0 <= (w as int) <= 0xffff,
                    ;
                }
                pixels[y * w + x]
            },
        }
    }
}

} // verus!
