//! Three-component fixed-point vectors.
//!
//! `Float3` serves as vector, point and color alike (`Vec3`, `Point3` and
//! `Color` are aliases).  Components are fixed-point scalars as defined in
//! `fx`; the mathematical view of a vector is the ghost triple `V3` of its
//! raw integer components, and every method's contract is stated over that
//! view with the exact saturating fixed-point semantics.
use vstd::prelude::*;

use crate::fx::{
    absi, fadd, fadd_s, fdiv, fdiv_s, fmul, fmul_s, fneg, fneg_s, fpow, fpow_s, fsqrt, fsqrt_s,
    fsub, fsub_s, quot, sat64, EPS, FX_ONE,
};
use crate::rng::random_u64;

verus! {

/// The mathematical value of a `Float3`: its raw components as integers.
pub ghost struct V3 {
    pub x: int,
    pub y: int,
    pub z: int,
}

/// A 3-component fixed-point vector / point / color.
#[derive(Clone, Copy, PartialEq, Eq, Structural, Debug)]
pub struct Float3 {
    x: i64,
    y: i64,
    z: i64,
}

/// Colors are vectors interpreted as linear RGB.
pub type Color = Float3;

/// Directions are plain vectors.
pub type Vec3 = Float3;

/// Points are plain vectors.
pub type Point3 = Float3;

impl View for Float3 {
    type V = V3;

    closed spec fn view(&self) -> V3 {
        V3 { x: self.x as int, y: self.y as int, z: self.z as int }
    }
}

/// Componentwise saturating sum.
pub open spec fn vadd_s(a: V3, b: V3) -> V3 {
    V3 { x: fadd_s(a.x, b.x), y: fadd_s(a.y, b.y), z: fadd_s(a.z, b.z) }
}

/// Componentwise saturating difference.
pub open spec fn vsub_s(a: V3, b: V3) -> V3 {
    V3 { x: fsub_s(a.x, b.x), y: fsub_s(a.y, b.y), z: fsub_s(a.z, b.z) }
}

/// Componentwise saturating negation.
pub open spec fn vneg_s(a: V3) -> V3 {
    V3 { x: fneg_s(a.x), y: fneg_s(a.y), z: fneg_s(a.z) }
}

/// Componentwise fixed-point product.
pub open spec fn vmul_s(a: V3, b: V3) -> V3 {
    V3 { x: fmul_s(a.x, b.x), y: fmul_s(a.y, b.y), z: fmul_s(a.z, b.z) }
}

/// Fixed-point product with a scalar.
pub open spec fn vscale_s(a: V3, k: int) -> V3 {
    V3 { x: fmul_s(a.x, k), y: fmul_s(a.y, k), z: fmul_s(a.z, k) }
}

/// Fixed-point division by a scalar (zero divisor yields the zero vector).
pub open spec fn vdiv_s(a: V3, k: int) -> V3 {
    V3 { x: fdiv_s(a.x, k), y: fdiv_s(a.y, k), z: fdiv_s(a.z, k) }
}

/// The fixed-point dot product, summed left to right.
pub open spec fn dot_s(a: V3, b: V3) -> int {
    fadd_s(fadd_s(fmul_s(a.x, b.x), fmul_s(a.y, b.y)), fmul_s(a.z, b.z))
}

/// The fixed-point cross product.
pub open spec fn cross_s(a: V3, b: V3) -> V3 {
    V3 {
        x: fsub_s(fmul_s(a.y, b.z), fmul_s(a.z, b.y)),
        y: fsub_s(fmul_s(a.z, b.x), fmul_s(a.x, b.z)),
        z: fsub_s(fmul_s(a.x, b.y), fmul_s(a.y, b.x)),
    }
}

/// The squared length.
pub open spec fn len2_s(a: V3) -> int {
    dot_s(a, a)
}

/// The length: fixed-point square root of the squared length.
pub open spec fn len_s(a: V3) -> int {
    fsqrt_s(len2_s(a))
}

/// Normalization: division by the length (the zero vector stays zero, the
/// documented degenerate-geometry policy).
pub open spec fn normalize_s(a: V3) -> V3 {
    vdiv_s(a, len_s(a))
}

/// Linear interpolation `a + (b - a) * t`.
pub open spec fn lerp_s(a: V3, b: V3, t: int) -> V3 {
    vadd_s(a, vscale_s(vsub_s(b, a), t))
}

/// Mirror reflection about a normal: `v - 2 * dot(v, n) * n`.
pub open spec fn reflect_s(v: V3, n: V3) -> V3 {
    vsub_s(v, vscale_s(n, fadd_s(dot_s(v, n), dot_s(v, n))))
}

/// The refraction discriminant `1 - ratio^2 * (1 - dot(unit(v), n)^2)`.
pub open spec fn refract_disc_s(v: V3, n: V3, ratio: int) -> int {
    let dt = dot_s(normalize_s(v), n);
    fsub_s(FX_ONE as int, fmul_s(fmul_s(ratio, ratio), fsub_s(FX_ONE as int, fmul_s(dt, dt))))
}

/// The refracted direction, valid when the discriminant is positive:
/// `-(ratio * (unit(v) - n * dt)) - n * sqrt(disc)`.
pub open spec fn refract_dir_s(v: V3, n: V3, ratio: int) -> V3 {
    let uv = normalize_s(v);
    let dt = dot_s(uv, n);
    vsub_s(
        vneg_s(vscale_s(vsub_s(uv, vscale_s(n, dt)), ratio)),
        vscale_s(n, fsqrt_s(refract_disc_s(v, n, ratio))),
    )
}

/// Clamp one component to the unit interval.
pub open spec fn sat01_s(c: int) -> int {
    if c < 0 {
        0
    } else if c > FX_ONE as int {
        FX_ONE as int
    } else {
        c
    }
}

/// Componentwise clamp to the unit cube.
pub open spec fn vsat01_s(a: V3) -> V3 {
    V3 { x: sat01_s(a.x), y: sat01_s(a.y), z: sat01_s(a.z) }
}

/// All components nonnegative (a valid linear color).
pub open spec fn nonneg_s(a: V3) -> bool {
    a.x >= 0 && a.y >= 0 && a.z >= 0
}

/// Membership in the unit sphere, as `random_in_unit_sphere` guarantees it.
pub open spec fn in_sphere_s(v: V3) -> bool {
    len_s(v) < FX_ONE as int && -FX_ONE as int <= v.x <= FX_ONE as int && -FX_ONE as int <= v.y
        <= FX_ONE as int && -FX_ONE as int <= v.z <= FX_ONE as int
}

/// The components of any vector are 64-bit values.
pub proof fn lemma_float3_bounds(v: Float3)
    ensures
        -0x8000_0000_0000_0000 <= v@.x <= 0x7fff_ffff_ffff_ffff,
        -0x8000_0000_0000_0000 <= v@.y <= 0x7fff_ffff_ffff_ffff,
        -0x8000_0000_0000_0000 <= v@.z <= 0x7fff_ffff_ffff_ffff,
{
}

impl Float3 {
    /// Build a vector from raw fixed-point components.
    pub fn new(x: i64, y: i64, z: i64) -> (r: Self)
        ensures
            r@ == (V3 { x: x as int, y: y as int, z: z as int }),
    {
        Self { x, y, z }
    }

    /// The first component.
    pub fn x(&self) -> (r: i64)
        ensures
            r as int == self@.x,
    {
        self.x
    }

    /// The second component.
    pub fn y(&self) -> (r: i64)
        ensures
            r as int == self@.y,
    {
        self.y
    }

    /// The third component.
    pub fn z(&self) -> (r: i64)
        ensures
            r as int == self@.z,
    {
        self.z
    }

    /// The unit vector along the first axis.
    pub fn xaxis() -> (r: Self)
        ensures
            r@ == (V3 { x: FX_ONE as int, y: 0, z: 0 }),
    {
        Self::new(FX_ONE, 0, 0)
    }

    /// The unit vector along the second axis.
    pub fn yaxis() -> (r: Self)
        ensures
            r@ == (V3 { x: 0, y: FX_ONE as int, z: 0 }),
    {
        Self::new(0, FX_ONE, 0)
    }

    /// The unit vector along the third axis.
    pub fn zaxis() -> (r: Self)
        ensures
            r@ == (V3 { x: 0, y: 0, z: FX_ONE as int }),
    {
        Self::new(0, 0, FX_ONE)
    }

    /// The zero vector.
    pub fn zero() -> (r: Self)
        ensures
            r@ == (V3 { x: 0, y: 0, z: 0 }),
    {
        Self::new(0, 0, 0)
    }

    /// The all-ones vector (white, as a color).
    pub fn one() -> (r: Self)
        ensures
            r@ == (V3 { x: FX_ONE as int, y: FX_ONE as int, z: FX_ONE as int }),
    {
        Self::new(FX_ONE, FX_ONE, FX_ONE)
    }

    /// All three components set to the same value.
    pub fn fill(value: i64) -> (r: Self)
        ensures
            r@ == (V3 { x: value as int, y: value as int, z: value as int }),
    {
        Self::new(value, value, value)
    }

    /// The raw components as an array.
    pub fn to_array(self) -> (r: [i64; 3])
        ensures
            r[0] as int == self@.x,
            r[1] as int == self@.y,
            r[2] as int == self@.z,
    {
        [self.x, self.y, self.z]
    }

    /// Componentwise saturating sum.
    pub fn add(self, rhs: Self) -> (r: Self)
        ensures
            r@ == vadd_s(self@, rhs@),
    {
        Self { x: fadd(self.x, rhs.x), y: fadd(self.y, rhs.y), z: fadd(self.z, rhs.z) }
    }

    /// Componentwise saturating difference.
    pub fn sub(self, rhs: Self) -> (r: Self)
        ensures
            r@ == vsub_s(self@, rhs@),
    {
        Self { x: fsub(self.x, rhs.x), y: fsub(self.y, rhs.y), z: fsub(self.z, rhs.z) }
    }

    /// Componentwise saturating negation.
    pub fn neg(self) -> (r: Self)
        ensures
            r@ == vneg_s(self@),
    {
        Self { x: fneg(self.x), y: fneg(self.y), z: fneg(self.z) }
    }

    /// Componentwise fixed-point product.
    pub fn mul(self, rhs: Self) -> (r: Self)
        ensures
            r@ == vmul_s(self@, rhs@),
    {
        Self { x: fmul(self.x, rhs.x), y: fmul(self.y, rhs.y), z: fmul(self.z, rhs.z) }
    }

    /// Fixed-point product with a scalar.
    pub fn scale(self, k: i64) -> (r: Self)
        ensures
            r@ == vscale_s(self@, k as int),
    {
        Self { x: fmul(self.x, k), y: fmul(self.y, k), z: fmul(self.z, k) }
    }

    /// Fixed-point division by a scalar.
    pub fn div_s(self, k: i64) -> (r: Self)
        ensures
            r@ == vdiv_s(self@, k as int),
    {
        Self { x: fdiv(self.x, k), y: fdiv(self.y, k), z: fdiv(self.z, k) }
    }

    /// The fixed-point dot product.
    pub fn dot(&self, rhs: Self) -> (r: i64)
        ensures
            r as int == dot_s(self@, rhs@),
    {
        fadd(fadd(fmul(self.x, rhs.x), fmul(self.y, rhs.y)), fmul(self.z, rhs.z))
    }

    /// The fixed-point cross product.
    pub fn cross(&self, rhs: Self) -> (r: Self)
        ensures
            r@ == cross_s(self@, rhs@),
    {
        Self {
            x: fsub(fmul(self.y, rhs.z), fmul(self.z, rhs.y)),
            y: fsub(fmul(self.z, rhs.x), fmul(self.x, rhs.z)),
            z: fsub(fmul(self.x, rhs.y), fmul(self.y, rhs.x)),
        }
    }

    /// The squared length.
    pub fn length_squered(&self) -> (r: i64)
        ensures
            r as int == len2_s(self@),
    {
        self.dot(*self)
    }

    /// The length.
    pub fn length(&self) -> (r: i64)
        ensures
            r as int == len_s(self@),
            r >= 0,
    {
        fsqrt(self.length_squered())
    }

    /// The unit vector with this direction (zero stays zero).
    pub fn normalize(&self) -> (r: Self)
        ensures
            r@ == normalize_s(self@),
    {
        self.div_s(self.length())
    }

    /// Linear interpolation toward `v` by `t`.
    pub fn lerp(&self, v: Self, t: i64) -> (r: Self)
        ensures
            r@ == lerp_s(self@, v@, t as int),
    {
        self.add(v.sub(*self).scale(t))
    }

    /// Componentwise square root (negative components map to zero).
    pub fn sqrt(&self) -> (r: Self)
        ensures
            r@ == (V3 { x: fsqrt_s(self@.x), y: fsqrt_s(self@.y), z: fsqrt_s(self@.z) }),
    {
        Self { x: fsqrt(self.x), y: fsqrt(self.y), z: fsqrt(self.z) }
    }

    /// Whether every component is within the near-zero threshold.
    pub fn near_zero(&self) -> (r: bool)
        ensures
            r == (absi(self@.x) < EPS as int && absi(self@.y) < EPS as int && absi(self@.z)
                < EPS as int),
    {
        -EPS < self.x && self.x < EPS && -EPS < self.y && self.y < EPS && -EPS < self.z && self.z
            < EPS
    }

    /// Componentwise clamp to the unit interval.
    pub fn saturate(&self) -> (r: Self)
        ensures
            r@ == vsat01_s(self@),
    {
        Self { x: sat01(self.x), y: sat01(self.y), z: sat01(self.z) }
    }

    /// Mirror reflection about `normal`.
    pub fn reflect(&self, normal: Self) -> (r: Self)
        ensures
            r@ == reflect_s(self@, normal@),
    {
        let d = self.dot(normal);
        self.sub(normal.scale(fadd(d, d)))
    }

    /// Refraction by Snell's law: `Some` exactly when the discriminant is
    /// positive, `None` on total internal reflection.
    pub fn refract(&self, normal: Self, ni_over_nt: i64) -> (r: Option<Self>)
        ensures
            r is Some <==> refract_disc_s(self@, normal@, ni_over_nt as int) > 0,
            r matches Some(v) ==> v@ == refract_dir_s(self@, normal@, ni_over_nt as int),
    {
        let uv = self.normalize();
        let dt = uv.dot(normal);
        let d = fsub(FX_ONE, fmul(fmul(ni_over_nt, ni_over_nt), fsub(FX_ONE, fmul(dt, dt))));
        if d > 0 {
            Some(uv.sub(normal.scale(dt)).scale(ni_over_nt).neg().sub(normal.scale(fsqrt(d))))
        } else {
            None
        }
    }
}

/// Clamp one scalar to the unit interval.
pub fn sat01(c: i64) -> (r: i64)
    ensures
        r as int == sat01_s(c as int),
{
    if c < 0 {
        0
    } else if c > FX_ONE {
        FX_ONE
    } else {
        c
    }
}

/// Whether a byte is an ASCII hexadecimal digit.
pub open spec fn is_hex_digit(b: int) -> bool {
    (48 <= b <= 57) || (97 <= b <= 102) || (65 <= b <= 70)
}

/// The value of an ASCII hexadecimal digit.
pub open spec fn hex_val(b: int) -> int {
    if 48 <= b <= 57 {
        b - 48
    } else if 97 <= b <= 102 {
        b - 87
    } else {
        b - 55
    }
}

/// One 8-bit channel scaled into the unit interval: `c / 255`.
pub open spec fn channel_s(c: int) -> int {
    fdiv_s(c * FX_ONE as int, 255 * FX_ONE as int)
}

/// The quantized 8-bit value of one color channel:
/// `floor(255.99 * clamp(c, 0, 1))`.
pub open spec fn to_byte_s(c: int) -> int {
    quot(fmul_s(RGB_SCALE as int, sat01_s(c)), FX_ONE as int)
}

/// 255.99 in fixed point: the quantization factor for 8-bit output.
pub const RGB_SCALE: i64 = 1099468678103;

/// One ASCII hexadecimal digit's value.
fn hex_digit(b: u8) -> (r: u8)
    requires
        is_hex_digit(b as int),
    ensures
        r as int == hex_val(b as int),
        r < 16,
{
    if 48 <= b && b <= 57 {
        b - 48
    } else if 97 <= b && b <= 102 {
        b - 87
    } else {
        b - 55
    }
}

impl Float3 {
    /// Parse a color from six ASCII hexadecimal digits, two per channel.
    pub fn from_hex(hex: &[u8; 6]) -> (r: Self)
        requires
            forall|i: int| 0 <= i < 6 ==> is_hex_digit(hex@[i] as int),
        ensures
            r@ == (V3 {
                x: channel_s(hex_val(hex@[0] as int) * 16 + hex_val(hex@[1] as int)),
                y: channel_s(hex_val(hex@[2] as int) * 16 + hex_val(hex@[3] as int)),
                z: channel_s(hex_val(hex@[4] as int) * 16 + hex_val(hex@[5] as int)),
            }),
    {
        let rr = hex_digit(hex[0]) * 16 + hex_digit(hex[1]);
        let gg = hex_digit(hex[2]) * 16 + hex_digit(hex[3]);
        let bb = hex_digit(hex[4]) * 16 + hex_digit(hex[5]);
        Self::from_rgb(rr, gg, bb)
    }

    /// A color from 8-bit channels, scaled into the unit interval.
    pub fn from_rgb(r: u8, g: u8, b: u8) -> (c: Self)
        ensures
            c@ == (V3 { x: channel_s(r as int), y: channel_s(g as int), z: channel_s(b as int) }),
    {
        Self {
            x: fdiv(r as i64 * FX_ONE, 255 * FX_ONE),
            y: fdiv(g as i64 * FX_ONE, 255 * FX_ONE),
            z: fdiv(b as i64 * FX_ONE, 255 * FX_ONE),
        }
    }

    /// The quantized 8-bit triple of this color.
    pub fn to_rgb(self) -> (r: [u8; 3])
        ensures
            r[0] as int == to_byte_s(self@.x),
            r[1] as int == to_byte_s(self@.y),
            r[2] as int == to_byte_s(self@.z),
    {
        [self.r(), self.g(), self.b()]
    }

    /// The quantized 8-bit value of the first channel.
    pub fn r(&self) -> (r: u8)
        ensures
            r as int == to_byte_s(self@.x),
    {
        quantize(self.x)
    }

    /// The quantized 8-bit value of the second channel.
    pub fn g(&self) -> (r: u8)
        ensures
            r as int == to_byte_s(self@.y),
    {
        quantize(self.y)
    }

    /// The quantized 8-bit value of the third channel.
    pub fn b(&self) -> (r: u8)
        ensures
            r as int == to_byte_s(self@.z),
    {
        quantize(self.z)
    }
}

/// Quantize one clamped channel to 8 bits.
fn quantize(c: i64) -> (r: u8)
    ensures
        r as int == to_byte_s(c as int),
{
    let cl = sat01(c);
    let v = fmul(RGB_SCALE, cl);
    proof {
        crate::fx::lemma_fmul_s_sign(RGB_SCALE as int, cl as int);
        crate::fx::lemma_fmul_s_mono(cl as int, FX_ONE as int, RGB_SCALE as int);
        crate::fx::lemma_quot_bound(RGB_SCALE as int * FX_ONE as int, FX_ONE as int);
        vstd::arithmetic::div_mod::lemma_div_by_multiple(RGB_SCALE as int, FX_ONE as int);
        crate::fx::lemma_quot_mono(v as int, RGB_SCALE as int, FX_ONE as int);
        vstd::arithmetic::div_mod::lemma_div_pos_is_pos(v as int, FX_ONE as int);
    }
    let b = (v as u64) / (FX_ONE as u64);
    b as u8
}

impl Float3 {
    /// Gamma encoding: each channel raised to the reciprocal of `factor`.
    pub fn gamma(&self, factor: i64) -> (r: Self)
        ensures
            r@ == (V3 {
                x: fpow_s(self@.x, fdiv_s(FX_ONE as int, factor as int)),
                y: fpow_s(self@.y, fdiv_s(FX_ONE as int, factor as int)),
                z: fpow_s(self@.z, fdiv_s(FX_ONE as int, factor as int)),
            }),
    {
        let e = fdiv(FX_ONE, factor);
        Self { x: fpow(self.x, e), y: fpow(self.y, e), z: fpow(self.z, e) }
    }

    /// Gamma decoding: each channel raised to `factor`.
    pub fn degamma(&self, factor: i64) -> (r: Self)
        ensures
            r@ == (V3 {
                x: fpow_s(self@.x, factor as int),
                y: fpow_s(self@.y, factor as int),
                z: fpow_s(self@.z, factor as int),
            }),
    {
        Self { x: fpow(self.x, factor), y: fpow(self.y, factor), z: fpow(self.z, factor) }
    }
}

impl Float3 {
    /// A vector with three independent uniform components in `[0, 1)`.
    pub fn random() -> (r: Self)
        ensures
            0 <= r@.x < FX_ONE as int,
            0 <= r@.y < FX_ONE as int,
            0 <= r@.z < FX_ONE as int,
    {
        Self { x: random_unit_scalar(), y: random_unit_scalar(), z: random_unit_scalar() }
    }

    /// All three components set to one uniform value in `[0, 1)`.
    pub fn random_fill() -> (r: Self)
        ensures
            0 <= r@.x < FX_ONE as int,
            r@.y == r@.x,
            r@.z == r@.x,
    {
        let v = random_unit_scalar();
        Self { x: v, y: v, z: v }
    }

    /// Three independent uniform components in `[min, max)`.
    pub fn random_limit(min: i64, max: i64) -> (r: Self)
        ensures
            min > i64::MIN && min <= max ==> min as int <= r@.x <= max as int,
            min > i64::MIN && min <= max ==> min as int <= r@.y <= max as int,
            min > i64::MIN && min <= max ==> min as int <= r@.z <= max as int,
    {
        let d = fsub(max, min);
        let r = Self::random();
        proof {
            if min > i64::MIN && min <= max {
                lemma_limit_bound(min as int, max as int, r@.x);
                lemma_limit_bound(min as int, max as int, r@.y);
                lemma_limit_bound(min as int, max as int, r@.z);
            }
        }
        Self { x: fadd(min, fmul(r.x, d)), y: fadd(min, fmul(r.y, d)), z: fadd(min, fmul(r.z, d)) }
    }

    /// A point drawn inside the unit sphere, by rejection sampling.  The
    /// number of draws is bounded so that termination is provable; the
    /// center, a valid sample, stands in for the almost-never exhausted case.
    pub fn random_in_unit_sphere() -> (r: Self)
        ensures
            in_sphere_s(r@),
    {
        let mut tries: u32 = 0;
        while tries < 1000
            invariant
                true,
            decreases 1000 - tries,
        {
            let point = Self::random_limit(-FX_ONE, FX_ONE);
            if point.length() < FX_ONE {
                return point;
            }
            tries = tries + 1;
        }
        Self::zero()
    }
}

/// For a uniform draw `u` in `[0, 1)` the sample `min + u * (max - min)`
/// stays in `[min, max]`.
proof fn lemma_limit_bound(min: int, max: int, u: int)
    requires
        0 <= u < FX_ONE as int,
        -(crate::fx::FX_MAX as int) <= min <= crate::fx::FX_MAX as int,
        -(crate::fx::FX_MAX as int) <= max <= crate::fx::FX_MAX as int,
    ensures
        min <= max ==> min <= fadd_s(min, fmul_s(u, fsub_s(max, min))) <= max,
{
    if min <= max {
        let d = fsub_s(max, min);
        crate::fx::lemma_fmul_s_sign(u, d);
        crate::fx::lemma_fmul_s_mono(u, FX_ONE as int, d);
        vstd::arithmetic::div_mod::lemma_div_by_multiple(d, FX_ONE as int);
        assert(fmul_s(FX_ONE as int, d) == sat64(d));
        assert(fmul_s(u, d) <= sat64(d));
    }
}

/// One uniform fixed-point value in `[0, 1)`.
pub fn random_unit_scalar() -> (r: i64)
    ensures
        0 <= r < FX_ONE,
{
    let raw = random_u64();
    (raw % (FX_ONE as u64)) as i64
}

} // verus!
