//! Fixed-point scalar arithmetic.
//!
//! Every coordinate, color channel and parametric distance in this crate is a
//! signed 64-bit fixed-point number with 32 fractional bits: the stored value
//! `v` stands for the real number `v / FX_ONE`.  All operations are total:
//! results that would not fit in an `i64` saturate to `FX_MAX` / `-FX_MAX`,
//! and a division by zero yields zero (the degenerate-geometry policy of this
//! library: no operation panics and no undefined value propagates).
use vstd::prelude::*;

verus! {

/// One, in fixed point: 2^32.
pub const FX_ONE: i64 = 4294967296;

/// Largest magnitude a fixed-point value may take (the saturation rail).
pub const FX_MAX: i64 = 9223372036854775807;

/// Pi, in fixed point (rounded to the nearest representable value).
pub const FX_PI: i64 = 13493037705;

/// Pi/2, in fixed point.
pub const FX_PI_2: i64 = 6746518852;

/// Pi/4, in fixed point.
pub const FX_PI_4: i64 = 3373259426;

/// 2*Pi, in fixed point (exactly twice `FX_PI`).
pub const PI2: i64 = 26986075410;

/// The linear coefficient 0.273 of the arctangent approximation.
pub const ATAN_K: i64 = 1172526072;

/// The near-zero threshold (about 1e-6) used by `Float3::near_zero`.
pub const EPS: i64 = 4295;

/// Absolute value of a mathematical integer.
pub open spec fn absi(a: int) -> int {
    if a >= 0 {
        a
    } else {
        -a
    }
}

/// Truncating (round toward zero) division, for a positive divisor.
pub open spec fn quot(a: int, b: int) -> int {
    if a >= 0 {
        a / b
    } else {
        -((-a) / b)
    }
}

/// Truncating (round toward zero) division, for any nonzero divisor.
pub open spec fn qz(a: int, b: int) -> int {
    if b >= 0 {
        quot(a, b)
    } else {
        -quot(a, -b)
    }
}

/// Saturation of a mathematical integer to the symmetric `i64` range.
pub open spec fn sat64(a: int) -> int {
    if a > FX_MAX as int {
        FX_MAX as int
    } else if a < -(FX_MAX as int) {
        -(FX_MAX as int)
    } else {
        a
    }
}

/// What `fadd` returns: the saturated sum.
pub open spec fn fadd_s(a: int, b: int) -> int {
    sat64(a + b)
}

/// What `fsub` returns: the saturated difference.
pub open spec fn fsub_s(a: int, b: int) -> int {
    sat64(a - b)
}

/// What `fneg` returns: the saturated negation.
pub open spec fn fneg_s(a: int) -> int {
    sat64(-a)
}

/// What `fmul` returns: the saturated, truncated fixed-point product.
pub open spec fn fmul_s(a: int, b: int) -> int {
    sat64(quot(a * b, FX_ONE as int))
}

/// What `fdiv` returns: the saturated, truncated fixed-point quotient;
/// zero when the divisor is zero.
pub open spec fn fdiv_s(a: int, b: int) -> int {
    if b == 0 {
        0
    } else {
        sat64(qz(a * FX_ONE as int, b))
    }
}

/// The nonnegative integer square root: the unique `r >= 0` with
/// `r * r <= n < (r + 1) * (r + 1)` (zero when `n < 0`).
pub open spec fn sqrt_i(n: int) -> int {
    if n < 0 {
        0
    } else {
        choose|r: int| r >= 0 && #[trigger] (r * r) <= n && n < (r + 1) * (r + 1)
    }
}

/// What `fsqrt` returns: the fixed-point square root of a nonnegative value
/// (zero for a negative argument).
pub open spec fn fsqrt_s(a: int) -> int {
    if a <= 0 {
        0
    } else {
        sqrt_i(a * FX_ONE as int)
    }
}

/// What `fx_of_u32` returns: the value scaled to fixed point, saturated.
pub open spec fn fx_of_s(x: int) -> int {
    sat64(x * FX_ONE as int)
}

/// A small integer as a fixed-point value.
pub fn fx_of_u32(x: u32) -> (r: i64)
    ensures
        r as int == fx_of_s(x as int),
{
    proof {
        assert((x as int) * (FX_ONE as int) <= 0xffff_ffff * 0x1_0000_0000 && (x as int) * (
        FX_ONE as int) >= 0) by (nonlinear_arith)
            requires
                0 <= x as int <= 0xffff_ffff,
        ;
    }
    clamp_i64((x as i128) * (FX_ONE as i128))
}

/// Saturate an `i128` into the symmetric `i64` range.
pub fn clamp_i64(a: i128) -> (r: i64)
    ensures
        r as int == sat64(a as int),
{
    if a > FX_MAX as i128 {
        FX_MAX
    } else if a < -(FX_MAX as i128) {
        -FX_MAX
    } else {
        a as i64
    }
}

/// Truncating division of a signed value by a positive divisor.
pub fn div_trunc(a: i128, b: i128) -> (q: i128)
    requires
        b > 0,
        a > i128::MIN,
    ensures
        q == quot(a as int, b as int),
{
    if a >= 0 {
        let m: u128 = (a as u128) / (b as u128);
        proof {
            assert((a as u128) as int / (b as u128) as int == (a as int) / (b as int));
            assert((a as int) / (b as int) <= a as int) by {
                vstd::arithmetic::div_mod::lemma_div_is_ordered_by_denominator(
                    a as int,
                    1,
                    b as int,
                );
            }
            assert((a as int) / (b as int) >= 0) by {
                vstd::arithmetic::div_mod::lemma_div_pos_is_pos(a as int, b as int);
            }
        }
        m as i128
    } else {
        let na: u128 = (-a) as u128;
        let m: u128 = na / (b as u128);
        proof {
            let negai = -(a as int);
            assert(na as int == negai);
            assert(negai / (b as int) <= negai) by {
                vstd::arithmetic::div_mod::lemma_div_is_ordered_by_denominator(negai, 1, b as int);
            }
            assert(negai / (b as int) >= 0) by {
                vstd::arithmetic::div_mod::lemma_div_pos_is_pos(negai, b as int);
            }
        }
        -(m as i128)
    }
}

/// Saturating fixed-point addition.
pub fn fadd(a: i64, b: i64) -> (r: i64)
    ensures
        r as int == fadd_s(a as int, b as int),
{
    clamp_i64(a as i128 + b as i128)
}

/// Saturating fixed-point subtraction.
pub fn fsub(a: i64, b: i64) -> (r: i64)
    ensures
        r as int == fsub_s(a as int, b as int),
{
    clamp_i64(a as i128 - b as i128)
}

/// Saturating fixed-point negation.
pub fn fneg(a: i64) -> (r: i64)
    ensures
        r as int == fneg_s(a as int),
{
    clamp_i64(-(a as i128))
}

/// The product of two 64-bit values stays well inside the 128-bit range.
proof fn lemma_i64_product_fits(a: int, b: int)
    requires
        -0x8000_0000_0000_0000 <= a <= 0x8000_0000_0000_0000,
        -0x8000_0000_0000_0000 <= b <= 0x8000_0000_0000_0000,
    ensures
        -0x4000_0000_0000_0000_0000_0000_0000_0000 <= a * b
            <= 0x4000_0000_0000_0000_0000_0000_0000_0000,
{
    assert(a * b <= 0x4000_0000_0000_0000_0000_0000_0000_0000 && a * b
        >= -0x4000_0000_0000_0000_0000_0000_0000_0000) by (nonlinear_arith)
        requires
            -0x8000_0000_0000_0000 <= a <= 0x8000_0000_0000_0000,
            -0x8000_0000_0000_0000 <= b <= 0x8000_0000_0000_0000,
    ;
}

/// Saturating fixed-point multiplication (truncates toward zero).
pub fn fmul(a: i64, b: i64) -> (r: i64)
    ensures
        r as int == fmul_s(a as int, b as int),
{
    proof {
        lemma_i64_product_fits(a as int, b as int);
    }
    let p: i128 = (a as i128) * (b as i128);
    let q: i128 = div_trunc(p, FX_ONE as i128);
    clamp_i64(q)
}

/// Saturating fixed-point division (truncates toward zero); zero when the
/// divisor is zero.
pub fn fdiv(a: i64, b: i64) -> (r: i64)
    ensures
        r as int == fdiv_s(a as int, b as int),
{
    if b == 0 {
        0
    } else {
        proof {
            lemma_i64_product_fits(a as int, FX_ONE as int);
        }
        let n: i128 = (a as i128) * (FX_ONE as i128);
        if b > 0 {
            clamp_i64(div_trunc(n, b as i128))
        } else {
            let q = div_trunc(n, -(b as i128));
            proof {
                assert(qz(n as int, b as int) == -quot(n as int, -(b as int)));
            }
            clamp_i64(-q)
        }
    }
}

/// The integer square root of a 128-bit value, by bisection.
fn isqrt(n: u128) -> (r: u128)
    ensures
        r * r <= n,
        n < (r + 1) * (r + 1),
        r < 0x1_0000_0000_0000_0000u128,
{
    let mut lo: u128 = 0;
    let mut hi: u128 = 0x1_0000_0000_0000_0000u128;
    while hi - lo > 1
        invariant
            lo < hi,
            hi <= 0x1_0000_0000_0000_0000u128,
            lo * lo <= n,
            n < hi * hi,
        decreases hi - lo,
    {
        let mid: u128 = lo + (hi - lo) / 2;
        proof {
            assert(mid as int * mid as int <= 0xffff_ffff_ffff_ffff * 0xffff_ffff_ffff_ffff)
                by (nonlinear_arith)
                requires
                    0 <= mid as int <= 0xffff_ffff_ffff_ffff,
            ;
        }
        if mid * mid <= n {
            lo = mid;
        } else {
            hi = mid;
        }
    }
    lo
}

/// Fixed-point square root; zero for a nonpositive argument.
pub fn fsqrt(a: i64) -> (r: i64)
    ensures
        r as int == fsqrt_s(a as int),
        r >= 0,
{
    if a <= 0 {
        0
    } else {
        proof {
            assert(a as int * FX_ONE as int <= 0x7fff_ffff_ffff_ffff * 0x1_0000_0000)
                by (nonlinear_arith)
                requires
                    0 < a as int <= 0x7fff_ffff_ffff_ffff,
            ;
        }
        let n: u128 = (a as u128) * (FX_ONE as u128);
        let r = isqrt(n);
        proof {
            let ni = a as int * FX_ONE as int;
            assert(n as int == ni);
            lemma_sqrt_i_unique(ni, r as int);
            if r as int >= 0x1_0000_0000_0000 {
                assert(r as int * r as int >= 0x1_0000_0000_0000 * 0x1_0000_0000_0000)
                    by (nonlinear_arith)
                    requires
                        r as int >= 0x1_0000_0000_0000,
                ;
                assert(false);
            }
        }
        r as i64
    }
}

/// Every nonnegative integer has an integer square root, so `sqrt_i`
/// carries its bracketing property.
pub proof fn lemma_sqrt_i_props(n: int)
    requires
        n >= 0,
    ensures
        sqrt_i(n) >= 0,
        sqrt_i(n) * sqrt_i(n) <= n,
        n < (sqrt_i(n) + 1) * (sqrt_i(n) + 1),
    decreases n,
{
    if n == 0 {
        let z: int = 0;
        assert(z * z == 0 && (z + 1) * (z + 1) == 1) by (nonlinear_arith)
            requires
                z == 0,
        ;
        assert(z >= 0 && #[trigger] (z * z) <= n && n < (z + 1) * (z + 1));
    } else {
        lemma_sqrt_i_props(n - 1);
        let r = sqrt_i(n - 1);
        if n < (r + 1) * (r + 1) {
            assert(r >= 0 && #[trigger] (r * r) <= n && n < (r + 1) * (r + 1));
        } else {
            assert(n == (r + 1) * (r + 1));
            assert((r + 1) * (r + 1) < (r + 2) * (r + 2)) by (nonlinear_arith)
                requires
                    r >= 0,
            ;
            assert(r + 1 >= 0 && #[trigger] ((r + 1) * (r + 1)) <= n && n < (r + 1 + 1) * (r + 1
                + 1));
        }
        assert(exists|q: int| q >= 0 && #[trigger] (q * q) <= n && n < (q + 1) * (q + 1));
    }
}

/// `sqrt_i` is pinned down by the bracketing property.
pub proof fn lemma_sqrt_i_unique(n: int, r: int)
    requires
        n >= 0,
        r >= 0,
        r * r <= n,
        n < (r + 1) * (r + 1),
    ensures
        sqrt_i(n) == r,
{
    assert(exists|q: int| q >= 0 && #[trigger] (q * q) <= n && n < (q + 1) * (q + 1)) by {
        assert(r >= 0 && r * r <= n && n < (r + 1) * (r + 1));
    }
    let q = choose|q: int| q >= 0 && #[trigger] (q * q) <= n && n < (q + 1) * (q + 1);
    if q < r {
        assert((q + 1) * (q + 1) <= r * r) by (nonlinear_arith)
            requires
                0 <= q,
                q < r,
        ;
    }
    if q > r {
        assert((r + 1) * (r + 1) <= q * q) by (nonlinear_arith)
            requires
                0 <= r,
                r < q,
        ;
    }
}

/// Truncating division by a positive divisor never grows the magnitude.
pub proof fn lemma_quot_bound(a: int, b: int)
    requires
        b >= 1,
    ensures
        absi(quot(a, b)) <= absi(a),
        absi(a) < b ==> quot(a, b) == 0,
{
    if a >= 0 {
        vstd::arithmetic::div_mod::lemma_div_is_ordered_by_denominator(a, 1, b);
        vstd::arithmetic::div_mod::lemma_div_pos_is_pos(a, b);
        if a < b {
            vstd::arithmetic::div_mod::lemma_basic_div(a, b);
        }
    } else {
        vstd::arithmetic::div_mod::lemma_div_is_ordered_by_denominator(-a, 1, b);
        vstd::arithmetic::div_mod::lemma_div_pos_is_pos(-a, b);
        if -a < b {
            vstd::arithmetic::div_mod::lemma_basic_div(-a, b);
        }
    }
}

/// Truncating division by a positive divisor is monotone in the dividend.
pub proof fn lemma_quot_mono(a1: int, a2: int, b: int)
    requires
        b >= 1,
        a1 <= a2,
    ensures
        quot(a1, b) <= quot(a2, b),
{
    if a1 >= 0 {
        vstd::arithmetic::div_mod::lemma_div_is_ordered(a1, a2, b);
    } else if a2 < 0 {
        vstd::arithmetic::div_mod::lemma_div_is_ordered(-a2, -a1, b);
    } else {
        vstd::arithmetic::div_mod::lemma_div_pos_is_pos(-a1, b);
        vstd::arithmetic::div_mod::lemma_div_pos_is_pos(a2, b);
    }
}

/// Saturation is monotone.
pub proof fn lemma_sat_mono(a1: int, a2: int)
    requires
        a1 <= a2,
    ensures
        sat64(a1) <= sat64(a2),
{
}

/// Multiplication by a fixed nonnegative factor is monotone.
pub proof fn lemma_fmul_s_mono(a1: int, a2: int, c: int)
    requires
        a1 <= a2,
        c >= 0,
    ensures
        fmul_s(a1, c) <= fmul_s(a2, c),
{
    assert(a1 * c <= a2 * c) by (nonlinear_arith)
        requires
            a1 <= a2,
            c >= 0,
    ;
    lemma_quot_mono(a1 * c, a2 * c, FX_ONE as int);
    lemma_sat_mono(quot(a1 * c, FX_ONE as int), quot(a2 * c, FX_ONE as int));
}

/// The fixed-point product of nonnegative values is nonnegative, and of a
/// nonnegative and a nonpositive value is nonpositive.
pub proof fn lemma_fmul_s_sign(a: int, b: int)
    ensures
        a >= 0 && b >= 0 ==> fmul_s(a, b) >= 0,
        a >= 0 && b <= 0 ==> fmul_s(a, b) <= 0,
        a <= 0 && b >= 0 ==> fmul_s(a, b) <= 0,
        a <= 0 && b <= 0 ==> fmul_s(a, b) >= 0,
{
    assert((a >= 0 && b >= 0 ==> a * b >= 0) && (a >= 0 && b <= 0 ==> a * b <= 0) && (a <= 0 && b
        >= 0 ==> a * b <= 0) && (a <= 0 && b <= 0 ==> a * b >= 0)) by (nonlinear_arith);
    lemma_fmul_s_mono_zero(a, b);
}

/// Saturating absolute value.
pub open spec fn fabs_s(a: int) -> int {
    sat64(absi(a))
}

/// Saturating absolute value.
pub fn fabs(a: i64) -> (r: i64)
    ensures
        r as int == fabs_s(a as int),
        r >= 0,
{
    if a == i64::MIN {
        FX_MAX
    } else if a < 0 {
        -a
    } else {
        a
    }
}

/// The euclidean remainder by a positive divisor.
pub fn modp(a: i64, b: i64) -> (r: i64)
    requires
        b > 0,
    ensures
        r as int == (a as int) % (b as int),
        0 <= r < b,
{
    proof {
        lemma_quot_bound(a as int, b as int);
        lemma_i64_product_fits(quot(a as int, b as int), b as int);
    }
    let q: i128 = div_trunc(a as i128, b as i128);
    let m: i128 = a as i128 - q * (b as i128);
    proof {
        let ai = a as int;
        let bi = b as int;
        vstd::arithmetic::mul::lemma_mul_is_commutative(q as int, bi);
        if ai >= 0 {
            vstd::arithmetic::div_mod::lemma_fundamental_div_mod(ai, bi);
            vstd::arithmetic::div_mod::lemma_mod_bound(ai, bi);
            assert(m as int == ai % bi);
        } else {
            let na = -ai;
            vstd::arithmetic::div_mod::lemma_fundamental_div_mod(na, bi);
            vstd::arithmetic::div_mod::lemma_mod_bound(na, bi);
            let nq = na / bi;
            let nr = na % bi;
            assert(q as int == -nq);
            assert(m as int == ai - (-nq) * bi);
            assert(ai - (-nq) * bi == -nr) by (nonlinear_arith)
                requires
                    na == bi * nq + nr,
                    na == -ai,
            ;
            if nr == 0 {
                assert(ai == (-nq) * bi + 0) by (nonlinear_arith)
                    requires
                        na == bi * nq + nr,
                        na == -ai,
                        nr == 0,
                ;
                vstd::arithmetic::div_mod::lemma_fundamental_div_mod_converse_mod(ai, bi, -nq, 0);
            } else {
                assert(ai == (-nq - 1) * bi + (bi - nr)) by (nonlinear_arith)
                    requires
                        na == bi * nq + nr,
                        na == -ai,
                ;
                vstd::arithmetic::div_mod::lemma_fundamental_div_mod_converse_mod(
                    ai,
                    bi,
                    -nq - 1,
                    bi - nr,
                );
            }
        }
    }
    if m < 0 {
        (m + b as i128) as i64
    } else {
        m as i64
    }
}

/// The rational sine approximation on `[0, FX_PI]`:
/// `16 x (pi - x) / (5 pi^2 - 4 x (pi - x))`, in fixed point.
pub open spec fn bhask_s(x: int) -> int {
    let t = x * (FX_PI as int - x);
    quot(16 * t * FX_ONE as int, 5 * (FX_PI as int * FX_PI as int) - 4 * t)
}

/// The sine: reduce into `[0, 2 pi)`, apply the approximation on each half
/// period with the matching sign.
pub open spec fn sin_s(x: int) -> int {
    let r = x % PI2 as int;
    if r <= FX_PI as int {
        bhask_s(r)
    } else {
        -bhask_s(r - FX_PI as int)
    }
}

/// The cosine: the sine a quarter period later.
pub open spec fn cos_s(x: int) -> int {
    sin_s(x % PI2 as int + FX_PI_2 as int)
}

/// The tangent: sine over cosine.
pub open spec fn tan_s(x: int) -> int {
    fdiv_s(sin_s(x), cos_s(x))
}

/// On `[0, FX_PI]` the product `x * (FX_PI - x)` is at most a quarter of
/// `FX_PI^2` (the arithmetic-geometric mean bound).
pub proof fn lemma_parabola_bound(x: int)
    requires
        0 <= x <= FX_PI as int,
    ensures
        0 <= x * (FX_PI as int - x),
        4 * (x * (FX_PI as int - x)) <= FX_PI as int * FX_PI as int,
{
    let p = FX_PI as int;
    assert(x * (p - x) >= 0 && 4 * (x * (p - x)) <= p * p) by (nonlinear_arith)
        requires
            0 <= x <= p,
    ;
}

/// The sine approximation on the first half period.
fn bhask(x: i64) -> (r: i64)
    requires
        0 <= x <= FX_PI,
    ensures
        r as int == bhask_s(x as int),
        0 <= r <= FX_ONE,
{
    proof {
        assert(0 <= x as int * (FX_PI as int - x as int) && x as int * (FX_PI as int - x as int)
            <= FX_PI as int * FX_PI as int) by (nonlinear_arith)
            requires
                0 <= x as int <= FX_PI as int,
        ;
    }
    let t: i128 = (x as i128) * (FX_PI as i128 - x as i128);
    let num: i128 = 16 * t * (FX_ONE as i128);
    let pi_sq: i128 = (FX_PI as i128) * (FX_PI as i128);
    let den: i128 = 5 * pi_sq - 4 * t;
    proof {
        lemma_parabola_bound(x as int);
        assert(t as int == x as int * (FX_PI as int - x as int));
        assert(den as int >= 4 * pi_sq as int);
        // num <= den * FX_ONE, so the quotient is at most one.
        assert(num as int <= den as int * FX_ONE as int) by (nonlinear_arith)
            requires
                num as int == 16 * t as int * FX_ONE as int,
                den as int == 5 * pi_sq as int - 4 * t as int,
                4 * t as int <= pi_sq as int,
                t as int >= 0,
                pi_sq as int > 0,
        ;
        vstd::arithmetic::div_mod::lemma_div_pos_is_pos(num as int, den as int);
        lemma_quot_mono(num as int, den as int * FX_ONE as int, den as int);
        vstd::arithmetic::div_mod::lemma_div_by_multiple(FX_ONE as int, den as int);
    }
    let r = div_trunc(num, den);
    r as i64
}

/// The fixed-point sine.
pub fn sin_fx(x: i64) -> (r: i64)
    ensures
        r as int == sin_s(x as int),
        -FX_ONE <= r <= FX_ONE,
{
    let m = modp(x, PI2);
    if m <= FX_PI {
        bhask(m)
    } else {
        -bhask(m - FX_PI)
    }
}

/// The fixed-point cosine.
pub fn cos_fx(x: i64) -> (r: i64)
    ensures
        r as int == cos_s(x as int),
        -FX_ONE <= r <= FX_ONE,
{
    let m = modp(x, PI2);
    sin_fx(m + FX_PI_2)
}

/// The fixed-point tangent (saturates near the poles).
pub fn tan_fx(x: i64) -> (r: i64)
    ensures
        r as int == tan_s(x as int),
{
    fdiv(sin_fx(x), cos_fx(x))
}

/// What `deg_to_rad` returns: degrees scaled by pi / 180.
pub open spec fn deg_to_rad_s(deg: int) -> int {
    fdiv_s(fmul_s(deg, FX_PI as int), 180 * FX_ONE as int)
}

/// Degrees to radians.
pub fn deg_to_rad(deg: i64) -> (r: i64)
    ensures
        r as int == deg_to_rad_s(deg as int),
{
    fdiv(fmul(deg, FX_PI), 180 * FX_ONE)
}

/// The polynomial arctangent approximation on `[0, 1]`:
/// `t * (pi/4 + 0.273 * (1 - t))`.
pub open spec fn atanp_s(t: int) -> int {
    fmul_s(t, fadd_s(FX_PI_4 as int, fmul_s(ATAN_K as int, fsub_s(FX_ONE as int, t))))
}

/// The full-quadrant arctangent of `y / x` (zero at the origin).
pub open spec fn atan2_s(y: int, x: int) -> int {
    let ax = fabs_s(x);
    let ay = fabs_s(y);
    let base = if ax >= ay {
        atanp_s(fdiv_s(ay, ax))
    } else {
        fsub_s(FX_PI_2 as int, atanp_s(fdiv_s(ax, ay)))
    };
    let sgned = if x >= 0 {
        base
    } else {
        fsub_s(FX_PI as int, base)
    };
    if y < 0 {
        fneg_s(sgned)
    } else {
        sgned
    }
}

/// The arcsine via the arctangent: `atan2(y, sqrt(1 - y^2))`.
pub open spec fn asin_s(y: int) -> int {
    atan2_s(y, fsqrt_s(fsub_s(FX_ONE as int, fmul_s(y, y))))
}

/// The polynomial arctangent approximation on the unit interval.
fn atanp(t: i64) -> (r: i64)
    requires
        0 <= t <= FX_ONE,
    ensures
        r as int == atanp_s(t as int),
        0 <= r <= FX_PI_4 as int + ATAN_K as int,
{
    let inner = fadd(FX_PI_4, fmul(ATAN_K, fsub(FX_ONE, t)));
    proof {
        lemma_fmul_s_le(FX_ONE as int - t as int, ATAN_K as int);
        lemma_fmul_s_le(t as int, inner as int);
    }
    fmul(t, inner)
}

/// When `0 <= a <= b` (and `b > 0`) the fixed-point ratio `a / b` lies in
/// the unit interval.
proof fn lemma_ratio_unit(a: int, b: int)
    requires
        0 <= a <= b,
        b > 0,
    ensures
        0 <= fdiv_s(a, b) <= FX_ONE as int,
{
    assert(a * FX_ONE as int <= b * FX_ONE as int) by (nonlinear_arith)
        requires
            a <= b,
    ;
    vstd::arithmetic::div_mod::lemma_div_pos_is_pos(a * FX_ONE as int, b);
    lemma_quot_mono(a * FX_ONE as int, b * FX_ONE as int, b);
    vstd::arithmetic::div_mod::lemma_div_by_multiple(FX_ONE as int, b);
}

/// The fixed-point full-quadrant arctangent.
pub fn atan2_fx(y: i64, x: i64) -> (r: i64)
    ensures
        r as int == atan2_s(y as int, x as int),
        -FX_PI as int <= r as int <= FX_PI as int,
        x >= 0 ==> -FX_PI_2 as int <= r as int <= FX_PI_2 as int,
{
    let ax = fabs(x);
    let ay = fabs(y);
    let base: i64;
    if ax >= ay {
        proof {
            if ax > 0 {
                lemma_ratio_unit(ay as int, ax as int);
            }
        }
        base = atanp(fdiv(ay, ax));
    } else {
        proof {
            lemma_ratio_unit(ax as int, ay as int);
        }
        base = fsub(FX_PI_2, atanp(fdiv(ax, ay)));
    }
    let sgned = if x >= 0 {
        base
    } else {
        fsub(FX_PI, base)
    };
    if y < 0 {
        fneg(sgned)
    } else {
        sgned
    }
}

/// The fixed-point arcsine.
pub fn asin_fx(y: i64) -> (r: i64)
    ensures
        r as int == asin_s(y as int),
        -FX_PI_2 as int <= r as int <= FX_PI_2 as int,
{
    atan2_fx(y, fsqrt(fsub(FX_ONE, fmul(y, y))))
}

/// One step chain of the square-and-multiply evaluation of a fractional
/// power: `k` bits of the fraction `fr` remain, `cur` is the current
/// iterated square root of the base, `res` the product so far.
pub open spec fn pow_step_s(res: int, cur: int, fr: int, k: nat) -> int
    decreases k,
{
    if k == 0 {
        res
    } else {
        let c = fsqrt_s(cur);
        let fr2 = 2 * fr;
        if fr2 >= FX_ONE as int {
            pow_step_s(fmul_s(res, c), c, fr2 - FX_ONE as int, (k - 1) as nat)
        } else {
            pow_step_s(res, c, fr2, (k - 1) as nat)
        }
    }
}

/// The integer power: `n` fixed-point multiplications by `x`.
pub open spec fn ipow_s(x: int, n: nat) -> int
    decreases n,
{
    if n == 0 {
        FX_ONE as int
    } else {
        fmul_s(ipow_s(x, (n - 1) as nat), x)
    }
}

/// What `fpow` returns for a nonnegative exponent: the integer-power part
/// times the fractional-power part (32 bits of the fraction).
pub open spec fn fpow_pos_s(x: int, e: int) -> int {
    fmul_s(
        ipow_s(x, (e / FX_ONE as int) as nat),
        pow_step_s(FX_ONE as int, x, e % FX_ONE as int, 32),
    )
}

/// What `fpow` returns: a negative exponent takes the reciprocal.
pub open spec fn fpow_s(x: int, e: int) -> int {
    if e >= 0 {
        fpow_pos_s(x, e)
    } else {
        fdiv_s(FX_ONE as int, fpow_pos_s(x, fneg_s(e)))
    }
}

/// A fixed-point power for a nonnegative exponent.
fn fpow_pos(x: i64, e: i64) -> (r: i64)
    requires
        e >= 0,
    ensures
        r as int == fpow_pos_s(x as int, e as int),
{
    let n: u64 = (e as u64) / (FX_ONE as u64);
    let f: i64 = ((e as u64) % (FX_ONE as u64)) as i64;
    proof {
        assert(n as int == (e as int) / (FX_ONE as int));
        assert(f as int == (e as int) % (FX_ONE as int));
        vstd::arithmetic::div_mod::lemma_mod_bound(e as int, FX_ONE as int);
    }
    let mut res: i64 = FX_ONE;
    let mut i: u64 = 0;
    while i < n
        invariant
            i <= n,
            res as int == ipow_s(x as int, i as nat),
        decreases n - i,
    {
        res = fmul(res, x);
        i = i + 1;
    }
    let mut frac: i64 = FX_ONE;
    let mut cur: i64 = x;
    let mut fr: i64 = f;
    let mut k: u64 = 32;
    while k > 0
        invariant
            k <= 32,
            0 <= fr < FX_ONE,
            pow_step_s(frac as int, cur as int, fr as int, k as nat) == pow_step_s(
                FX_ONE as int,
                x as int,
                f as int,
                32,
            ),
        decreases k,
    {
        let c = fsqrt(cur);
        let fr2 = 2 * fr;
        if fr2 >= FX_ONE {
            frac = fmul(frac, c);
            fr = fr2 - FX_ONE;
        } else {
            fr = fr2;
        }
        cur = c;
        k = k - 1;
    }
    fmul(res, frac)
}

/// A fixed-point power `x^(e / FX_ONE)`; a negative exponent takes the
/// reciprocal of the positive power.
pub fn fpow(x: i64, e: i64) -> (r: i64)
    ensures
        r as int == fpow_s(x as int, e as int),
{
    if e >= 0 {
        fpow_pos(x, e)
    } else {
        fdiv(FX_ONE, fpow_pos(x, fneg(e)))
    }
}

proof fn lemma_fmul_s_mono_zero(a: int, b: int)
    ensures
        a * b >= 0 ==> fmul_s(a, b) >= 0,
        a * b <= 0 ==> fmul_s(a, b) <= 0,
{
    if a * b >= 0 {
        vstd::arithmetic::div_mod::lemma_div_pos_is_pos(a * b, FX_ONE as int);
    } else {
        vstd::arithmetic::div_mod::lemma_div_pos_is_pos(-(a * b), FX_ONE as int);
    }
}

/// A factor within one shrinks a nonnegative value.
pub proof fn lemma_fmul_s_le(a: int, k: int)
    requires
        0 <= a <= FX_ONE as int,
        0 <= k <= FX_MAX as int,
    ensures
        0 <= fmul_s(a, k) <= k,
{
    assert(a * k >= 0) by (nonlinear_arith)
        requires
            a >= 0,
            k >= 0,
    ;
    assert(a * k <= FX_ONE as int * k) by (nonlinear_arith)
        requires
            a <= FX_ONE as int,
            k >= 0,
    ;
    vstd::arithmetic::div_mod::lemma_div_pos_is_pos(a * k, FX_ONE as int);
    lemma_quot_mono(a * k, FX_ONE as int * k, FX_ONE as int);
    vstd::arithmetic::div_mod::lemma_div_by_multiple(k, FX_ONE as int);
}

/// Both factors within one keeps the product within one.
pub proof fn lemma_fmul_s_unit(a: int, b: int)
    requires
        0 <= a <= FX_ONE as int,
        0 <= b <= FX_ONE as int,
    ensures
        0 <= fmul_s(a, b) <= FX_ONE as int,
        fmul_s(a, b) <= a,
        fmul_s(a, b) <= b,
{
    assert(a * b <= a * FX_ONE as int) by (nonlinear_arith)
        requires
            0 <= a,
            b <= FX_ONE as int,
    ;
    assert(a * b <= b * FX_ONE as int) by (nonlinear_arith)
        requires
            0 <= b,
            a <= FX_ONE as int,
    ;
    assert(a * b >= 0) by (nonlinear_arith)
        requires
            a >= 0,
            b >= 0,
    ;
    vstd::arithmetic::div_mod::lemma_div_pos_is_pos(a * b, FX_ONE as int);
    lemma_quot_mono(a * b, a * FX_ONE as int, FX_ONE as int);
    lemma_quot_mono(a * b, b * FX_ONE as int, FX_ONE as int);
    vstd::arithmetic::div_mod::lemma_div_by_multiple(a, FX_ONE as int);
    vstd::arithmetic::div_mod::lemma_div_by_multiple(b, FX_ONE as int);
}

} // verus!
