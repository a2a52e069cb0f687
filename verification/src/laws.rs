//! General properties of the library, stated and proved once.
use vstd::prelude::*;

use crate::float3::V3;
use crate::fx::{absi, fadd_s, fdiv_s, fmul_s, fsub_s, quot, sat64, FX_ONE};
use crate::material::{pow5_s, schlick_s};

verus! {

/// The exact (untruncated) dot product of two raw integer vectors; its
/// scale is the square of the fixed-point scale.
pub open spec fn dot_exact(a: V3, b: V3) -> int {
    a.x * b.x + a.y * b.y + a.z * b.z
}

/// The exact reflection of `v` about `n`, scaled by `FX_ONE^2` to stay
/// integral: `(n . n) v - 2 (v . n) n` when `n` is unit.
pub open spec fn reflect_exact(v: V3, n: V3) -> V3 {
    V3 {
        x: FX_ONE as int * FX_ONE as int * v.x - 2 * dot_exact(v, n) * n.x,
        y: FX_ONE as int * FX_ONE as int * v.y - 2 * dot_exact(v, n) * n.y,
        z: FX_ONE as int * FX_ONE as int * v.z - 2 * dot_exact(v, n) * n.z,
    }
}

/// Reflection reverses the normal component of a vector: against a unit
/// normal (one whose exact squared length is the fixed-point one), the
/// exact reflection satisfies `dot(reflect(v, n), n) == -dot(v, n)`, up to
/// the common `FX_ONE^2` scale.  The executable `reflect` computes this
/// quantity with truncated fixed-point steps.
pub proof fn lemma_reflect_reverses_normal_component(v: V3, n: V3)
    requires
        dot_exact(n, n) == FX_ONE as int * FX_ONE as int,
    ensures
        dot_exact(reflect_exact(v, n), n) == -(FX_ONE as int * FX_ONE as int) * dot_exact(v, n),
{
    let s2 = FX_ONE as int * FX_ONE as int;
    let d = dot_exact(v, n);
    let px = v.x * n.x;
    let py = v.y * n.y;
    let pz = v.z * n.z;
    let qx = n.x * n.x;
    let qy = n.y * n.y;
    let qz2 = n.z * n.z;
    assert((s2 * v.x - 2 * d * n.x) * n.x == s2 * px - 2 * d * qx) by (nonlinear_arith)
        requires
            px == v.x * n.x,
            qx == n.x * n.x,
    ;
    assert((s2 * v.y - 2 * d * n.y) * n.y == s2 * py - 2 * d * qy) by (nonlinear_arith)
        requires
            py == v.y * n.y,
            qy == n.y * n.y,
    ;
    assert((s2 * v.z - 2 * d * n.z) * n.z == s2 * pz - 2 * d * qz2) by (nonlinear_arith)
        requires
            pz == v.z * n.z,
            qz2 == n.z * n.z,
    ;
    assert(s2 * px + s2 * py + s2 * pz == s2 * (px + py + pz)) by (nonlinear_arith);
    assert(2 * d * qx + 2 * d * qy + 2 * d * qz2 == 2 * d * (qx + qy + qz2)) by (nonlinear_arith);
    assert(px + py + pz == d);
    assert(qx + qy + qz2 == s2);
    assert(s2 * d - 2 * d * s2 == -s2 * d) by (nonlinear_arith);
    assert(-s2 * d == -(s2) * d) by (nonlinear_arith);
}

/// The fixed-point product is monotone in both factors over nonnegative
/// values.
pub proof fn lemma_fmul_s_mono2(a1: int, a2: int, b1: int, b2: int)
    requires
        0 <= a1 <= a2,
        0 <= b1 <= b2,
    ensures
        0 <= fmul_s(a1, b1) <= fmul_s(a2, b2),
{
    crate::fx::lemma_fmul_s_sign(a1, b1);
    crate::fx::lemma_fmul_s_mono(a1, a2, b1);
    assert(a2 * b1 == b1 * a2 && a2 * b2 == b2 * a2) by (nonlinear_arith);
    crate::fx::lemma_fmul_s_mono(b1, b2, a2);
}

/// The fifth power is monotone over nonnegative values.
pub proof fn lemma_pow5_mono(x1: int, x2: int)
    requires
        0 <= x1 <= x2,
    ensures
        0 <= pow5_s(x1) <= pow5_s(x2),
{
    lemma_fmul_s_mono2(x1, x2, x1, x2);
    lemma_fmul_s_mono2(fmul_s(x1, x1), fmul_s(x2, x2), x1, x2);
    lemma_fmul_s_mono2(fmul_s(fmul_s(x1, x1), x1), fmul_s(fmul_s(x2, x2), x2), x1, x2);
    lemma_fmul_s_mono2(
        fmul_s(fmul_s(fmul_s(x1, x1), x1), x1),
        fmul_s(fmul_s(fmul_s(x2, x2), x2), x2),
        x1,
        x2,
    );
}

/// The base reflectance `r0 = ((1 - ri) / (1 + ri))^2` lies in `[0, 1]`
/// for a nonnegative refractive index.
pub proof fn lemma_schlick_r0_range(ri: int)
    requires
        ri >= 0,
    ensures
        0 <= fmul_s(
            fdiv_s(fsub_s(FX_ONE as int, ri), fadd_s(FX_ONE as int, ri)),
            fdiv_s(fsub_s(FX_ONE as int, ri), fadd_s(FX_ONE as int, ri)),
        ) <= FX_ONE as int,
{
    let num = fsub_s(FX_ONE as int, ri);
    let den = fadd_s(FX_ONE as int, ri);
    let t = fdiv_s(num, den);
    assert(den >= FX_ONE as int);
    assert(absi(num) <= den);
    // |t| <= FX_ONE: the magnitude of the numerator is at most the
    // denominator.
    assert(absi(num) * FX_ONE as int <= den * FX_ONE as int) by (nonlinear_arith)
        requires
            absi(num) <= den,
            FX_ONE as int > 0,
    ;
    crate::fx::lemma_quot_mono(absi(num) * FX_ONE as int, den * FX_ONE as int, den);
    vstd::arithmetic::div_mod::lemma_div_by_multiple(FX_ONE as int, den);
    vstd::arithmetic::div_mod::lemma_div_pos_is_pos(absi(num) * FX_ONE as int, den);
    if num >= 0 {
        assert(num * FX_ONE as int == absi(num) * FX_ONE as int);
        assert(0 <= t <= FX_ONE as int);
    } else {
        assert(-(num * FX_ONE as int) == absi(num) * FX_ONE as int) by (nonlinear_arith)
            requires
                num < 0,
        ;
        assert(-FX_ONE as int <= t <= 0);
    }
    crate::fx::lemma_fmul_s_sign(t, t);
    if t >= 0 {
        crate::fx::lemma_fmul_s_unit(t, t);
    } else {
        assert(t * t == (-t) * (-t)) by (nonlinear_arith);
        crate::fx::lemma_fmul_s_unit(-t, -t);
        assert(fmul_s(t, t) == fmul_s(-t, -t));
    }
}

/// The Schlick approximation is monotonically non-decreasing in
/// `1 - cosine`: a shallower incidence never reflects less.
pub proof fn lemma_schlick_monotone(c1: int, c2: int, ri: int)
    requires
        ri >= 0,
        c1 <= c2 <= FX_ONE as int,
    ensures
        schlick_s(c2, ri) <= schlick_s(c1, ri),
{
    let t = fdiv_s(fsub_s(FX_ONE as int, ri), fadd_s(FX_ONE as int, ri));
    let r0 = fmul_s(t, t);
    lemma_schlick_r0_range(ri);
    let x1 = fsub_s(FX_ONE as int, c2);
    let x2 = fsub_s(FX_ONE as int, c1);
    assert(0 <= x1 <= x2);
    lemma_pow5_mono(x1, x2);
    crate::fx::lemma_fmul_s_sign(fsub_s(FX_ONE as int, r0), pow5_s(x1));
    assert(pow5_s(x1) * (FX_ONE as int - r0) <= pow5_s(x2) * (FX_ONE as int - r0))
        by (nonlinear_arith)
        requires
            pow5_s(x1) <= pow5_s(x2),
            r0 <= FX_ONE as int,
    ;
    assert((FX_ONE as int - r0) * pow5_s(x1) == pow5_s(x1) * (FX_ONE as int - r0) && (
    FX_ONE as int - r0) * pow5_s(x2) == pow5_s(x2) * (FX_ONE as int - r0)) by (nonlinear_arith);
    crate::fx::lemma_quot_mono(
        (FX_ONE as int - r0) * pow5_s(x1),
        (FX_ONE as int - r0) * pow5_s(x2),
        FX_ONE as int,
    );
}

/// The smallest sine magnitude the alternation law asks for: about 0.001
/// in fixed point.
pub const SIN_MARGIN: i64 = 4194304;

/// On the half periods, one resolution step in from the boundaries, the
/// fixed-point sine has the sign of the real sine: strictly positive on
/// the first half period, strictly negative on the second.
pub proof fn lemma_sin_sign(x: int)
    ensures
        1 <= x % (crate::fx::PI2 as int) <= crate::fx::FX_PI as int - 1 ==> crate::fx::sin_s(x)
            >= 1,
        crate::fx::FX_PI as int + 1 <= x % (crate::fx::PI2 as int) <= crate::fx::PI2 as int - 1
            ==> crate::fx::sin_s(x) <= -1,
{
    let p = crate::fx::FX_PI as int;
    let r = x % (crate::fx::PI2 as int);
    if 1 <= r <= p - 1 {
        lemma_bhask_pos(r);
    }
    if p + 1 <= r <= crate::fx::PI2 as int - 1 {
        lemma_bhask_pos(r - p);
    }
}

/// One step inside the half period the sine approximation is at least one
/// resolution step above zero.
proof fn lemma_bhask_pos(r: int)
    requires
        1 <= r <= crate::fx::FX_PI as int - 1,
    ensures
        crate::fx::bhask_s(r) >= 1,
{
    let p = crate::fx::FX_PI as int;
    let t = r * (p - r);
    let num = 16 * t * FX_ONE as int;
    let den = 5 * (p * p) - 4 * t;
    crate::fx::lemma_parabola_bound(r);
    assert(t >= p - 1) by (nonlinear_arith)
        requires
            1 <= r <= p - 1,
            t == r * (p - r),
    ;
    assert(den >= 1);
    assert(num >= 16 * (p - 1) * FX_ONE as int) by (nonlinear_arith)
        requires
            t >= p - 1,
            num == 16 * t * FX_ONE as int,
    ;
    assert(16 * (p - 1) * FX_ONE as int >= 5 * (p * p)) by (nonlinear_arith)
        requires
            p == crate::fx::FX_PI as int,
    ;
    assert(num >= den);
    crate::fx::lemma_quot_mono(den, num, den);
    vstd::arithmetic::div_mod::lemma_div_by_multiple(1, den);
    assert(quot(den, den) == 1);
}

/// Crossing one axis-aligned half-period boundary of the checker lattice
/// flips the selected child.  The premises keep each sine factor one
/// margin away from zero (a factor whose phase is within one resolution
/// step of a multiple of pi can truncate to zero and leaves the selection
/// unchanged): with all three factors positive the even child is sampled,
/// and flipping the sign of the first factor samples the odd child.
pub proof fn lemma_checker_alternates(
    odd: crate::texture::Texture,
    even: crate::texture::Texture,
    freq: i64,
    u: int,
    v: int,
    a: V3,
    b: V3,
)
    requires
        crate::fx::sin_s(fmul_s(a.x, freq as int)) >= SIN_MARGIN as int,
        crate::fx::sin_s(fmul_s(a.y, freq as int)) >= SIN_MARGIN as int,
        crate::fx::sin_s(fmul_s(a.z, freq as int)) >= SIN_MARGIN as int,
        b.y == a.y,
        b.z == a.z,
        crate::fx::sin_s(fmul_s(b.x, freq as int)) <= -SIN_MARGIN as int,
    ensures
        crate::texture::tex_value_s(
            crate::texture::Texture::Checker { odd: Box::new(odd), even: Box::new(even), freq },
            u,
            v,
            a,
        ) == crate::texture::tex_value_s(even, u, v, a),
        crate::texture::tex_value_s(
            crate::texture::Texture::Checker { odd: Box::new(odd), even: Box::new(even), freq },
            u,
            v,
            b,
        ) == crate::texture::tex_value_s(odd, u, v, b),
{
    let m = SIN_MARGIN as int;
    let s1 = crate::fx::sin_s(fmul_s(a.x, freq as int));
    let s2 = crate::fx::sin_s(fmul_s(a.y, freq as int));
    let s3 = crate::fx::sin_s(fmul_s(a.z, freq as int));
    let s1b = crate::fx::sin_s(fmul_s(b.x, freq as int));
    lemma_fmul_s_mono2(m, s1, m, s2);
    assert(quot(m * m, FX_ONE as int) == 4096);
    lemma_fmul_s_mono2(4096, fmul_s(s1, s2), m, s3);
    assert(quot(4096 * m, FX_ONE as int) == 4);
    assert(crate::texture::checker_sines_s(freq as int, a) >= 4);
    // At b the first factor is negative with the same margin.
    assert(s1b * s2 <= -(m * m)) by (nonlinear_arith)
        requires
            s1b <= -m,
            s2 >= m,
            m > 0,
    ;
    crate::fx::lemma_quot_mono(s1b * s2, -(m * m), FX_ONE as int);
    assert(quot(-(m * m), FX_ONE as int) == -4096);
    let s12b = fmul_s(s1b, s2);
    assert(s12b <= -4096);
    assert(s12b * s3 <= -4096 * m) by (nonlinear_arith)
        requires
            s12b <= -4096,
            s3 >= m,
            m > 0,
    ;
    crate::fx::lemma_quot_mono(s12b * s3, -4096 * m, FX_ONE as int);
    assert(quot(-4096 * m, FX_ONE as int) == -4);
    assert(crate::texture::checker_sines_s(freq as int, b) <= -4);
}

/// The root of the sphere quadratic nearer the ray origin, as
/// `sphere_hit_s` computes it.
pub open spec fn sphere_root_a(center: V3, radius: int, r: crate::ray::RayV) -> int {
    let oc = crate::float3::vsub_s(r.origin, center);
    let a = crate::float3::dot_s(r.direction, r.direction);
    let b0 = crate::float3::dot_s(r.direction, oc);
    let b = fadd_s(b0, b0);
    let c = fsub_s(crate::float3::dot_s(oc, oc), fmul_s(radius, radius));
    let disc = fsub_s(fmul_s(b, b), fmul_s(fmul_s(4 * FX_ONE as int, a), c));
    fdiv_s(fsub_s(crate::fx::fneg_s(b), crate::fx::fsqrt_s(disc)), fadd_s(a, a))
}

/// The farther root of the sphere quadratic.
pub open spec fn sphere_root_b(center: V3, radius: int, r: crate::ray::RayV) -> int {
    let oc = crate::float3::vsub_s(r.origin, center);
    let a = crate::float3::dot_s(r.direction, r.direction);
    let b0 = crate::float3::dot_s(r.direction, oc);
    let b = fadd_s(b0, b0);
    let c = fsub_s(crate::float3::dot_s(oc, oc), fmul_s(radius, radius));
    let disc = fsub_s(fmul_s(b, b), fmul_s(fmul_s(4 * FX_ONE as int, a), c));
    fdiv_s(fadd_s(crate::fx::fneg_s(b), crate::fx::fsqrt_s(disc)), fadd_s(a, a))
}

/// The squared length of any vector is nonnegative.
pub proof fn lemma_dot_self_nonneg(d: V3)
    ensures
        crate::float3::dot_s(d, d) >= 0,
{
    crate::fx::lemma_fmul_s_sign(d.x, d.x);
    crate::fx::lemma_fmul_s_sign(d.y, d.y);
    crate::fx::lemma_fmul_s_sign(d.z, d.z);
}

/// The two roots of the sphere quadratic come in ascending order.
pub proof fn lemma_sphere_roots_ordered(center: V3, radius: int, r: crate::ray::RayV)
    ensures
        sphere_root_a(center, radius, r) <= sphere_root_b(center, radius, r),
{
    let oc = crate::float3::vsub_s(r.origin, center);
    let a = crate::float3::dot_s(r.direction, r.direction);
    let b0 = crate::float3::dot_s(r.direction, oc);
    let b = fadd_s(b0, b0);
    let c = fsub_s(crate::float3::dot_s(oc, oc), fmul_s(radius, radius));
    let disc = fsub_s(fmul_s(b, b), fmul_s(fmul_s(4 * FX_ONE as int, a), c));
    let sq = crate::fx::fsqrt_s(disc);
    let d2 = fadd_s(a, a);
    lemma_dot_self_nonneg(r.direction);
    assert(sq >= 0) by {
        if disc > 0 {
            assert(disc * FX_ONE as int >= 0) by (nonlinear_arith)
                requires
                    disc > 0,
            ;
            crate::fx::lemma_sqrt_i_props(disc * FX_ONE as int);
        }
    }
    let n1 = fsub_s(crate::fx::fneg_s(b), sq);
    let n2 = fadd_s(crate::fx::fneg_s(b), sq);
    assert(n1 <= n2);
    if d2 > 0 {
        crate::fx::lemma_quot_mono(n1 * FX_ONE as int, n2 * FX_ONE as int, d2);
        assert(n1 * FX_ONE as int <= n2 * FX_ONE as int) by (nonlinear_arith)
            requires
                n1 <= n2,
        ;
    }
}

/// A sphere reports the analytic roots in ascending order: the root tried
/// first is never beyond the other, and a reported hit carries the first
/// of the two that lies strictly inside the query interval.
pub proof fn lemma_sphere_roots_ascending(
    center: V3,
    radius: int,
    m: crate::material::Material,
    r: crate::ray::RayV,
    t0: int,
    t1: int,
)
    ensures
        sphere_root_a(center, radius, r) <= sphere_root_b(center, radius, r),
        crate::shape::sphere_hit_s(center, radius, m, r, t0, t1) matches Some(h) ==> t0 < h.t < t1
            && (h.t == sphere_root_a(center, radius, r) || (h.t == sphere_root_b(center, radius, r)
            && !(t0 < sphere_root_a(center, radius, r) < t1))),
{
    let oc = crate::float3::vsub_s(r.origin, center);
    let a = crate::float3::dot_s(r.direction, r.direction);
    let b0 = crate::float3::dot_s(r.direction, oc);
    let b = fadd_s(b0, b0);
    let c = fsub_s(crate::float3::dot_s(oc, oc), fmul_s(radius, radius));
    let disc = fsub_s(fmul_s(b, b), fmul_s(fmul_s(4 * FX_ONE as int, a), c));
    let sq = crate::fx::fsqrt_s(disc);
    let d2 = fadd_s(a, a);
    lemma_dot_self_nonneg(r.direction);
    assert(sq >= 0) by {
        if disc > 0 {
            assert(disc * FX_ONE as int >= 0) by (nonlinear_arith)
                requires
                    disc > 0,
            ;
            crate::fx::lemma_sqrt_i_props(disc * FX_ONE as int);
        }
    }
    let n1 = fsub_s(crate::fx::fneg_s(b), sq);
    let n2 = fadd_s(crate::fx::fneg_s(b), sq);
    assert(n1 <= n2);
    if d2 > 0 {
        crate::fx::lemma_quot_mono(n1 * FX_ONE as int, n2 * FX_ONE as int, d2);
        assert(n1 * FX_ONE as int <= n2 * FX_ONE as int) by (nonlinear_arith)
            requires
                n1 <= n2,
        ;
    }
}

/// A sphere's reported normal points outward: its dot product with the
/// offset of the hit point from the center is never negative, and it is
/// strictly positive whenever the radius is at least one whole unit and
/// some offset component reaches the radius.  (An offset below the
/// fixed-point resolution can round the product to zero.)
pub proof fn lemma_sphere_normal_outward(p: V3, center: V3, radius: int)
    requires
        radius > 0,
    ensures
        crate::float3::dot_s(
            crate::float3::vdiv_s(crate::float3::vsub_s(p, center), radius),
            crate::float3::vsub_s(p, center),
        ) >= 0,
        radius >= FX_ONE as int && (absi(crate::float3::vsub_s(p, center).x) >= radius || absi(
            crate::float3::vsub_s(p, center).y,
        ) >= radius || absi(crate::float3::vsub_s(p, center).z) >= radius)
            ==> crate::float3::dot_s(
            crate::float3::vdiv_s(crate::float3::vsub_s(p, center), radius),
            crate::float3::vsub_s(p, center),
        ) >= 1,
{
    let d = crate::float3::vsub_s(p, center);
    let tx = lemma_outward_axis(d.x, radius);
    let ty = lemma_outward_axis(d.y, radius);
    let tz = lemma_outward_axis(d.z, radius);
}

/// One axis of the outward-normal argument: the quotient component times
/// the offset component is nonnegative, and at least one when the offset
/// reaches a radius of at least one unit.
proof fn lemma_outward_axis(dx: int, radius: int) -> (t: int)
    requires
        radius > 0,
    ensures
        t == fmul_s(fdiv_s(dx, radius), dx),
        t >= 0,
        radius >= FX_ONE as int && absi(dx) >= radius ==> t >= 1,
{
    let q = crate::fx::qz(dx * FX_ONE as int, radius);
    let nx = sat64(q);
    if dx >= 0 {
        vstd::arithmetic::div_mod::lemma_div_pos_is_pos(dx * FX_ONE as int, radius);
        assert(dx * FX_ONE as int >= 0) by (nonlinear_arith)
            requires
                dx >= 0,
        ;
    } else {
        vstd::arithmetic::div_mod::lemma_div_pos_is_pos(-(dx * FX_ONE as int), radius);
        assert(dx * FX_ONE as int <= 0) by (nonlinear_arith)
            requires
                dx < 0,
        ;
    }
    crate::fx::lemma_fmul_s_sign(nx, dx);
    if radius >= FX_ONE as int && absi(dx) >= radius {
        if dx >= 0 {
            assert(dx * FX_ONE as int >= radius * FX_ONE as int) by (nonlinear_arith)
                requires
                    dx >= radius,
            ;
            crate::fx::lemma_quot_mono(radius * FX_ONE as int, dx * FX_ONE as int, radius);
            vstd::arithmetic::div_mod::lemma_div_by_multiple(FX_ONE as int, radius);
            assert(nx >= FX_ONE as int);
            assert(nx * dx >= FX_ONE as int * FX_ONE as int) by (nonlinear_arith)
                requires
                    nx >= FX_ONE as int,
                    dx >= radius,
                    radius >= FX_ONE as int,
            ;
            crate::fx::lemma_quot_mono(FX_ONE as int * FX_ONE as int, nx * dx, FX_ONE as int);
            vstd::arithmetic::div_mod::lemma_div_by_multiple(FX_ONE as int, FX_ONE as int);
        } else {
            assert(-(dx * FX_ONE as int) >= radius * FX_ONE as int) by (nonlinear_arith)
                requires
                    -dx >= radius,
            ;
            crate::fx::lemma_quot_mono(radius * FX_ONE as int, -(dx * FX_ONE as int), radius);
            vstd::arithmetic::div_mod::lemma_div_by_multiple(FX_ONE as int, radius);
            assert(nx <= -FX_ONE as int);
            assert(nx * dx >= FX_ONE as int * FX_ONE as int) by (nonlinear_arith)
                requires
                    nx <= -FX_ONE as int,
                    dx <= -radius,
                    radius >= FX_ONE as int,
            ;
            crate::fx::lemma_quot_mono(FX_ONE as int * FX_ONE as int, nx * dx, FX_ONE as int);
            vstd::arithmetic::div_mod::lemma_div_by_multiple(FX_ONE as int, FX_ONE as int);
        }
    }
    fmul_s(nx, dx)
}

/// The exact (untruncated) Hamilton product of raw integer quaternions.
pub open spec fn qmul_exact(a: crate::quat::Q4, b: crate::quat::Q4) -> crate::quat::Q4 {
    crate::quat::Q4 {
        x: a.w * b.x + a.x * b.w + a.y * b.z - a.z * b.y,
        y: a.w * b.y + a.y * b.w + a.z * b.x - a.x * b.z,
        z: a.w * b.z + a.z * b.w + a.x * b.y - a.y * b.x,
        w: a.w * b.w - a.x * b.x - a.y * b.y - a.z * b.z,
    }
}

/// The exact conjugate.
pub open spec fn conj_exact(q: crate::quat::Q4) -> crate::quat::Q4 {
    crate::quat::Q4 { x: -q.x, y: -q.y, z: -q.z, w: q.w }
}

/// The exact squared norm.
pub open spec fn norm2_exact(q: crate::quat::Q4) -> int {
    q.x * q.x + q.y * q.y + q.z * q.z + q.w * q.w
}

/// A quaternion scaled componentwise.
pub open spec fn qscale_exact(q: crate::quat::Q4, k: int) -> crate::quat::Q4 {
    crate::quat::Q4 { x: k * q.x, y: k * q.y, z: k * q.z, w: k * q.w }
}

/// The Hamilton product is associative.
#[verifier::rlimit(100)]
pub proof fn lemma_qmul_exact_assoc(a: crate::quat::Q4, b: crate::quat::Q4, c: crate::quat::Q4)
    ensures
        qmul_exact(qmul_exact(a, b), c) == qmul_exact(a, qmul_exact(b, c)),
{
    let ax = a.x;
    let ay = a.y;
    let az = a.z;
    let aw = a.w;
    let bx = b.x;
    let by = b.y;
    let bz = b.z;
    let bw = b.w;
    let cx = c.x;
    let cy = c.y;
    let cz = c.z;
    let cw = c.w;
    broadcast use vstd::arithmetic::mul::group_mul_is_commutative_and_distributive;
    broadcast use vstd::arithmetic::mul::lemma_mul_is_associative;

    assert(qmul_exact(qmul_exact(a, b), c).x == qmul_exact(a, qmul_exact(b, c)).x);
    assert(qmul_exact(qmul_exact(a, b), c).y == qmul_exact(a, qmul_exact(b, c)).y);
    assert(qmul_exact(qmul_exact(a, b), c).z == qmul_exact(a, qmul_exact(b, c)).z);
    assert(qmul_exact(qmul_exact(a, b), c).w == qmul_exact(a, qmul_exact(b, c)).w);
}

/// A quaternion times its conjugate is the scalar squared norm.
pub proof fn lemma_qmul_conj(q: crate::quat::Q4)
    ensures
        qmul_exact(conj_exact(q), q) == (crate::quat::Q4 {
            x: 0,
            y: 0,
            z: 0,
            w: norm2_exact(q),
        }),
        qmul_exact(q, conj_exact(q)) == (crate::quat::Q4 {
            x: 0,
            y: 0,
            z: 0,
            w: norm2_exact(q),
        }),
{
    let l = qmul_exact(conj_exact(q), q);
    let r = qmul_exact(q, conj_exact(q));
    assert(l.x == 0 && l.y == 0 && l.z == 0 && l.w == norm2_exact(q) && r.x == 0 && r.y == 0 && r.z
        == 0 && r.w == norm2_exact(q)) by (nonlinear_arith)
        requires
            l == qmul_exact(conj_exact(q), q),
            r == qmul_exact(q, conj_exact(q)),
    ;
}

/// A scalar quaternion multiplies componentwise, from either side.
pub proof fn lemma_qmul_scalar(x: crate::quat::Q4, n: int)
    ensures
        qmul_exact(crate::quat::Q4 { x: 0, y: 0, z: 0, w: n }, x) == qscale_exact(x, n),
        qmul_exact(x, crate::quat::Q4 { x: 0, y: 0, z: 0, w: n }) == qscale_exact(x, n),
{
    let s = crate::quat::Q4 { x: 0, y: 0, z: 0, w: n };
    let l = qmul_exact(s, x);
    let r = qmul_exact(x, s);
    assert(l.x == n * x.x && l.y == n * x.y && l.z == n * x.z && l.w == n * x.w && r.x == n * x.x
        && r.y == n * x.y && r.z == n * x.z && r.w == n * x.w) by (nonlinear_arith)
        requires
            l == qmul_exact(s, x),
            r == qmul_exact(x, s),
            s == (crate::quat::Q4 { x: 0, y: 0, z: 0, w: n }),
    ;
}

/// Rotating a point by a quaternion and then by its conjugate returns the
/// original point, scaled by the squared norm twice: over exact integer
/// quaternions, `conj(q) (q p conj(q)) q == |q|^2 |q|^2 p` for any pure
/// `p`, and the intermediate sandwich is itself pure.  The executable
/// `Quat::rotate` computes these sandwiches with truncated fixed-point
/// steps; for a unit quaternion the scale is the square of the fixed-point
/// one on each pass.
pub proof fn lemma_rotate_round_trip(q: crate::quat::Q4, p: crate::quat::Q4)
    requires
        p.w == 0,
    ensures
        qmul_exact(
            qmul_exact(conj_exact(q), qmul_exact(qmul_exact(q, p), conj_exact(q))),
            q,
        ) == qscale_exact(p, norm2_exact(q) * norm2_exact(q)),
{
    let n = norm2_exact(q);
    let cq = conj_exact(q);
    let t = qmul_exact(qmul_exact(q, p), cq);
    // conj(q) t = ((conj(q) q) p) conj(q) = (|q|^2 p) conj(q).
    lemma_qmul_exact_assoc(cq, qmul_exact(q, p), cq);
    lemma_qmul_exact_assoc(cq, q, p);
    lemma_qmul_conj(q);
    lemma_qmul_scalar(p, n);
    assert(qmul_exact(cq, t) == qmul_exact(qscale_exact(p, n), cq));
    // Scaling commutes with the product.
    lemma_qscale_qmul_left(p, cq, n);
    assert(qmul_exact(cq, t) == qscale_exact(qmul_exact(p, cq), n));
    // (p conj(q)) q = p (conj(q) q) = |q|^2 p.
    lemma_qscale_qmul_left(qmul_exact(p, cq), q, n);
    lemma_qmul_exact_assoc(p, cq, q);
    lemma_qmul_scalar(p, n);
    assert(qmul_exact(qmul_exact(cq, t), q) == qscale_exact(qmul_exact(qmul_exact(p, cq), q), n));
    assert(qmul_exact(qmul_exact(p, cq), q) == qscale_exact(p, n));
    lemma_qscale_twice(p, n);
}

/// Scaling the left factor scales the product.
proof fn lemma_qscale_qmul_left(a: crate::quat::Q4, b: crate::quat::Q4, k: int)
    ensures
        qmul_exact(qscale_exact(a, k), b) == qscale_exact(qmul_exact(a, b), k),
{
    let ax = a.x;
    let ay = a.y;
    let az = a.z;
    let aw = a.w;
    let bx = b.x;
    let by = b.y;
    let bz = b.z;
    let bw = b.w;
    lemma_left_factor(k, aw, bx);
    lemma_left_factor(k, ax, bw);
    lemma_left_factor(k, ay, bz);
    lemma_left_factor(k, az, by);
    lemma_left_factor(k, ay, bw);
    lemma_left_factor(k, az, bx);
    lemma_left_factor(k, ax, bz);
    lemma_left_factor(k, az, bw);
    lemma_left_factor(k, ax, by);
    lemma_left_factor(k, ay, bx);
    lemma_left_factor(k, aw, by);
    lemma_left_factor(k, aw, bz);
    lemma_left_factor(k, aw, bw);
    lemma_left_factor(k, ax, bx);
    lemma_left_factor(k, ay, by);
    lemma_left_factor(k, az, bz);
    lemma_scale_linear4(k, aw * bx, ax * bw, ay * bz, az * by);
    lemma_scale_linear4(k, aw * by, ay * bw, az * bx, ax * bz);
    lemma_scale_linear4(k, aw * bz, az * bw, ax * by, ay * bx);
    lemma_scale_linear4_sub(k, aw * bw, ax * bx, ay * by, az * bz);
}

/// Scaling the right factor scales the product.
proof fn lemma_qscale_qmul(a: crate::quat::Q4, b: crate::quat::Q4, k: int)
    ensures
        qmul_exact(b, qscale_exact(a, k)) == qscale_exact(qmul_exact(b, a), k),
{
    let ax = a.x;
    let ay = a.y;
    let az = a.z;
    let aw = a.w;
    let bx = b.x;
    let by = b.y;
    let bz = b.z;
    let bw = b.w;
    lemma_right_factor(k, bw, ax);
    lemma_right_factor(k, bx, aw);
    lemma_right_factor(k, by, az);
    lemma_right_factor(k, bz, ay);
    lemma_right_factor(k, by, aw);
    lemma_right_factor(k, bz, ax);
    lemma_right_factor(k, bx, az);
    lemma_right_factor(k, bz, aw);
    lemma_right_factor(k, bx, ay);
    lemma_right_factor(k, by, ax);
    lemma_right_factor(k, bw, ay);
    lemma_right_factor(k, bw, az);
    lemma_right_factor(k, bw, aw);
    lemma_right_factor(k, bx, ax);
    lemma_right_factor(k, by, ay);
    lemma_right_factor(k, bz, az);
    lemma_scale_linear4(k, bw * ax, bx * aw, by * az, bz * ay);
    lemma_scale_linear4(k, bw * ay, by * aw, bz * ax, bx * az);
    lemma_scale_linear4(k, bw * az, bz * aw, bx * ay, by * ax);
    lemma_scale_linear4_sub(k, bw * aw, bx * ax, by * ay, bz * az);
}

/// Two scalings compose by the product of the factors.
proof fn lemma_qscale_twice(p: crate::quat::Q4, n: int)
    ensures
        qscale_exact(qscale_exact(p, n), n) == qscale_exact(p, n * n),
{
    let l = qscale_exact(qscale_exact(p, n), n);
    let r = qscale_exact(p, n * n);
    assert(l.x == r.x && l.y == r.y && l.z == r.z && l.w == r.w) by (nonlinear_arith)
        requires
            l == qscale_exact(qscale_exact(p, n), n),
            r == qscale_exact(p, n * n),
    ;
}

/// At head-on incidence (`cosine == 1`) the Schlick approximation returns
/// exactly the base reflectance `r0`.
pub proof fn lemma_schlick_at_one(ri: int)
    ensures
        schlick_s(FX_ONE as int, ri) == fmul_s(
            fdiv_s(fsub_s(FX_ONE as int, ri), fadd_s(FX_ONE as int, ri)),
            fdiv_s(fsub_s(FX_ONE as int, ri), fadd_s(FX_ONE as int, ri)),
        ),
{
    let t = fdiv_s(fsub_s(FX_ONE as int, ri), fadd_s(FX_ONE as int, ri));
    let r0 = fmul_s(t, t);
    assert(pow5_s(0) == 0);
    assert(fmul_s(fsub_s(FX_ONE as int, r0), 0) == 0);
    assert(fadd_s(r0, 0) == r0);
}


/// Every reported intersection lies strictly inside the query interval.
pub proof fn lemma_shape_hit_in_interval(s: crate::shape::Shape, r: crate::ray::RayV, t0: int, t1: int)
    ensures
        crate::shape::shape_hit_s(s, r, t0, t1) matches Some(h) ==> t0 < h.t < t1,
    decreases s, 1int,
{
    match s {
        crate::shape::Shape::Sphere(sp) => {},
        crate::shape::Shape::Rect(rc) => {},
        crate::shape::Shape::List(l) => {
            lemma_list_hit_in_interval(l.objects, r, t0, t1, l.objects@.len() as int);
        },
        crate::shape::Shape::FlipFace { inner } => {
            lemma_shape_hit_in_interval(*inner, r, t0, t1);
        },
        crate::shape::Shape::Translate { inner, offset } => {
            let shifted = crate::ray::RayV {
                origin: crate::float3::vsub_s(r.origin, offset@),
                direction: r.direction,
            };
            lemma_shape_hit_in_interval(*inner, shifted, t0, t1);
        },
        crate::shape::Shape::Rotate { inner, rotation } => {
            let local = crate::ray::RayV {
                origin: crate::quat::rotate_s(crate::quat::conj_s(rotation@), r.origin),
                direction: crate::quat::rotate_s(crate::quat::conj_s(rotation@), r.direction),
            };
            lemma_shape_hit_in_interval(*inner, local, t0, t1);
        },
    }
}

/// Every hit a list sweep reports lies strictly inside the query interval.
pub proof fn lemma_list_hit_in_interval(
    v: Vec<crate::shape::Shape>,
    r: crate::ray::RayV,
    t0: int,
    t1: int,
    i: int,
)
    ensures
        crate::shape::list_hit_s(v, r, t0, t1, i) matches Some(h) ==> t0 < h.t < t1,
    decreases v, 0int, i,
{
    if !(i <= 0 || v@.len() < i) {
        lemma_list_hit_in_interval(v, r, t0, t1, i - 1);
        let prev = crate::shape::list_hit_s(v, r, t0, t1, i - 1);
        let bound = match prev {
            Some(h) => h.t,
            None => t1,
        };
        lemma_shape_hit_in_interval(v@[i - 1], r, t0, bound);
    }
}

/// The sweep over a list only ever improves: adding more children never
/// pushes the reported intersection farther away.  Together with the
/// shrinking upper bound of each step this is the "keep the nearest"
/// property of the aggregate.
pub proof fn lemma_list_hit_improves(
    v: Vec<crate::shape::Shape>,
    r: crate::ray::RayV,
    t0: int,
    t1: int,
    j: int,
    i: int,
)
    requires
        0 <= j <= i <= v@.len(),
    ensures
        crate::shape::list_hit_s(v, r, t0, t1, j) matches Some(hj)
            ==> (crate::shape::list_hit_s(v, r, t0, t1, i) matches Some(hi) && hi.t <= hj.t),
    decreases i - j,
{
    if j < i && !(i <= 0 || v@.len() < i) {
        lemma_list_hit_improves(v, r, t0, t1, j, i - 1);
        let prev = crate::shape::list_hit_s(v, r, t0, t1, i - 1);
        if prev is Some {
            let bound = prev->Some_0.t;
            lemma_shape_hit_in_interval(v@[i - 1], r, t0, bound);
        }
    } else if j < i {
        lemma_list_hit_improves(v, r, t0, t1, j, i - 1);
    }
}

/// Narrowing the upper bound of the query interval keeps a nearer hit,
/// drops a farther one, and never conjures one: `hit` is interval-monotone.
#[verifier::rlimit(100)]
#[verifier::spinoff_prover]
pub proof fn lemma_shape_hit_narrow(
    s: crate::shape::Shape,
    r: crate::ray::RayV,
    t0: int,
    t1: int,
    t1p: int,
)
    requires
        t1p <= t1,
    ensures
        crate::shape::shape_hit_s(s, r, t0, t1) matches Some(h) ==> (h.t < t1p
            ==> crate::shape::shape_hit_s(s, r, t0, t1p) == Some(h)),
        crate::shape::shape_hit_s(s, r, t0, t1) is None ==> crate::shape::shape_hit_s(
            s,
            r,
            t0,
            t1p,
        ) is None,
        crate::shape::shape_hit_s(s, r, t0, t1) matches Some(h) ==> (h.t >= t1p
            ==> crate::shape::shape_hit_s(s, r, t0, t1p) is None),
    decreases s, 1int,
{
    match s {
        crate::shape::Shape::Sphere(sp) => {
            lemma_sphere_roots_ordered(sp.center@, sp.radius as int, r);
        },
        crate::shape::Shape::Rect(rc) => {},
        crate::shape::Shape::List(l) => {
            lemma_list_hit_narrow(l.objects, r, t0, t1, t1p, l.objects@.len() as int);
        },
        crate::shape::Shape::FlipFace { inner } => {
            lemma_shape_hit_narrow(*inner, r, t0, t1, t1p);
        },
        crate::shape::Shape::Translate { inner, offset } => {
            let shifted = crate::ray::RayV {
                origin: crate::float3::vsub_s(r.origin, offset@),
                direction: r.direction,
            };
            lemma_shape_hit_narrow(*inner, shifted, t0, t1, t1p);
        },
        crate::shape::Shape::Rotate { inner, rotation } => {
            let local = crate::ray::RayV {
                origin: crate::quat::rotate_s(crate::quat::conj_s(rotation@), r.origin),
                direction: crate::quat::rotate_s(crate::quat::conj_s(rotation@), r.direction),
            };
            lemma_shape_hit_narrow(*inner, local, t0, t1, t1p);
        },
    }
}

/// Interval monotonicity of the list sweep.
#[verifier::rlimit(100)]
#[verifier::spinoff_prover]
pub proof fn lemma_list_hit_narrow(
    v: Vec<crate::shape::Shape>,
    r: crate::ray::RayV,
    t0: int,
    t1: int,
    t1p: int,
    i: int,
)
    requires
        t1p <= t1,
    ensures
        crate::shape::list_hit_s(v, r, t0, t1, i) matches Some(h) ==> (h.t < t1p
            ==> crate::shape::list_hit_s(v, r, t0, t1p, i) == Some(h)),
        crate::shape::list_hit_s(v, r, t0, t1, i) is None ==> crate::shape::list_hit_s(
            v,
            r,
            t0,
            t1p,
            i,
        ) is None,
        crate::shape::list_hit_s(v, r, t0, t1, i) matches Some(h) ==> (h.t >= t1p
            ==> crate::shape::list_hit_s(v, r, t0, t1p, i) is None),
    decreases v, 0int, i,
{
    if !(i <= 0 || v@.len() < i) {
        lemma_list_hit_narrow(v, r, t0, t1, t1p, i - 1);
        lemma_list_hit_in_interval(v, r, t0, t1, i - 1);
        lemma_list_hit_in_interval(v, r, t0, t1p, i - 1);
        let prev = crate::shape::list_hit_s(v, r, t0, t1, i - 1);
        let prev_p = crate::shape::list_hit_s(v, r, t0, t1p, i - 1);
        let child = v@[i - 1];
        match prev {
            None => {
                // Nothing seen yet on either side: the bounds stay t1/t1p.
                lemma_shape_hit_narrow(child, r, t0, t1, t1p);
                lemma_shape_hit_in_interval(child, r, t0, t1);
            },
            Some(hp) => {
                if hp.t < t1p {
                    // The earlier result survives the narrowing, and both
                    // sweeps query the child with the same shrunk bound.
                    lemma_shape_hit_in_interval(child, r, t0, hp.t);
                } else {
                    // The earlier result is dropped; what the child may
                    // report below hp.t splits on the narrowed bound.
                    lemma_shape_hit_narrow(child, r, t0, hp.t, t1p);
                    lemma_shape_hit_in_interval(child, r, t0, hp.t);
                }
            },
        }
    }
}

/// The sweep is empty exactly when every per-child scan over the full
/// interval is empty.
#[verifier::rlimit(100)]
#[verifier::spinoff_prover]
pub proof fn lemma_list_hit_none_iff(
    v: Vec<crate::shape::Shape>,
    r: crate::ray::RayV,
    t0: int,
    t1: int,
    i: int,
)
    requires
        0 <= i <= v@.len(),
    ensures
        crate::shape::list_hit_s(v, r, t0, t1, i) is None <==> (forall|j: int|
            0 <= j < i ==> crate::shape::shape_hit_s(#[trigger] v@[j], r, t0, t1) is None),
    decreases i,
{
    if i > 0 {
        lemma_list_hit_none_iff(v, r, t0, t1, i - 1);
        let prev = crate::shape::list_hit_s(v, r, t0, t1, i - 1);
        if prev is None {
            assert(crate::shape::list_hit_s(v, r, t0, t1, i) == crate::shape::shape_hit_s(
                v@[i - 1],
                r,
                t0,
                t1,
            ));
        }
    }
}

/// A reported hit of the sweep is exactly what one of the children
/// reports over the full interval.
#[verifier::rlimit(100)]
#[verifier::spinoff_prover]
pub proof fn lemma_list_hit_witness(
    v: Vec<crate::shape::Shape>,
    r: crate::ray::RayV,
    t0: int,
    t1: int,
    i: int,
)
    requires
        0 <= i <= v@.len(),
    ensures
        crate::shape::list_hit_s(v, r, t0, t1, i) matches Some(h) ==> exists|j: int|
            0 <= j < i && crate::shape::shape_hit_s(#[trigger] v@[j], r, t0, t1) == Some(h),
    decreases i,
{
    if i > 0 {
        lemma_list_hit_witness(v, r, t0, t1, i - 1);
        lemma_list_hit_in_interval(v, r, t0, t1, i - 1);
        let prev = crate::shape::list_hit_s(v, r, t0, t1, i - 1);
        let child = v@[i - 1];
        let cur = crate::shape::list_hit_s(v, r, t0, t1, i);
        match prev {
            None => {
                if cur is Some {
                    let h = cur->Some_0;
                    assert(0 <= i - 1 < i && crate::shape::shape_hit_s(v@[i - 1], r, t0, t1)
                        == Some(h));
                }
            },
            Some(hp) => {
                lemma_shape_hit_narrow(child, r, t0, t1, hp.t);
                lemma_shape_hit_in_interval(child, r, t0, hp.t);
                let c2 = crate::shape::shape_hit_s(child, r, t0, hp.t);
                match c2 {
                    Some(h2) => {
                        assert(crate::shape::shape_hit_s(child, r, t0, t1) == Some(h2));
                        assert(0 <= i - 1 < i && crate::shape::shape_hit_s(v@[i - 1], r, t0, t1)
                            == Some(h2));
                    },
                    None => {
                        let jw = choose|j: int|
                            0 <= j < i - 1 && crate::shape::shape_hit_s(#[trigger] v@[j], r, t0, t1)
                                == Some(hp);
                        assert(0 <= jw < i && crate::shape::shape_hit_s(v@[jw], r, t0, t1) == Some(
                            hp,
                        ));
                    },
                }
            },
        }
    }
}

/// The sweep never loses to its last child: a reported hit is no farther
/// than any full-interval hit of the child examined last.
#[verifier::rlimit(100)]
#[verifier::spinoff_prover]
proof fn lemma_list_hit_vs_last(
    v: Vec<crate::shape::Shape>,
    r: crate::ray::RayV,
    t0: int,
    t1: int,
    i: int,
)
    requires
        1 <= i <= v@.len(),
    ensures
        crate::shape::list_hit_s(v, r, t0, t1, i) matches Some(h) ==> (crate::shape::shape_hit_s(
            v@[i - 1],
            r,
            t0,
            t1,
        ) matches Some(hj) ==> h.t <= hj.t),
{
    lemma_list_hit_in_interval(v, r, t0, t1, i - 1);
    let prev = crate::shape::list_hit_s(v, r, t0, t1, i - 1);
    let child = v@[i - 1];
    let cur = crate::shape::list_hit_s(v, r, t0, t1, i);
    if cur is Some {
        let h = cur->Some_0;
        match prev {
            None => {
                assert(crate::shape::shape_hit_s(child, r, t0, t1) == Some(h));
            },
            Some(hp) => {
                let c2 = crate::shape::shape_hit_s(child, r, t0, hp.t);
                lemma_shape_hit_in_interval(child, r, t0, hp.t);
                if c2 is Some {
                    lemma_shape_hit_narrow(child, r, t0, t1, hp.t);
                    assert(h == c2->Some_0 && h.t < hp.t);
                    assert(crate::shape::shape_hit_s(child, r, t0, t1) == Some(h));
                } else {
                    lemma_child_no_nearer(child, r, t0, t1, hp.t);
                    assert(h == hp);
                }
            },
        }
    }
}

/// No child reports a nearer hit over the full interval than the sweep:
/// the aggregate returns the globally nearest intersection, matching a
/// direct per-shape scan that takes the minimum parameter.  Stated for an
/// arbitrary child position `j`.
#[verifier::rlimit(100)]
#[verifier::spinoff_prover]
pub proof fn lemma_list_hit_nearest(
    v: Vec<crate::shape::Shape>,
    r: crate::ray::RayV,
    t0: int,
    t1: int,
    i: int,
    j: int,
)
    requires
        0 <= j < i <= v@.len(),
    ensures
        crate::shape::list_hit_s(v, r, t0, t1, i) matches Some(h) ==> (crate::shape::shape_hit_s(
            v@[j],
            r,
            t0,
            t1,
        ) matches Some(hj) ==> h.t <= hj.t),
{
    lemma_list_hit_none_iff(v, r, t0, t1, j + 1);
    lemma_list_hit_vs_last(v, r, t0, t1, j + 1);
    lemma_list_hit_improves(v, r, t0, t1, j + 1, i);
}

/// A child that reports nothing below `bound` has no full-interval hit
/// nearer than `bound`.
#[verifier::rlimit(100)]
#[verifier::spinoff_prover]
proof fn lemma_child_no_nearer(
    child: crate::shape::Shape,
    r: crate::ray::RayV,
    t0: int,
    t1: int,
    bound: int,
)
    requires
        bound <= t1,
        crate::shape::shape_hit_s(child, r, t0, bound) is None,
    ensures
        crate::shape::shape_hit_s(child, r, t0, t1) matches Some(hj) ==> bound <= hj.t,
{
    lemma_shape_hit_narrow(child, r, t0, t1, bound);
}

/// `(k a) b == k (a b)`.
proof fn lemma_left_factor(k: int, a: int, b: int)
    ensures
        (k * a) * b == k * (a * b),
{
    vstd::arithmetic::mul::lemma_mul_is_associative(k, a, b);
}

/// `b (k a) == k (b a)`.
proof fn lemma_right_factor(k: int, b: int, a: int)
    ensures
        b * (k * a) == k * (b * a),
{
    vstd::arithmetic::mul::lemma_mul_is_associative(b, k, a);
    vstd::arithmetic::mul::lemma_mul_is_commutative(b, k);
    vstd::arithmetic::mul::lemma_mul_is_associative(k, b, a);
}

/// `k (m1 + m2 + m3 - m4)` distributes over the four terms.
proof fn lemma_scale_linear4(k: int, m1: int, m2: int, m3: int, m4: int)
    ensures
        k * (m1 + m2 + m3 - m4) == k * m1 + k * m2 + k * m3 - k * m4,
{
    vstd::arithmetic::mul::lemma_mul_is_distributive_add(k, m1, m2);
    vstd::arithmetic::mul::lemma_mul_is_distributive_add(k, m1 + m2, m3);
    vstd::arithmetic::mul::lemma_mul_is_distributive_sub(k, m1 + m2 + m3, m4);
}

/// `k (m1 - m2 - m3 - m4)` distributes over the four terms.
proof fn lemma_scale_linear4_sub(k: int, m1: int, m2: int, m3: int, m4: int)
    ensures
        k * (m1 - m2 - m3 - m4) == k * m1 - k * m2 - k * m3 - k * m4,
{
    vstd::arithmetic::mul::lemma_mul_is_distributive_sub(k, m1, m2);
    vstd::arithmetic::mul::lemma_mul_is_distributive_sub(k, m1 - m2, m3);
    vstd::arithmetic::mul::lemma_mul_is_distributive_sub(k, m1 - m2 - m3, m4);
}

} // verus!
