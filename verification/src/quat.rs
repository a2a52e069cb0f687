//! Quaternions for axis-angle rotation.
use vstd::prelude::*;

use crate::float3::{dot_s, vneg_s, vscale_s, Float3, Vec3, V3};
use crate::fx::{
    cos_fx, cos_s, fadd, fadd_s, fdiv, fdiv_s, fmul, fmul_s, fneg_s, fsqrt, fsqrt_s, fsub, fsub_s,
    sin_fx, sin_s, FX_ONE,
};

verus! {

/// The mathematical value of a quaternion: vector part and scalar part.
pub ghost struct Q4 {
    pub x: int,
    pub y: int,
    pub z: int,
    pub w: int,
}

/// A quaternion: a vector part and a scalar part.  Used transiently to
/// rotate points and vectors; not persisted.
#[derive(Clone, Copy)]
pub struct Quat {
    v: Vec3,
    w: i64,
}

impl View for Quat {
    type V = Q4;

    closed spec fn view(&self) -> Q4 {
        Q4 { x: self.v@.x, y: self.v@.y, z: self.v@.z, w: self.w as int }
    }
}

/// The quaternion for a rotation by `rad` about `axis`:
/// `(axis * sin(rad / 2), cos(rad / 2))`.
pub open spec fn from_rot_s(axis: V3, rad: int) -> Q4 {
    let h = fdiv_s(rad, 2 * FX_ONE as int);
    let s = sin_s(h);
    Q4 { x: fmul_s(axis.x, s), y: fmul_s(axis.y, s), z: fmul_s(axis.z, s), w: cos_s(h) }
}

/// The conjugate: the vector part negated.
pub open spec fn conj_s(q: Q4) -> Q4 {
    Q4 { x: fneg_s(q.x), y: fneg_s(q.y), z: fneg_s(q.z), w: q.w }
}

/// The fixed-point quaternion dot product.
pub open spec fn qdot_s(a: Q4, b: Q4) -> int {
    fadd_s(
        fadd_s(fadd_s(fmul_s(a.x, b.x), fmul_s(a.y, b.y)), fmul_s(a.z, b.z)),
        fmul_s(a.w, b.w),
    )
}

/// The Hamilton product.
pub open spec fn qmul_s(a: Q4, b: Q4) -> Q4 {
    Q4 {
        x: fsub_s(fadd_s(fadd_s(fmul_s(a.w, b.x), fmul_s(a.x, b.w)), fmul_s(a.y, b.z)), fmul_s(
            a.z,
            b.y,
        )),
        y: fsub_s(fadd_s(fadd_s(fmul_s(a.w, b.y), fmul_s(a.y, b.w)), fmul_s(a.z, b.x)), fmul_s(
            a.x,
            b.z,
        )),
        z: fsub_s(fadd_s(fadd_s(fmul_s(a.w, b.z), fmul_s(a.z, b.w)), fmul_s(a.x, b.y)), fmul_s(
            a.y,
            b.x,
        )),
        w: fsub_s(fsub_s(fsub_s(fmul_s(a.w, b.w), fmul_s(a.x, b.x)), fmul_s(a.y, b.y)), fmul_s(
            a.z,
            b.z,
        )),
    }
}

/// The rotation of a point by the sandwich product: the vector part of
/// `q * (p, 0) * conj(q)`, evaluated in two steps.
pub open spec fn rotate_s(q: Q4, p: V3) -> V3 {
    let t = qmul_s(q, Q4 { x: p.x, y: p.y, z: p.z, w: 0 });
    let r = qmul_s(t, conj_s(q));
    V3 { x: r.x, y: r.y, z: r.z }
}

impl Quat {
    /// Build a quaternion from raw fixed-point components.
    pub fn new(x: i64, y: i64, z: i64, w: i64) -> (r: Self)
        ensures
            r@ == (Q4 { x: x as int, y: y as int, z: z as int, w: w as int }),
    {
        Self { v: Float3::new(x, y, z), w }
    }

    /// The rotation by `rad` about `axis`.
    pub fn from_rot(axis: Vec3, rad: i64) -> (r: Self)
        ensures
            r@ == from_rot_s(axis@, rad as int),
    {
        let h = fdiv(rad, 2 * FX_ONE);
        let s = sin_fx(h);
        Self { v: axis.scale(s), w: cos_fx(h) }
    }

    /// The rotation by `rad` about the first axis.
    pub fn from_rot_x(rad: i64) -> (r: Self)
        ensures
            r@ == from_rot_s(V3 { x: FX_ONE as int, y: 0, z: 0 }, rad as int),
    {
        Self::from_rot(Float3::xaxis(), rad)
    }

    /// The rotation by `rad` about the second axis.
    pub fn from_rot_y(rad: i64) -> (r: Self)
        ensures
            r@ == from_rot_s(V3 { x: 0, y: FX_ONE as int, z: 0 }, rad as int),
    {
        Self::from_rot(Float3::yaxis(), rad)
    }

    /// The rotation by `rad` about the third axis.
    pub fn from_rot_z(rad: i64) -> (r: Self)
        ensures
            r@ == from_rot_s(V3 { x: 0, y: 0, z: FX_ONE as int }, rad as int),
    {
        Self::from_rot(Float3::zaxis(), rad)
    }

    /// The identity rotation.
    pub fn unit() -> (r: Self)
        ensures
            r@ == (Q4 { x: 0, y: 0, z: 0, w: FX_ONE as int }),
    {
        Self::new(0, 0, 0, FX_ONE)
    }

    /// The zero quaternion.
    pub fn zero() -> (r: Self)
        ensures
            r@ == (Q4 { x: 0, y: 0, z: 0, w: 0 }),
    {
        Self::new(0, 0, 0, 0)
    }

    /// The conjugate (the inverse rotation, for a unit quaternion).
    pub fn conj(&self) -> (r: Self)
        ensures
            r@ == conj_s(self@),
    {
        Self { v: self.v.neg(), w: self.w }
    }

    /// The quaternion dot product.
    pub fn dot(&self, rhs: Self) -> (r: i64)
        ensures
            r as int == qdot_s(self@, rhs@),
    {
        fadd(self.v.dot(rhs.v), fmul(self.w, rhs.w))
    }

    /// The squared length.
    pub fn length_squared(&self) -> (r: i64)
        ensures
            r as int == qdot_s(self@, self@),
    {
        self.dot(*self)
    }

    /// The length.
    pub fn length(&self) -> (r: i64)
        ensures
            r as int == fsqrt_s(qdot_s(self@, self@)),
            r >= 0,
    {
        fsqrt(self.length_squared())
    }

    /// The quaternion scaled to unit length (zero stays zero).
    pub fn normalize(&self) -> (r: Self)
        ensures
            r@ == (Q4 {
                x: fdiv_s(self@.x, fsqrt_s(qdot_s(self@, self@))),
                y: fdiv_s(self@.y, fsqrt_s(qdot_s(self@, self@))),
                z: fdiv_s(self@.z, fsqrt_s(qdot_s(self@, self@))),
                w: fdiv_s(self@.w, fsqrt_s(qdot_s(self@, self@))),
            }),
    {
        let len = self.length();
        Self { v: self.v.div_s(len), w: fdiv(self.w, len) }
    }

    /// The raw components as an array, vector part first.
    pub fn to_array(&self) -> (r: [i64; 4])
        ensures
            r[0] as int == self@.x,
            r[1] as int == self@.y,
            r[2] as int == self@.z,
            r[3] as int == self@.w,
    {
        [self.v.x(), self.v.y(), self.v.z(), self.w]
    }

    /// The Hamilton product.
    pub fn mul(self, rhs: Self) -> (r: Self)
        ensures
            r@ == qmul_s(self@, rhs@),
    {
        let ax = self.v.x();
        let ay = self.v.y();
        let az = self.v.z();
        let aw = self.w;
        let bx = rhs.v.x();
        let by = rhs.v.y();
        let bz = rhs.v.z();
        let bw = rhs.w;
        Self::new(
            fsub(fadd(fadd(fmul(aw, bx), fmul(ax, bw)), fmul(ay, bz)), fmul(az, by)),
            fsub(fadd(fadd(fmul(aw, by), fmul(ay, bw)), fmul(az, bx)), fmul(ax, bz)),
            fsub(fadd(fadd(fmul(aw, bz), fmul(az, bw)), fmul(ax, by)), fmul(ay, bx)),
            fsub(fsub(fsub(fmul(aw, bw), fmul(ax, bx)), fmul(ay, by)), fmul(az, bz)),
        )
    }

    /// Rotate a point by this quaternion (the sandwich product).
    pub fn rotate(&self, p: Vec3) -> (r: Vec3)
        ensures
            r@ == rotate_s(self@, p@),
    {
        let t = self.mul(Quat { v: p, w: 0 });
        let r = t.mul(self.conj());
        r.v
    }
}

} // verus!
