//! The camera: normalized screen coordinates to primary rays.
use vstd::prelude::*;

use crate::float3::{cross_s, normalize_s, vadd_s, vscale_s, vsub_s, Float3, Point3, Vec3, V3};
use crate::fx::{deg_to_rad, deg_to_rad_s, fdiv, fdiv_s, fmul_s, tan_fx, tan_s, FX_ONE};
use crate::ray::{Ray, RayV};

verus! {

/// The mathematical value of a camera: its basis vectors.
pub ghost struct CameraV {
    pub origin: V3,
    pub u: V3,
    pub v: V3,
    pub w: V3,
}

/// A camera: an origin, the two screen-axis vectors `u` and `v`, and the
/// lower-left corner vector `w`.
#[derive(Clone, Copy)]
pub struct Camera {
    pub origin: Point3,
    pub u: Vec3,
    pub v: Vec3,
    pub w: Vec3,
}

impl View for Camera {
    type V = CameraV;

    open spec fn view(&self) -> CameraV {
        CameraV { origin: self.origin@, u: self.u@, v: self.v@, w: self.w@ }
    }
}

/// The basis derived by the look-at construction: `w` looks from the target
/// to the eye, `u` and `v` span the screen, scaled by the half extents from
/// the field of view.
pub open spec fn look_at_s(origin: V3, look_at: V3, view_up: V3, view_fov: int, aspect: int)
    -> CameraV {
    let half_h = tan_s(fmul_s(deg_to_rad_s(view_fov), fdiv_s(FX_ONE as int, 2 * FX_ONE as int)));
    let half_w = fmul_s(aspect, half_h);
    let w = normalize_s(vsub_s(origin, look_at));
    let u = normalize_s(cross_s(view_up, w));
    let v = cross_s(w, u);
    let uw = vscale_s(u, half_w);
    let vh = vscale_s(v, half_h);
    CameraV {
        origin,
        u: vscale_s(uw, 2 * FX_ONE as int),
        v: vscale_s(vh, 2 * FX_ONE as int),
        w: vsub_s(vsub_s(vsub_s(origin, uw), vh), w),
    }
}

/// The primary ray through normalized screen coordinates `(u, v)`:
/// from the origin toward `w + u * su + v * sv`.
pub open spec fn camera_ray_s(c: CameraV, su: int, sv: int) -> RayV {
    RayV {
        origin: c.origin,
        direction: vsub_s(vadd_s(vadd_s(c.w, vscale_s(c.u, su)), vscale_s(c.v, sv)), c.origin),
    }
}

impl Camera {
    /// Build a camera from raw basis vectors; the origin is the zero point.
    pub fn new(u: Vec3, v: Vec3, w: Vec3) -> (r: Self)
        ensures
            r@ == (CameraV {
                origin: V3 { x: 0, y: 0, z: 0 },
                u: u@,
                v: v@,
                w: w@,
            }),
    {
        Self { origin: Float3::zero(), u, v, w }
    }

    /// Build a camera from eye position, target, up vector, vertical field
    /// of view in degrees and aspect ratio.
    pub fn from_look_at(
        origin: Vec3,
        look_at: Vec3,
        view_up: Vec3,
        view_fov: i64,
        aspect: i64,
    ) -> (r: Self)
        ensures
            r@ == look_at_s(origin@, look_at@, view_up@, view_fov as int, aspect as int),
    {
        let half_h = tan_fx(crate::fx::fmul(deg_to_rad(view_fov), fdiv(FX_ONE, 2 * FX_ONE)));
        let half_w = crate::fx::fmul(aspect, half_h);
        let w = origin.sub(look_at).normalize();
        let u = view_up.cross(w).normalize();
        let v = w.cross(u);
        let uw = u.scale(half_w);
        let vh = v.scale(half_h);
        Self {
            origin,
            u: uw.scale(2 * FX_ONE),
            v: vh.scale(2 * FX_ONE),
            w: origin.sub(uw).sub(vh).sub(w),
        }
    }

    /// The ray through normalized screen coordinates `(u, v)`.
    pub fn ray(&self, u: i64, v: i64) -> (r: Ray)
        ensures
            r@ == camera_ray_s(self@, u as int, v as int),
    {
        Ray {
            origin: self.origin,
            direction: self.w.add(self.u.scale(u)).add(self.v.scale(v)).sub(self.origin),
        }
    }
}

} // verus!
