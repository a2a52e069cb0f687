//! Rays: an origin and a direction.
use vstd::prelude::*;

use crate::float3::{vadd_s, vscale_s, Float3, Point3, Vec3, V3};

verus! {

/// The mathematical value of a ray.
pub ghost struct RayV {
    pub origin: V3,
    pub direction: V3,
}

/// A ray: origin plus direction (the direction need not be unit length).
#[derive(Clone, Copy)]
pub struct Ray {
    pub origin: Point3,
    pub direction: Vec3,
}

impl View for Ray {
    type V = RayV;

    open spec fn view(&self) -> RayV {
        RayV { origin: self.origin@, direction: self.direction@ }
    }
}

/// The point a ray reaches at parameter `t`: `origin + t * direction`.
pub open spec fn ray_at_s(r: RayV, t: int) -> V3 {
    vadd_s(r.origin, vscale_s(r.direction, t))
}

impl Ray {
    /// Build a ray.
    pub fn new(origin: Point3, direction: Vec3) -> (r: Self)
        ensures
            r@.origin == origin@,
            r@.direction == direction@,
    {
        Self { origin, direction }
    }

    /// The point at parameter `t` along the ray.
    pub fn at(&self, t: i64) -> (p: Float3)
        ensures
            p@ == ray_at_s(self@, t as int),
    {
        self.origin.add(self.direction.scale(t))
    }
}

} // verus!
