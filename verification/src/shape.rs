//! The shape hierarchy and its intersection algorithms.
//!
//! `hit(ray, t0, t1)` reports an intersection with parametric distance
//! strictly inside `(t0, t1)`, or nothing.  `ShapeList` aggregates children
//! and reports the nearest hit; `FlipFace`, `Translate` and `Rotate`
//! decorate a child shape.
use vstd::prelude::*;

use std::sync::Arc;

use crate::float3::{
    dot_s, vadd_s, vdiv_s, vneg_s, vsub_s, Float3, Point3, Vec3, V3,
};
use crate::fx::{
    asin_fx, asin_s, atan2_fx, atan2_s, fadd, fadd_s, fdiv, fdiv_s, fmul, fmul_s, fneg, fneg_s,
    fsqrt, fsqrt_s, fsub, fsub_s, FX_ONE, FX_PI, FX_PI_2, PI2,
};
use crate::material::{mat_wf, share_material, HitInfo, HitV, Material};
use crate::quat::{conj_s, rotate_s, Quat};
use crate::ray::{ray_at_s, Ray, RayV};

verus! {

/// A sphere: center, radius and its (shared) material.
pub struct Sphere {
    pub center: Point3,
    pub radius: i64,
    pub material: Arc<Material>,
}

/// Which coordinate plane an axis-aligned rectangle lies in.
#[derive(Clone, Copy, PartialEq, Eq, Structural)]
pub enum RectAxis {
    /// The rectangle spans x and y; the plane fixes z.
    XY,
    /// The rectangle spans x and z; the plane fixes y.
    XZ,
    /// The rectangle spans y and z; the plane fixes x.
    YZ,
}

/// An axis-aligned rectangle: bounds over its two spanned axes, the fixed
/// coordinate `k` on the remaining axis, and its (shared) material.
pub struct Rect {
    pub x0: i64,
    pub x1: i64,
    pub y0: i64,
    pub y1: i64,
    pub k: i64,
    pub axis: RectAxis,
    pub material: Arc<Material>,
}

/// An ordered collection of child shapes, searched linearly.
pub struct ShapeList {
    pub objects: Vec<Shape>,
}

/// A shape: a leaf primitive, an aggregate, or a decorated child.
pub enum Shape {
    /// A sphere.
    Sphere(Sphere),
    /// An axis-aligned rectangle.
    Rect(Rect),
    /// An aggregate reporting the nearest child hit.
    List(ShapeList),
    /// A decorator that negates the reported normal.
    FlipFace { inner: Box<Shape> },
    /// A decorator that shifts the child by `offset`.
    Translate { inner: Box<Shape>, offset: Vec3 },
    /// A decorator that turns the child by `rotation`.
    Rotate { inner: Box<Shape>, rotation: Quat },
}

/// Structural validity of a shape: positive radii, ordered rectangle
/// bounds, and valid materials throughout.
pub open spec fn shape_wf(s: Shape) -> bool
    decreases s, 1int,
{
    match s {
        Shape::Sphere(sp) => sp.radius > 0 && mat_wf(*sp.material),
        Shape::Rect(rc) => rc.x0 <= rc.x1 && rc.y0 <= rc.y1 && mat_wf(*rc.material),
        Shape::List(l) => list_wf(l.objects, l.objects@.len() as int),
        Shape::FlipFace { inner } => shape_wf(*inner),
        Shape::Translate { inner, offset } => shape_wf(*inner),
        Shape::Rotate { inner, rotation } => shape_wf(*inner),
    }
}

/// Validity of the first `i` children of a list.
pub open spec fn list_wf(v: Vec<Shape>, i: int) -> bool
    decreases v, 0int, i,
{
    if i <= 0 || v@.len() < i {
        true
    } else {
        list_wf(v, i - 1) && shape_wf(v@[i - 1])
    }
}

/// The surface coordinates of a sphere at outward normal `n`, by spherical
/// coordinates: `u = 1 - (atan2(z, x) + pi) / 2 pi`,
/// `v = (asin(y) + pi/2) / pi`.
pub open spec fn sphere_uv_s(n: V3) -> (int, int) {
    (
        fsub_s(FX_ONE as int, fdiv_s(fadd_s(atan2_s(n.z, n.x), FX_PI as int), PI2 as int)),
        fdiv_s(fadd_s(asin_s(n.y), FX_PI_2 as int), FX_PI as int),
    )
}

/// The intersection record of a sphere at parameter `t`.
pub open spec fn sphere_hit_at_s(center: V3, radius: int, m: Material, r: RayV, t: int) -> HitV {
    let p = ray_at_s(r, t);
    let n = vdiv_s(vsub_s(p, center), radius);
    HitV { t, p, n, u: sphere_uv_s(n).0, v: sphere_uv_s(n).1, m }
}

/// What a sphere's `hit` returns: solve the quadratic
/// `|O + t D - C|^2 = radius^2`; evaluate the smaller root first, then the
/// larger one, each against the open interval `(t0, t1)`.
pub open spec fn sphere_hit_s(
    center: V3,
    radius: int,
    m: Material,
    r: RayV,
    t0: int,
    t1: int,
) -> Option<HitV> {
    let oc = vsub_s(r.origin, center);
    let a = dot_s(r.direction, r.direction);
    let b0 = dot_s(r.direction, oc);
    let b = fadd_s(b0, b0);
    let c = fsub_s(dot_s(oc, oc), fmul_s(radius, radius));
    let disc = fsub_s(fmul_s(b, b), fmul_s(fmul_s(4 * FX_ONE as int, a), c));
    if disc > 0 {
        let sq = fsqrt_s(disc);
        let ta = fdiv_s(fsub_s(fneg_s(b), sq), fadd_s(a, a));
        let tb = fdiv_s(fadd_s(fneg_s(b), sq), fadd_s(a, a));
        if t0 < ta && ta < t1 {
            Some(sphere_hit_at_s(center, radius, m, r, ta))
        } else if t0 < tb && tb < t1 {
            Some(sphere_hit_at_s(center, radius, m, r, tb))
        } else {
            None
        }
    } else {
        None
    }
}

/// The coordinate of `v` on the axis a rectangle's plane fixes.
pub open spec fn axis_k_s(axis: RectAxis, v: V3) -> int {
    match axis {
        RectAxis::XY => v.z,
        RectAxis::XZ => v.y,
        RectAxis::YZ => v.x,
    }
}

/// The coordinate of `v` on the first axis a rectangle spans.
pub open spec fn axis_i_s(axis: RectAxis, v: V3) -> int {
    match axis {
        RectAxis::XY => v.x,
        RectAxis::XZ => v.x,
        RectAxis::YZ => v.y,
    }
}

/// The coordinate of `v` on the second axis a rectangle spans.
pub open spec fn axis_j_s(axis: RectAxis, v: V3) -> int {
    match axis {
        RectAxis::XY => v.y,
        RectAxis::XZ => v.z,
        RectAxis::YZ => v.z,
    }
}

/// The fixed axis vector a rectangle reports as its normal.
pub open spec fn axis_normal_s(axis: RectAxis) -> V3 {
    match axis {
        RectAxis::XY => V3 { x: 0, y: 0, z: FX_ONE as int },
        RectAxis::XZ => V3 { x: 0, y: FX_ONE as int, z: 0 },
        RectAxis::YZ => V3 { x: FX_ONE as int, y: 0, z: 0 },
    }
}

/// What a rectangle's `hit` returns: the plane-crossing parameter, bounds
/// checked against the rectangle's extent; a ray parallel to the plane
/// misses.
pub open spec fn rect_hit_s(rc: Rect, r: RayV, t0: int, t1: int) -> Option<HitV> {
    let ok = axis_k_s(rc.axis, r.origin);
    let dk = axis_k_s(rc.axis, r.direction);
    if dk == 0 {
        None
    } else {
        let t = fdiv_s(fsub_s(rc.k as int, ok), dk);
        if t0 < t && t < t1 {
            let xi = fadd_s(axis_i_s(rc.axis, r.origin), fmul_s(t, axis_i_s(rc.axis, r.direction)));
            let yj = fadd_s(axis_j_s(rc.axis, r.origin), fmul_s(t, axis_j_s(rc.axis, r.direction)));
            if rc.x0 as int <= xi && xi <= rc.x1 as int && rc.y0 as int <= yj && yj <= rc.y1 as int {
                Some(
                    HitV {
                        t,
                        p: ray_at_s(r, t),
                        n: axis_normal_s(rc.axis),
                        u: fdiv_s(fsub_s(xi, rc.x0 as int), fsub_s(rc.x1 as int, rc.x0 as int)),
                        v: fdiv_s(fsub_s(yj, rc.y0 as int), fsub_s(rc.y1 as int, rc.y0 as int)),
                        m: *rc.material,
                    },
                )
            } else {
                None
            }
        } else {
            None
        }
    }
}

/// What a shape's `hit` returns.
pub open spec fn shape_hit_s(s: Shape, r: RayV, t0: int, t1: int) -> Option<HitV>
    decreases s, 1int,
{
    match s {
        Shape::Sphere(sp) => sphere_hit_s(sp.center@, sp.radius as int, *sp.material, r, t0, t1),
        Shape::Rect(rc) => rect_hit_s(rc, r, t0, t1),
        Shape::List(l) => list_hit_s(l.objects, r, t0, t1, l.objects@.len() as int),
        Shape::FlipFace { inner } => match shape_hit_s(*inner, r, t0, t1) {
            Some(h) => Some(HitV { n: vneg_s(h.n), ..h }),
            None => None,
        },
        Shape::Translate { inner, offset } => {
            let shifted = RayV { origin: vsub_s(r.origin, offset@), direction: r.direction };
            match shape_hit_s(*inner, shifted, t0, t1) {
                Some(h) => Some(HitV { p: vadd_s(h.p, offset@), ..h }),
                None => None,
            }
        },
        Shape::Rotate { inner, rotation } => {
            let local = RayV {
                origin: rotate_s(conj_s(rotation@), r.origin),
                direction: rotate_s(conj_s(rotation@), r.direction),
            };
            match shape_hit_s(*inner, local, t0, t1) {
                Some(h) => Some(
                    HitV { p: rotate_s(rotation@, h.p), n: rotate_s(rotation@, h.n), ..h },
                ),
                None => None,
            }
        },
    }
}

/// The nearest hit among the first `i` children: the classic sweep that
/// shrinks the upper bound to the closest hit found so far.
pub open spec fn list_hit_s(v: Vec<Shape>, r: RayV, t0: int, t1: int, i: int) -> Option<HitV>
    decreases v, 0int, i,
{
    if i <= 0 || v@.len() < i {
        None
    } else {
        let prev = list_hit_s(v, r, t0, t1, i - 1);
        let bound = match prev {
            Some(h) => h.t,
            None => t1,
        };
        match shape_hit_s(v@[i - 1], r, t0, bound) {
            Some(h2) => Some(h2),
            None => prev,
        }
    }
}

/// The view of an optional intersection record.
pub open spec fn hit_view(r: Option<HitInfo>) -> Option<HitV> {
    match r {
        Some(h) => Some(h@),
        None => None,
    }
}

impl Sphere {
    /// Build a sphere.
    pub fn new(center: Point3, radius: i64, material: Arc<Material>) -> (r: Self)
        ensures
            r.center == center,
            r.radius == radius,
            r.material == material,
    {
        Self { center, radius, material }
    }

    /// The intersection of a ray with this sphere inside `(t0, t1)`.
    pub fn hit(&self, ray: &Ray, t0: i64, t1: i64) -> (r: Option<HitInfo>)
        ensures
            hit_view(r) == sphere_hit_s(
                self.center@,
                self.radius as int,
                *self.material,
                ray@,
                t0 as int,
                t1 as int,
            ),
    {
        let oc = ray.origin.sub(self.center);
        let a = ray.direction.dot(ray.direction);
        let b0 = ray.direction.dot(oc);
        let b = fadd(b0, b0);
        let c = fsub(oc.dot(oc), fmul(self.radius, self.radius));
        let disc = fsub(fmul(b, b), fmul(fmul(4 * FX_ONE, a), c));
        if disc > 0 {
            let sq = fsqrt(disc);
            let ta = fdiv(fsub(fneg(b), sq), fadd(a, a));
            if t0 < ta && ta < t1 {
                Some(self.hit_at(ray, ta))
            } else {
                let tb = fdiv(fadd(fneg(b), sq), fadd(a, a));
                if t0 < tb && tb < t1 {
                    Some(self.hit_at(ray, tb))
                } else {
                    None
                }
            }
        } else {
            None
        }
    }

    /// The intersection record at a known parameter `t`.
    fn hit_at(&self, ray: &Ray, t: i64) -> (r: HitInfo)
        ensures
            r@ == sphere_hit_at_s(self.center@, self.radius as int, *self.material, ray@, t as int),
    {
        let p = ray.at(t);
        let n = p.sub(self.center).div_s(self.radius);
        let u = fsub(FX_ONE, fdiv(fadd(atan2_fx(n.z(), n.x()), FX_PI), PI2));
        let v = fdiv(fadd(asin_fx(n.y()), FX_PI_2), FX_PI);
        HitInfo::new(t, p, n, share_material(&self.material), u, v)
    }
}

impl Rect {
    /// Build an axis-aligned rectangle.
    pub fn new(
        x0: i64,
        x1: i64,
        y0: i64,
        y1: i64,
        k: i64,
        axis: RectAxis,
        material: Arc<Material>,
    ) -> (r: Self)
        ensures
            r.x0 == x0,
            r.x1 == x1,
            r.y0 == y0,
            r.y1 == y1,
            r.k == k,
            r.axis == axis,
            r.material == material,
    {
        Self { x0, x1, y0, y1, k, axis, material }
    }

    /// The coordinate of `v` on the axis this rectangle's plane fixes.
    fn axis_k(&self, v: &Float3) -> (r: i64)
        ensures
            r as int == axis_k_s(self.axis, v@),
    {
        match self.axis {
            RectAxis::XY => v.z(),
            RectAxis::XZ => v.y(),
            RectAxis::YZ => v.x(),
        }
    }

    /// The coordinate of `v` on the first axis this rectangle spans.
    fn axis_i(&self, v: &Float3) -> (r: i64)
        ensures
            r as int == axis_i_s(self.axis, v@),
    {
        match self.axis {
            RectAxis::XY => v.x(),
            RectAxis::XZ => v.x(),
            RectAxis::YZ => v.y(),
        }
    }

    /// The coordinate of `v` on the second axis this rectangle spans.
    fn axis_j(&self, v: &Float3) -> (r: i64)
        ensures
            r as int == axis_j_s(self.axis, v@),
    {
        match self.axis {
            RectAxis::XY => v.y(),
            RectAxis::XZ => v.z(),
            RectAxis::YZ => v.z(),
        }
    }

    /// The intersection of a ray with this rectangle inside `(t0, t1)`.
    pub fn hit(&self, ray: &Ray, t0: i64, t1: i64) -> (r: Option<HitInfo>)
        ensures
            hit_view(r) == rect_hit_s(*self, ray@, t0 as int, t1 as int),
    {
        let ok = self.axis_k(&ray.origin);
        let dk = self.axis_k(&ray.direction);
        if dk == 0 {
            return None;
        }
        let t = fdiv(fsub(self.k, ok), dk);
        if t0 < t && t < t1 {
            let xi = fadd(self.axis_i(&ray.origin), fmul(t, self.axis_i(&ray.direction)));
            let yj = fadd(self.axis_j(&ray.origin), fmul(t, self.axis_j(&ray.direction)));
            if self.x0 <= xi && xi <= self.x1 && self.y0 <= yj && yj <= self.y1 {
                let n = match self.axis {
                    RectAxis::XY => Float3::zaxis(),
                    RectAxis::XZ => Float3::yaxis(),
                    RectAxis::YZ => Float3::xaxis(),
                };
                let u = fdiv(fsub(xi, self.x0), fsub(self.x1, self.x0));
                let v = fdiv(fsub(yj, self.y0), fsub(self.y1, self.y0));
                Some(HitInfo::new(t, ray.at(t), n, share_material(&self.material), u, v))
            } else {
                None
            }
        } else {
            None
        }
    }
}

impl ShapeList {
    /// An empty aggregate.
    pub fn new() -> (r: Self)
        ensures
            r.objects@.len() == 0,
    {
        Self { objects: Vec::new() }
    }

    /// Append a child shape.
    pub fn push(&mut self, object: Shape)
        ensures
            final (self).objects@ == old(self).objects@.push(object),
    {
        self.objects.push(object);
    }

    /// The nearest intersection among all children inside `(t0, t1)`:
    /// equal to sweeping the children in order while shrinking the upper
    /// bound to the closest hit so far.
    #[verifier::rlimit(100)]
    #[verifier::spinoff_prover]
    pub fn hit(&self, ray: &Ray, t0: i64, t1: i64) -> (r: Option<HitInfo>)
        requires
            list_wf(self.objects, self.objects@.len() as int),
        ensures
            hit_view(r) == list_hit_s(
                self.objects,
                ray@,
                t0 as int,
                t1 as int,
                self.objects@.len() as int,
            ),
        decreases *self, 0int,
    {
        let mut hit_info: Option<HitInfo> = None;
        let mut closest_so_far: i64 = t1;
        let n = self.objects.len();
        let mut i: usize = 0;
        while i < n
            invariant
                i <= n,
                n == self.objects@.len(),
                list_wf(self.objects, n as int),
                hit_view(hit_info) == list_hit_s(self.objects, ray@, t0 as int, t1 as int, i as int),
                closest_so_far as int == (match hit_view(hit_info) {
                    Some(h) => h.t,
                    None => t1 as int,
                }),
            decreases n - i,
        {
            proof {
                lemma_list_wf_elem(self.objects, n as int, i as int);
            }
            if let Some(info) = self.objects[i].hit(ray, t0, closest_so_far) {
                closest_so_far = info.t;
                hit_info = Some(info);
            }
            i = i + 1;
        }
        hit_info
    }
}

/// Every child of a valid prefix is itself valid.
proof fn lemma_list_wf_elem(v: Vec<Shape>, n: int, i: int)
    requires
        list_wf(v, n),
        0 <= i < n,
        n <= v@.len(),
    ensures
        shape_wf(v@[i]),
    decreases n,
{
    if i < n - 1 {
        lemma_list_wf_elem(v, n - 1, i);
    }
}

impl Shape {
    /// The intersection of a ray with this shape inside `(t0, t1)`.
    pub fn hit(&self, ray: &Ray, t0: i64, t1: i64) -> (r: Option<HitInfo>)
        requires
            shape_wf(*self),
        ensures
            hit_view(r) == shape_hit_s(*self, ray@, t0 as int, t1 as int),
        decreases *self, 1int,
    {
        match self {
            Shape::Sphere(sp) => sp.hit(ray, t0, t1),
            Shape::Rect(rc) => rc.hit(ray, t0, t1),
            Shape::List(l) => l.hit(ray, t0, t1),
            Shape::FlipFace { inner } => match inner.hit(ray, t0, t1) {
                Some(h) => Some(HitInfo::new(h.t, h.p, h.n.neg(), h.m, h.u, h.v)),
                None => None,
            },
            Shape::Translate { inner, offset } => {
                let shifted = Ray::new(ray.origin.sub(*offset), ray.direction);
                match inner.hit(&shifted, t0, t1) {
                    Some(h) => Some(HitInfo::new(h.t, h.p.add(*offset), h.n, h.m, h.u, h.v)),
                    None => None,
                }
            },
            Shape::Rotate { inner, rotation } => {
                let inv = rotation.conj();
                let local = Ray::new(inv.rotate(ray.origin), inv.rotate(ray.direction));
                match inner.hit(&local, t0, t1) {
                    Some(h) => Some(
                        HitInfo::new(h.t, rotation.rotate(h.p), rotation.rotate(h.n), h.m, h.u, h.v),
                    ),
                    None => None,
                }
            },
        }
    }
}

/// Whether `s` is exactly the rectangle with the given bounds, plane and
/// material.
pub open spec fn is_rect_face(
    s: Shape,
    x0: int,
    x1: int,
    y0: int,
    y1: int,
    k: int,
    axis: RectAxis,
    m: Material,
) -> bool {
    s matches Shape::Rect(rc) && rc.x0 == x0 && rc.x1 == x1 && rc.y0 == y0 && rc.y1 == y1 && rc.k
        == k && rc.axis == axis && *rc.material == m
}

/// Whether `s` is that rectangle wrapped in a face flip.
pub open spec fn is_flipped_face(
    s: Shape,
    x0: int,
    x1: int,
    y0: int,
    y1: int,
    k: int,
    axis: RectAxis,
    m: Material,
) -> bool {
    s matches Shape::FlipFace { inner } && is_rect_face(*inner, x0, x1, y0, y1, k, axis, m)
}

/// An axis-aligned box spanning `p0` to `p1`: the union of its six bounding
/// rectangles, the low face of each axis flipped so every normal points
/// outward.
pub fn cuboid(p0: Point3, p1: Point3, material: Arc<Material>) -> (r: Shape)
    ensures
        r matches Shape::List(l) && l.objects@.len() == 6 && is_rect_face(
            l.objects@[0],
            p0@.x,
            p1@.x,
            p0@.y,
            p1@.y,
            p1@.z,
            RectAxis::XY,
            *material,
        ) && is_flipped_face(
            l.objects@[1],
            p0@.x,
            p1@.x,
            p0@.y,
            p1@.y,
            p0@.z,
            RectAxis::XY,
            *material,
        ) && is_rect_face(
            l.objects@[2],
            p0@.x,
            p1@.x,
            p0@.z,
            p1@.z,
            p1@.y,
            RectAxis::XZ,
            *material,
        ) && is_flipped_face(
            l.objects@[3],
            p0@.x,
            p1@.x,
            p0@.z,
            p1@.z,
            p0@.y,
            RectAxis::XZ,
            *material,
        ) && is_rect_face(
            l.objects@[4],
            p0@.y,
            p1@.y,
            p0@.z,
            p1@.z,
            p1@.x,
            RectAxis::YZ,
            *material,
        ) && is_flipped_face(
            l.objects@[5],
            p0@.y,
            p1@.y,
            p0@.z,
            p1@.z,
            p0@.x,
            RectAxis::YZ,
            *material,
        ),
{
    let mut list = ShapeList::new();
    list.push(
        Shape::Rect(
            Rect::new(p0.x(), p1.x(), p0.y(), p1.y(), p1.z(), RectAxis::XY, share_material(&material)),
        ),
    );
    list.push(
        Shape::FlipFace {
            inner: Box::new(
                Shape::Rect(
                    Rect::new(
                        p0.x(),
                        p1.x(),
                        p0.y(),
                        p1.y(),
                        p0.z(),
                        RectAxis::XY,
                        share_material(&material),
                    ),
                ),
            ),
        },
    );
    list.push(
        Shape::Rect(
            Rect::new(p0.x(), p1.x(), p0.z(), p1.z(), p1.y(), RectAxis::XZ, share_material(&material)),
        ),
    );
    list.push(
        Shape::FlipFace {
            inner: Box::new(
                Shape::Rect(
                    Rect::new(
                        p0.x(),
                        p1.x(),
                        p0.z(),
                        p1.z(),
                        p0.y(),
                        RectAxis::XZ,
                        share_material(&material),
                    ),
                ),
            ),
        },
    );
    list.push(
        Shape::Rect(
            Rect::new(p0.y(), p1.y(), p0.z(), p1.z(), p1.x(), RectAxis::YZ, share_material(&material)),
        ),
    );
    list.push(
        Shape::FlipFace {
            inner: Box::new(
                Shape::Rect(
                    Rect::new(
                        p0.y(),
                        p1.y(),
                        p0.z(),
                        p1.z(),
                        p0.x(),
                        RectAxis::YZ,
                        share_material(&material),
                    ),
                ),
            ),
        },
    );
    Shape::List(list)
}

} // verus!
