//! Materials: how light scatters or is emitted at a surface.
use vstd::prelude::*;

use std::sync::Arc;

use crate::float3::{
    dot_s, in_sphere_s, nonneg_s, normalize_s, reflect_s, refract_disc_s, refract_dir_s, vadd_s,
    vneg_s, vscale_s, vsub_s, Color, Float3, Point3, Vec3, V3,
};
use crate::fx::{
    fadd, fadd_s, fdiv, fdiv_s, fmul, fmul_s, fneg, fneg_s, fsub, fsub_s, FX_ONE,
};
use crate::ray::{Ray, RayV};
use crate::texture::{tex_value_s, tex_wf, Texture};

verus! {

/// The mathematical value of an intersection record.
pub ghost struct HitV {
    pub t: int,
    pub p: V3,
    pub n: V3,
    pub u: int,
    pub v: int,
    pub m: Material,
}

/// An intersection record: parametric distance, hit point, outward normal,
/// the material struck (shared), and surface coordinates.
pub struct HitInfo {
    pub t: i64,
    pub p: Point3,
    pub n: Vec3,
    pub m: Arc<Material>,
    pub u: i64,
    pub v: i64,
}

impl View for HitInfo {
    type V = HitV;

    open spec fn view(&self) -> HitV {
        HitV { t: self.t as int, p: self.p@, n: self.n@, u: self.u as int, v: self.v as int, m: *self.m }
    }
}

impl HitInfo {
    /// Build an intersection record.
    pub fn new(t: i64, p: Point3, n: Vec3, m: Arc<Material>, u: i64, v: i64) -> (r: Self)
        ensures
            r@ == (HitV { t: t as int, p: p@, n: n@, u: u as int, v: v as int, m: *m }),
    {
        Self { t, p, n, m, u, v }
    }
}

/// The mathematical value of a scatter event.
pub ghost struct ScatterV {
    pub ray: RayV,
    pub albedo: V3,
}

/// A scatter event: the outgoing ray and the attenuation color.
pub struct ScatterInfo {
    pub ray: Ray,
    pub albedo: Color,
}

impl View for ScatterInfo {
    type V = ScatterV;

    open spec fn view(&self) -> ScatterV {
        ScatterV { ray: self.ray@, albedo: self.albedo@ }
    }
}

impl ScatterInfo {
    /// Build a scatter event.
    pub fn new(ray: Ray, albedo: Color) -> (r: Self)
        ensures
            r@ == (ScatterV { ray: ray@, albedo: albedo@ }),
    {
        Self { ray, albedo }
    }
}

/// A material: one of the four scattering/emission behaviors.
pub enum Material {
    /// Diffuse: scatters toward the normal perturbed inside the unit sphere.
    Lambertian { albedo: Texture },
    /// Specular with micro-roughness `fuzz`; absorbs grazing samples.
    Metal { albedo: Texture, fuzz: i64 },
    /// Refractive with index `ri`, colorless, Schlick reflectance.
    Dielectric { ri: i64 },
    /// Emitter: never scatters, emits its texture's value.
    DiffuseLight { emit: Texture },
}

/// Structural validity: every owned texture is valid.
pub open spec fn mat_wf(m: Material) -> bool {
    match m {
        Material::Lambertian { albedo } => tex_wf(albedo),
        Material::Metal { albedo, fuzz } => tex_wf(albedo),
        Material::Dielectric { ri } => true,
        Material::DiffuseLight { emit } => tex_wf(emit),
    }
}

/// The Schlick reflectance approximation:
/// `r0 + (1 - r0) * (1 - cosine)^5` with `r0 = ((1 - ri) / (1 + ri))^2`.
pub open spec fn schlick_s(cosine: int, ri: int) -> int {
    let t = fdiv_s(fsub_s(FX_ONE as int, ri), fadd_s(FX_ONE as int, ri));
    let r0 = fmul_s(t, t);
    fadd_s(r0, fmul_s(fsub_s(FX_ONE as int, r0), pow5_s(fsub_s(FX_ONE as int, cosine))))
}

/// The fifth power, as the scatter code computes it.
pub open spec fn pow5_s(x: int) -> int {
    fmul_s(fmul_s(fmul_s(fmul_s(x, x), x), x), x)
}

/// The scatter direction of a diffuse bounce: toward the normal, perturbed
/// by a point `rv` of the unit sphere.
pub open spec fn lambertian_dir_s(h: HitV, rv: V3) -> V3 {
    vsub_s(vadd_s(vadd_s(h.p, h.n), rv), h.p)
}

/// The scatter direction of a metallic bounce: the mirror reflection of the
/// unit incident direction, perturbed by `fuzz` times a point `rv` of the
/// unit sphere.
pub open spec fn metal_dir_s(r: RayV, h: HitV, fuzz: int, rv: V3) -> V3 {
    vadd_s(reflect_s(normalize_s(r.direction), h.n), vscale_s(rv, fuzz))
}

/// The scatter direction of a dielectric bounce, given the uniform draw
/// `rnd` in `[0, 1)`: refract when geometrically possible and the draw
/// exceeds the Schlick reflectance, else reflect.
pub open spec fn dielectric_dir_s(ri: int, r: RayV, h: HitV, rnd: int) -> V3 {
    let d = dot_s(r.direction, h.n);
    let outward = if d > 0 {
        vneg_s(h.n)
    } else {
        h.n
    };
    let ratio = if d > 0 {
        ri
    } else {
        fdiv_s(FX_ONE as int, ri)
    };
    let len = crate::float3::len_s(r.direction);
    let cosine = if d > 0 {
        fdiv_s(fmul_s(ri, d), len)
    } else {
        fdiv_s(fneg_s(d), len)
    };
    let incident = vneg_s(r.direction);
    if refract_disc_s(incident, outward, ratio) > 0 && rnd > schlick_s(cosine, ri) {
        refract_dir_s(incident, outward, ratio)
    } else {
        reflect_s(r.direction, h.n)
    }
}

/// What `emitted` returns: the emission texture's value for a light, black
/// for every other material.
pub open spec fn emitted_s(m: Material, h: HitV) -> V3 {
    match m {
        Material::DiffuseLight { emit } => tex_value_s(emit, h.u, h.v, h.p),
        _ => V3 { x: 0, y: 0, z: 0 },
    }
}

/// Relies on std's Arc::clone: the returned handle refers to the same
/// shared material value.
#[verifier::external_body]
pub fn share_material(m: &Arc<Material>) -> (r: Arc<Material>)
    ensures
        r == *m,
{
    Arc::clone(m)
}

/// The Schlick reflectance approximation.
pub fn schlick(cosine: i64, ri: i64) -> (r: i64)
    ensures
        r as int == schlick_s(cosine as int, ri as int),
{
    let t = fdiv(fsub(FX_ONE, ri), fadd(FX_ONE, ri));
    let r0 = fmul(t, t);
    let x = fsub(FX_ONE, cosine);
    let p5 = fmul(fmul(fmul(fmul(x, x), x), x), x);
    fadd(r0, fmul(fsub(FX_ONE, r0), p5))
}

impl Material {
    /// Attempt to scatter an incoming ray at a hit.  The perturbations are
    /// random; the contract fixes the result as a function of the draws.
    pub fn scatter(&self, ray: &Ray, hit: &HitInfo) -> (r: Option<ScatterInfo>)
        requires
            mat_wf(*self),
        ensures
            (*self matches Material::Lambertian { albedo } ==> r matches Some(s) && s@.ray.origin
                == hit@.p && s@.albedo == tex_value_s(albedo, hit@.u, hit@.v, hit@.p) && (exists|
                rv: V3,
            |
                in_sphere_s(rv) && s@.ray.direction == lambertian_dir_s(hit@, rv))),
            (*self matches Material::Metal { albedo, fuzz } ==> (exists|rv: V3|
                in_sphere_s(rv) && (if dot_s(metal_dir_s(ray@, hit@, fuzz as int, rv), hit@.n) > 0 {
                    r matches Some(s) && s@.ray.origin == hit@.p && s@.ray.direction == metal_dir_s(
                        ray@,
                        hit@,
                        fuzz as int,
                        rv,
                    ) && s@.albedo == tex_value_s(albedo, hit@.u, hit@.v, hit@.p)
                } else {
                    r is None
                }))),
            (*self matches Material::Dielectric { ri } ==> r matches Some(s) && s@.ray.origin
                == hit@.p && s@.albedo == (V3 {
                x: FX_ONE as int,
                y: FX_ONE as int,
                z: FX_ONE as int,
            }) && (exists|rnd: int|
                0 <= rnd < FX_ONE as int && s@.ray.direction == dielectric_dir_s(
                    ri as int,
                    ray@,
                    hit@,
                    rnd,
                ))),
            (*self matches Material::DiffuseLight { emit } ==> r is None),
    {
        match self {
            Material::Lambertian { albedo } => {
                let rv = Float3::random_in_unit_sphere();
                let target = hit.p.add(hit.n).add(rv);
                let alb = albedo.value(hit.u, hit.v, hit.p);
                let s = ScatterInfo::new(Ray::new(hit.p, target.sub(hit.p)), alb);
                proof {
                    assert(in_sphere_s(rv@) && s@.ray.direction == lambertian_dir_s(hit@, rv@));
                }
                Some(s)
            },
            Material::Metal { albedo, fuzz } => {
                let rv = Float3::random_in_unit_sphere();
                let reflected = ray.direction.normalize().reflect(hit.n).add(rv.scale(*fuzz));
                if reflected.dot(hit.n) > 0 {
                    let alb = albedo.value(hit.u, hit.v, hit.p);
                    let s = ScatterInfo::new(Ray::new(hit.p, reflected), alb);
                    proof {
                        assert(in_sphere_s(rv@) && dot_s(
                            metal_dir_s(ray@, hit@, *fuzz as int, rv@),
                            hit@.n,
                        ) > 0);
                    }
                    Some(s)
                } else {
                    proof {
                        assert(in_sphere_s(rv@) && !(dot_s(
                            metal_dir_s(ray@, hit@, *fuzz as int, rv@),
                            hit@.n,
                        ) > 0));
                    }
                    None
                }
            },
            Material::Dielectric { ri } => {
                let reflected = ray.direction.reflect(hit.n);
                let d = ray.direction.dot(hit.n);
                let len = ray.direction.length();
                let outward: Vec3;
                let ratio: i64;
                let cosine: i64;
                if d > 0 {
                    outward = hit.n.neg();
                    ratio = *ri;
                    cosine = fdiv(fmul(*ri, d), len);
                } else {
                    outward = hit.n;
                    ratio = fdiv(FX_ONE, *ri);
                    cosine = fdiv(fneg(d), len);
                }
                let rnd = crate::float3::random_unit_scalar();
                let incident = ray.direction.neg();
                let refr = incident.refract(outward, ratio);
                match refr {
                    Some(refracted) if rnd > schlick(cosine, *ri) => {
                        let s = ScatterInfo::new(Ray::new(hit.p, refracted), Float3::one());
                        proof {
                            assert(0 <= (rnd as int) && (rnd as int) < FX_ONE as int && s@.ray.direction
                                == dielectric_dir_s(*ri as int, ray@, hit@, rnd as int));
                        }
                        Some(s)
                    },
                    _ => {
                        let s = ScatterInfo::new(Ray::new(hit.p, reflected), Float3::one());
                        proof {
                            assert(0 <= (rnd as int) && (rnd as int) < FX_ONE as int && s@.ray.direction
                                == dielectric_dir_s(*ri as int, ray@, hit@, rnd as int));
                        }
                        Some(s)
                    },
                }
            },
            Material::DiffuseLight { emit } => None,
        }
    }

    /// The light this material emits at a hit: the emission texture's value
    /// for a light, black otherwise.
    pub fn emitted(&self, _ray: &Ray, hit: &HitInfo) -> (r: Color)
        requires
            mat_wf(*self),
        ensures
            r@ == emitted_s(*self, hit@),
    {
        match self {
            Material::DiffuseLight { emit } => emit.value(hit.u, hit.v, hit.p),
            _ => Float3::zero(),
        }
    }
}

/// A nonnegative emission: a valid material emits a valid color.
pub proof fn lemma_emitted_nonneg(m: Material, h: HitV)
    requires
        mat_wf(m),
    ensures
        nonneg_s(emitted_s(m, h)),
{
    match m {
        Material::DiffuseLight { emit } => {
            crate::texture::lemma_tex_value_nonneg(emit, h.u, h.v, h.p);
        },
        _ => {},
    }
}

} // verus!
