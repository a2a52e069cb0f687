//! Scenes and the recursive path integrator.
use vstd::prelude::*;

use std::sync::Arc;

use crate::camera::Camera;
use crate::float3::{lerp_s, nonneg_s, normalize_s, Color, Float3, Point3, Vec3, V3};
use crate::fx::{fadd_s, fmul, fmul_s, FX_MAX, FX_ONE};
use crate::material::{emitted_s, mat_wf, HitV, Material};
use crate::ray::{Ray, RayV};
use crate::shape::{list_hit_s, list_wf, shape_hit_s, shape_wf, Shape, ShapeList};
use crate::texture::{tex_wf, Texture};

verus! {

/// The lower intersection bound of every traced ray: about 0.001, which
/// avoids self-intersection at the previous bounce ("shadow acne").
pub const T_MIN: i64 = 4294967;

/// The upper intersection bound of every traced ray: the largest
/// fixed-point value.
pub const T_MAX: i64 = FX_MAX;

/// 0.5 in fixed point.
pub const FX_HALF: i64 = 2147483648;

/// What the surrounding scene supplies on a miss: a constant color or a
/// vertical gradient between two colors.
pub enum Background {
    /// The same color in every direction.
    Constant { color: Color },
    /// A blend from `bottom` to `top` by the ray direction's height:
    /// `lerp(bottom, top, (unit(d).y + 1) / 2)`.
    Gradient { bottom: Color, top: Color },
}

/// Validity of a background: its colors are nonnegative.
pub open spec fn bg_wf(b: Background) -> bool {
    match b {
        Background::Constant { color } => nonneg_s(color@),
        Background::Gradient { bottom, top } => nonneg_s(bottom@) && nonneg_s(top@),
    }
}

/// What a background yields for a ray direction.
pub open spec fn bg_value_s(b: Background, d: V3) -> V3 {
    match b {
        Background::Constant { color } => color@,
        Background::Gradient { bottom, top } => lerp_s(
            bottom@,
            top@,
            crate::float3::sat01_s(fmul_s(FX_HALF as int, fadd_s(normalize_s(d).y, FX_ONE as int))),
        ),
    }
}

/// The background's color for a ray direction.
pub fn bg_value(b: &Background, d: &Vec3) -> (r: Color)
    ensures
        r@ == bg_value_s(*b, d@),
{
    match b {
        Background::Constant { color } => *color,
        Background::Gradient { bottom, top } => {
            let t = crate::float3::sat01(fmul(FX_HALF, crate::fx::fadd(d.normalize().y(), FX_ONE)));
            bottom.lerp(*top, t)
        },
    }
}

/// The material of any reported hit of a valid shape is itself valid.
pub proof fn lemma_hit_mat_wf(s: Shape, r: RayV, t0: int, t1: int)
    requires
        shape_wf(s),
    ensures
        shape_hit_s(s, r, t0, t1) matches Some(h) ==> mat_wf(h.m),
    decreases s, 1int,
{
    match s {
        Shape::Sphere(sp) => {},
        Shape::Rect(rc) => {},
        Shape::List(l) => {
            lemma_list_hit_mat_wf(l.objects, r, t0, t1, l.objects@.len() as int);
        },
        Shape::FlipFace { inner } => {
            lemma_hit_mat_wf(*inner, r, t0, t1);
        },
        Shape::Translate { inner, offset } => {
            let shifted = RayV {
                origin: crate::float3::vsub_s(r.origin, offset@),
                direction: r.direction,
            };
            lemma_hit_mat_wf(*inner, shifted, t0, t1);
        },
        Shape::Rotate { inner, rotation } => {
            let local = RayV {
                origin: crate::quat::rotate_s(crate::quat::conj_s(rotation@), r.origin),
                direction: crate::quat::rotate_s(crate::quat::conj_s(rotation@), r.direction),
            };
            lemma_hit_mat_wf(*inner, local, t0, t1);
        },
    }
}

/// The material of any reported hit of a valid list prefix is valid.
pub proof fn lemma_list_hit_mat_wf(v: Vec<Shape>, r: RayV, t0: int, t1: int, i: int)
    requires
        list_wf(v, i),
    ensures
        list_hit_s(v, r, t0, t1, i) matches Some(h) ==> mat_wf(h.m),
    decreases v, 0int, i,
{
    if !(i <= 0 || v@.len() < i) {
        lemma_list_hit_mat_wf(v, r, t0, t1, i - 1);
        let prev = list_hit_s(v, r, t0, t1, i - 1);
        let bound = match prev {
            Some(h) => h.t,
            None => t1,
        };
        lemma_hit_mat_wf(v@[i - 1], r, t0, bound);
    }
}

/// Recursive radiance along a ray: on a miss the background; on a hit the
/// emission plus, while depth remains and the material scatters, the
/// attenuated radiance of the scattered ray.  The scatter draws are random,
/// so the contract pins the deterministic cases: the exact background on a
/// miss, the exact emission at depth zero, and a nonnegative color always.
pub fn trace_world(world: &Shape, bg: &Background, ray: &Ray, depth: u32) -> (c: Color)
    requires
        shape_wf(*world),
        bg_wf(*bg),
    ensures
        nonneg_s(c@),
        shape_hit_s(*world, ray@, T_MIN as int, T_MAX as int) is None ==> c@ == bg_value_s(
            *bg,
            ray@.direction,
        ),
        depth == 0 ==> (shape_hit_s(*world, ray@, T_MIN as int, T_MAX as int) matches Some(h) ==> c@
            == emitted_s(h.m, h)),
    decreases depth,
{
    let hit_info = world.hit(ray, T_MIN, T_MAX);
    if let Some(hit) = hit_info {
        proof {
            lemma_hit_mat_wf(*world, ray@, T_MIN as int, T_MAX as int);
        }
        let emitted = hit.m.emitted(ray, &hit);
        proof {
            crate::material::lemma_emitted_nonneg(hit@.m, hit@);
        }
        let scatter_info = if depth > 0 {
            hit.m.scatter(ray, &hit)
        } else {
            None
        };
        if let Some(scatter) = scatter_info {
            proof {
                let m = hit@.m;
                match m {
                    Material::Lambertian { albedo } => {
                        crate::texture::lemma_tex_value_nonneg(albedo, hit@.u, hit@.v, hit@.p);
                    },
                    Material::Metal { albedo, fuzz } => {
                        crate::texture::lemma_tex_value_nonneg(albedo, hit@.u, hit@.v, hit@.p);
                    },
                    _ => {},
                }
            }
            let rec = trace_world(world, bg, &scatter.ray, depth - 1);
            let attenuated = scatter.albedo.mul(rec);
            proof {
                crate::fx::lemma_fmul_s_sign(scatter.albedo@.x, rec@.x);
                crate::fx::lemma_fmul_s_sign(scatter.albedo@.y, rec@.y);
                crate::fx::lemma_fmul_s_sign(scatter.albedo@.z, rec@.z);
            }
            emitted.add(attenuated)
        } else {
            emitted
        }
    } else {
        let c = bg_value(bg, &ray.direction);
        proof {
            lemma_bg_nonneg(*bg, ray@.direction);
        }
        c
    }
}

/// A staged builder for one shape: accumulate a texture, turn it into a
/// material, then into a shape, and take the finished shape out.  Each
/// stage requires what the next one consumes, so misuse is excluded
/// statically rather than trapped at run time.
pub struct ShapeBuilder {
    pub texture: Option<Texture>,
    pub material: Option<Arc<Material>>,
    pub shape: Option<Shape>,
}

impl ShapeBuilder {
    /// An empty builder.
    pub fn new() -> (r: Self)
        ensures
            r.texture is None,
            r.material is None,
            r.shape is None,
    {
        Self { texture: None, material: None, shape: None }
    }

    /// Stage a constant-color texture.
    pub fn color_texture(self, color: Color) -> (r: Self)
        ensures
            r.texture == Some(Texture::Solid { color }),
            r.material == self.material,
            r.shape == self.shape,
    {
        Self { texture: Some(Texture::solid(color)), ..self }
    }

    /// Stage a checker texture of two constant colors.
    pub fn checker_texture(self, odd_color: Color, even_color: Color, freq: i64) -> (r: Self)
        ensures
            r.texture == Some(
                Texture::Checker {
                    odd: Box::new(Texture::Solid { color: odd_color }),
                    even: Box::new(Texture::Solid { color: even_color }),
                    freq,
                },
            ),
            r.material == self.material,
            r.shape == self.shape,
    {
        Self {
            texture: Some(Texture::checker(Texture::solid(odd_color), Texture::solid(even_color), freq)),
            ..self
        }
    }

    /// Turn the staged texture into a diffuse material.
    pub fn lambertian(self) -> (r: Self)
        requires
            self.texture is Some,
        ensures
            self.texture matches Some(t) ==> r.material matches Some(m) && *m == (
            Material::Lambertian { albedo: t }),
            r.texture is None,
            r.shape == self.shape,
    {
        let t = self.texture.unwrap();
        Self {
            texture: None,
            material: Some(Arc::new(Material::Lambertian { albedo: t })),
            shape: self.shape,
        }
    }

    /// Turn the staged texture into a metallic material with roughness
    /// `fuzz`.
    pub fn metal(self, fuzz: i64) -> (r: Self)
        requires
            self.texture is Some,
        ensures
            self.texture matches Some(t) ==> r.material matches Some(m) && *m == (Material::Metal {
                albedo: t,
                fuzz,
            }),
            r.texture is None,
            r.shape == self.shape,
    {
        let t = self.texture.unwrap();
        Self {
            texture: None,
            material: Some(Arc::new(Material::Metal { albedo: t, fuzz })),
            shape: self.shape,
        }
    }

    /// Stage a dielectric material with refractive index `ri`.
    pub fn dielectric(self, ri: i64) -> (r: Self)
        ensures
            r.material matches Some(m) && *m == (Material::Dielectric { ri }),
            r.texture == self.texture,
            r.shape == self.shape,
    {
        Self { material: Some(Arc::new(Material::Dielectric { ri })), ..self }
    }

    /// Turn the staged texture into an emitting material.
    pub fn diffuse_light(self) -> (r: Self)
        requires
            self.texture is Some,
        ensures
            self.texture matches Some(t) ==> r.material matches Some(m) && *m == (
            Material::DiffuseLight { emit: t }),
            r.texture is None,
            r.shape == self.shape,
    {
        let t = self.texture.unwrap();
        Self {
            texture: None,
            material: Some(Arc::new(Material::DiffuseLight { emit: t })),
            shape: self.shape,
        }
    }

    /// Turn the staged material into a sphere.
    pub fn sphere(self, center: Point3, radius: i64) -> (r: Self)
        requires
            self.material is Some,
        ensures
            self.material matches Some(m) ==> r.shape matches Some(s) && s == Shape::Sphere(
                crate::shape::Sphere { center, radius, material: m },
            ),
            r.material is None,
            r.texture == self.texture,
    {
        let m = self.material.unwrap();
        Self {
            texture: self.texture,
            material: None,
            shape: Some(Shape::Sphere(crate::shape::Sphere::new(center, radius, m))),
        }
    }

    /// Take the finished shape.
    pub fn build(self) -> (r: Shape)
        requires
            self.shape is Some,
        ensures
            self.shape matches Some(s) ==> r == s,
    {
        self.shape.unwrap()
    }
}

/// A scene assembled by the surrounding application: a root shape, a
/// background, a camera and the rendering parameters.
pub struct WorldScene {
    world: Shape,
    background: Background,
    camera: Camera,
    width: u32,
    height: u32,
    spp: u32,
    depth: u32,
    gamma: i64,
}

impl WorldScene {
    #[verifier::type_invariant]
    spec fn inv(&self) -> bool {
        shape_wf(self.world) && bg_wf(self.background)
    }

    /// Assemble a scene from a valid root shape and background.
    pub fn new(
        world: Shape,
        background: Background,
        camera: Camera,
        width: u32,
        height: u32,
        spp: u32,
        depth: u32,
        gamma: i64,
    ) -> (r: Self)
        requires
            shape_wf(world),
            bg_wf(background),
        ensures
            r.wf_world() == world,
            r.wf_background() == background,
            r.cam() == camera,
            r.dims() == (width, height),
            r.params() == (spp, depth, gamma),
    {
        Self { world, background, camera, width, height, spp, depth, gamma }
    }

    /// The root shape.
    pub closed spec fn wf_world(&self) -> Shape {
        self.world
    }

    /// The background.
    pub closed spec fn wf_background(&self) -> Background {
        self.background
    }

    /// The camera.
    pub closed spec fn cam(&self) -> Camera {
        self.camera
    }

    /// Width and height.
    pub closed spec fn dims(&self) -> (u32, u32) {
        (self.width, self.height)
    }

    /// Samples per pixel, recursion depth, gamma factor.
    pub closed spec fn params(&self) -> (u32, u32, i64) {
        (self.spp, self.depth, self.gamma)
    }
}

impl crate::render::Scene for WorldScene {
    fn camera(&self) -> (r: Camera)
    {
        self.camera
    }

    fn trace(&self, ray: Ray, depth: u32) -> (c: Color) {
        proof {
            use_type_invariant(&*self);
        }
        trace_world(&self.world, &self.background, &ray, depth)
    }

    fn width(&self) -> u32 {
        self.width
    }

    fn height(&self) -> u32 {
        self.height
    }

    fn spp(&self) -> u32 {
        self.spp
    }

    fn depth(&self) -> u32 {
        self.depth
    }

    fn gamma_factor(&self) -> i64 {
        self.gamma
    }
}

/// 0.1, 0.2, 0.4, 0.6, 0.7, 0.8 in fixed point.
pub const FX_01: i64 = 429496730;

/// 0.2 in fixed point.
pub const FX_02: i64 = 858993459;

/// 0.4 in fixed point.
pub const FX_04: i64 = 1717986918;

/// 0.6 in fixed point.
pub const FX_06: i64 = 2576980378;

/// 0.7 in fixed point.
pub const FX_07: i64 = 3006477107;

/// 0.8 in fixed point.
pub const FX_08: i64 = 3435973837;

/// Whether `s` is a sphere at `center` of `radius` whose material is `m`.
pub open spec fn is_sphere_at(s: Shape, center: V3, radius: int, m: Material) -> bool {
    s matches Shape::Sphere(sp) && sp.center@ == center && sp.radius == radius && *sp.material == m
}

/// The fixed demonstration world: a diffuse sphere, a fuzzy metal sphere,
/// and a large checkered ground sphere.
pub open spec fn simple_world_s(s: Shape) -> bool {
    s matches Shape::List(l) && l.objects@.len() == 3 && (exists|c: Color|
        is_sphere_at(
            l.objects@[0],
            V3 { x: FX_06 as int, y: 0, z: -FX_ONE as int },
            FX_HALF as int,
            Material::Lambertian { albedo: Texture::Solid { color: c } },
        ) && c@ == (V3 { x: FX_01 as int, y: FX_02 as int, z: FX_HALF as int })) && (exists|
        c: Color,
    |
        is_sphere_at(
            l.objects@[1],
            V3 { x: -FX_06 as int, y: 0, z: -FX_ONE as int },
            FX_HALF as int,
            Material::Metal { albedo: Texture::Solid { color: c }, fuzz: FX_04 },
        ) && c@ == (V3 { x: FX_08 as int, y: FX_08 as int, z: FX_08 as int })) && (exists|
        c1: Color,
        c2: Color,
    |
        is_sphere_at(
            l.objects@[2],
            V3 { x: 0, y: -100 * FX_ONE as int - FX_HALF as int, z: -FX_ONE as int },
            100 * FX_ONE as int,
            Material::Lambertian {
                albedo: Texture::Checker {
                    odd: Box::new(Texture::Solid { color: c1 }),
                    even: Box::new(Texture::Solid { color: c2 }),
                    freq: 42949672960i64,
                },
            },
        ) && c1@ == (V3 { x: FX_08 as int, y: FX_08 as int, z: 0 }) && c2@ == (V3 {
            x: FX_08 as int,
            y: FX_02 as int,
            z: 0,
        }))
}

/// The demonstration scene of the library: three spheres over a gradient
/// sky.
pub struct SimpleScene {
    world: Shape,
}

impl SimpleScene {
    #[verifier::type_invariant]
    spec fn inv(&self) -> bool {
        shape_wf(self.world)
    }

    /// The root shape.
    pub closed spec fn world_s(&self) -> Shape {
        self.world
    }

    /// Assemble the demonstration world.
    pub fn new() -> (r: Self)
        ensures
            simple_world_s(r.world_s()),
    {
        let mut world = ShapeList::new();
        world.push(
            ShapeBuilder::new().color_texture(Float3::new(FX_01, FX_02, FX_HALF)).lambertian()
                .sphere(Float3::new(FX_06, 0, -FX_ONE), FX_HALF).build(),
        );
        world.push(
            ShapeBuilder::new().color_texture(Float3::new(FX_08, FX_08, FX_08)).metal(FX_04)
                .sphere(Float3::new(-FX_06, 0, -FX_ONE), FX_HALF).build(),
        );
        world.push(
            ShapeBuilder::new().checker_texture(
                Float3::new(FX_08, FX_08, 0),
                Float3::new(FX_08, FX_02, 0),
                10 * FX_ONE,
            ).lambertian().sphere(
                Float3::new(0, -100 * FX_ONE - FX_HALF, -FX_ONE),
                100 * FX_ONE,
            ).build(),
        );
        proof {
            assert(world.objects@.len() == 3);
            assert(shape_wf(world.objects@[0]));
            assert(shape_wf(world.objects@[1]));
            assert(world.objects@[2] matches Shape::Sphere(sp));
            assert(world.objects@[2] matches Shape::Sphere(sp) && sp.radius > 0);
            assert(world.objects@[2] matches Shape::Sphere(sp) && *sp.material
                matches Material::Lambertian { albedo });
            assert(world.objects@[2] matches Shape::Sphere(sp) && *sp.material
                matches Material::Lambertian { albedo } && albedo matches Texture::Checker {
                odd,
                even,
                freq,
            });
            assert(world.objects@[2] matches Shape::Sphere(sp) && *sp.material
                matches Material::Lambertian { albedo } && albedo matches Texture::Checker {
                odd,
                even,
                freq,
            } && (tex_wf(*odd) && tex_wf(*even)));
            assert(world.objects@[2] matches Shape::Sphere(sp) && *sp.material
                matches Material::Lambertian { albedo } && tex_wf(albedo));
            assert(shape_wf(world.objects@[2]));
            assert(list_wf(world.objects, 0));
            assert(list_wf(world.objects, 1));
            assert(list_wf(world.objects, 2));
            assert(list_wf(world.objects, 3));
            assert(shape_wf(Shape::List(world)));
        }
        Self { world: Shape::List(world) }
    }

    /// The sky: a gradient from white to light blue by ray height.
    pub fn background(&self, d: Vec3) -> (r: Color)
        ensures
            r@ == lerp_s(
                V3 { x: FX_ONE as int, y: FX_ONE as int, z: FX_ONE as int },
                V3 { x: FX_HALF as int, y: FX_07 as int, z: FX_ONE as int },
                crate::float3::sat01_s(
                    fmul_s(FX_HALF as int, fadd_s(normalize_s(d@).y, FX_ONE as int)),
                ),
            ),
    {
        bg_value(
            &Background::Gradient { bottom: Float3::one(), top: Float3::new(FX_HALF, FX_07, FX_ONE) },
            &d,
        )
    }
}

impl crate::render::Scene for SimpleScene {
    fn camera(&self) -> (r: Camera) {
        Camera::new(
            Float3::new(4 * FX_ONE, 0, 0),
            Float3::new(0, 2 * FX_ONE, 0),
            Float3::new(-2 * FX_ONE, -FX_ONE, -FX_ONE),
        )
    }

    fn trace(&self, ray: Ray, depth: u32) -> (c: Color) {
        proof {
            use_type_invariant(&*self);
        }
        let bg = Background::Gradient {
            bottom: Float3::one(),
            top: Float3::new(FX_HALF, FX_07, FX_ONE),
        };
        trace_world(&self.world, &bg, &ray, depth)
    }
}

/// A valid background yields nonnegative colors.
proof fn lemma_bg_nonneg(b: Background, d: V3)
    requires
        bg_wf(b),
    ensures
        nonneg_s(bg_value_s(b, d)),
{
    match b {
        Background::Constant { color } => {},
        Background::Gradient { bottom, top } => {
            let t = crate::float3::sat01_s(
                fmul_s(FX_HALF as int, fadd_s(normalize_s(d).y, FX_ONE as int)),
            );
            crate::float3::lemma_float3_bounds(bottom);
            crate::float3::lemma_float3_bounds(top);
            lemma_lerp_nonneg(bottom@, top@, t);
        },
    }
}

/// Interpolating between nonnegative colors by a factor in `[0, 1]` stays
/// nonnegative.
proof fn lemma_lerp_nonneg(a: V3, b: V3, t: int)
    requires
        nonneg_s(a),
        nonneg_s(b),
        a.x <= FX_MAX as int && a.y <= FX_MAX as int && a.z <= FX_MAX as int,
        b.x <= FX_MAX as int && b.y <= FX_MAX as int && b.z <= FX_MAX as int,
    ensures
        0 <= t <= FX_ONE as int ==> nonneg_s(lerp_s(a, b, t)),
{
    if 0 <= t <= FX_ONE as int {
        lemma_lerp_axis(a.x, b.x, t);
        lemma_lerp_axis(a.y, b.y, t);
        lemma_lerp_axis(a.z, b.z, t);
    }
}

proof fn lemma_lerp_axis(x: int, y: int, t: int)
    requires
        0 <= x <= FX_MAX as int,
        0 <= y <= FX_MAX as int,
        0 <= t <= FX_ONE as int,
    ensures
        crate::fx::fadd_s(x, fmul_s(crate::fx::fsub_s(y, x), t)) >= 0,
{
    let d = crate::fx::fsub_s(y, x);
    assert(d == y - x);
    if d >= 0 {
        crate::fx::lemma_fmul_s_sign(d, t);
    } else {
        // For a negative difference the scaled step is at least the full
        // step, so the interpolant is at least y.
        assert(d * t >= d * FX_ONE as int) by (nonlinear_arith)
            requires
                d < 0,
                0 <= t <= FX_ONE as int,
        ;
        crate::fx::lemma_quot_mono(d * FX_ONE as int, d * t, FX_ONE as int);
        vstd::arithmetic::div_mod::lemma_div_by_multiple(-d, FX_ONE as int);
        assert(-(d * FX_ONE as int) == (-d) * FX_ONE as int) by (nonlinear_arith);
        assert(crate::fx::quot(d * FX_ONE as int, FX_ONE as int) == d);
        assert(fmul_s(d, t) >= d);
    }
}

} // verus!
