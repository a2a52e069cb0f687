//! Textures, materials, the integrator and the renderer end to end.
use std::sync::Arc;

use rayt::fx::{FX_MAX, FX_ONE, FX_PI, FX_PI_2};
use rayt::scene::trace_world;
use rayt::{
    render, Background, Camera, Float3, Material, Ray, Scene, Shape, ShapeBuilder, ShapeList,
    SimpleScene, Sphere, Texture, WorldScene,
};

const FX: i64 = FX_ONE;

fn test_camera() -> Camera {
    Camera::new(
        Float3::new(4 * FX, 0, 0),
        Float3::new(0, 2 * FX, 0),
        Float3::new(-2 * FX, -FX, -FX),
    )
}

#[test]
fn checker_texture_alternates_across_half_periods() {
    let odd = Texture::solid(Float3::new(FX, 0, 0));
    let even = Texture::solid(Float3::new(0, 0, FX));
    let checker = Texture::checker(odd, even, FX);
    // All three sines positive: the even child.
    let p_even = Float3::new(FX_PI_2, FX_PI_2, FX_PI_2);
    assert_eq!(checker.value(0, 0, p_even), Float3::new(0, 0, FX));
    // One coordinate moved one half period: the odd child.
    let p_odd = Float3::new(FX_PI + FX_PI_2, FX_PI_2, FX_PI_2);
    assert_eq!(checker.value(0, 0, p_odd), Float3::new(FX, 0, 0));
    // And back across the next boundary: even again.
    let p_even2 = Float3::new(2 * FX_PI + FX_PI_2, FX_PI_2, FX_PI_2);
    assert_eq!(checker.value(0, 0, p_even2), Float3::new(0, 0, FX));
}

#[test]
fn solid_texture_ignores_its_inputs() {
    let t = Texture::solid(Float3::new(FX / 4, FX / 2, FX));
    assert_eq!(t.value(0, 0, Float3::zero()), Float3::new(FX / 4, FX / 2, FX));
    assert_eq!(t.value(FX, FX / 2, Float3::fill(7 * FX)), Float3::new(FX / 4, FX / 2, FX));
}

#[test]
fn image_texture_samples_nearest_pixel() {
    // A 2x1 image: left red, right green.
    let pixels = vec![Float3::new(FX, 0, 0), Float3::new(0, FX, 0)];
    let img = Texture::image(pixels, 2, 1);
    assert_eq!(img.value(0, FX / 2, Float3::zero()), Float3::new(FX, 0, 0));
    assert_eq!(img.value(3 * FX / 4, FX / 2, Float3::zero()), Float3::new(0, FX, 0));
    // Out-of-range coordinates clamp to the border.
    assert_eq!(img.value(-FX, FX / 2, Float3::zero()), Float3::new(FX, 0, 0));
    assert_eq!(img.value(2 * FX, FX / 2, Float3::zero()), Float3::new(0, FX, 0));
}

#[test]
fn lambertian_always_scatters_with_its_albedo() {
    let m = Material::Lambertian { albedo: Texture::solid(Float3::new(FX / 4, FX / 2, FX)) };
    let sphere = Sphere::new(Float3::zero(), FX, Arc::new(m));
    let ray = Ray::new(Float3::new(-4 * FX, 0, 0), Float3::xaxis());
    let hit = sphere.hit(&ray, FX / 1000, FX_MAX).unwrap();
    let s = hit.m.scatter(&ray, &hit).expect("diffuse surfaces always scatter");
    assert_eq!(s.albedo, Float3::new(FX / 4, FX / 2, FX));
    assert_eq!(s.ray.origin, hit.p);
}

#[test]
fn diffuse_light_emits_and_never_scatters() {
    let m = Material::DiffuseLight { emit: Texture::solid(Float3::new(FX / 2, FX / 4, FX)) };
    let sphere = Sphere::new(Float3::zero(), FX, Arc::new(m));
    let ray = Ray::new(Float3::new(-4 * FX, 0, 0), Float3::xaxis());
    let hit = sphere.hit(&ray, FX / 1000, FX_MAX).unwrap();
    assert!(hit.m.scatter(&ray, &hit).is_none());
    assert_eq!(hit.m.emitted(&ray, &hit), Float3::new(FX / 2, FX / 4, FX));
}

#[test]
fn dielectric_always_scatters_white() {
    let m = Material::Dielectric { ri: 3 * FX / 2 };
    let sphere = Sphere::new(Float3::zero(), FX, Arc::new(m));
    let ray = Ray::new(Float3::new(-4 * FX, 0, 0), Float3::xaxis());
    let hit = sphere.hit(&ray, FX / 1000, FX_MAX).unwrap();
    let s = hit.m.scatter(&ray, &hit).expect("a dielectric reflects or refracts");
    assert_eq!(s.albedo, Float3::one());
}

#[test]
fn trace_returns_the_background_on_a_miss() {
    let mut world = ShapeList::new();
    world.push(
        ShapeBuilder::new().color_texture(Float3::fill(FX / 2)).lambertian().sphere(
            Float3::new(0, 0, -2 * FX),
            FX,
        ).build(),
    );
    let shape = Shape::List(world);
    let bg = Background::Constant { color: Float3::new(FX / 4, FX / 2, FX) };
    let miss = Ray::new(Float3::zero(), Float3::yaxis());
    assert_eq!(trace_world(&shape, &bg, &miss, 50), Float3::new(FX / 4, FX / 2, FX));
    // At depth zero a hit yields only the (zero) emission.
    let hit_ray = Ray::new(Float3::zero(), Float3::zaxis().neg());
    assert_eq!(trace_world(&shape, &bg, &hit_ray, 0), Float3::zero());
}

#[test]
fn render_background_and_silhouette_at_depth_zero() {
    let mut world = ShapeList::new();
    world.push(
        ShapeBuilder::new().color_texture(Float3::fill(FX / 2)).lambertian().sphere(
            Float3::new(0, 0, -2 * FX),
            FX,
        ).build(),
    );
    let scene = WorldScene::new(
        Shape::List(world),
        Background::Constant { color: Float3::fill(FX / 4) },
        test_camera(),
        16,
        8,
        2,
        0,
        FX,
    );
    let (w, h, img) = render(&scene);
    assert_eq!((w, h), (16, 8));
    assert_eq!(img.len(), 3 * 16 * 8);
    // The corner pixel misses for every jitter: exactly the background.
    assert_eq!(&img[0..3], &[63, 63, 63]);
    // The central pixel hits for every jitter: only zero emission.
    let center = 3 * (4 * 16 + 8) as usize;
    assert_eq!(&img[center..center + 3], &[0, 0, 0]);
}

#[test]
fn render_shows_only_the_light_at_depth_one() {
    let mut world = ShapeList::new();
    world.push(
        ShapeBuilder::new().color_texture(Float3::new(FX / 2, FX / 4, FX)).diffuse_light().sphere(
            Float3::new(0, 0, -2 * FX),
            FX,
        ).build(),
    );
    let scene = WorldScene::new(
        Shape::List(world),
        Background::Constant { color: Float3::zero() },
        test_camera(),
        16,
        8,
        2,
        1,
        FX,
    );
    let (_, _, img) = render(&scene);
    // Where the light is visible: exactly its emission, quantized.
    let center = 3 * (4 * 16 + 8) as usize;
    assert_eq!(&img[center..center + 3], &[127, 63, 255]);
    // Elsewhere: black.
    assert_eq!(&img[0..3], &[0, 0, 0]);
}

#[test]
fn the_demonstration_scene_assembles() {
    let scene = SimpleScene::new();
    let cam = scene.camera();
    let ray = cam.ray(FX / 2, FX / 2);
    assert_eq!(ray.origin, Float3::zero());
    assert_eq!(ray.direction, Float3::new(0, 0, -FX));
    // The sky gradient at the horizon blends the two colors evenly.
    let horizon = scene.background(Float3::xaxis());
    assert_eq!(horizon, Float3::one().lerp(Float3::new(FX / 2, 3006477107, FX), FX / 2));
    assert_eq!(scene.width(), 200);
    assert_eq!(scene.height(), 100);
}

#[test]
fn metal_reflects_or_absorbs() {
    let m = Material::Metal { albedo: Texture::solid(Float3::fill(FX / 2)), fuzz: 0 };
    let sphere = Sphere::new(Float3::zero(), FX, Arc::new(m));
    let ray = Ray::new(Float3::new(-4 * FX, 0, 0), Float3::xaxis());
    let hit = sphere.hit(&ray, FX / 1000, FX_MAX).unwrap();
    // With zero fuzz a head-on reflection must scatter straight back.
    let s = hit.m.scatter(&ray, &hit).expect("the unfuzzed mirror reflects");
    assert_eq!(s.ray.direction, Float3::new(-FX, 0, 0));
    assert_eq!(s.albedo, Float3::fill(FX / 2));
}
