//! Intersection: spheres, rectangles, aggregates and decorators.
use std::sync::Arc;

use rayt::fx::{FX_MAX, FX_ONE, FX_PI_2};
use rayt::{cuboid, Float3, Material, Quat, Ray, Rect, RectAxis, Shape, ShapeList, Sphere, Texture};

const FX: i64 = FX_ONE;

fn gray() -> Arc<Material> {
    Arc::new(Material::Lambertian { albedo: Texture::solid(Float3::fill(FX / 2)) })
}

fn x_ray() -> Ray {
    Ray::new(Float3::new(-4 * FX, 0, 0), Float3::xaxis())
}

#[test]
fn sphere_reports_the_nearer_root_first() {
    let s = Sphere::new(Float3::zero(), FX, gray());
    let hit = s.hit(&x_ray(), FX / 1000, FX_MAX).expect("the ray runs through the sphere");
    // Roots at t = 3 and t = 5; the nearer one is reported.
    assert_eq!(hit.t, 3 * FX);
    assert_eq!(hit.p, Float3::new(-FX, 0, 0));
    // The normal points outward, against the ray.
    assert_eq!(hit.n, Float3::new(-FX, 0, 0));
    assert!(hit.n.dot(hit.p.sub(Float3::zero())) > 0);
}

#[test]
fn sphere_falls_back_to_the_farther_root() {
    let s = Sphere::new(Float3::zero(), FX, gray());
    let hit = s.hit(&x_ray(), 7 * FX / 2, FX_MAX).expect("the second root is inside");
    assert_eq!(hit.t, 5 * FX);
    assert_eq!(hit.n, Float3::new(FX, 0, 0));
}

#[test]
fn sphere_misses_outside_the_interval() {
    let s = Sphere::new(Float3::zero(), FX, gray());
    assert!(s.hit(&x_ray(), FX / 1000, 2 * FX).is_none());
    assert!(s.hit(&x_ray(), 6 * FX, FX_MAX).is_none());
    let astray = Ray::new(Float3::new(-4 * FX, 3 * FX, 0), Float3::xaxis());
    assert!(s.hit(&astray, FX / 1000, FX_MAX).is_none());
}

#[test]
fn list_returns_the_globally_nearest_hit() {
    // Two overlapping spheres along the ray; the nearest hit wins in
    // either insertion order, matching a direct per-shape scan.
    let near = Sphere::new(Float3::new(-2 * FX, 0, 0), FX / 2, gray());
    let far = Sphere::new(Float3::zero(), FX, gray());
    let t_near = near.hit(&x_ray(), FX / 1000, FX_MAX).unwrap().t;
    let t_far = far.hit(&x_ray(), FX / 1000, FX_MAX).unwrap().t;
    assert_eq!(t_near, 3 * FX / 2);
    assert_eq!(t_far, 3 * FX);
    let min = t_near.min(t_far);

    let mut a = ShapeList::new();
    a.push(Shape::Sphere(Sphere::new(Float3::new(-2 * FX, 0, 0), FX / 2, gray())));
    a.push(Shape::Sphere(Sphere::new(Float3::zero(), FX, gray())));
    assert_eq!(a.hit(&x_ray(), FX / 1000, FX_MAX).unwrap().t, min);

    let mut b = ShapeList::new();
    b.push(Shape::Sphere(Sphere::new(Float3::zero(), FX, gray())));
    b.push(Shape::Sphere(Sphere::new(Float3::new(-2 * FX, 0, 0), FX / 2, gray())));
    assert_eq!(b.hit(&x_ray(), FX / 1000, FX_MAX).unwrap().t, min);
}

#[test]
fn empty_list_never_hits() {
    let l = ShapeList::new();
    assert!(l.hit(&x_ray(), FX / 1000, FX_MAX).is_none());
}

#[test]
fn rect_hits_inside_its_bounds() {
    let r = Rect::new(-FX, FX, -FX, FX, -2 * FX, RectAxis::XY, gray());
    let ray = Ray::new(Float3::zero(), Float3::zaxis().neg());
    let hit = r.hit(&ray, FX / 1000, FX_MAX).expect("the ray crosses the plane inside");
    assert_eq!(hit.t, 2 * FX);
    assert_eq!(hit.n, Float3::zaxis());
    assert_eq!(hit.u, FX / 2);
    assert_eq!(hit.v, FX / 2);
    // Outside the bounds, or parallel, there is no hit.
    let off = Ray::new(Float3::new(3 * FX, 0, 0), Float3::zaxis().neg());
    assert!(r.hit(&off, FX / 1000, FX_MAX).is_none());
    let parallel = Ray::new(Float3::zero(), Float3::xaxis());
    assert!(r.hit(&parallel, FX / 1000, FX_MAX).is_none());
}

#[test]
fn flip_face_negates_the_normal() {
    let plain = Rect::new(-FX, FX, -FX, FX, -2 * FX, RectAxis::XY, gray());
    let flipped = Shape::FlipFace {
        inner: Box::new(Shape::Rect(Rect::new(-FX, FX, -FX, FX, -2 * FX, RectAxis::XY, gray()))),
    };
    let ray = Ray::new(Float3::zero(), Float3::zaxis().neg());
    let h1 = plain.hit(&ray, FX / 1000, FX_MAX).unwrap();
    let h2 = flipped.hit(&ray, FX / 1000, FX_MAX).unwrap();
    assert_eq!(h1.t, h2.t);
    assert_eq!(h2.n, h1.n.neg());
}

#[test]
fn translate_shifts_the_hit_point() {
    let at_origin = Sphere::new(Float3::new(0, 0, -2 * FX), FX, gray());
    let moved = Shape::Translate {
        inner: Box::new(Shape::Sphere(Sphere::new(Float3::zero(), FX, gray()))),
        offset: Float3::new(0, 0, -2 * FX),
    };
    let ray = Ray::new(Float3::zero(), Float3::zaxis().neg());
    let h1 = at_origin.hit(&ray, FX / 1000, FX_MAX).unwrap();
    let h2 = moved.hit(&ray, FX / 1000, FX_MAX).unwrap();
    assert_eq!(h1.t, h2.t);
    assert_eq!(h1.p, h2.p);
    assert_eq!(h1.n, h2.n);
}

#[test]
fn rotate_turns_the_shape_into_the_ray() {
    // A sphere sitting on the x axis, rotated a quarter turn about z,
    // moves onto the y axis.
    let turned = Shape::Rotate {
        inner: Box::new(Shape::Sphere(Sphere::new(Float3::new(4 * FX, 0, 0), FX, gray()))),
        rotation: Quat::from_rot_z(FX_PI_2),
    };
    let up = Ray::new(Float3::zero(), Float3::yaxis());
    let hit = turned.hit(&up, FX / 1000, FX_MAX).expect("the rotated sphere sits on the y axis");
    // Analytically t = 3; the fixed-point trigonometry is approximate.
    let tol = FX / 16;
    assert!((hit.t - 3 * FX).abs() < tol);
}

#[test]
fn cuboid_is_six_faces() {
    let shape = cuboid(Float3::new(-FX, -FX, -3 * FX), Float3::new(FX, FX, -2 * FX), gray());
    match &shape {
        Shape::List(l) => assert_eq!(l.objects.len(), 6),
        _ => panic!("a box is an aggregate of its faces"),
    }
    // A ray down the z axis enters through the near (high z) face.
    let ray = Ray::new(Float3::zero(), Float3::zaxis().neg());
    let hit = shape.hit(&ray, FX / 1000, FX_MAX).expect("the box straddles the axis");
    assert_eq!(hit.t, 2 * FX);
    assert_eq!(hit.n, Float3::zaxis());
}

#[test]
fn sphere_poles_map_to_the_uv_extremes() {
    let s = Sphere::new(Float3::new(0, 0, -2 * FX), FX, gray());
    let up = Ray::new(Float3::new(0, 4 * FX, -2 * FX), Float3::yaxis().neg());
    let hit = s.hit(&up, FX / 1000, FX_MAX).unwrap();
    // The hit is at the north pole: v is one, within resolution.
    assert!(hit.v >= FX - 2);
    assert!(0 <= hit.u && hit.u <= FX);
}
