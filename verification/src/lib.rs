//! A verified fixed-point path-tracing core.
//!
//! Geometry, shading and the radiance integrator work on 64-bit fixed-point
//! numbers (32 fractional bits); every executable function carries a contract
//! that pins its result down in exact integer arithmetic.
pub mod camera;
pub mod float3;
pub mod fx;
pub mod laws;
pub mod material;
pub mod quat;
pub mod ray;
pub mod render;
pub mod rng;
pub mod scene;
pub mod shape;
pub mod texture;

pub use camera::Camera;
pub use float3::{Color, Float3, Point3, Vec3};
pub use material::{HitInfo, Material, ScatterInfo};
pub use quat::Quat;
pub use ray::Ray;
pub use render::{render, Scene};
pub use scene::{Background, ShapeBuilder, SimpleScene, WorldScene};
pub use shape::{cuboid, Rect, RectAxis, Shape, ShapeList, Sphere};
pub use texture::Texture;
