//! The parallel per-pixel renderer.
//!
//! Every pixel is independent: `spp` jittered primary rays are traced and
//! averaged, the result is gamma encoded and quantized to 8-bit RGB.  The
//! pixel grid is split across worker threads row by row.
use vstd::prelude::*;

use crate::camera::Camera;
use crate::float3::Float3;
use crate::fx::{clamp_i64, div_trunc, fdiv, fx_of_u32, quot, sat64, FX_ONE};
use crate::ray::Ray;
use crate::rng::random_u64;

use rayon::iter::{IntoParallelIterator, ParallelIterator};

verus! {

/// The reference gamma factor 2.2, in fixed point.
pub const GAMMA_FACTOR: i64 = 9448928051;

/// A scene as the renderer consumes it: a camera, a radiance function, and
/// the rendering parameters, each with a process-wide default.
pub trait Scene: Sync {
    /// The camera that turns screen coordinates into primary rays.
    fn camera(&self) -> Camera;

    /// The radiance along a primary ray, integrated to `depth` bounces.
    fn trace(&self, ray: Ray, depth: u32) -> Float3;

    /// The output width in pixels.
    fn width(&self) -> u32 {
        200
    }

    /// The output height in pixels.
    fn height(&self) -> u32 {
        100
    }

    /// Samples per pixel.
    fn spp(&self) -> u32 {
        16
    }

    /// The maximum recursion depth of the integrator.
    fn depth(&self) -> u32 {
        50
    }

    /// The gamma encoding factor applied to the averaged color.
    fn gamma_factor(&self) -> i64 {
        GAMMA_FACTOR
    }

    /// The width-over-height ratio, in fixed point.
    fn aspect(&self) -> i64 {
        fdiv(fx_of_u32(self.width()), fx_of_u32(self.height()))
    }
}

/// What a jittered normalized screen coordinate is: pixel index `i` plus a
/// subpixel offset `j`, over `extent - 1`; zero for a degenerate extent.
pub open spec fn screen_coord_s(i: int, j: int, extent: int) -> int {
    if extent <= 1 {
        0
    } else {
        sat64(quot(i * FX_ONE as int + j, extent - 1))
    }
}

/// A jittered normalized screen coordinate.
fn screen_coord(i: u32, j: i64, extent: u32) -> (r: i64)
    requires
        0 <= j,
    ensures
        r as int == screen_coord_s(i as int, j as int, extent as int),
{
    if extent <= 1 {
        0
    } else {
        proof {
            assert((i as int) * (FX_ONE as int) <= 0xffff_ffff * 0x1_0000_0000 && (i as int) * (
            FX_ONE as int) >= 0) by (nonlinear_arith)
                requires
                    0 <= i as int <= 0xffff_ffff,
            ;
        }
        let n: i128 = (i as i128) * (FX_ONE as i128) + (j as i128);
        clamp_i64(div_trunc(n, (extent - 1) as i128))
    }
}

/// One pixel: average `spp` jittered samples, gamma encode, quantize.
fn render_pixel<S: Scene>(
    scene: &S,
    cam: &Camera,
    w: u32,
    h: u32,
    x: u32,
    y: u32,
    spp: u32,
    depth: u32,
    g: i64,
) -> (rgb: [u8; 3])
    requires
        y < h,
{
    let mut acc = Float3::zero();
    let mut s: u32 = 0;
    while s < spp
        invariant
            y < h,
        decreases spp - s,
    {
        let ju = (random_u64() % (FX_ONE as u64)) as i64;
        let jv = (random_u64() % (FX_ONE as u64)) as i64;
        let u = screen_coord(x, ju, w);
        let v = screen_coord(h - y - 1, jv, h);
        let ray = cam.ray(u, v);
        let c = scene.trace(ray, depth);
        acc = acc.add(c);
        s = s + 1;
    }
    let avg = acc.div_s(fx_of_u32(spp));
    avg.gamma(g).to_rgb()
}

/// One row of pixels, left to right, as packed RGB bytes.
fn render_row<S: Scene>(
    scene: &S,
    cam: &Camera,
    w: u32,
    h: u32,
    y: u32,
    spp: u32,
    depth: u32,
    g: i64,
) -> (row: Vec<u8>)
    requires
        y < h,
    ensures
        row@.len() == 3 * w as int,
{
    let mut row: Vec<u8> = Vec::new();
    let mut x: u32 = 0;
    while x < w
        invariant
            x <= w,
            y < h,
            row@.len() == 3 * x as int,
        decreases w - x,
    {
        let rgb = render_pixel(scene, cam, w, h, x, y, spp, depth, g);
        row.push(rgb[0]);
        row.push(rgb[1]);
        row.push(rgb[2]);
        x = x + 1;
    }
    row
}

/// Relies on rayon's parallel iterator: the rows of the pixel grid are
/// rendered across worker threads by the verified `render_row` and
/// collected in order.  The pixel values are random either way; what holds
/// of every outcome is the shape of the result.
#[verifier::external_body]
fn par_rows<S: Scene>(
    scene: &S,
    cam: &Camera,
    w: u32,
    h: u32,
    spp: u32,
    depth: u32,
    g: i64,
) -> (rows: Vec<Vec<u8>>)
    ensures
        rows@.len() == h as int,
        forall|i: int| 0 <= i < h as int ==> (#[trigger] rows@[i])@.len() == 3 * w as int,
{
    (0..h).into_par_iter().map(|y| render_row(scene, cam, w, h, y, spp, depth, g)).collect()
}

/// Render the whole image: width, height, and the packed row-major 8-bit
/// RGB raster, three bytes per pixel.
pub fn render<S: Scene>(scene: &S) -> (r: (u32, u32, Vec<u8>))
    ensures
        r.2@.len() == 3 * (r.0 as int) * (r.1 as int),
{
    let cam = scene.camera();
    let w = scene.width();
    let h = scene.height();
    let spp = scene.spp();
    let depth = scene.depth();
    let g = scene.gamma_factor();
    let rows = par_rows(scene, &cam, w, h, spp, depth, g);
    let mut img: Vec<u8> = Vec::new();
    let mut y: usize = 0;
    while y < rows.len()
        invariant
            rows@.len() == h as int,
            forall|i: int| 0 <= i < h as int ==> (#[trigger] rows@[i])@.len() == 3 * w as int,
            y <= h,
            img@.len() == 3 * (w as int) * (y as int),
        decreases rows@.len() - y,
    {
        let row = &rows[y];
        let n = row.len();
        let mut k: usize = 0;
        while k < n
            invariant
                n == row@.len(),
                k <= n,
                img@.len() == 3 * (w as int) * (y as int) + k as int,
            decreases n - k,
        {
            img.push(row[k]);
            k = k + 1;
        }
        proof {
            assert(3 * (w as int) * ((y + 1) as int) == 3 * (w as int) * (y as int) + 3 * (
            w as int)) by (nonlinear_arith);
        }
        y = y + 1;
    }
    proof {
        assert(3 * (w as int) * (h as int) == 3 * (w as int) * (h as int));
    }
    (w, h, img)
}

} // verus!
