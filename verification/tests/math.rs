//! Vector, quaternion and scalar arithmetic.
use rayt::fx::{fdiv, fmul, fpow, sin_fx, EPS, FX_ONE, FX_PI, FX_PI_2};
use rayt::material::schlick;
use rayt::{Float3, Quat};

const FX: i64 = FX_ONE;

#[test]
fn vector_arithmetic_is_componentwise() {
    let a = Float3::new(FX, 2 * FX, -FX);
    let b = Float3::new(FX / 2, FX, 4 * FX);
    let s = a.add(b);
    assert_eq!([s.x(), s.y(), s.z()], [3 * FX / 2, 3 * FX, 3 * FX]);
    let d = a.sub(b);
    assert_eq!([d.x(), d.y(), d.z()], [FX / 2, FX, -5 * FX]);
    let m = a.mul(b);
    assert_eq!([m.x(), m.y(), m.z()], [FX / 2, 2 * FX, -4 * FX]);
    assert_eq!(a.dot(b), FX / 2 + 2 * FX - 4 * FX);
}

#[test]
fn cross_of_axes_follows_the_right_hand_rule() {
    let c = Float3::xaxis().cross(Float3::yaxis());
    assert_eq!(c, Float3::zaxis());
    let c2 = Float3::yaxis().cross(Float3::xaxis());
    assert_eq!(c2, Float3::zaxis().neg());
}

#[test]
fn length_and_normalize_are_exact_on_squares() {
    let v = Float3::new(3 * FX, 4 * FX, 0);
    assert_eq!(v.length_squered(), 25 * FX);
    assert_eq!(v.length(), 5 * FX);
    let n = v.normalize();
    assert_eq!([n.x(), n.y(), n.z()], [3 * FX / 5, 4 * FX / 5, 0]);
}

#[test]
fn normalize_of_zero_stays_zero() {
    assert_eq!(Float3::zero().normalize(), Float3::zero());
}

#[test]
fn reflect_reverses_the_normal_component() {
    let v = Float3::new(FX, -FX, 0);
    let n = Float3::yaxis();
    let r = v.reflect(n);
    assert_eq!([r.x(), r.y(), r.z()], [FX, FX, 0]);
    // dot(reflect(v, n), n) == -dot(v, n).
    assert_eq!(r.dot(n), -v.dot(n));
}

#[test]
fn refract_returns_none_exactly_on_total_internal_reflection() {
    let incident = Float3::xaxis();
    let n = Float3::yaxis();
    // Discriminant 1 - 4 * (1 - 0) < 0: no refraction.
    assert!(incident.refract(n, 2 * FX).is_none());
    // Head-on: discriminant is 1, the ray passes straight through.
    let head_on = Float3::yaxis();
    let r = head_on.refract(n, 2 * FX).expect("refraction is possible head-on");
    assert_eq!([r.x(), r.y(), r.z()], [0, -FX, 0]);
}

#[test]
fn lerp_hits_both_ends() {
    let a = Float3::zero();
    let b = Float3::new(FX, 2 * FX, 3 * FX);
    assert_eq!(a.lerp(b, 0), a);
    assert_eq!(a.lerp(b, FX), b);
    let mid = a.lerp(b, FX / 2);
    assert_eq!([mid.x(), mid.y(), mid.z()], [FX / 2, FX, 3 * FX / 2]);
}

#[test]
fn near_zero_uses_the_epsilon_threshold() {
    assert!(Float3::fill(EPS - 1).near_zero());
    assert!(!Float3::fill(EPS).near_zero());
}

#[test]
fn saturate_clamps_to_the_unit_cube() {
    let v = Float3::new(-FX, FX / 2, 3 * FX);
    let s = v.saturate();
    assert_eq!([s.x(), s.y(), s.z()], [0, FX / 2, FX]);
}

#[test]
fn sqrt_is_exact_on_perfect_squares() {
    assert_eq!(Float3::new(4 * FX, FX / 4, 0).sqrt(), Float3::new(2 * FX, FX / 2, 0));
}

#[test]
fn hex_parsing_matches_rgb() {
    let c = Float3::from_hex(b"ff8000");
    assert_eq!(c, Float3::from_rgb(255, 128, 0));
    assert_eq!(c.to_rgb(), [255, 128, 0]);
}

#[test]
fn quantization_clamps_and_scales() {
    assert_eq!(Float3::fill(FX).to_rgb(), [255, 255, 255]);
    assert_eq!(Float3::fill(0).to_rgb(), [0, 0, 0]);
    assert_eq!(Float3::fill(2 * FX).to_rgb(), [255, 255, 255]);
    assert_eq!(Float3::fill(-FX).to_rgb(), [0, 0, 0]);
    assert_eq!(Float3::fill(FX / 4).to_rgb(), [63, 63, 63]);
}

#[test]
fn gamma_with_factor_two_is_a_square_root() {
    let g = Float3::fill(FX / 4).gamma(2 * FX);
    assert_eq!(g, Float3::fill(FX / 2));
    let d = Float3::fill(FX / 2).degamma(2 * FX);
    assert_eq!(d, Float3::fill(FX / 4));
}

#[test]
fn random_sampling_stays_in_range() {
    for _ in 0..50 {
        let r = Float3::random();
        assert!(0 <= r.x() && r.x() < FX);
        let l = Float3::random_limit(-2 * FX, 3 * FX);
        assert!(-2 * FX <= l.y() && l.y() <= 3 * FX);
        let s = Float3::random_in_unit_sphere();
        assert!(s.length() < FX);
    }
}

#[test]
fn fixed_point_power_handles_integer_and_fractional_parts() {
    // x^1 == x, x^0 == 1, and x^(1/2) is the square root.
    assert_eq!(fpow(3 * FX, FX), 3 * FX);
    assert_eq!(fpow(3 * FX, 0), FX);
    assert_eq!(fpow(4 * FX, FX / 2), 2 * FX);
}

#[test]
fn sine_signs_follow_the_half_periods() {
    assert!(sin_fx(FX_PI_2) > 0);
    assert!(sin_fx(FX_PI + FX_PI_2) < 0);
    assert_eq!(sin_fx(0), 0);
}

#[test]
fn schlick_returns_r0_head_on_and_grows_with_angle() {
    let ri = 3 * FX / 2;
    assert_eq!(schlick(FX, ri), 171798691);
    // Monotone non-decreasing in 1 - cosine.
    assert!(schlick(9 * FX / 10, ri) <= schlick(FX / 5, ri));
    assert!(schlick(FX / 5, ri) <= schlick(0, ri));
}

#[test]
fn quaternion_rotation_round_trips_within_tolerance() {
    let q = Quat::from_rot_z(FX_PI_2);
    let p = Float3::new(FX, 0, 0);
    let turned = q.rotate(p);
    // A quarter turn about z maps x to y.
    let tol = FX / 64;
    assert!(turned.x().abs() < tol);
    assert!((turned.y() - FX).abs() < tol);
    assert!(turned.z().abs() < tol);
    let back = q.conj().rotate(turned);
    assert!((back.x() - FX).abs() < tol);
    assert!(back.y().abs() < tol);
    assert!(back.z().abs() < tol);
}

#[test]
fn quaternion_conjugate_negates_the_vector_part() {
    let q = Quat::new(FX, 2 * FX, 3 * FX, 4 * FX);
    let c = q.conj();
    assert_eq!(c.to_array(), [-FX, -2 * FX, -3 * FX, 4 * FX]);
    assert_eq!(q.dot(q), q.length_squared());
}

#[test]
fn quaternion_unit_is_the_identity_rotation() {
    let p = Float3::new(FX, -2 * FX, 3 * FX);
    let r = Quat::unit().rotate(p);
    assert_eq!(r, p);
}

#[test]
fn division_by_zero_yields_zero() {
    assert_eq!(fdiv(5 * FX, 0), 0);
    assert_eq!(fmul(FX / 2, 4 * FX), 2 * FX);
}
