//! Componentwise vector arithmetic, norms and normalization.

use three_body::fixed::{isqrt, muldiv, SCALE};
use three_body::vec3_64::Vec3_64;

#[test]
fn new_stores_components() {
    let v = Vec3_64::new(1, -2, 3);
    assert_eq!(v.x, 1);
    assert_eq!(v.y, -2);
    assert_eq!(v.z, 3);
}

#[test]
fn zero_is_all_zero() {
    let z = Vec3_64::zero();
    assert_eq!((z.x, z.y, z.z), (0, 0, 0));
}

#[test]
fn add_is_componentwise() {
    let v = Vec3_64::new(1_000_000, -2_000_000, 3).add(Vec3_64::new(5, 7, -4));
    assert_eq!((v.x, v.y, v.z), (1_000_005, -1_999_993, -1));
}

#[test]
fn sub_is_componentwise() {
    let v = Vec3_64::new(10, 20, 30).sub(Vec3_64::new(1, 2, 3));
    assert_eq!((v.x, v.y, v.z), (9, 18, 27));
}

#[test]
fn add_assign_accumulates() {
    let mut v = Vec3_64::new(1, 2, 3);
    v.add_assign(Vec3_64::new(10, 20, 30));
    assert_eq!((v.x, v.y, v.z), (11, 22, 33));
}

#[test]
fn mul_scales_and_truncates_toward_zero() {
    // 0.015 of each component, in fixed-point units.
    let v = Vec3_64::new(1000, -2000, 500).mul(15_000);
    assert_eq!((v.x, v.y, v.z), (15, -30, 7));
    // -37.5 truncates toward zero, not toward minus infinity.
    let w = Vec3_64::new(-2500, 2500, 0).mul(15_000);
    assert_eq!((w.x, w.y, w.z), (-37, 37, 0));
}

#[test]
fn div_divides_and_truncates_toward_zero() {
    let v = Vec3_64::new(1_000_000, -1_000_000, 0).div(3_000_000);
    assert_eq!((v.x, v.y, v.z), (333_333, -333_333, 0));
    let w = Vec3_64::new(1_000_000, 0, 0).div(-2_000_000);
    assert_eq!(w.x, -500_000);
}

#[test]
fn magnitude_of_pythagorean_triple() {
    let v = Vec3_64::new(3_000_000, 4_000_000, 0);
    assert_eq!(v.magnitude_squared(), 25_000_000_000_000);
    assert_eq!(v.magnitude(), 5_000_000);
}

#[test]
fn magnitude_rounds_down() {
    let v = Vec3_64::new(1, 1, 1);
    assert_eq!(v.magnitude_squared(), 3);
    assert_eq!(v.magnitude(), 1);
}

#[test]
fn normalize_zero_gives_zero() {
    let v = Vec3_64::zero().normalize_or_zero();
    assert_eq!((v.x, v.y, v.z), (0, 0, 0));
}

#[test]
fn normalize_axis_gives_unit() {
    let v = Vec3_64::new(2_000_000, 0, 0).normalize_or_zero();
    assert_eq!((v.x, v.y, v.z), (1_000_000, 0, 0));
}

#[test]
fn normalize_diagonal() {
    let v = Vec3_64::new(1_000_000, 1_000_000, 1_000_000).normalize_or_zero();
    assert_eq!((v.x, v.y, v.z), (577_350, 577_350, 577_350));
}

#[test]
fn cross_of_axes() {
    let x = Vec3_64::new(1_000_000, 0, 0);
    let y = Vec3_64::new(0, 1_000_000, 0);
    let c = x.cross(y);
    assert_eq!((c.x, c.y, c.z), (0, 0, 1_000_000));
    let d = y.cross(x);
    assert_eq!((d.x, d.y, d.z), (0, 0, -1_000_000));
}

#[test]
fn cross_of_parallel_is_zero() {
    let a = Vec3_64::new(2_000_000, 0, 0);
    let b = Vec3_64::new(5_000_000, 0, 0);
    let c = a.cross(b);
    assert_eq!((c.x, c.y, c.z), (0, 0, 0));
}

#[test]
fn dot_product_exact() {
    let a = Vec3_64::new(1_000_000, 2_000_000, 3_000_000);
    let b = Vec3_64::new(4_000_000, 5_000_000, 6_000_000);
    assert_eq!(a.dot(b), 32_000_000);
}

#[test]
fn isqrt_edges() {
    assert_eq!(isqrt(0), 0);
    assert_eq!(isqrt(1), 1);
    assert_eq!(isqrt(3), 1);
    assert_eq!(isqrt(4), 2);
    assert_eq!(isqrt(999_999_999_999), 999_999);
    assert_eq!(isqrt(u64::MAX), 4_294_967_295);
}

#[test]
fn muldiv_truncates() {
    assert_eq!(muldiv(7, 3, 2), 10);
    assert_eq!(muldiv(-7, 3, 2), -10);
    assert_eq!(muldiv(1, SCALE, 1), SCALE);
}
