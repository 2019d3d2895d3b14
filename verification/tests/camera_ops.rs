//! The orbit camera: zoom behaviour and rotation about the target.

use three_body::camera::{Camera, Matrix3D};
use three_body::vec3_64::Vec3_64;

fn cam(pos: (i64, i64, i64)) -> Camera {
    Camera::new(
        Vec3_64::new(pos.0, pos.1, pos.2),
        Vec3_64::new(0, 0, 0),
        Vec3_64::new(0, 1_000_000, 0),
    )
}

fn norm_sq(v: Vec3_64) -> i128 {
    (v.x as i128) * (v.x as i128) + (v.y as i128) * (v.y as i128) + (v.z as i128) * (v.z as i128)
}

#[test]
fn camera_new_stores_pose() {
    let c = cam((1, 2, 3));
    assert_eq!((c.position.x, c.position.y, c.position.z), (1, 2, 3));
    assert_eq!((c.target.x, c.target.y, c.target.z), (0, 0, 0));
    assert_eq!((c.up.x, c.up.y, c.up.z), (0, 1_000_000, 0));
}

#[test]
fn zoom_zero_tick_is_a_noop() {
    let mut c = cam((2_000_000, -1_000_000, 500_000));
    c.handle_zoom(0);
    assert_eq!((c.position.x, c.position.y, c.position.z), (2_000_000, -1_000_000, 500_000));
}

#[test]
fn zoom_in_scales_by_ninety_five_percent() {
    let mut c = cam((2_000_000, -1_000_000, 500_000));
    c.handle_zoom(1);
    assert_eq!((c.position.x, c.position.y, c.position.z), (1_900_000, -950_000, 475_000));
}

#[test]
fn zoom_out_scales_by_hundred_five_percent() {
    let mut c = cam((2_000_000, -1_000_000, 500_000));
    c.handle_zoom(-1);
    assert_eq!((c.position.x, c.position.y, c.position.z), (2_100_000, -1_050_000, 525_000));
}

#[test]
fn zoom_in_strictly_decreases_radius() {
    let mut c = cam((123_456, -654_321, 42));
    let before = norm_sq(c.position);
    c.handle_zoom(3);
    assert!(norm_sq(c.position) < before);
}

#[test]
fn zoom_out_strictly_increases_radius() {
    let mut c = cam((123_456, -654_321, 42));
    let before = norm_sq(c.position);
    c.handle_zoom(-2);
    assert!(norm_sq(c.position) > before);
}

#[test]
fn zoom_out_truncation_threshold() {
    // Nineteen fixed-point units truncate back to nineteen; twenty grows.
    let mut c = cam((19, 0, 0));
    c.handle_zoom(-1);
    assert_eq!(c.position.x, 19);
    let mut d = cam((20, 0, 0));
    d.handle_zoom(-1);
    assert_eq!(d.position.x, 21);
}

#[test]
fn zoom_keeps_target_and_up() {
    let mut c = cam((2_000_000, 0, 0));
    c.handle_zoom(1);
    assert_eq!((c.target.x, c.target.y, c.target.z), (0, 0, 0));
    assert_eq!((c.up.x, c.up.y, c.up.z), (0, 1_000_000, 0));
}

#[test]
fn yaw_with_exact_sine_cosine() {
    // sin = 0.6, cos = 0.8 satisfy sin^2 + cos^2 == 1 exactly in fixed
    // point, so a pure yaw moves the camera without changing its radius.
    let mut c = cam((2_000_000, 0, 0));
    c.handle_rotation(600_000, 800_000, 0, 1_000_000);
    assert_eq!((c.position.x, c.position.y, c.position.z), (1_600_000, 0, -1_200_000));
    assert_eq!(norm_sq(c.position), 4_000_000_000_000);
}

#[test]
fn rotation_preserves_radius_within_tolerance() {
    // A combined yaw and pitch with rounded sines and cosines (angles of
    // roughly 0.3 and 0.2 radians): the radius drifts only by the
    // fixed-point rounding, well under one percent.
    let mut c = cam((-4_500_000, 1_000_000, 0));
    let before = norm_sq(c.position);
    c.handle_rotation(295_520, 955_336, 198_669, 980_067);
    let after = norm_sq(c.position);
    assert!(after != before || c.position.x != -4_500_000);
    let drift = (after - before).abs();
    assert!(drift * 100 < before, "radius drifted by more than one percent");
    // and the camera really moved
    assert!(c.position.z > 1_000_000);
}

#[test]
fn rotation_with_zero_angles_is_nearly_identity() {
    let mut c = cam((-4_500_000, 1_000_000, 0));
    c.handle_rotation(0, 1_000_000, 0, 1_000_000);
    assert!((c.position.x - (-4_500_000)).abs() <= 5);
    assert!((c.position.y - 1_000_000).abs() <= 5);
    assert!(c.position.z.abs() <= 5);
}

#[test]
fn rotation_keeps_target_and_up() {
    let mut c = cam((-4_500_000, 1_000_000, 0));
    c.handle_rotation(295_520, 955_336, 198_669, 980_067);
    assert_eq!((c.target.x, c.target.y, c.target.z), (0, 0, 0));
    assert_eq!((c.up.x, c.up.y, c.up.z), (0, 1_000_000, 0));
}

#[test]
fn rotation_at_target_stays_at_target() {
    // Degenerate pose: the camera coincides with the target, so the
    // relative position is zero and rotation has no effect.
    let mut c = cam((0, 0, 0));
    c.handle_rotation(600_000, 800_000, 0, 1_000_000);
    assert_eq!((c.position.x, c.position.y, c.position.z), (0, 0, 0));
}

#[test]
fn rotation_with_up_parallel_to_forward_passes_through() {
    // Gimbal degeneracy: the up direction is parallel to the view
    // direction, the right axis collapses to zero, and the pose passes
    // through unchanged.
    let mut c = cam((0, 3_000_000, 0));
    c.handle_rotation(600_000, 800_000, 0, 1_000_000);
    assert_eq!((c.position.x, c.position.y, c.position.z), (0, 3_000_000, 0));
}

#[test]
fn matrix_transpose_swaps_rows_and_columns() {
    let m = Matrix3D {
        r0: Vec3_64::new(1, 2, 3),
        r1: Vec3_64::new(4, 5, 6),
        r2: Vec3_64::new(7, 8, 9),
    };
    let t = m.transpose();
    assert_eq!((t.r0.x, t.r0.y, t.r0.z), (1, 4, 7));
    assert_eq!((t.r1.x, t.r1.y, t.r1.z), (2, 5, 8));
    assert_eq!((t.r2.x, t.r2.y, t.r2.z), (3, 6, 9));
}

#[test]
fn matrix_identity_multiply() {
    let id = Matrix3D {
        r0: Vec3_64::new(1_000_000, 0, 0),
        r1: Vec3_64::new(0, 1_000_000, 0),
        r2: Vec3_64::new(0, 0, 1_000_000),
    };
    let v = id.multiply_vec3(Vec3_64::new(123, -456, 789));
    assert_eq!((v.x, v.y, v.z), (123, -456, 789));
}

#[test]
fn matrix_rotation_multiply() {
    // Rotation by ninety degrees about x: (0, y, z) -> (0, -z, y).
    let rx = Matrix3D {
        r0: Vec3_64::new(1_000_000, 0, 0),
        r1: Vec3_64::new(0, 0, -1_000_000),
        r2: Vec3_64::new(0, 1_000_000, 0),
    };
    let v = rx.multiply_vec3(Vec3_64::new(5, 100, 200));
    assert_eq!((v.x, v.y, v.z), (5, -200, 100));
}
