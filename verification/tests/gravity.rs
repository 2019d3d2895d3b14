//! The gravity integrator: pairwise forces, the singularity guard,
//! Newton's third law, free motion and order independence.

use three_body::orb::Orb;
use three_body::sim::{advance_frame, frame_is_safe};
use three_body::vec3_64::Vec3_64;

const MASS: i64 = 1_000_000; // 1.0
const G: i64 = 1_000_000; // 1.0

fn orb_at(pos: (i64, i64, i64), vel: (i64, i64, i64)) -> Orb {
    Orb::new(
        Vec3_64::new(pos.0, pos.1, pos.2),
        Vec3_64::new(vel.0, vel.1, vel.2),
        150_000,
        MASS,
        G,
    )
}

#[test]
fn orb_new_stores_fields() {
    let o = orb_at((1, 2, 3), (4, 5, 6));
    assert_eq!((o.pos.x, o.pos.y, o.pos.z), (1, 2, 3));
    assert_eq!((o.velocity.x, o.velocity.y, o.velocity.z), (4, 5, 6));
    assert_eq!(o.radius, 150_000);
    assert_eq!(o.mass, MASS);
    assert_eq!(o.gravity, G);
}

#[test]
fn info_snapshots_position_velocity_mass() {
    let o = orb_at((7, 8, 9), (-1, -2, -3));
    let i = o.info();
    assert_eq!((i.pos.x, i.pos.y, i.pos.z), (7, 8, 9));
    assert_eq!((i.velocity.x, i.velocity.y, i.velocity.z), (-1, -2, -3));
    assert_eq!(i.mass, MASS);
}

#[test]
fn free_motion_advances_position_only() {
    // A single body with no companions: velocity unchanged, position
    // advances by exactly velocity * dt.
    let mut o = orb_at((1_000_000, 2_000_000, 3_000_000), (1000, -2000, 500));
    o.animate(&Vec::new(), 15_000);
    assert_eq!((o.velocity.x, o.velocity.y, o.velocity.z), (1000, -2000, 500));
    assert_eq!((o.pos.x, o.pos.y, o.pos.z), (1_000_015, 1_999_970, 3_000_007));
}

#[test]
fn stationary_single_orb_stays_put() {
    let mut o = orb_at((0, 0, 0), (0, 0, 0));
    o.animate(&Vec::new(), 15_000);
    assert_eq!((o.pos.x, o.pos.y, o.pos.z), (0, 0, 0));
    assert_eq!((o.velocity.x, o.velocity.y, o.velocity.z), (0, 0, 0));
}

#[test]
fn coincident_orbs_exert_no_force() {
    // The singularity guard: identical coordinates give the zero force.
    let a = orb_at((5_000, -5_000, 42), (0, 0, 0));
    let b = orb_at((5_000, -5_000, 42), (0, 0, 0));
    let f = a.gravitational_force(&b.info());
    assert_eq!((f.x, f.y, f.z), (0, 0, 0));
}

#[test]
fn nearly_coincident_orbs_exert_no_force() {
    // Separation below the collision threshold: still guarded.
    let a = orb_at((0, 0, 0), (0, 0, 0));
    let b = orb_at((9_000, 0, 0), (0, 0, 0)); // distance^2 = 8.1e7 < 1e8
    let f = a.gravitational_force(&b.info());
    assert_eq!((f.x, f.y, f.z), (0, 0, 0));
}

#[test]
fn force_at_unit_distance() {
    // Unit masses and G at unit distance: force magnitude exactly one.
    let a = orb_at((0, 0, 0), (0, 0, 0));
    let b = orb_at((1_000_000, 0, 0), (0, 0, 0));
    let f = a.gravitational_force(&b.info());
    assert_eq!((f.x, f.y, f.z), (1_000_000, 0, 0));
}

#[test]
fn force_follows_inverse_square() {
    // Doubling the distance quarters the force.
    let a = orb_at((0, 0, 0), (0, 0, 0));
    let b = orb_at((2_000_000, 0, 0), (0, 0, 0));
    let f = a.gravitational_force(&b.info());
    assert_eq!((f.x, f.y, f.z), (250_000, 0, 0));
}

#[test]
fn force_symmetry() {
    // Newton's third law, on an arbitrary separation.
    let a = orb_at((0, 0, 0), (0, 0, 0));
    let b = orb_at((123_456, 654_321, -987_654), (0, 0, 0));
    let fa = a.gravitational_force(&b.info());
    let fb = b.gravitational_force(&a.info());
    assert_eq!((fa.x, fa.y, fa.z), (-fb.x, -fb.y, -fb.z));
}

#[test]
fn opposite_companions_cancel() {
    // Two equal companions on opposite sides: the net force vanishes and
    // the body moves by inertia alone.
    let mut o = orb_at((0, 0, 0), (100, 0, 0));
    let left = orb_at((-2_000_000, 0, 0), (0, 0, 0));
    let right = orb_at((2_000_000, 0, 0), (0, 0, 0));
    let others = vec![left.info(), right.info()];
    o.animate(&others, 15_000);
    assert_eq!((o.velocity.x, o.velocity.y, o.velocity.z), (100, 0, 0));
    assert_eq!((o.pos.x, o.pos.y, o.pos.z), (1, 0, 0));
}

#[test]
fn attraction_pulls_inward() {
    // One companion to the right: velocity gains a positive x component.
    let mut o = orb_at((0, 0, 0), (0, 0, 0));
    let other = orb_at((1_000_000, 0, 0), (0, 0, 0));
    o.animate(&vec![other.info()], 15_000);
    // force 1.0, acceleration 1.0, dv = 1.0 * 0.015 = 0.015
    assert_eq!((o.velocity.x, o.velocity.y, o.velocity.z), (15_000, 0, 0));
    // dp = 0.015 * 0.015 = 0.000225
    assert_eq!((o.pos.x, o.pos.y, o.pos.z), (225, 0, 0));
}

#[test]
fn update_order_does_not_matter() {
    // Advancing A then B, or B then A, from the same pre-frame snapshots,
    // gives identical results.
    let a0 = orb_at((0, -243_088, 970_004), (0, 432_366, 466_204));
    let b0 = orb_at((0, 243_088, -970_004), (0, 432_366, 466_204));
    let dt = 15_000;

    let (ia, ib) = (a0.info(), b0.info());
    let mut a1 = a0;
    let mut b1 = b0;
    a1.animate(&vec![ib], dt);
    b1.animate(&vec![ia], dt);

    let mut b2 = b0;
    let mut a2 = a0;
    b2.animate(&vec![ia], dt);
    a2.animate(&vec![ib], dt);

    assert_eq!((a1.pos.x, a1.pos.y, a1.pos.z), (a2.pos.x, a2.pos.y, a2.pos.z));
    assert_eq!(
        (a1.velocity.x, a1.velocity.y, a1.velocity.z),
        (a2.velocity.x, a2.velocity.y, a2.velocity.z)
    );
    assert_eq!((b1.pos.x, b1.pos.y, b1.pos.z), (b2.pos.x, b2.pos.y, b2.pos.z));
    assert_eq!(
        (b1.velocity.x, b1.velocity.y, b1.velocity.z),
        (b2.velocity.x, b2.velocity.y, b2.velocity.z)
    );
}

#[test]
fn advance_frame_matches_per_orb_updates() {
    // The frame driver gives each orb exactly the one-step update computed
    // from the pre-frame snapshots of the others.
    let a0 = orb_at((0, -243_088, 970_004), (0, 432_366, 466_204));
    let b0 = orb_at((0, 243_088, -970_004), (0, -432_366, -466_204));
    let dt = 15_000;

    let mut frame = vec![a0, b0];
    advance_frame(&mut frame, dt);

    let (ia, ib) = (a0.info(), b0.info());
    let mut a1 = a0;
    let mut b1 = b0;
    a1.animate(&vec![ib], dt);
    b1.animate(&vec![ia], dt);

    assert_eq!((frame[0].pos.x, frame[0].pos.y, frame[0].pos.z), (a1.pos.x, a1.pos.y, a1.pos.z));
    assert_eq!((frame[1].pos.x, frame[1].pos.y, frame[1].pos.z), (b1.pos.x, b1.pos.y, b1.pos.z));
    assert_eq!(
        (frame[0].velocity.x, frame[0].velocity.y, frame[0].velocity.z),
        (a1.velocity.x, a1.velocity.y, a1.velocity.z)
    );
    assert_eq!(
        (frame[1].velocity.x, frame[1].velocity.y, frame[1].velocity.z),
        (b1.velocity.x, b1.velocity.y, b1.velocity.z)
    );
}

#[test]
fn frame_safety_accepts_the_canonical_scenario() {
    let orbs = vec![
        orb_at((0, -243_088, 970_004), (0, 432_366, 466_204)),
        orb_at((0, 243_088, -970_004), (0, 432_366, 466_204)),
        orb_at((0, 0, 0), (0, -864_732, -932_408)),
    ];
    assert!(frame_is_safe(&orbs, 15_000));
}

#[test]
fn frame_safety_rejects_bad_inputs() {
    let orbs = vec![orb_at((0, 0, 0), (0, 0, 0))];
    // a negative or over-long time step
    assert!(!frame_is_safe(&orbs, -1));
    assert!(!frame_is_safe(&orbs, 2_000_000));
    // a non-positive mass
    let bad = vec![Orb::new(
        Vec3_64::new(0, 0, 0),
        Vec3_64::new(0, 0, 0),
        150_000,
        0,
        G,
    )];
    assert!(!frame_is_safe(&bad, 15_000));
    // a coordinate outside the envelope
    let far = vec![orb_at((800_000_000, 0, 0), (0, 0, 0))];
    assert!(!frame_is_safe(&far, 15_000));
}
