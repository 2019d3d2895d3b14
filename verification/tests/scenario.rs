//! The canonical three-body scenario: three equal masses on the
//! figure-eight orbit, integrated at a fixed time step.  The orbit must
//! stay bounded while total momentum and total energy are conserved within
//! the integration tolerance.

use three_body::orb::Orb;
use three_body::sim::advance_frame;
use three_body::vec3_64::Vec3_64;

const SCALE: f64 = 1_000_000.0;
const POS_1: i64 = 243_088; // 0.24308753
const POS_2: i64 = 970_004; // 0.97000436
const VEL_1: i64 = 432_366; // 0.43236573
const VEL_2: i64 = 466_204; // 0.466203685

fn figure_eight() -> Vec<Orb> {
    let mass: i64 = 1_000_000;
    let g: i64 = 1_000_000;
    vec![
        Orb::new(
            Vec3_64::new(0, -POS_1, POS_2),
            Vec3_64::new(0, VEL_1, VEL_2),
            150_000,
            mass,
            g,
        ),
        Orb::new(
            Vec3_64::new(0, POS_1, -POS_2),
            Vec3_64::new(0, VEL_1, VEL_2),
            150_000,
            mass,
            g,
        ),
        Orb::new(
            Vec3_64::new(0, 0, 0),
            Vec3_64::new(0, -2 * VEL_1, -2 * VEL_2),
            150_000,
            mass,
            g,
        ),
    ]
}

fn total_energy(orbs: &[Orb]) -> f64 {
    let mut kinetic = 0.0;
    for o in orbs {
        let vx = o.velocity.x as f64 / SCALE;
        let vy = o.velocity.y as f64 / SCALE;
        let vz = o.velocity.z as f64 / SCALE;
        kinetic += 0.5 * (o.mass as f64 / SCALE) * (vx * vx + vy * vy + vz * vz);
    }
    let mut potential = 0.0;
    for i in 0..orbs.len() {
        for j in (i + 1)..orbs.len() {
            let dx = (orbs[i].pos.x - orbs[j].pos.x) as f64 / SCALE;
            let dy = (orbs[i].pos.y - orbs[j].pos.y) as f64 / SCALE;
            let dz = (orbs[i].pos.z - orbs[j].pos.z) as f64 / SCALE;
            let dist = (dx * dx + dy * dy + dz * dz).sqrt();
            potential -= (orbs[i].gravity as f64 / SCALE) * (orbs[i].mass as f64 / SCALE)
                * (orbs[j].mass as f64 / SCALE)
                / dist;
        }
    }
    kinetic + potential
}

#[test]
fn figure_eight_stays_bounded() {
    let mut orbs = figure_eight();
    // Two periods of the orbit at dt = 0.015.
    for _ in 0..843 {
        advance_frame(&mut orbs, 15_000);
        for o in &orbs {
            assert!(o.pos.x.abs() <= 1_500_000, "orbit escaped its bounds");
            assert!(o.pos.y.abs() <= 1_500_000, "orbit escaped its bounds");
            assert!(o.pos.z.abs() <= 1_500_000, "orbit escaped its bounds");
        }
    }
}

#[test]
fn figure_eight_conserves_momentum() {
    let mut orbs = figure_eight();
    // The initial total momentum is exactly zero (equal masses, the third
    // velocity the exact opposite of the other two combined).
    for k in 0..3 {
        let p: i64 = orbs.iter().map(|o| [o.velocity.x, o.velocity.y, o.velocity.z][k]).sum();
        assert_eq!(p, 0);
    }
    for _ in 0..843 {
        advance_frame(&mut orbs, 15_000);
    }
    // After two periods the total momentum has drifted only by the
    // per-step rounding: well under a thousand fixed-point units
    // (a thousandth of the orbital speeds).
    for k in 0..3 {
        let p: i64 = orbs.iter().map(|o| [o.velocity.x, o.velocity.y, o.velocity.z][k]).sum();
        assert!(p.abs() < 1000, "momentum drifted: {}", p);
    }
}

#[test]
fn figure_eight_conserves_energy() {
    let mut orbs = figure_eight();
    let initial = total_energy(&orbs);
    for _ in 0..843 {
        advance_frame(&mut orbs, 15_000);
    }
    let after = total_energy(&orbs);
    let drift = ((after - initial) / initial).abs();
    assert!(drift < 0.005, "energy drifted by {}", drift);
}
