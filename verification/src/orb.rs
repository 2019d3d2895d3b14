//! Bodies ("orbs") and the gravity integrator.
//!
//! An [`Orb`] is a point mass with position, velocity, radius and its own
//! gravitational constant.  Each frame, [`Orb::animate`] sums the pairwise
//! Newtonian forces exerted by read-only snapshots ([`OrbInfo`]) of the other
//! bodies, then advances the orb by one semi-implicit Euler step: velocity
//! first, position from the new velocity.
//!
//! Because the forces are computed from snapshots taken before any body
//! moves, a frame's outcome does not depend on the order in which the bodies
//! are advanced (proved in [`crate::sim`]).

use crate::fixed::{
    abs_int, div_trunc, lemma_abs_mul_le, lemma_div_trunc_bound, lemma_div_trunc_neg,
    lemma_sqrt_floor_pos, sqrt_floor, SCALE,
};
use crate::vec3_64::{
    in_bounds, norm_sq, vadd, vdiv_s, vneg, vscale, vsub, vzero, Vec3_64, V3,
};
use vstd::arithmetic::div_mod::{
    lemma_div_is_ordered, lemma_div_multiples_vanish, lemma_div_of0, lemma_div_pos_is_pos,
};
use vstd::prelude::*;

verus! {

/// Below this raw squared separation (in `SCALE * SCALE` units, i.e.
/// `0.0001` square world units) two bodies exert no force on each other:
/// the deliberate collision-singularity guard.
pub const ORB_MIN_DIST_SQ: i64 = 100_000_000;

/// Largest coordinate magnitude of a well-formed orb; keeps every raw
/// squared separation inside `i64`.
pub const MAX_ORB_COORD: i64 = 700_000_000;

/// Largest mass or gravitational constant of a well-formed orb.
pub const MAX_ORB_PARAM: i64 = 1_000_000_000_000;

/// Largest net force magnitude (and so also largest pairwise force
/// magnitude) a frame may produce, as bounded by [`Orb::animate`]'s caller.
pub const MAX_FORCE: i64 = 1_000_000_000_000;

/// Largest acceleration component a frame may produce.
pub const MAX_ACC: i64 = 1_000_000_000;

/// Largest accepted time step: one second.
pub const MAX_DT: i64 = 1_000_000;

/// The mathematical model of an [`Orb`].
pub ghost struct OrbView {
    pub pos: V3,
    pub velocity: V3,
    pub radius: int,
    pub mass: int,
    pub gravity: int,
}

/// The mathematical model of an [`OrbInfo`].
pub ghost struct OrbInfoView {
    pub pos: V3,
    pub velocity: V3,
    pub mass: int,
}

/// A point mass, rendered by the front end as a sphere of `radius`.
#[derive(Debug, Clone, Copy)]
pub struct Orb {
    pub pos: Vec3_64,
    pub velocity: Vec3_64,
    pub radius: i64,
    pub mass: i64,
    pub gravity: i64,
}

/// A read-only snapshot of a body, taken before any body of the frame is
/// mutated, so that force computations are unaffected by update order.
#[derive(Debug, Clone, Copy)]
pub struct OrbInfo {
    pub pos: Vec3_64,
    pub velocity: Vec3_64,
    pub mass: i64,
}

impl View for Orb {
    type V = OrbView;

    open spec fn view(&self) -> OrbView {
        OrbView {
            pos: self.pos@,
            velocity: self.velocity@,
            radius: self.radius as int,
            mass: self.mass as int,
            gravity: self.gravity as int,
        }
    }
}

impl View for OrbInfo {
    type V = OrbInfoView;

    open spec fn view(&self) -> OrbInfoView {
        OrbInfoView { pos: self.pos@, velocity: self.velocity@, mass: self.mass as int }
    }
}

/// The snapshot an orb publishes.
pub open spec fn orb_info_of(o: OrbView) -> OrbInfoView {
    OrbInfoView { pos: o.pos, velocity: o.velocity, mass: o.mass }
}

/// A well-formed orb: bounded coordinates and velocity, positive bounded
/// mass, nonnegative bounded gravitational constant.
pub open spec fn orb_valid(o: OrbView) -> bool {
    &&& in_bounds(o.pos, MAX_ORB_COORD as int)
    &&& in_bounds(o.velocity, MAX_ORB_COORD as int)
    &&& 0 < o.mass <= MAX_ORB_PARAM
    &&& 0 <= o.gravity <= MAX_ORB_PARAM
}

/// A well-formed snapshot.
pub open spec fn info_valid(i: OrbInfoView) -> bool {
    &&& in_bounds(i.pos, MAX_ORB_COORD as int)
    &&& 0 < i.mass <= MAX_ORB_PARAM
}

/// Raw squared separation between an orb and a snapshot.
pub open spec fn pair_dist_sq(o: OrbView, i: OrbInfoView) -> int {
    norm_sq(vsub(i.pos, o.pos))
}

/// Magnitude of the gravitational force between an orb and a snapshot:
/// `G * m1 * m2 / r^2`, or zero under the singularity guard.
pub open spec fn pair_force_mag(o: OrbView, i: OrbInfoView) -> int {
    if pair_dist_sq(o, i) < ORB_MIN_DIST_SQ {
        0
    } else {
        (o.gravity * o.mass * i.mass) / pair_dist_sq(o, i)
    }
}

/// The gravitational force the snapshot `i` exerts on the orb `o`: the
/// displacement toward `i`, normalized, scaled by the force magnitude; the
/// zero vector under the singularity guard.
pub open spec fn grav_force(o: OrbView, i: OrbInfoView) -> V3 {
    let d = vsub(i.pos, o.pos);
    if norm_sq(d) < ORB_MIN_DIST_SQ {
        vzero()
    } else {
        vscale(vdiv_s(d, sqrt_floor(norm_sq(d))), pair_force_mag(o, i))
    }
}

/// Sum of the pairwise forces from a sequence of snapshots.
pub open spec fn net_force(o: OrbView, infos: Seq<OrbInfoView>) -> V3
    decreases infos.len(),
{
    if infos.len() == 0 {
        vzero()
    } else {
        vadd(net_force(o, infos.drop_last()), grav_force(o, infos.last()))
    }
}

/// Sum of the pairwise force magnitudes, the quantity a caller bounds to
/// rule out overflow.
pub open spec fn sum_force_mags(o: OrbView, infos: Seq<OrbInfoView>) -> int
    decreases infos.len(),
{
    if infos.len() == 0 {
        0
    } else {
        sum_force_mags(o, infos.drop_last()) + pair_force_mag(o, infos.last())
    }
}

/// One semi-implicit Euler step of a single orb: acceleration from the net
/// force, velocity from the acceleration, position from the new velocity.
pub open spec fn step_orb(o: OrbView, infos: Seq<OrbInfoView>, dt: int) -> OrbView {
    let nf = net_force(o, infos);
    let acc = vdiv_s(nf, o.mass);
    let vel = vadd(o.velocity, vscale(acc, dt));
    OrbView {
        pos: vadd(o.pos, vscale(vel, dt)),
        velocity: vel,
        radius: o.radius,
        mass: o.mass,
        gravity: o.gravity,
    }
}

/// The views of a sequence of snapshots.
pub open spec fn infos_view(s: Seq<OrbInfo>) -> Seq<OrbInfoView> {
    s.map_values(|oi: OrbInfo| oi@)
}

impl Orb {
    pub fn new(pos: Vec3_64, velocity: Vec3_64, radius: i64, mass: i64, gravity: i64) -> (r: Self)
        ensures
            r@.pos == pos@,
            r@.velocity == velocity@,
            r@.radius == radius as int,
            r@.mass == mass as int,
            r@.gravity == gravity as int,
    {
        Self { pos, velocity, radius, mass, gravity }
    }

    /// The read-only snapshot of this orb for the current frame.
    pub fn info(&self) -> (r: OrbInfo)
        ensures
            r@ == orb_info_of(self@),
    {
        OrbInfo { pos: self.pos, velocity: self.velocity, mass: self.mass }
    }

    /// The magnitude of the gravitational force between this orb and a
    /// snapshot, in wide arithmetic: exact for every valid pair, with no
    /// bound demanded of the result.
    pub fn force_magnitude(&self, orb: &OrbInfo) -> (r: u128)
        requires
            orb_valid(self@),
            info_valid(orb@),
        ensures
            r == pair_force_mag(self@, orb@),
    {
        let dist = orb.pos.sub(self.pos);
        let dist_sq = dist.magnitude_squared();

        // Avoid direct overlap.
        if dist_sq < ORB_MIN_DIST_SQ {
            return 0;
        }
        proof {
            assert(self@.gravity * self@.mass <= (MAX_ORB_PARAM as int) * (MAX_ORB_PARAM as int))
                by (nonlinear_arith)
                requires
                    0 <= self@.gravity <= MAX_ORB_PARAM,
                    0 < self@.mass <= MAX_ORB_PARAM,
            ;
        }
        let gm: u128 = (self.gravity as u128) * (self.mass as u128);
        proof {
            assert(gm * orb@.mass <= (MAX_ORB_PARAM as int) * (MAX_ORB_PARAM as int) * (
            MAX_ORB_PARAM as int)) by (nonlinear_arith)
                requires
                    0 <= gm <= (MAX_ORB_PARAM as int) * (MAX_ORB_PARAM as int),
                    0 < orb@.mass <= MAX_ORB_PARAM,
            ;
        }
        let num: u128 = gm * (orb.mass as u128);
        let force_mag_w: u128 = num / (dist_sq as u128);
        proof {
            assert(num == self@.gravity * self@.mass * orb@.mass);
            lemma_div_pos_is_pos(num as int, dist_sq as int);
        }
        force_mag_w
    }

    /// The gravitational force that the snapshot `orb` exerts on `self`:
    /// `F = G * (m1 * m2) / r^2` along the displacement, or zero when the
    /// two bodies (nearly) coincide.
    pub fn gravitational_force(&self, orb: &OrbInfo) -> (r: Vec3_64)
        requires
            orb_valid(self@),
            info_valid(orb@),
            pair_force_mag(self@, orb@) <= MAX_FORCE,
        ensures
            r@ == grav_force(self@, orb@),
            in_bounds(r@, pair_force_mag(self@, orb@)),
    {
        let force_mag_w: u128 = self.force_magnitude(orb);
        let dist = orb.pos.sub(self.pos);
        let dist_sq = dist.magnitude_squared();

        // Avoid direct overlap.
        if dist_sq < ORB_MIN_DIST_SQ {
            proof {
                lemma_pair_force_mag_nonneg(self@, orb@);
            }
            return Vec3_64::zero();
        }
        let force_mag: i64 = force_mag_w as i64;

        // Normalize the displacement and scale it by the force magnitude.
        let mag = dist.magnitude();
        proof {
            lemma_sqrt_floor_pos(norm_sq(dist@));
            crate::vec3_64::lemma_norm_sq_fits(dist@, crate::vec3_64::MAX_VEC_COORD as int);
            crate::vec3_64::lemma_normalized_in_bounds(dist@);
            assert(abs_int(dist@.x) * SCALE <= i64::MAX) by (nonlinear_arith)
                requires
                    abs_int(dist@.x) <= crate::vec3_64::MAX_VEC_COORD,
            ;
            assert(abs_int(dist@.y) * SCALE <= i64::MAX) by (nonlinear_arith)
                requires
                    abs_int(dist@.y) <= crate::vec3_64::MAX_VEC_COORD,
            ;
            assert(abs_int(dist@.z) * SCALE <= i64::MAX) by (nonlinear_arith)
                requires
                    abs_int(dist@.z) <= crate::vec3_64::MAX_VEC_COORD,
            ;
        }
        let unit = dist.div(mag);
        proof {
            lemma_abs_mul_le(unit@.x, force_mag as int, SCALE as int, MAX_FORCE as int);
            lemma_abs_mul_le(unit@.y, force_mag as int, SCALE as int, MAX_FORCE as int);
            lemma_abs_mul_le(unit@.z, force_mag as int, SCALE as int, MAX_FORCE as int);
        }
        let r = unit.mul(force_mag);
        proof {
            lemma_scale_cap(unit@.x, force_mag as int);
            lemma_scale_cap(unit@.y, force_mag as int);
            lemma_scale_cap(unit@.z, force_mag as int);
        }
        r
    }

    /// Advance this orb by one time step: sum the forces from the
    /// snapshots, divide by the mass, update the velocity, then update the
    /// position from the new velocity.  The exact result is
    /// [`step_orb`] of the pre-frame state.
    pub fn animate(&mut self, others: &Vec<OrbInfo>, delta_time: i64)
        requires
            orb_valid(old(self)@),
            forall|j: int|
                0 <= j < others@.len() ==> info_valid(#[trigger] infos_view(others@)[j]),
            0 <= delta_time <= MAX_DT,
            sum_force_mags(old(self)@, infos_view(others@)) <= MAX_FORCE,
            sum_force_mags(old(self)@, infos_view(others@)) * SCALE <= old(self)@.mass * (
            MAX_ACC as int),
        ensures
            final(self)@ == step_orb(old(self)@, infos_view(others@), delta_time as int),
    {
        let ghost infos = infos_view(others@);
        let ghost me = self@;
        proof {
            lemma_sum_mags_nonneg(me, infos, 0);
        }
        let mut net = Vec3_64::zero();
        let mut idx: usize = 0;
        while idx < others.len()
            invariant
                0 <= idx <= others@.len(),
                infos == infos_view(others@),
                me == self@,
                orb_valid(me),
                forall|j: int| 0 <= j < others@.len() ==> info_valid(#[trigger] infos[j]),
                sum_force_mags(me, infos) <= MAX_FORCE,
                net@ == net_force(me, infos.take(idx as int)),
                in_bounds(net@, sum_force_mags(me, infos.take(idx as int))),
            decreases others@.len() - idx,
        {
            proof {
                lemma_sum_take_step(me, infos, idx as int);
                lemma_sum_mags_nonneg(me, infos, idx as int + 1);
                lemma_sum_take_le(me, infos, idx as int + 1);
                lemma_sum_mags_nonneg(me, infos, idx as int);
                lemma_pair_force_mag_nonneg(me, infos[idx as int]);
                assert(infos[idx as int] == others@[idx as int]@);
            }
            let f = self.gravitational_force(&others[idx]);
            proof {
                assert(infos.take(idx as int + 1).drop_last() =~= infos.take(idx as int));
                assert(infos.take(idx as int + 1).last() == infos[idx as int]);
            }
            net = net.add(f);
            idx = idx + 1;
        }
        proof {
            assert(infos.take(infos.len() as int) =~= infos);
        }

        // Acceleration: a = F / m.
        proof {
            lemma_net_force_scale_fits(net@, me, infos);
        }
        let acceleration = net.div(self.mass);
        proof {
            lemma_acc_cap(net@.x, me.mass, sum_force_mags(me, infos));
            lemma_acc_cap(net@.y, me.mass, sum_force_mags(me, infos));
            lemma_acc_cap(net@.z, me.mass, sum_force_mags(me, infos));
            lemma_abs_mul_le(acceleration@.x, delta_time as int, MAX_ACC as int, MAX_DT as int);
            lemma_abs_mul_le(acceleration@.y, delta_time as int, MAX_ACC as int, MAX_DT as int);
            lemma_abs_mul_le(acceleration@.z, delta_time as int, MAX_ACC as int, MAX_DT as int);
        }

        // Update velocity first (semi-implicit Euler): v = v0 + a * t.
        let dv = acceleration.mul(delta_time);
        proof {
            lemma_scale_cap_dt(acceleration@.x, delta_time as int);
            lemma_scale_cap_dt(acceleration@.y, delta_time as int);
            lemma_scale_cap_dt(acceleration@.z, delta_time as int);
        }
        self.velocity.add_assign(dv);

        // Then position from the new velocity: p = p0 + v * t.
        proof {
            lemma_abs_mul_le(
                self@.velocity.x,
                delta_time as int,
                MAX_ORB_COORD + MAX_ACC as int,
                MAX_DT as int,
            );
            lemma_abs_mul_le(
                self@.velocity.y,
                delta_time as int,
                MAX_ORB_COORD + MAX_ACC as int,
                MAX_DT as int,
            );
            lemma_abs_mul_le(
                self@.velocity.z,
                delta_time as int,
                MAX_ORB_COORD + MAX_ACC as int,
                MAX_DT as int,
            );
        }
        let dp = self.velocity.mul(delta_time);
        proof {
            lemma_move_cap(self@.velocity.x, delta_time as int);
            lemma_move_cap(self@.velocity.y, delta_time as int);
            lemma_move_cap(self@.velocity.z, delta_time as int);
        }
        self.pos.add_assign(dp);
    }
}

/// The force magnitude is never negative.
pub proof fn lemma_pair_force_mag_nonneg(o: OrbView, i: OrbInfoView)
    requires
        o.gravity >= 0,
        o.mass >= 0,
        i.mass >= 0,
    ensures
        pair_force_mag(o, i) >= 0,
{
    if pair_dist_sq(o, i) >= ORB_MIN_DIST_SQ {
        assert(o.gravity * o.mass * i.mass >= 0) by (nonlinear_arith)
            requires
                o.gravity >= 0,
                o.mass >= 0,
                i.mass >= 0,
        ;
        lemma_div_pos_is_pos(o.gravity * o.mass * i.mass, pair_dist_sq(o, i));
    }
}

/// The force magnitude between a valid pair never exceeds the product of
/// the parameter bounds.
pub(crate) proof fn lemma_pair_force_mag_bound(o: OrbView, i: OrbInfoView)
    requires
        0 <= o.gravity <= MAX_ORB_PARAM,
        0 < o.mass <= MAX_ORB_PARAM,
        0 < i.mass <= MAX_ORB_PARAM,
    ensures
        pair_force_mag(o, i) <= (MAX_ORB_PARAM as int) * (MAX_ORB_PARAM as int) * (MAX_ORB_PARAM
            as int),
{
    if pair_dist_sq(o, i) >= ORB_MIN_DIST_SQ {
        assert(0 <= o.gravity * o.mass * i.mass <= (MAX_ORB_PARAM as int) * (MAX_ORB_PARAM as int)
            * (MAX_ORB_PARAM as int)) by (nonlinear_arith)
            requires
                0 <= o.gravity <= MAX_ORB_PARAM,
                0 < o.mass <= MAX_ORB_PARAM,
                0 < i.mass <= MAX_ORB_PARAM,
        ;
        vstd::arithmetic::div_mod::lemma_div_nonincreasing(
            o.gravity * o.mass * i.mass,
            pair_dist_sq(o, i),
        );
    }
}

/// A partial sum of force magnitudes is nonnegative.
pub(crate) proof fn lemma_sum_mags_nonneg(o: OrbView, infos: Seq<OrbInfoView>, n: int)
    requires
        o.gravity >= 0,
        o.mass >= 0,
        forall|j: int| 0 <= j < infos.len() ==> #[trigger] infos[j].mass > 0,
        0 <= n <= infos.len(),
    ensures
        sum_force_mags(o, infos.take(n)) >= 0,
    decreases n,
{
    if n > 0 {
        lemma_sum_mags_nonneg(o, infos, n - 1);
        lemma_sum_take_step(o, infos, n - 1);
        lemma_pair_force_mag_nonneg(o, infos[n - 1]);
    }
}

/// Extending a prefix by one snapshot adds that snapshot's force magnitude.
pub(crate) proof fn lemma_sum_take_step(o: OrbView, infos: Seq<OrbInfoView>, i: int)
    requires
        0 <= i < infos.len(),
    ensures
        sum_force_mags(o, infos.take(i + 1)) == sum_force_mags(o, infos.take(i))
            + pair_force_mag(o, infos[i]),
{
    assert(infos.take(i + 1).drop_last() =~= infos.take(i));
    assert(infos.take(i + 1).last() == infos[i]);
}

/// A prefix sum never exceeds the full sum.
pub(crate) proof fn lemma_sum_take_le(o: OrbView, infos: Seq<OrbInfoView>, n: int)
    requires
        o.gravity >= 0,
        o.mass >= 0,
        forall|j: int| 0 <= j < infos.len() ==> #[trigger] infos[j].mass > 0,
        0 <= n <= infos.len(),
    ensures
        sum_force_mags(o, infos.take(n)) <= sum_force_mags(o, infos),
    decreases infos.len() - n,
{
    if n == infos.len() {
        assert(infos.take(n) =~= infos);
    } else {
        lemma_sum_take_step(o, infos, n);
        lemma_pair_force_mag_nonneg(o, infos[n]);
        lemma_sum_take_le(o, infos, n + 1);
    }
}

/// A component scaled by a bounded factor stays within the factor: with
/// `|u| <= SCALE`, `|u * f / SCALE| <= f`.
proof fn lemma_scale_cap(u: int, f: int)
    requires
        abs_int(u) <= SCALE as int,
        f >= 0,
    ensures
        abs_int(div_trunc(u * f, SCALE as int)) <= f,
{
    lemma_div_trunc_bound(u * f, SCALE as int);
    assert(abs_int(u * f) <= SCALE as int * f) by (nonlinear_arith)
        requires
            abs_int(u) <= SCALE as int,
            f >= 0,
    ;
    lemma_div_is_ordered(abs_int(u * f), SCALE as int * f, SCALE as int);
    lemma_div_multiples_vanish(f, SCALE as int);
}

/// An acceleration component scaled by a bounded time step stays within
/// [`MAX_ACC`].
proof fn lemma_scale_cap_dt(a: int, dt: int)
    requires
        abs_int(a) <= MAX_ACC as int,
        0 <= dt <= MAX_DT as int,
    ensures
        abs_int(div_trunc(a * dt, SCALE as int)) <= MAX_ACC as int,
{
    lemma_div_trunc_bound(a * dt, SCALE as int);
    assert(abs_int(a * dt) <= SCALE as int * (MAX_ACC as int)) by (nonlinear_arith)
        requires
            abs_int(a) <= MAX_ACC as int,
            0 <= dt <= MAX_DT as int,
    ;
    lemma_div_is_ordered(abs_int(a * dt), SCALE as int * (MAX_ACC as int), SCALE as int);
    lemma_div_multiples_vanish(MAX_ACC as int, SCALE as int);
}

/// A velocity component scaled by a bounded time step moves the position by
/// a bounded amount.
proof fn lemma_move_cap(v: int, dt: int)
    requires
        abs_int(v) <= MAX_ORB_COORD + MAX_ACC as int,
        0 <= dt <= MAX_DT as int,
    ensures
        abs_int(div_trunc(v * dt, SCALE as int)) <= MAX_ORB_COORD + MAX_ACC as int,
{
    lemma_div_trunc_bound(v * dt, SCALE as int);
    assert(abs_int(v * dt) <= SCALE as int * (MAX_ORB_COORD + MAX_ACC as int))
        by (nonlinear_arith)
        requires
            abs_int(v) <= MAX_ORB_COORD + MAX_ACC as int,
            0 <= dt <= MAX_DT as int,
    ;
    lemma_div_is_ordered(
        abs_int(v * dt),
        SCALE as int * (MAX_ORB_COORD + MAX_ACC as int),
        SCALE as int,
    );
    lemma_div_multiples_vanish(MAX_ORB_COORD + MAX_ACC as int, SCALE as int);
}

/// The net force components, bounded by the sum of magnitudes, survive the
/// rescaling of the division by the mass.
proof fn lemma_net_force_scale_fits(nf: V3, o: OrbView, infos: Seq<OrbInfoView>)
    requires
        in_bounds(nf, sum_force_mags(o, infos)),
        0 <= sum_force_mags(o, infos) <= MAX_FORCE,
    ensures
        abs_int(nf.x) * SCALE <= i64::MAX,
        abs_int(nf.y) * SCALE <= i64::MAX,
        abs_int(nf.z) * SCALE <= i64::MAX,
{
    assert(abs_int(nf.x) * SCALE <= i64::MAX && abs_int(nf.y) * SCALE <= i64::MAX && abs_int(nf.z)
        * SCALE <= i64::MAX) by (nonlinear_arith)
        requires
            abs_int(nf.x) <= MAX_FORCE,
            abs_int(nf.y) <= MAX_FORCE,
            abs_int(nf.z) <= MAX_FORCE,
    ;
}

/// The acceleration components stay within [`MAX_ACC`] whenever the caller
/// bounded `sum * SCALE <= mass * MAX_ACC`.
proof fn lemma_acc_cap(p: int, m: int, total: int)
    requires
        m > 0,
        total >= 0,
        abs_int(p) <= total,
        total * SCALE <= m * (MAX_ACC as int),
    ensures
        abs_int(div_trunc(p * SCALE, m)) <= MAX_ACC as int,
{
    lemma_div_trunc_bound(p * SCALE, m);
    assert(abs_int(p * SCALE) <= m * (MAX_ACC as int)) by (nonlinear_arith)
        requires
            abs_int(p) <= total,
            total * SCALE <= m * (MAX_ACC as int),
            SCALE as int > 0,
    ;
    lemma_div_is_ordered(abs_int(p * SCALE), m * (MAX_ACC as int), m);
    lemma_div_multiples_vanish(MAX_ACC as int, m);
    assert(m * (MAX_ACC as int) == (MAX_ACC as int) * m) by (nonlinear_arith);
}

/// With no companions an orb feels no force: its velocity is unchanged and
/// its position advances by exactly `velocity * dt`.
pub proof fn lemma_free_motion(o: OrbView, dt: int)
    requires
        o.mass > 0,
    ensures
        step_orb(o, Seq::<OrbInfoView>::empty(), dt).velocity == o.velocity,
        step_orb(o, Seq::<OrbInfoView>::empty(), dt).pos == vadd(o.pos, vscale(o.velocity, dt)),
{
    let nf = net_force(o, Seq::<OrbInfoView>::empty());
    assert(nf == vzero());
    lemma_div_of0(o.mass);
    let acc = vdiv_s(nf, o.mass);
    assert(acc == vzero());
    assert(vscale(vzero(), dt) == vzero());
    assert(vadd(o.velocity, vzero()) == o.velocity);
}

/// Two coincident bodies exert no force on each other: the singularity
/// guard in place of a division by zero.
pub proof fn lemma_singularity_guard(o: OrbView, i: OrbInfoView)
    requires
        i.pos == o.pos,
    ensures
        grav_force(o, i) == vzero(),
        pair_force_mag(o, i) == 0,
{
    assert(norm_sq(vsub(i.pos, o.pos)) == 0);
}

/// Newton's third law: for two bodies with the same gravitational constant
/// the forces they exert on each other are equal in magnitude and opposite
/// in direction, for any separation.
pub proof fn lemma_force_symmetry(a: OrbView, b: OrbView)
    requires
        a.gravity == b.gravity,
    ensures
        pair_force_mag(a, orb_info_of(b)) == pair_force_mag(b, orb_info_of(a)),
        grav_force(a, orb_info_of(b)) == vneg(grav_force(b, orb_info_of(a))),
{
    let dab = vsub(b.pos, a.pos);
    let dba = vsub(a.pos, b.pos);
    assert(dba == vneg(dab));
    assert(norm_sq(dba) == norm_sq(dab)) by (nonlinear_arith)
        requires
            dba.x == -dab.x,
            dba.y == -dab.y,
            dba.z == -dab.z,
    ;
    assert(a.gravity * a.mass * b.mass == b.gravity * b.mass * a.mass) by (nonlinear_arith)
        requires
            a.gravity == b.gravity,
    ;
    if norm_sq(dab) >= ORB_MIN_DIST_SQ {
        let d2 = norm_sq(dab);
        let m = sqrt_floor(d2);
        lemma_sqrt_floor_pos(d2);
        let fm = pair_force_mag(a, orb_info_of(b));
        lemma_div_trunc_neg(dab.x * SCALE, m);
        lemma_div_trunc_neg(dab.y * SCALE, m);
        lemma_div_trunc_neg(dab.z * SCALE, m);
        let ua = vdiv_s(dab, m);
        let ub = vdiv_s(dba, m);
        assert(ub == vneg(ua));
        lemma_div_trunc_neg(ua.x * fm, SCALE as int);
        lemma_div_trunc_neg(ua.y * fm, SCALE as int);
        lemma_div_trunc_neg(ua.z * fm, SCALE as int);
        assert(vneg(ua).x * fm == -(ua.x * fm)) by (nonlinear_arith);
        assert(vneg(ua).y * fm == -(ua.y * fm)) by (nonlinear_arith);
        assert(vneg(ua).z * fm == -(ua.z * fm)) by (nonlinear_arith);
    }
}

} // verus!
