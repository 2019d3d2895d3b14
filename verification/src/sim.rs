//! The per-frame update of a whole set of bodies.
//!
//! A frame first takes a read-only snapshot of every body, then advances
//! each body against the snapshots of the others.  Because every force is
//! computed from the pre-frame snapshots, the outcome of a frame does not
//! depend on the order in which the bodies are advanced:
//! [`lemma_order_independence`] proves that updating the bodies in any
//! permutation order yields exactly [`step_frame`].

use crate::orb::{
    info_valid, infos_view, lemma_pair_force_mag_bound, lemma_pair_force_mag_nonneg,
    lemma_sum_take_le, lemma_sum_take_step, orb_info_of, orb_valid, step_orb, sum_force_mags, Orb,
    OrbInfo, OrbInfoView, OrbView, MAX_ACC, MAX_DT, MAX_FORCE, MAX_ORB_COORD, MAX_ORB_PARAM,
};
use crate::fixed::SCALE;
use vstd::prelude::*;

verus! {

/// The views of a sequence of orbs.
pub open spec fn orbs_view(s: Seq<Orb>) -> Seq<OrbView> {
    s.map_values(|o: Orb| o@)
}

/// The pre-frame snapshots of a sequence of orbs.
pub open spec fn frame_infos(orbs: Seq<OrbView>) -> Seq<OrbInfoView> {
    orbs.map_values(|o: OrbView| orb_info_of(o))
}

/// The state of every orb after one frame: each orb is advanced one step
/// against the pre-frame snapshots of all the others.
pub open spec fn step_frame(orbs: Seq<OrbView>, dt: int) -> Seq<OrbView> {
    Seq::new(orbs.len(), |i: int| step_orb(orbs[i], frame_infos(orbs).remove(i), dt))
}

/// A frame's inputs are well-formed: every orb is valid, the time step is
/// bounded, and no orb's net force or acceleration overflows.
pub open spec fn frame_safe(orbs: Seq<OrbView>, dt: int) -> bool {
    &&& 0 <= dt <= MAX_DT
    &&& forall|i: int| 0 <= i < orbs.len() ==> orb_valid(#[trigger] orbs[i])
    &&& forall|i: int|
        0 <= i < orbs.len() ==> sum_force_mags(#[trigger] orbs[i], frame_infos(orbs).remove(i))
            <= MAX_FORCE
    &&& forall|i: int|
        0 <= i < orbs.len() ==> sum_force_mags(#[trigger] orbs[i], frame_infos(orbs).remove(i))
            * SCALE <= orbs[i].mass * (MAX_ACC as int)
}

/// Advance every orb by one time step: snapshot all bodies first, then
/// advance each body against the others' snapshots, exactly as
/// [`step_frame`] describes.
pub fn advance_frame(orbs: &mut Vec<Orb>, delta_time: i64)
    requires
        frame_safe(orbs_view(old(orbs)@), delta_time as int),
    ensures
        final(orbs)@.len() == old(orbs)@.len(),
        orbs_view(final(orbs)@) == step_frame(orbs_view(old(orbs)@), delta_time as int),
{
    let ghost ovs = orbs_view(orbs@);
    let n = orbs.len();

    // Snapshot every body before any body moves.
    let mut infos: Vec<OrbInfo> = Vec::new();
    let mut i: usize = 0;
    while i < n
        invariant
            orbs@ == old(orbs)@,
            ovs == orbs_view(orbs@),
            n == orbs@.len(),
            0 <= i <= n,
            infos@.len() == i,
            forall|j: int| 0 <= j < i ==> #[trigger] infos@[j]@ == orb_info_of(ovs[j]),
        decreases n - i,
    {
        let inf = orbs[i].info();
        infos.push(inf);
        i = i + 1;
    }

    // Advance each body against the snapshots of the others.
    let mut i: usize = 0;
    while i < n
        invariant
            n == orbs@.len(),
            ovs == orbs_view(old(orbs)@),
            ovs.len() == n,
            frame_safe(ovs, delta_time as int),
            infos@.len() == n,
            forall|j: int| 0 <= j < n ==> #[trigger] infos@[j]@ == orb_info_of(ovs[j]),
            0 <= i <= n,
            forall|j: int|
                0 <= j < i ==> #[trigger] orbs@[j]@ == step_frame(ovs, delta_time as int)[j],
            forall|j: int| i <= j < n ==> #[trigger] orbs@[j] == old(orbs)@[j],
        decreases n - i,
    {
        // The snapshots of every body but this one.
        let mut others: Vec<OrbInfo> = Vec::new();
        let mut j: usize = 0;
        while j < n
            invariant
                0 <= j <= n,
                i < n,
                infos@.len() == n,
                others@.len() == if j <= i {
                    j as int
                } else {
                    j - 1
                },
                forall|k: int|
                    0 <= k < others@.len() ==> #[trigger] others@[k] == (if k < i {
                        infos@[k]
                    } else {
                        infos@[k + 1]
                    }),
            decreases n - j,
        {
            if j != i {
                others.push(infos[j]);
            }
            j = j + 1;
        }
        proof {
            assert(infos_view(others@) =~= frame_infos(ovs).remove(i as int));
            assert(orbs@[i as int]@ == ovs[i as int]);
            assert forall|k: int|
                0 <= k < others@.len() implies info_valid(
                #[trigger] infos_view(others@)[k],
            ) by {
                if k < i {
                    assert(infos_view(others@)[k] == orb_info_of(ovs[k]));
                } else {
                    assert(infos_view(others@)[k] == orb_info_of(ovs[k + 1]));
                }
            }
        }
        let mut orb = orbs[i];
        orb.animate(&others, delta_time);
        orbs[i] = orb;
        i = i + 1;
        proof {
            assert(orbs@[i - 1]@ == step_frame(ovs, delta_time as int)[i - 1]);
        }
    }
    proof {
        assert(orbs_view(orbs@) =~= step_frame(ovs, delta_time as int));
    }
}

/// The executable mirror of [`frame_safe`], for unverified callers that
/// must test the integrator's preconditions before a frame: every orb
/// well-formed, the time step in range, and each orb's total force and
/// acceleration within the verified bounds.
pub fn frame_is_safe(orbs: &Vec<Orb>, delta_time: i64) -> (r: bool)
    ensures
        r == frame_safe(orbs_view(orbs@), delta_time as int),
{
    let ghost ovs = orbs_view(orbs@);
    if !(0 <= delta_time && delta_time <= MAX_DT) {
        return false;
    }
    let n = orbs.len();

    // Every orb within the coordinate and parameter envelope.
    let mut i: usize = 0;
    while i < n
        invariant
            n == orbs@.len(),
            ovs == orbs_view(orbs@),
            0 <= i <= n,
            forall|j: int| 0 <= j < i ==> orb_valid(#[trigger] ovs[j]),
        decreases n - i,
    {
        let o = &orbs[i];
        let coord_ok = -MAX_ORB_COORD <= o.pos.x && o.pos.x <= MAX_ORB_COORD && -MAX_ORB_COORD
            <= o.pos.y && o.pos.y <= MAX_ORB_COORD && -MAX_ORB_COORD <= o.pos.z && o.pos.z
            <= MAX_ORB_COORD && -MAX_ORB_COORD <= o.velocity.x && o.velocity.x <= MAX_ORB_COORD
            && -MAX_ORB_COORD <= o.velocity.y && o.velocity.y <= MAX_ORB_COORD && -MAX_ORB_COORD
            <= o.velocity.z && o.velocity.z <= MAX_ORB_COORD;
        let ok = coord_ok && 0 < o.mass && o.mass <= MAX_ORB_PARAM && 0 <= o.gravity && o.gravity
            <= MAX_ORB_PARAM;
        if !ok {
            proof {
                assert(!orb_valid(ovs[i as int]));
            }
            return false;
        }
        proof {
            assert(orb_valid(ovs[i as int]));
        }
        i = i + 1;
    }

    // Each orb's total force magnitude, against the snapshots of all the
    // others, within the force and acceleration bounds.
    let mut i: usize = 0;
    while i < n
        invariant
            n == orbs@.len(),
            ovs == orbs_view(orbs@),
            0 <= i <= n,
            forall|j: int| 0 <= j < n ==> orb_valid(#[trigger] ovs[j]),
            forall|j: int|
                0 <= j < i ==> sum_force_mags(#[trigger] ovs[j], frame_infos(ovs).remove(j))
                    <= MAX_FORCE,
            forall|j: int|
                0 <= j < i ==> sum_force_mags(#[trigger] ovs[j], frame_infos(ovs).remove(j))
                    * SCALE <= ovs[j].mass * (MAX_ACC as int),
        decreases n - i,
    {
        let ghost removed = frame_infos(ovs).remove(i as int);
        proof {
            assert forall|k: int| 0 <= k < removed.len() implies info_valid(#[trigger] removed[k])
                && removed[k].mass > 0 by {
                if k < i {
                    assert(removed[k] == orb_info_of(ovs[k]));
                } else {
                    assert(removed[k] == orb_info_of(ovs[k + 1]));
                }
            }
        }
        let mut sum: u128 = 0;
        let mut j: usize = 0;
        while j < n
            invariant
                n == orbs@.len(),
                ovs == orbs_view(orbs@),
                i < n,
                removed == frame_infos(ovs).remove(i as int),
                removed.len() == n - 1,
                forall|k: int| 0 <= k < n ==> orb_valid(#[trigger] ovs[k]),
                forall|k: int|
                    0 <= k < removed.len() ==> info_valid(#[trigger] removed[k]) && removed[k].mass
                        > 0,
                0 <= j <= n,
                sum == sum_force_mags(
                    ovs[i as int],
                    removed.take(if j <= i { j as int } else { j - 1 }),
                ),
                sum <= MAX_FORCE,
            decreases n - j,
        {
            if j != i {
                let ghost k: int = if j <= i { j as int } else { j - 1 };
                proof {
                    assert(removed.take(k + 1).drop_last() =~= removed.take(k));
                    assert(removed.take(k + 1).last() == removed[k]);
                    assert(removed[k] == orb_info_of(ovs[j as int]));
                    assert(orbs@[j as int]@ == ovs[j as int]);
                    assert(orbs@[i as int]@ == ovs[i as int]);
                }
                let mag = orbs[i].force_magnitude(&orbs[j].info());
                proof {
                    lemma_pair_force_mag_nonneg(ovs[i as int], removed[k]);
                    lemma_pair_force_mag_bound(ovs[i as int], removed[k]);
                    lemma_sum_take_step(ovs[i as int], removed, k);
                }
                sum = sum + mag;
                if sum > MAX_FORCE as u128 {
                    proof {
                        lemma_sum_take_le(ovs[i as int], removed, k + 1);
                        assert(!frame_safe(ovs, delta_time as int));
                    }
                    return false;
                }
            }
            j = j + 1;
        }
        proof {
            assert(removed.take(removed.len() as int) =~= removed);
        }
        proof {
            assert(sum * (SCALE as u128) <= 1_000_000_000_000_000_000u128) by (nonlinear_arith)
                requires
                    0 <= sum <= 1_000_000_000_000u128,
            ;
            assert((orbs@[i as int].mass as u128) * (MAX_ACC as u128) <= (i64::MAX as u128)
                * 1_000_000_000u128) by (nonlinear_arith)
                requires
                    0 <= orbs@[i as int].mass as u128 <= i64::MAX as u128,
                    MAX_ACC as u128 == 1_000_000_000u128,
            ;
        }
        if sum * (SCALE as u128) > (orbs[i].mass as u128) * (MAX_ACC as u128) {
            proof {
                assert(!frame_safe(ovs, delta_time as int));
            }
            return false;
        }
        i = i + 1;
    }
    true
}

/// One frame's updates, performed one body at a time in the order given by
/// `order`, each from the fixed pre-frame snapshots `infos`.
pub open spec fn apply_in_order(
    orbs: Seq<OrbView>,
    infos: Seq<OrbInfoView>,
    order: Seq<int>,
    dt: int,
) -> Seq<OrbView>
    decreases order.len(),
{
    if order.len() == 0 {
        orbs
    } else {
        let h = order.first();
        let next = orbs.update(h, step_orb(orbs[h], infos.remove(h), dt));
        apply_in_order(next, infos, order.drop_first(), dt)
    }
}

/// Order independence: advancing the bodies one at a time, in any
/// permutation order, from the pre-frame snapshots, yields exactly the
/// frame result [`step_frame`] — updating body A before or after body B
/// makes no difference.
pub proof fn lemma_order_independence(orbs: Seq<OrbView>, order: Seq<int>, dt: int)
    requires
        order.no_duplicates(),
        forall|k: int| 0 <= k < order.len() ==> 0 <= #[trigger] order[k] < orbs.len(),
        forall|i: int| 0 <= i < orbs.len() ==> order.contains(i),
    ensures
        apply_in_order(orbs, frame_infos(orbs), order, dt) == step_frame(orbs, dt),
{
    lemma_apply_in_order_general(orbs, orbs, order, dt);
}

/// Generalisation of [`lemma_order_independence`] over a partially advanced
/// frame: the indices still listed in `order` hold their pre-frame state,
/// every other index is already advanced.
proof fn lemma_apply_in_order_general(
    cur: Seq<OrbView>,
    orig: Seq<OrbView>,
    order: Seq<int>,
    dt: int,
)
    requires
        cur.len() == orig.len(),
        order.no_duplicates(),
        forall|k: int| 0 <= k < order.len() ==> 0 <= #[trigger] order[k] < orig.len(),
        forall|i: int| 0 <= i < orig.len() && order.contains(i) ==> #[trigger] cur[i] == orig[i],
        forall|i: int|
            0 <= i < orig.len() && !order.contains(i) ==> #[trigger] cur[i] == step_orb(
                orig[i],
                frame_infos(orig).remove(i),
                dt,
            ),
    ensures
        apply_in_order(cur, frame_infos(orig), order, dt) == step_frame(orig, dt),
    decreases order.len(),
{
    if order.len() == 0 {
        assert forall|i: int| 0 <= i < orig.len() implies cur[i] == step_frame(orig, dt)[i] by {
            assert(!order.contains(i));
        }
        assert(cur =~= step_frame(orig, dt));
    } else {
        let h = order.first();
        assert(order.contains(h));
        assert(cur[h] == orig[h]);
        let next = cur.update(h, step_orb(cur[h], frame_infos(orig).remove(h), dt));
        let tail = order.drop_first();

        assert forall|x: int, y: int|
            0 <= x < tail.len() && 0 <= y < tail.len() && x != y implies tail[x] != tail[y] by {
            assert(tail[x] == order[x + 1]);
            assert(tail[y] == order[y + 1]);
        }
        assert(tail.no_duplicates());

        assert forall|i: int| 0 <= i < orig.len() && tail.contains(i) implies next[i]
            == orig[i] by {
            let k = choose|k: int| 0 <= k < tail.len() && tail[k] == i;
            assert(order[k + 1] == i);
            assert(order.contains(i));
            assert(i != h);
        }
        assert forall|i: int| 0 <= i < orig.len() && !tail.contains(i) implies next[i] == step_orb(
            orig[i],
            frame_infos(orig).remove(i),
            dt,
        ) by {
            if i == h {
            } else {
                if order.contains(i) {
                    let k = choose|k: int| 0 <= k < order.len() && order[k] == i;
                    assert(k != 0);
                    assert(tail[k - 1] == i);
                    assert(tail.contains(i));
                }
                assert(!order.contains(i));
            }
        }
        lemma_apply_in_order_general(next, orig, tail, dt);
    }
}

} // verus!
