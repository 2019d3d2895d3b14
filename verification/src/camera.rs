//! The orbit-camera controller.
//!
//! A [`Camera`] keeps a position, a fixed look-at target and an up
//! direction.  Drag input rotates the position around the target — a yaw
//! about the world up axis, then a pitch about the camera-local right axis,
//! carried out by a basis change into the local orthonormal frame and back
//! (the matrix form of Rodrigues' rotation) — and scroll input zooms by
//! scaling the position radially.
//!
//! The controller works on plain fixed-point scalars: the front end turns
//! raw mouse deltas into the scaled sine and cosine of the two rotation
//! angles and hands them in.

use crate::fixed::{
    abs_int, div_trunc, dot3_div_scale, lemma_abs_mul_le, lemma_div_trunc_bound,
    lemma_div_trunc_cap, SCALE,
};
use crate::vec3_64::{
    in_bounds, lemma_cross_fits, lemma_norm_sq_fits, norm_sq, vadd, vcross, vnormalize, vscale,
    vsub, vzero, Vec3_64, V3,
};
use vstd::arithmetic::div_mod::{
    lemma_div_is_ordered, lemma_div_multiples_vanish, lemma_multiply_divide_lt,
};
use vstd::prelude::*;

verus! {

/// Largest coordinate magnitude the camera controller accepts for its
/// position, target and up vectors.
pub const MAX_CAM_COORD: i64 = 100_000_000;

/// Radial factor of one zoom-in tick: `0.95` in fixed-point units.
pub const ZOOM_IN_FACTOR: i64 = 950_000;

/// Radial factor of one zoom-out tick: `1.05` in fixed-point units.
pub const ZOOM_OUT_FACTOR: i64 = 1_050_000;

/// The mathematical model of a [`Matrix3D`]: three rows of integer triples.
pub ghost struct M3 {
    pub r0: V3,
    pub r1: V3,
    pub r2: V3,
}

/// A 3-by-3 fixed-point matrix, stored by rows.
#[derive(Debug, Clone, Copy)]
pub struct Matrix3D {
    pub r0: Vec3_64,
    pub r1: Vec3_64,
    pub r2: Vec3_64,
}

impl View for Matrix3D {
    type V = M3;

    open spec fn view(&self) -> M3 {
        M3 { r0: self.r0@, r1: self.r1@, r2: self.r2@ }
    }
}

/// Rows become columns.
pub open spec fn m3_transpose(m: M3) -> M3 {
    M3 {
        r0: V3 { x: m.r0.x, y: m.r1.x, z: m.r2.x },
        r1: V3 { x: m.r0.y, y: m.r1.y, z: m.r2.y },
        r2: V3 { x: m.r0.z, y: m.r1.z, z: m.r2.z },
    }
}

/// Matrix-vector product: each component is a row's dot product with the
/// vector, rounded once.
pub open spec fn m3_mul_v3(m: M3, v: V3) -> V3 {
    V3 {
        x: div_trunc(m.r0.x * v.x + m.r0.y * v.y + m.r0.z * v.z, SCALE as int),
        y: div_trunc(m.r1.x * v.x + m.r1.y * v.y + m.r1.z * v.z, SCALE as int),
        z: div_trunc(m.r2.x * v.x + m.r2.y * v.y + m.r2.z * v.z, SCALE as int),
    }
}

/// Every entry has magnitude at most `bound`.
pub open spec fn m3_in_bounds(m: M3, bound: int) -> bool {
    in_bounds(m.r0, bound) && in_bounds(m.r1, bound) && in_bounds(m.r2, bound)
}

impl Matrix3D {
    /// The transposed matrix; for the orthonormal local-to-world basis this
    /// is the world-to-local transform.
    pub fn transpose(&self) -> (r: Self)
        ensures
            r@ == m3_transpose(self@),
    {
        Self {
            r0: Vec3_64::new(self.r0.x, self.r1.x, self.r2.x),
            r1: Vec3_64::new(self.r0.y, self.r1.y, self.r2.y),
            r2: Vec3_64::new(self.r0.z, self.r1.z, self.r2.z),
        }
    }

    /// The matrix-vector product.
    pub fn multiply_vec3(&self, pos: Vec3_64) -> (r: Vec3_64)
        requires
            abs_int(self@.r0.x * pos@.x) + abs_int(self@.r0.y * pos@.y) + abs_int(
                self@.r0.z * pos@.z,
            ) <= i64::MAX,
            abs_int(self@.r1.x * pos@.x) + abs_int(self@.r1.y * pos@.y) + abs_int(
                self@.r1.z * pos@.z,
            ) <= i64::MAX,
            abs_int(self@.r2.x * pos@.x) + abs_int(self@.r2.y * pos@.y) + abs_int(
                self@.r2.z * pos@.z,
            ) <= i64::MAX,
        ensures
            r@ == m3_mul_v3(self@, pos@),
    {
        Vec3_64::new(
            dot3_div_scale(self.r0.x, pos.x, self.r0.y, pos.y, self.r0.z, pos.z),
            dot3_div_scale(self.r1.x, pos.x, self.r1.y, pos.y, self.r1.z, pos.z),
            dot3_div_scale(self.r2.x, pos.x, self.r2.y, pos.y, self.r2.z, pos.z),
        )
    }
}

/// The mathematical model of a [`Camera`].
pub ghost struct CameraView {
    pub position: V3,
    pub target: V3,
    pub up: V3,
}

/// An orbit camera: a position moving on a sphere around a fixed target.
#[derive(Debug, Clone, Copy)]
pub struct Camera {
    pub position: Vec3_64,
    pub target: Vec3_64,
    pub up: Vec3_64,
}

impl View for Camera {
    type V = CameraView;

    open spec fn view(&self) -> CameraView {
        CameraView { position: self.position@, target: self.target@, up: self.up@ }
    }
}

/// The yaw step: rotation of `v` in the plane orthogonal to the world up
/// axis, by the angle with scaled sine `s` and cosine `c`, each component
/// rounded once.
pub open spec fn yaw_rotate(v: V3, s: int, c: int) -> V3 {
    V3 {
        x: div_trunc(c * v.x + s * v.z, SCALE as int),
        y: v.y,
        z: div_trunc(c * v.z - s * v.x, SCALE as int),
    }
}

/// The pose after one rotation update: yaw about the world up axis, then
/// pitch about the local right axis via the local-to-world basis and its
/// transpose, exactly as [`Camera::handle_rotation`] computes it.
pub open spec fn camera_rotate(cam: CameraView, ys: int, yc: int, ps: int, pc: int) -> CameraView {
    let relative_pos = vsub(cam.position, cam.target);
    let forward = vnormalize(relative_pos);
    let right = vnormalize(vcross(cam.up, forward));
    let real_up = vnormalize(vcross(forward, right));
    let pos_after_y = yaw_rotate(relative_pos, ys, yc);
    let forward2 = vnormalize(pos_after_y);
    let right2 = vnormalize(vcross(cam.up, forward2));
    let x_matrix = M3 {
        r0: V3 { x: SCALE as int, y: 0, z: 0 },
        r1: V3 { x: 0, y: pc, z: -ps },
        r2: V3 { x: 0, y: ps, z: pc },
    };
    let loc_to_w = M3 {
        r0: V3 { x: right2.x, y: real_up.x, z: forward2.x },
        r1: V3 { x: right2.y, y: real_up.y, z: forward2.y },
        r2: V3 { x: right2.z, y: real_up.z, z: forward2.z },
    };
    let local_pos = m3_mul_v3(m3_transpose(loc_to_w), pos_after_y);
    let rot_local = m3_mul_v3(x_matrix, local_pos);
    CameraView {
        position: vadd(cam.target, m3_mul_v3(loc_to_w, rot_local)),
        target: cam.target,
        up: cam.up,
    }
}

/// The pose after one zoom update: a positive tick scales the position by
/// [`ZOOM_IN_FACTOR`], a negative one by [`ZOOM_OUT_FACTOR`], a zero tick
/// changes nothing.  The position is scaled as an offset from the origin,
/// matching the source model deliberately kept here.
pub open spec fn camera_zoom(cam: CameraView, wheel: int) -> CameraView {
    if wheel == 0 {
        cam
    } else {
        CameraView {
            position: vscale(
                cam.position,
                if wheel > 0 {
                    ZOOM_IN_FACTOR as int
                } else {
                    ZOOM_OUT_FACTOR as int
                },
            ),
            target: cam.target,
            up: cam.up,
        }
    }
}

/// The camera's pose is well-formed for an update.
pub open spec fn camera_valid(cam: CameraView) -> bool {
    &&& in_bounds(cam.position, MAX_CAM_COORD as int)
    &&& in_bounds(cam.target, MAX_CAM_COORD as int)
    &&& in_bounds(cam.up, MAX_CAM_COORD as int)
}

/// A scaled sine or cosine: magnitude at most one world unit.
pub open spec fn trig_bounded(s: int) -> bool {
    abs_int(s) <= SCALE as int
}

impl Camera {
    pub fn new(position: Vec3_64, target: Vec3_64, up: Vec3_64) -> (r: Self)
        ensures
            r@.position == position@,
            r@.target == target@,
            r@.up == up@,
    {
        Self { position, target, up }
    }

    /// One rotation update from drag input.  `yaw_sin`/`yaw_cos` are the
    /// scaled sine and cosine of the yaw angle (horizontal drag times the
    /// sensitivity), `pitch_sin`/`pitch_cos` those of the pitch angle; the
    /// result is exactly [`camera_rotate`] of the old pose.
    pub fn handle_rotation(&mut self, yaw_sin: i64, yaw_cos: i64, pitch_sin: i64, pitch_cos: i64)
        requires
            camera_valid(old(self)@),
            trig_bounded(yaw_sin as int),
            trig_bounded(yaw_cos as int),
            trig_bounded(pitch_sin as int),
            trig_bounded(pitch_cos as int),
        ensures
            final(self)@ == camera_rotate(
                old(self)@,
                yaw_sin as int,
                yaw_cos as int,
                pitch_sin as int,
                pitch_cos as int,
            ),
            final(self)@.target == old(self)@.target,
            final(self)@.up == old(self)@.up,
    {
        let ghost cam = self@;
        let relative_pos = self.position.sub(self.target);
        proof {
            lemma_norm_sq_fits(relative_pos@, 2 * MAX_CAM_COORD as int);
        }
        let forward = relative_pos.normalize_or_zero();
        proof {
            lemma_cross_fits(
                self@.up,
                forward@,
                MAX_CAM_COORD as int,
                SCALE as int,
                2 * MAX_CAM_COORD as int,
            );
        }
        let right = self.up.cross(forward).normalize_or_zero();
        proof {
            lemma_cross_fits(forward@, right@, SCALE as int, SCALE as int, 2 * SCALE as int);
        }
        let real_up = forward.cross(right).normalize_or_zero();

        // Rotation around the world up axis (yaw).
        proof {
            lemma_yaw_fits(relative_pos@, yaw_sin as int, yaw_cos as int);
        }
        let pos_after_y = Vec3_64::new(
            dot3_div_scale(yaw_cos, relative_pos.x, yaw_sin, relative_pos.z, 0, 0),
            relative_pos.y,
            dot3_div_scale(yaw_cos, relative_pos.z, -yaw_sin, relative_pos.x, 0, 0),
        );
        proof {
            assert((-yaw_sin) * relative_pos@.x == -(yaw_sin * relative_pos@.x))
                by (nonlinear_arith);
            assert(pos_after_y@ == yaw_rotate(relative_pos@, yaw_sin as int, yaw_cos as int));
            lemma_yaw_bounded(relative_pos@, yaw_sin as int, yaw_cos as int);
            lemma_norm_sq_fits(pos_after_y@, 4 * MAX_CAM_COORD as int);
        }

        // New local axes from the yawed position.
        let forward = pos_after_y.normalize_or_zero();
        proof {
            lemma_cross_fits(
                self@.up,
                forward@,
                MAX_CAM_COORD as int,
                SCALE as int,
                2 * MAX_CAM_COORD as int,
            );
        }
        let right = self.up.cross(forward).normalize_or_zero();

        // Rotation around the local x axis (pitch).
        let x_matrix = Matrix3D {
            r0: Vec3_64::new(SCALE, 0, 0),
            r1: Vec3_64::new(0, pitch_cos, -pitch_sin),
            r2: Vec3_64::new(0, pitch_sin, pitch_cos),
        };

        // The local-to-world basis: columns are right, real up, forward.
        let loc_to_w = Matrix3D {
            r0: Vec3_64::new(right.x, real_up.x, forward.x),
            r1: Vec3_64::new(right.y, real_up.y, forward.y),
            r2: Vec3_64::new(right.z, real_up.z, forward.z),
        };

        // Transform into the local frame.
        proof {
            lemma_mul_v3_fits(
                m3_transpose(loc_to_w@),
                pos_after_y@,
                SCALE as int,
                4 * MAX_CAM_COORD as int,
            );
        }
        let local_pos = loc_to_w.transpose().multiply_vec3(pos_after_y);

        // Apply the pitch rotation in the local frame.
        proof {
            lemma_mul_v3_fits(x_matrix@, local_pos@, SCALE as int, 12 * MAX_CAM_COORD as int);
        }
        let rot_local = x_matrix.multiply_vec3(local_pos);

        // Back to world space, offset from the target.
        proof {
            lemma_mul_v3_fits(loc_to_w@, rot_local@, SCALE as int, 36 * MAX_CAM_COORD as int);
        }
        let world = loc_to_w.multiply_vec3(rot_local);
        self.position = self.target.add(world);
        proof {
            assert(self@ == camera_rotate(
                cam,
                yaw_sin as int,
                yaw_cos as int,
                pitch_sin as int,
                pitch_cos as int,
            ));
        }
    }

    /// One zoom update from scroll input: a positive tick moves the camera
    /// radially inward by the factor `0.95`, a negative tick outward by
    /// `1.05`, a zero tick is a no-op; the result is exactly
    /// [`camera_zoom`] of the old pose.
    pub fn handle_zoom(&mut self, wheel_y: i64)
        requires
            in_bounds(old(self)@.position, MAX_CAM_COORD as int),
        ensures
            final(self)@ == camera_zoom(old(self)@, wheel_y as int),
            final(self)@.target == old(self)@.target,
            final(self)@.up == old(self)@.up,
    {
        if wheel_y == 0 {
            return ;
        }
        let factor: i64 = if wheel_y > 0 {
            ZOOM_IN_FACTOR
        } else {
            ZOOM_OUT_FACTOR
        };
        proof {
            lemma_abs_mul_le(
                self@.position.x,
                factor as int,
                MAX_CAM_COORD as int,
                ZOOM_OUT_FACTOR as int,
            );
            lemma_abs_mul_le(
                self@.position.y,
                factor as int,
                MAX_CAM_COORD as int,
                ZOOM_OUT_FACTOR as int,
            );
            lemma_abs_mul_le(
                self@.position.z,
                factor as int,
                MAX_CAM_COORD as int,
                ZOOM_OUT_FACTOR as int,
            );
        }
        self.position = self.position.mul(factor);
    }
}

/// The yaw step's multiplications fit in `i64` for a bounded relative
/// position and bounded trigonometric inputs.
proof fn lemma_yaw_fits(v: V3, s: int, c: int)
    requires
        in_bounds(v, 2 * MAX_CAM_COORD as int),
        abs_int(s) <= SCALE as int,
        abs_int(c) <= SCALE as int,
    ensures
        abs_int(c * v.x) + abs_int(s * v.z) + abs_int(0int * 0int) <= i64::MAX,
        abs_int(c * v.z) + abs_int((-s) * v.x) + abs_int(0int * 0int) <= i64::MAX,
{
    lemma_abs_mul_le(c, v.x, SCALE as int, 2 * MAX_CAM_COORD as int);
    lemma_abs_mul_le(s, v.z, SCALE as int, 2 * MAX_CAM_COORD as int);
    lemma_abs_mul_le(c, v.z, SCALE as int, 2 * MAX_CAM_COORD as int);
    lemma_abs_mul_le(-s, v.x, SCALE as int, 2 * MAX_CAM_COORD as int);
}

/// The yawed position stays within twice the bound of the input position.
proof fn lemma_yaw_bounded(v: V3, s: int, c: int)
    requires
        in_bounds(v, 2 * MAX_CAM_COORD as int),
        abs_int(s) <= SCALE as int,
        abs_int(c) <= SCALE as int,
    ensures
        in_bounds(yaw_rotate(v, s, c), 4 * MAX_CAM_COORD as int),
{
    lemma_abs_mul_le(c, v.x, SCALE as int, 2 * MAX_CAM_COORD as int);
    lemma_abs_mul_le(s, v.z, SCALE as int, 2 * MAX_CAM_COORD as int);
    lemma_abs_mul_le(c, v.z, SCALE as int, 2 * MAX_CAM_COORD as int);
    lemma_abs_mul_le(s, v.x, SCALE as int, 2 * MAX_CAM_COORD as int);
    lemma_div_trunc_cap(c * v.x + s * v.z, SCALE as int, 4 * MAX_CAM_COORD as int);
    lemma_div_trunc_cap(c * v.z - s * v.x, SCALE as int, 4 * MAX_CAM_COORD as int);
}

/// A matrix with bounded entries applied to a bounded vector: the row dot
/// products fit in `i64` and the product stays within three times the
/// rescaled entry-vector product bound.
proof fn lemma_mul_v3_fits(m: M3, v: V3, entry_bound: int, vec_bound: int)
    requires
        m3_in_bounds(m, entry_bound),
        in_bounds(v, vec_bound),
        0 <= entry_bound <= SCALE as int,
        0 <= vec_bound <= 36 * MAX_CAM_COORD as int,
    ensures
        abs_int(m.r0.x * v.x) + abs_int(m.r0.y * v.y) + abs_int(m.r0.z * v.z) <= i64::MAX,
        abs_int(m.r1.x * v.x) + abs_int(m.r1.y * v.y) + abs_int(m.r1.z * v.z) <= i64::MAX,
        abs_int(m.r2.x * v.x) + abs_int(m.r2.y * v.y) + abs_int(m.r2.z * v.z) <= i64::MAX,
        in_bounds(m3_mul_v3(m, v), 3 * vec_bound),
{
    lemma_abs_mul_le(m.r0.x, v.x, entry_bound, vec_bound);
    lemma_abs_mul_le(m.r0.y, v.y, entry_bound, vec_bound);
    lemma_abs_mul_le(m.r0.z, v.z, entry_bound, vec_bound);
    lemma_abs_mul_le(m.r1.x, v.x, entry_bound, vec_bound);
    lemma_abs_mul_le(m.r1.y, v.y, entry_bound, vec_bound);
    lemma_abs_mul_le(m.r1.z, v.z, entry_bound, vec_bound);
    lemma_abs_mul_le(m.r2.x, v.x, entry_bound, vec_bound);
    lemma_abs_mul_le(m.r2.y, v.y, entry_bound, vec_bound);
    lemma_abs_mul_le(m.r2.z, v.z, entry_bound, vec_bound);
    assert(3 * (entry_bound * vec_bound) <= 3 * ((SCALE as int) * vec_bound)) by (nonlinear_arith)
        requires
            0 <= entry_bound <= SCALE as int,
            vec_bound >= 0,
    ;
    lemma_div_trunc_cap(m.r0.x * v.x + m.r0.y * v.y + m.r0.z * v.z, SCALE as int, 3 * vec_bound);
    lemma_div_trunc_cap(m.r1.x * v.x + m.r1.y * v.y + m.r1.z * v.z, SCALE as int, 3 * vec_bound);
    lemma_div_trunc_cap(m.r2.x * v.x + m.r2.y * v.y + m.r2.z * v.z, SCALE as int, 3 * vec_bound);
}

/// The algebraic heart of the camera's radial invariant: a planar rotation
/// with scaled sine `s` and cosine `c` multiplies the squared norm of the
/// plane's components by exactly `s * s + c * c`.
#[verifier::rlimit(100)]
pub proof fn lemma_planar_rotation_norm(x: int, z: int, s: int, c: int)
    ensures
        (c * x + s * z) * (c * x + s * z) + (c * z - s * x) * (c * z - s * x) == (s * s + c * c) * (
        x * x + z * z),
{
    broadcast use vstd::arithmetic::mul::group_mul_properties;

    let a = c * x;
    let b = s * z;
    let d = c * z;
    let e = s * x;
    assert((a + b) * (a + b) == a * a + a * b + b * a + b * b);
    assert((d - e) * (d - e) == d * d - d * e - e * d + e * e);
    assert(a * b == ((c * x) * s) * z);
    assert(d * e == ((c * z) * s) * x);
    assert(((c * x) * s) * z == ((c * s) * x) * z);
    assert(((c * z) * s) * x == ((c * s) * z) * x);
    assert(((c * s) * x) * z == ((c * s) * z) * x);
    assert(a * a == (c * c) * (x * x)) by {
        assert(a * a == ((c * x) * c) * x);
        assert(((c * x) * c) * x == ((c * c) * x) * x);
        assert(((c * c) * x) * x == (c * c) * (x * x));
    }
    assert(b * b == (s * s) * (z * z)) by {
        assert(b * b == ((s * z) * s) * z);
        assert(((s * z) * s) * z == ((s * s) * z) * z);
        assert(((s * s) * z) * z == (s * s) * (z * z));
    }
    assert(d * d == (c * c) * (z * z)) by {
        assert(d * d == ((c * z) * c) * z);
        assert(((c * z) * c) * z == ((c * c) * z) * z);
        assert(((c * c) * z) * z == (c * c) * (z * z));
    }
    assert(e * e == (s * s) * (x * x)) by {
        assert(e * e == ((s * x) * s) * x);
        assert(((s * x) * s) * x == ((s * s) * x) * x);
        assert(((s * s) * x) * x == (s * s) * (x * x));
    }
    assert((s * s + c * c) * (x * x + z * z) == (s * s) * (x * x) + (s * s) * (z * z) + (c * c) * (
    x * x) + (c * c) * (z * z));
}

/// The yaw step before its one rounding per component: the numerators of
/// [`yaw_rotate`], with the unrotated component scaled by `SCALE` to stay
/// comparable.
pub open spec fn yaw_rotate_exact(v: V3, s: int, c: int) -> V3 {
    V3 { x: c * v.x + s * v.z, y: SCALE as int * v.y, z: c * v.z - s * v.x }
}

/// The pitch step before its one rounding per component: the numerators of
/// the local `x_matrix` rotation of [`camera_rotate`].
pub open spec fn pitch_rotate_exact(v: V3, s: int, c: int) -> V3 {
    V3 { x: SCALE as int * v.x, y: c * v.y - s * v.z, z: s * v.y + c * v.z }
}

/// Radial invariance of an exact yaw step: whenever the scaled sine and
/// cosine satisfy `s*s + c*c == SCALE*SCALE` exactly, the rotation
/// multiplies the squared norm by exactly `SCALE*SCALE` — the radius is
/// unchanged after the deferred division by `SCALE`.  The executable update
/// differs from this exact value only by the one truncation per component.
pub proof fn lemma_yaw_preserves_radius(v: V3, s: int, c: int)
    requires
        s * s + c * c == SCALE as int * SCALE as int,
    ensures
        norm_sq(yaw_rotate_exact(v, s, c)) == (SCALE as int * SCALE as int) * norm_sq(v),
{
    lemma_planar_rotation_norm(v.x, v.z, s, c);
    assert((c * v.x + s * v.z) * (c * v.x + s * v.z) + (SCALE as int * v.y) * (SCALE as int * v.y)
        + (c * v.z - s * v.x) * (c * v.z - s * v.x) == (SCALE as int * SCALE as int) * (v.x * v.x
        + v.y * v.y + v.z * v.z)) by (nonlinear_arith)
        requires
            (c * v.x + s * v.z) * (c * v.x + s * v.z) + (c * v.z - s * v.x) * (c * v.z - s * v.x)
                == (s * s + c * c) * (v.x * v.x + v.z * v.z),
            s * s + c * c == SCALE as int * SCALE as int,
    ;
}

/// The executable yaw step differs from the exact one only by the one
/// truncation per component: scaled back up by `SCALE`, each component of
/// [`yaw_rotate`] lands within one `SCALE` of [`yaw_rotate_exact`].
pub proof fn lemma_yaw_rounding(v: V3, s: int, c: int)
    ensures
        abs_int(SCALE as int * yaw_rotate(v, s, c).x - yaw_rotate_exact(v, s, c).x) < SCALE as int,
        SCALE as int * yaw_rotate(v, s, c).y == yaw_rotate_exact(v, s, c).y,
        abs_int(SCALE as int * yaw_rotate(v, s, c).z - yaw_rotate_exact(v, s, c).z) < SCALE as int,
{
    crate::fixed::lemma_div_trunc_remainder(c * v.x + s * v.z, SCALE as int);
    crate::fixed::lemma_div_trunc_remainder(c * v.z - s * v.x, SCALE as int);
}

/// Radial invariance of an exact pitch step, as for
/// [`lemma_yaw_preserves_radius`].
pub proof fn lemma_pitch_preserves_radius(v: V3, s: int, c: int)
    requires
        s * s + c * c == SCALE as int * SCALE as int,
    ensures
        norm_sq(pitch_rotate_exact(v, s, c)) == (SCALE as int * SCALE as int) * norm_sq(v),
{
    lemma_planar_rotation_norm(v.y, v.z, s, c);
    assert((SCALE as int * v.x) * (SCALE as int * v.x) + (c * v.y + s * v.z) * (c * v.y + s * v.z)
        + (c * v.z - s * v.y) * (c * v.z - s * v.y) == (SCALE as int * SCALE as int) * (v.x * v.x
        + v.y * v.y + v.z * v.z)) by (nonlinear_arith)
        requires
            (c * v.y + s * v.z) * (c * v.y + s * v.z) + (c * v.z - s * v.y) * (c * v.z - s * v.y)
                == (s * s + c * c) * (v.y * v.y + v.z * v.z),
            s * s + c * c == SCALE as int * SCALE as int,
    ;
    assert(norm_sq(pitch_rotate_exact(v, s, c)) == (SCALE as int * v.x) * (SCALE as int * v.x) + (c
        * v.y - s * v.z) * (c * v.y - s * v.z) + (s * v.y + c * v.z) * (s * v.y + c * v.z));
    assert((c * v.y - s * v.z) * (c * v.y - s * v.z) + (s * v.y + c * v.z) * (s * v.y + c * v.z)
        == (c * v.y + s * v.z) * (c * v.y + s * v.z) + (c * v.z - s * v.y) * (c * v.z - s * v.y))
        by (nonlinear_arith);
}

/// A zoom-in tick strictly shrinks a nonzero camera radius.
pub proof fn lemma_zoom_in_strictly_decreases(p: V3)
    requires
        in_bounds(p, MAX_CAM_COORD as int),
        p != vzero(),
    ensures
        norm_sq(vscale(p, ZOOM_IN_FACTOR as int)) < norm_sq(p),
{
    lemma_zoom_in_component(p.x);
    lemma_zoom_in_component(p.y);
    lemma_zoom_in_component(p.z);
    let q = vscale(p, ZOOM_IN_FACTOR as int);
    assert(p.x != 0 || p.y != 0 || p.z != 0);
    lemma_norm_sq_lt(q, p);
}

/// A zoom-out tick never shrinks the camera radius.
pub proof fn lemma_zoom_out_increases(p: V3)
    requires
        in_bounds(p, MAX_CAM_COORD as int),
    ensures
        norm_sq(vscale(p, ZOOM_OUT_FACTOR as int)) >= norm_sq(p),
{
    lemma_zoom_out_component(p.x);
    lemma_zoom_out_component(p.y);
    lemma_zoom_out_component(p.z);
    let q = vscale(p, ZOOM_OUT_FACTOR as int);
    lemma_sq_mono(p.x, q.x);
    lemma_sq_mono(p.y, q.y);
    lemma_sq_mono(p.z, q.z);
}

/// A zoom-out tick strictly grows the camera radius once any component
/// reaches twenty fixed-point units (two hundred-thousandths of a world
/// unit); below that the truncation can swallow the five-percent step.
pub proof fn lemma_zoom_out_strictly_increases(p: V3)
    requires
        in_bounds(p, MAX_CAM_COORD as int),
        abs_int(p.x) >= 20 || abs_int(p.y) >= 20 || abs_int(p.z) >= 20,
    ensures
        norm_sq(vscale(p, ZOOM_OUT_FACTOR as int)) > norm_sq(p),
{
    lemma_zoom_out_component(p.x);
    lemma_zoom_out_component(p.y);
    lemma_zoom_out_component(p.z);
    let q = vscale(p, ZOOM_OUT_FACTOR as int);
    lemma_sq_mono(p.x, q.x);
    lemma_sq_mono(p.y, q.y);
    lemma_sq_mono(p.z, q.z);
    if abs_int(p.x) >= 20 {
        lemma_zoom_out_component_strict(p.x);
        lemma_sq_strict_mono(p.x, q.x);
    } else if abs_int(p.y) >= 20 {
        lemma_zoom_out_component_strict(p.y);
        lemma_sq_strict_mono(p.y, q.y);
    } else {
        lemma_zoom_out_component_strict(p.z);
        lemma_sq_strict_mono(p.z, q.z);
    }
}

/// One zoomed-in component strictly shrinks in magnitude unless it is
/// already zero.
proof fn lemma_zoom_in_component(c: int)
    requires
        abs_int(c) <= MAX_CAM_COORD as int,
    ensures
        abs_int(div_trunc(c * ZOOM_IN_FACTOR, SCALE as int)) <= abs_int(c),
        c != 0 ==> abs_int(div_trunc(c * ZOOM_IN_FACTOR, SCALE as int)) < abs_int(c),
{
    lemma_div_trunc_bound(c * ZOOM_IN_FACTOR, SCALE as int);
    assert(abs_int(c * ZOOM_IN_FACTOR) == abs_int(c) * ZOOM_IN_FACTOR) by (nonlinear_arith);
    if c != 0 {
        assert(abs_int(c) * ZOOM_IN_FACTOR < SCALE as int * abs_int(c)) by (nonlinear_arith)
            requires
                abs_int(c) >= 1,
        ;
        lemma_multiply_divide_lt(abs_int(c) * ZOOM_IN_FACTOR, SCALE as int, abs_int(c));
    } else {
        assert(abs_int(div_trunc(0 * ZOOM_IN_FACTOR, SCALE as int)) == 0);
    }
}

/// One zoomed-out component never shrinks in magnitude.
proof fn lemma_zoom_out_component(c: int)
    requires
        abs_int(c) <= MAX_CAM_COORD as int,
    ensures
        abs_int(div_trunc(c * ZOOM_OUT_FACTOR, SCALE as int)) >= abs_int(c),
{
    lemma_div_trunc_bound(c * ZOOM_OUT_FACTOR, SCALE as int);
    assert(abs_int(c * ZOOM_OUT_FACTOR) == abs_int(c) * ZOOM_OUT_FACTOR) by (nonlinear_arith);
    assert(SCALE as int * abs_int(c) <= abs_int(c) * ZOOM_OUT_FACTOR) by (nonlinear_arith)
        requires
            abs_int(c) >= 0,
    ;
    lemma_div_is_ordered(SCALE as int * abs_int(c), abs_int(c) * ZOOM_OUT_FACTOR, SCALE as int);
    lemma_div_multiples_vanish(abs_int(c), SCALE as int);
}

/// One zoomed-out component strictly grows in magnitude once it reaches
/// twenty units.
proof fn lemma_zoom_out_component_strict(c: int)
    requires
        20 <= abs_int(c) <= MAX_CAM_COORD as int,
    ensures
        abs_int(div_trunc(c * ZOOM_OUT_FACTOR, SCALE as int)) > abs_int(c),
{
    lemma_div_trunc_bound(c * ZOOM_OUT_FACTOR, SCALE as int);
    assert(abs_int(c * ZOOM_OUT_FACTOR) == abs_int(c) * ZOOM_OUT_FACTOR) by (nonlinear_arith);
    assert(SCALE as int * (abs_int(c) + 1) <= abs_int(c) * ZOOM_OUT_FACTOR) by (nonlinear_arith)
        requires
            abs_int(c) >= 20,
    ;
    lemma_div_is_ordered(
        SCALE as int * (abs_int(c) + 1),
        abs_int(c) * ZOOM_OUT_FACTOR,
        SCALE as int,
    );
    lemma_div_multiples_vanish(abs_int(c) + 1, SCALE as int);
}

/// Smaller magnitude, no larger square.
proof fn lemma_sq_mono(a: int, b: int)
    by (nonlinear_arith)
    requires
        abs_int(b) >= abs_int(a),
    ensures
        b * b >= a * a,
{
}

/// Strictly larger magnitude, strictly larger square.
proof fn lemma_sq_strict_mono(a: int, b: int)
    by (nonlinear_arith)
    requires
        abs_int(b) > abs_int(a),
    ensures
        b * b > a * a,
{
}

/// A componentwise strict bound on the magnitudes gives a strict bound on
/// the squared norm, provided some component of the larger vector is
/// nonzero.
proof fn lemma_norm_sq_lt(q: V3, p: V3)
    requires
        abs_int(q.x) <= abs_int(p.x),
        abs_int(q.y) <= abs_int(p.y),
        abs_int(q.z) <= abs_int(p.z),
        p.x != 0 ==> abs_int(q.x) < abs_int(p.x),
        p.y != 0 ==> abs_int(q.y) < abs_int(p.y),
        p.z != 0 ==> abs_int(q.z) < abs_int(p.z),
        p.x != 0 || p.y != 0 || p.z != 0,
    ensures
        norm_sq(q) < norm_sq(p),
{
    lemma_sq_mono(q.x, p.x);
    lemma_sq_mono(q.y, p.y);
    lemma_sq_mono(q.z, p.z);
    if p.x != 0 {
        lemma_sq_strict_mono(q.x, p.x);
    } else if p.y != 0 {
        lemma_sq_strict_mono(q.y, p.y);
    } else {
        lemma_sq_strict_mono(q.z, p.z);
    }
}

} // verus!
