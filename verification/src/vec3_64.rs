//! A double-width (64-bit) fixed-point 3-component vector.
//!
//! `Vec3_64` is the value type for body positions, velocities and forces and
//! for the camera's working space.  Each component holds [`SCALE`] units per
//! world unit.  The mathematical model of a vector is [`V3`], a triple of
//! unbounded integers, and every operation's contract states the exact
//! resulting triple, rounding included.

use crate::fixed::{
    abs_int, div_trunc, div_trunc_i64, dot3_div_scale, isqrt, lemma_div_trunc_bound,
    lemma_sqrt_floor_bounds, lemma_sqrt_floor_mono, lemma_sqrt_floor_square, muldiv, sqrt_floor,
    SCALE,
};
use vstd::arithmetic::div_mod::{lemma_div_is_ordered, lemma_div_multiples_vanish};
use vstd::prelude::*;

verus! {

/// Largest component magnitude accepted by the norm-related operations:
/// keeps `x*x + y*y + z*z` and `x * SCALE` inside `i64`.
pub const MAX_VEC_COORD: i64 = 1_500_000_000;

/// The mathematical model of a [`Vec3_64`]: its components as unbounded
/// integers, still in fixed-point units.
pub ghost struct V3 {
    pub x: int,
    pub y: int,
    pub z: int,
}

/// The zero vector.
pub open spec fn vzero() -> V3 {
    V3 { x: 0, y: 0, z: 0 }
}

/// Componentwise sum.
pub open spec fn vadd(a: V3, b: V3) -> V3 {
    V3 { x: a.x + b.x, y: a.y + b.y, z: a.z + b.z }
}

/// Componentwise difference.
pub open spec fn vsub(a: V3, b: V3) -> V3 {
    V3 { x: a.x - b.x, y: a.y - b.y, z: a.z - b.z }
}

/// Componentwise negation.
pub open spec fn vneg(a: V3) -> V3 {
    V3 { x: -a.x, y: -a.y, z: -a.z }
}

/// Fixed-point scaling by `s`: each component becomes `c * s / SCALE`,
/// rounded toward zero.
pub open spec fn vscale(a: V3, s: int) -> V3 {
    V3 {
        x: div_trunc(a.x * s, SCALE as int),
        y: div_trunc(a.y * s, SCALE as int),
        z: div_trunc(a.z * s, SCALE as int),
    }
}

/// Fixed-point division by `s`: each component becomes `c * SCALE / s`,
/// rounded toward zero.
pub open spec fn vdiv_s(a: V3, s: int) -> V3 {
    V3 {
        x: div_trunc(a.x * SCALE, s),
        y: div_trunc(a.y * SCALE, s),
        z: div_trunc(a.z * SCALE, s),
    }
}

/// Squared Euclidean norm, without rescaling: for a vector in fixed-point
/// units this carries `SCALE * SCALE` units per squared world unit.
pub open spec fn norm_sq(a: V3) -> int {
    a.x * a.x + a.y * a.y + a.z * a.z
}

/// Euclidean norm in fixed-point units: the square-root floor of the raw
/// squared norm.
pub open spec fn vmag(a: V3) -> int {
    sqrt_floor(norm_sq(a))
}

/// Unit vector in the direction of `a` (components in `SCALE` units), or
/// the zero vector when `a` is zero.  Never divides by zero.
pub open spec fn vnormalize(a: V3) -> V3 {
    if norm_sq(a) == 0 {
        vzero()
    } else {
        vdiv_s(a, vmag(a))
    }
}

/// Cross product, rescaled once per component.
pub open spec fn vcross(a: V3, b: V3) -> V3 {
    V3 {
        x: div_trunc(a.y * b.z - a.z * b.y, SCALE as int),
        y: div_trunc(a.z * b.x - a.x * b.z, SCALE as int),
        z: div_trunc(a.x * b.y - a.y * b.x, SCALE as int),
    }
}

/// Dot product, rescaled once.
pub open spec fn vdot(a: V3, b: V3) -> int {
    div_trunc(a.x * b.x + a.y * b.y + a.z * b.z, SCALE as int)
}

/// Every component has magnitude at most `bound`.
pub open spec fn in_bounds(a: V3, bound: int) -> bool {
    abs_int(a.x) <= bound && abs_int(a.y) <= bound && abs_int(a.z) <= bound
}

/// A 3-component vector of 64-bit fixed-point coordinates.
#[derive(Debug, Clone, Copy, PartialEq, Eq, Structural)]
pub struct Vec3_64 {
    pub x: i64,
    pub y: i64,
    pub z: i64,
}

impl View for Vec3_64 {
    type V = V3;

    open spec fn view(&self) -> V3 {
        V3 { x: self.x as int, y: self.y as int, z: self.z as int }
    }
}

impl Vec3_64 {
    pub fn new(x: i64, y: i64, z: i64) -> (r: Self)
        ensures
            r@ == (V3 { x: x as int, y: y as int, z: z as int }),
    {
        Self { x, y, z }
    }

    /// The zero vector.
    pub fn zero() -> (r: Self)
        ensures
            r@ == vzero(),
    {
        Self { x: 0, y: 0, z: 0 }
    }

    /// Componentwise sum.
    pub fn add(self, rhs: Vec3_64) -> (r: Self)
        requires
            i64::MIN <= self@.x + rhs@.x <= i64::MAX,
            i64::MIN <= self@.y + rhs@.y <= i64::MAX,
            i64::MIN <= self@.z + rhs@.z <= i64::MAX,
        ensures
            r@ == vadd(self@, rhs@),
    {
        Self { x: self.x + rhs.x, y: self.y + rhs.y, z: self.z + rhs.z }
    }

    /// Componentwise difference.
    pub fn sub(self, rhs: Vec3_64) -> (r: Self)
        requires
            i64::MIN <= self@.x - rhs@.x <= i64::MAX,
            i64::MIN <= self@.y - rhs@.y <= i64::MAX,
            i64::MIN <= self@.z - rhs@.z <= i64::MAX,
        ensures
            r@ == vsub(self@, rhs@),
    {
        Self { x: self.x - rhs.x, y: self.y - rhs.y, z: self.z - rhs.z }
    }

    /// Fixed-point scaling by the scalar `rhs`.
    pub fn mul(self, rhs: i64) -> (r: Self)
        requires
            abs_int(self@.x * rhs) <= i64::MAX,
            abs_int(self@.y * rhs) <= i64::MAX,
            abs_int(self@.z * rhs) <= i64::MAX,
        ensures
            r@ == vscale(self@, rhs as int),
    {
        Self {
            x: muldiv(self.x, rhs, SCALE),
            y: muldiv(self.y, rhs, SCALE),
            z: muldiv(self.z, rhs, SCALE),
        }
    }

    /// Fixed-point division by the scalar `rhs`, which must not be zero.
    pub fn div(self, rhs: i64) -> (r: Self)
        requires
            rhs != 0,
            rhs > i64::MIN,
            abs_int(self@.x) * SCALE <= i64::MAX,
            abs_int(self@.y) * SCALE <= i64::MAX,
            abs_int(self@.z) * SCALE <= i64::MAX,
        ensures
            r@ == vdiv_s(self@, rhs as int),
    {
        let d: i64 = if rhs > 0 {
            rhs
        } else {
            -rhs
        };
        let r = Self {
            x: muldiv(self.x, SCALE, d),
            y: muldiv(self.y, SCALE, d),
            z: muldiv(self.z, SCALE, d),
        };
        if rhs > 0 {
            r
        } else {
            proof {
                lemma_abs_flip_divisor(self@.x * SCALE, d as int);
                lemma_abs_flip_divisor(self@.y * SCALE, d as int);
                lemma_abs_flip_divisor(self@.z * SCALE, d as int);
            }
            Self { x: -r.x, y: -r.y, z: -r.z }
        }
    }

    /// In-place componentwise sum, the accumulation step of the integrator.
    pub fn add_assign(&mut self, rhs: Vec3_64)
        requires
            i64::MIN <= old(self)@.x + rhs@.x <= i64::MAX,
            i64::MIN <= old(self)@.y + rhs@.y <= i64::MAX,
            i64::MIN <= old(self)@.z + rhs@.z <= i64::MAX,
        ensures
            final(self)@ == vadd(old(self)@, rhs@),
    {
        self.x = self.x + rhs.x;
        self.y = self.y + rhs.y;
        self.z = self.z + rhs.z;
    }

    /// Squared Euclidean norm, in `SCALE * SCALE` units per squared world
    /// unit (no rescaling, so no rounding).
    pub fn magnitude_squared(self) -> (r: i64)
        requires
            in_bounds(self@, MAX_VEC_COORD as int),
        ensures
            r == norm_sq(self@),
            r >= 0,
    {
        proof {
            lemma_norm_sq_fits(self@, MAX_VEC_COORD as int);
        }
        self.x * self.x + self.y * self.y + self.z * self.z
    }

    /// Euclidean norm, in fixed-point units.
    pub fn magnitude(self) -> (r: i64)
        requires
            in_bounds(self@, MAX_VEC_COORD as int),
        ensures
            r == vmag(self@),
            0 <= r <= 0x1_0000_0000,
    {
        let n = self.magnitude_squared();
        proof {
            lemma_sqrt_floor_bounds(n as int);
            let s = sqrt_floor(n as int);
            assert(s <= 0x1_0000_0000) by (nonlinear_arith)
                requires
                    s >= 0,
                    s * s <= n,
                    n <= i64::MAX,
            ;
        }
        isqrt(n as u64) as i64
    }

    /// Unit vector in the direction of `self`, or the zero vector when
    /// `self` is zero: the deliberate division-by-zero policy.
    pub fn normalize_or_zero(self) -> (r: Self)
        requires
            in_bounds(self@, MAX_VEC_COORD as int),
        ensures
            r@ == vnormalize(self@),
            in_bounds(r@, SCALE as int),
    {
        let m = self.magnitude();
        if m == 0 {
            proof {
                lemma_mag_zero_iff(self@);
            }
            Self::zero()
        } else {
            proof {
                lemma_mag_zero_iff(self@);
                lemma_norm_sq_fits(self@, MAX_VEC_COORD as int);
                lemma_normalized_in_bounds(self@);
                assert(abs_int(self@.x) * SCALE <= i64::MAX) by (nonlinear_arith)
                    requires
                        abs_int(self@.x) <= MAX_VEC_COORD,
                ;
                assert(abs_int(self@.y) * SCALE <= i64::MAX) by (nonlinear_arith)
                    requires
                        abs_int(self@.y) <= MAX_VEC_COORD,
                ;
                assert(abs_int(self@.z) * SCALE <= i64::MAX) by (nonlinear_arith)
                    requires
                        abs_int(self@.z) <= MAX_VEC_COORD,
                ;
            }
            self.div(m)
        }
    }

    /// Cross product.
    pub fn cross(self, rhs: Vec3_64) -> (r: Self)
        requires
            abs_int(self@.y * rhs@.z) + abs_int(self@.z * rhs@.y) <= i64::MAX,
            abs_int(self@.z * rhs@.x) + abs_int(self@.x * rhs@.z) <= i64::MAX,
            abs_int(self@.x * rhs@.y) + abs_int(self@.y * rhs@.x) <= i64::MAX,
        ensures
            r@ == vcross(self@, rhs@),
    {
        let px: i64 = self.y * rhs.z - self.z * rhs.y;
        let py: i64 = self.z * rhs.x - self.x * rhs.z;
        let pz: i64 = self.x * rhs.y - self.y * rhs.x;
        Self {
            x: div_trunc_i64(px, SCALE),
            y: div_trunc_i64(py, SCALE),
            z: div_trunc_i64(pz, SCALE),
        }
    }

    /// Dot product.
    pub fn dot(self, rhs: Vec3_64) -> (r: i64)
        requires
            abs_int(self@.x * rhs@.x) + abs_int(self@.y * rhs@.y) + abs_int(self@.z * rhs@.z)
                <= i64::MAX,
        ensures
            r == vdot(self@, rhs@),
    {
        dot3_div_scale(self.x, rhs.x, self.y, rhs.y, self.z, rhs.z)
    }
}

/// Flipping the sign of the divisor flips the sign of the truncating
/// quotient.
pub proof fn lemma_abs_flip_divisor(p: int, q: int)
    requires
        q > 0,
    ensures
        div_trunc(p, -q) == -div_trunc(p, q),
{
}

/// The raw squared norm of a vector within [`MAX_VEC_COORD`] fits in `i64`.
pub proof fn lemma_norm_sq_fits(a: V3, bound: int)
    by (nonlinear_arith)
    requires
        in_bounds(a, bound),
        0 <= bound <= MAX_VEC_COORD,
    ensures
        0 <= norm_sq(a) <= 3 * bound * bound,
        norm_sq(a) <= i64::MAX,
        0 <= a.x * a.x <= bound * bound,
        0 <= a.y * a.y <= bound * bound,
        0 <= a.z * a.z <= bound * bound,
        3 * bound * bound <= i64::MAX,
{
}

/// A vector's norm is zero exactly when the vector is zero.
pub proof fn lemma_mag_zero_iff(a: V3)
    ensures
        (vmag(a) == 0) <==> (norm_sq(a) == 0),
        (norm_sq(a) == 0) <==> (a == vzero()),
{
    assert(norm_sq(a) >= 0 && (norm_sq(a) == 0 <==> a.x == 0 && a.y == 0 && a.z == 0))
        by (nonlinear_arith);
    lemma_sqrt_floor_bounds(norm_sq(a));
    if norm_sq(a) > 0 {
        let s = sqrt_floor(norm_sq(a));
        assert(s > 0) by (nonlinear_arith)
            requires
                s >= 0,
                norm_sq(a) < (s + 1) * (s + 1),
                norm_sq(a) > 0,
        ;
    }
    if a.x == 0 && a.y == 0 && a.z == 0 {
        assert(a == vzero());
    }
}

/// Each component of a vector is bounded by the vector's norm, so a
/// normalized vector has components of at most `SCALE`.
pub proof fn lemma_normalized_in_bounds(a: V3)
    requires
        norm_sq(a) <= i64::MAX,
        norm_sq(a) != 0,
    ensures
        abs_int(a.x) <= vmag(a),
        abs_int(a.y) <= vmag(a),
        abs_int(a.z) <= vmag(a),
        vmag(a) > 0,
        in_bounds(vnormalize(a), SCALE as int),
{
    let m = vmag(a);
    lemma_mag_zero_iff(a);
    lemma_sqrt_floor_bounds(norm_sq(a));
    lemma_component_le_norm(a);
    lemma_normalize_component(a.x, m);
    lemma_normalize_component(a.y, m);
    lemma_normalize_component(a.z, m);
}

/// Dividing a component by a norm that dominates it yields at most `SCALE`.
proof fn lemma_normalize_component(c: int, m: int)
    requires
        abs_int(c) <= m,
        m > 0,
    ensures
        abs_int(div_trunc(c * SCALE, m)) <= SCALE as int,
{
    lemma_div_trunc_bound(c * SCALE, m);
    assert(abs_int(c * SCALE) <= m * SCALE) by (nonlinear_arith)
        requires
            abs_int(c) <= m,
            m > 0,
    ;
    lemma_div_is_ordered(abs_int(c * SCALE), m * SCALE, m);
    lemma_div_multiples_vanish(SCALE as int, m);
    assert(m * SCALE == SCALE * m) by (nonlinear_arith);
}

/// Bounds on two factors bound the cross product: its multiplications fit
/// in `i64` and the result stays within `cap` whenever
/// `2 * bound_a * bound_b <= SCALE * cap`.
pub proof fn lemma_cross_fits(a: V3, b: V3, bound_a: int, bound_b: int, cap: int)
    requires
        in_bounds(a, bound_a),
        in_bounds(b, bound_b),
        bound_a >= 0,
        bound_b >= 0,
        cap >= 0,
        2 * bound_a * bound_b <= i64::MAX,
        2 * bound_a * bound_b <= SCALE * cap,
    ensures
        abs_int(a.y * b.z) + abs_int(a.z * b.y) <= i64::MAX,
        abs_int(a.z * b.x) + abs_int(a.x * b.z) <= i64::MAX,
        abs_int(a.x * b.y) + abs_int(a.y * b.x) <= i64::MAX,
        in_bounds(vcross(a, b), cap),
{
    crate::fixed::lemma_abs_mul_le(a.x, b.y, bound_a, bound_b);
    crate::fixed::lemma_abs_mul_le(a.x, b.z, bound_a, bound_b);
    crate::fixed::lemma_abs_mul_le(a.y, b.x, bound_a, bound_b);
    crate::fixed::lemma_abs_mul_le(a.y, b.z, bound_a, bound_b);
    crate::fixed::lemma_abs_mul_le(a.z, b.x, bound_a, bound_b);
    crate::fixed::lemma_abs_mul_le(a.z, b.y, bound_a, bound_b);
    assert(2 * bound_a * bound_b == bound_a * bound_b + bound_a * bound_b) by (nonlinear_arith);
    crate::fixed::lemma_div_trunc_cap(a.y * b.z - a.z * b.y, SCALE as int, cap);
    crate::fixed::lemma_div_trunc_cap(a.z * b.x - a.x * b.z, SCALE as int, cap);
    crate::fixed::lemma_div_trunc_cap(a.x * b.y - a.y * b.x, SCALE as int, cap);
}

/// `|a.x|, |a.y|, |a.z| <= vmag(a)`: the norm dominates each component.
pub proof fn lemma_component_le_norm(a: V3)
    requires
        norm_sq(a) >= 0,
    ensures
        abs_int(a.x) <= vmag(a),
        abs_int(a.y) <= vmag(a),
        abs_int(a.z) <= vmag(a),
{
    assert(abs_int(a.x) * abs_int(a.x) <= norm_sq(a) && abs_int(a.y) * abs_int(a.y) <= norm_sq(a)
        && abs_int(a.z) * abs_int(a.z) <= norm_sq(a)) by (nonlinear_arith);
    lemma_sqrt_floor_square(abs_int(a.x));
    lemma_sqrt_floor_square(abs_int(a.y));
    lemma_sqrt_floor_square(abs_int(a.z));
    lemma_sqrt_floor_mono(abs_int(a.x) * abs_int(a.x), norm_sq(a));
    lemma_sqrt_floor_mono(abs_int(a.y) * abs_int(a.y), norm_sq(a));
    lemma_sqrt_floor_mono(abs_int(a.z) * abs_int(a.z), norm_sq(a));
}

} // verus!
