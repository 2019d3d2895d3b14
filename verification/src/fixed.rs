//! Fixed-point scalar arithmetic.
//!
//! A scalar quantity (a coordinate, a velocity component, a mass, a time
//! step) is stored as an `i64` holding `SCALE` units per world unit, so the
//! stored value `v` stands for the real number `v / SCALE`.  Products and
//! quotients of stored values are rescaled with [`muldiv`], which rounds
//! toward zero exactly as hardware integer division does.

use vstd::arithmetic::div_mod::{lemma_div_nonincreasing, lemma_div_pos_is_pos};
use vstd::prelude::*;

verus! {

/// Number of fixed-point units in one world unit.
pub const SCALE: i64 = 1_000_000;

/// Magnitude of `p`.
pub open spec fn abs_int(p: int) -> int {
    if p < 0 {
        -p
    } else {
        p
    }
}

/// Quotient of `p` by `q`, rounded toward zero (the rounding of Rust's `/`
/// on signed integers), defined for `q != 0`.
pub open spec fn div_trunc(p: int, q: int) -> int {
    if (p < 0) == (q < 0) {
        abs_int(p) / abs_int(q)
    } else {
        -(abs_int(p) / abs_int(q))
    }
}

/// Rounding toward zero never grows the magnitude of the exact quotient:
/// `|div_trunc(p, q)| <= |p| / |q|`, and the sign of the result follows the
/// signs of the operands.
pub proof fn lemma_div_trunc_bound(p: int, q: int)
    requires
        q > 0,
    ensures
        abs_int(div_trunc(p, q)) == abs_int(p) / q,
        abs_int(div_trunc(p, q)) <= abs_int(p),
        p >= 0 ==> div_trunc(p, q) == p / q,
{
    lemma_div_pos_is_pos(abs_int(p), q);
    lemma_div_nonincreasing(abs_int(p), q);
}

/// Truncating division is odd in its dividend: negating `p` negates the
/// quotient exactly (unlike Euclidean division).
pub proof fn lemma_div_trunc_neg(p: int, q: int)
    requires
        q > 0,
    ensures
        div_trunc(-p, q) == -div_trunc(p, q),
{
}

/// Truncation loses less than one divisor's worth of the dividend:
/// `|p - d * div_trunc(p, d)| < d`.
pub proof fn lemma_div_trunc_remainder(p: int, d: int)
    requires
        d > 0,
    ensures
        abs_int(p - d * div_trunc(p, d)) < d,
{
    let a = abs_int(p);
    let q = a / d;
    vstd::arithmetic::div_mod::lemma_fundamental_div_mod(a, d);
    vstd::arithmetic::div_mod::lemma_mod_pos_bound(a, d);
    if p >= 0 {
        assert(div_trunc(p, d) == q);
        assert(p - d * q == a % d);
    } else {
        assert(div_trunc(p, d) == -q);
        assert(d * (-q) == -(d * q)) by (nonlinear_arith);
        assert(p - d * (-q) == -(a - d * q));
        assert(p - d * (-q) == -(a % d));
    }
}

/// If `|p| <= d * cap` then the truncating quotient of `p` by `d` has
/// magnitude at most `cap`.
pub proof fn lemma_div_trunc_cap(p: int, d: int, cap: int)
    requires
        d > 0,
        cap >= 0,
        abs_int(p) <= d * cap,
    ensures
        abs_int(div_trunc(p, d)) <= cap,
{
    lemma_div_trunc_bound(p, d);
    vstd::arithmetic::div_mod::lemma_multiply_divide_le(abs_int(p), d, cap);
}

/// Quotient of `p` by `d`, rounded toward zero as Rust's signed `/` rounds.
pub fn div_trunc_i64(p: i64, d: i64) -> (r: i64)
    requires
        d > 0,
        p > i64::MIN,
    ensures
        r == div_trunc(p as int, d as int),
{
    if p >= 0 {
        let q: u64 = (p as u64) / (d as u64);
        proof {
            lemma_div_nonincreasing(p as int, d as int);
            lemma_div_pos_is_pos(p as int, d as int);
        }
        q as i64
    } else {
        let np: i64 = -p;
        let q: u64 = (np as u64) / (d as u64);
        proof {
            lemma_div_nonincreasing(np as int, d as int);
            lemma_div_pos_is_pos(np as int, d as int);
        }
        -(q as i64)
    }
}

/// `(a * b) / d` with truncation toward zero, the workhorse behind every
/// rescaling of fixed-point products and quotients.
pub fn muldiv(a: i64, b: i64, d: i64) -> (r: i64)
    requires
        d > 0,
        -0x7fff_ffff_ffff_ffff <= a * b <= 0x7fff_ffff_ffff_ffff,
    ensures
        r == div_trunc(a * b, d as int),
{
    let p: i64 = a * b;
    div_trunc_i64(p, d)
}

/// `(a1 * b1 + a2 * b2 + a3 * b3) / SCALE` with truncation toward zero: one
/// row of a matrix-vector product, or a fixed-point dot product, rounded
/// once after the exact integer accumulation.
pub fn dot3_div_scale(a1: i64, b1: i64, a2: i64, b2: i64, a3: i64, b3: i64) -> (r: i64)
    requires
        abs_int(a1 * b1) + abs_int(a2 * b2) + abs_int(a3 * b3) <= 0x7fff_ffff_ffff_ffff,
    ensures
        r == div_trunc(a1 * b1 + a2 * b2 + a3 * b3, SCALE as int),
{
    let p1: i64 = a1 * b1;
    let p2: i64 = a2 * b2;
    let p3: i64 = a3 * b3;
    let s: i64 = p1 + p2 + p3;
    div_trunc_i64(s, SCALE)
}

/// If `|a| <= bound_a` and `|b| <= bound_b` then `|a * b| <= bound_a * bound_b`.
pub proof fn lemma_abs_mul_le(a: int, b: int, bound_a: int, bound_b: int)
    by (nonlinear_arith)
    requires
        abs_int(a) <= bound_a,
        abs_int(b) <= bound_b,
    ensures
        abs_int(a * b) <= bound_a * bound_b,
{
}

/// Floor of the square root of `n`, the exact mathematical value that the
/// executable [`isqrt`] computes.
pub open spec fn sqrt_floor(n: int) -> int
    decreases n,
{
    if n <= 0 {
        0
    } else {
        let r = sqrt_floor(n - 1);
        if (r + 1) * (r + 1) <= n {
            r + 1
        } else {
            r
        }
    }
}

/// `sqrt_floor(n)` is the unique `r >= 0` with `r * r <= n < (r + 1) * (r + 1)`.
pub proof fn lemma_sqrt_floor_bounds(n: int)
    requires
        n >= 0,
    ensures
        sqrt_floor(n) >= 0,
        sqrt_floor(n) * sqrt_floor(n) <= n,
        n < (sqrt_floor(n) + 1) * (sqrt_floor(n) + 1),
    decreases n,
{
    if n > 0 {
        lemma_sqrt_floor_bounds(n - 1);
        let r = sqrt_floor(n - 1);
        if (r + 1) * (r + 1) <= n {
            assert(n < (r + 2) * (r + 2)) by (nonlinear_arith)
                requires
                    r >= 0,
                    n - 1 < (r + 1) * (r + 1),
                    (r + 1) * (r + 1) <= n,
            ;
        }
    }
}

/// No two distinct nonnegative integers both satisfy the square-root bounds.
pub proof fn lemma_sqrt_floor_unique(n: int, r: int)
    requires
        n >= 0,
        r >= 0,
        r * r <= n,
        n < (r + 1) * (r + 1),
    ensures
        r == sqrt_floor(n),
{
    lemma_sqrt_floor_bounds(n);
    let s = sqrt_floor(n);
    assert(r == s) by (nonlinear_arith)
        requires
            r >= 0,
            s >= 0,
            r * r <= n,
            n < (r + 1) * (r + 1),
            s * s <= n,
            n < (s + 1) * (s + 1),
    ;
}

/// A positive number has a positive square-root floor.
pub proof fn lemma_sqrt_floor_pos(n: int)
    requires
        n >= 1,
    ensures
        sqrt_floor(n) >= 1,
{
    lemma_sqrt_floor_bounds(n);
    let s = sqrt_floor(n);
    assert(s >= 1) by (nonlinear_arith)
        requires
            s >= 0,
            n < (s + 1) * (s + 1),
            n >= 1,
    ;
}

/// The square-root floor is monotone.
pub proof fn lemma_sqrt_floor_mono(a: int, b: int)
    requires
        0 <= a <= b,
    ensures
        sqrt_floor(a) <= sqrt_floor(b),
{
    lemma_sqrt_floor_bounds(a);
    lemma_sqrt_floor_bounds(b);
    let sa = sqrt_floor(a);
    let sb = sqrt_floor(b);
    assert(sa <= sb) by (nonlinear_arith)
        requires
            sa >= 0,
            sb >= 0,
            sa * sa <= a,
            a <= b,
            b < (sb + 1) * (sb + 1),
    ;
}

/// A perfect square has an exact root.
pub proof fn lemma_sqrt_floor_square(x: int)
    requires
        x >= 0,
    ensures
        sqrt_floor(x * x) == x,
{
    assert(x * x >= 0 && x * x < (x + 1) * (x + 1)) by (nonlinear_arith)
        requires
            x >= 0,
    ;
    lemma_sqrt_floor_unique(x * x, x);
}

/// Floor of the square root of `n`, by binary search on the root.
pub fn isqrt(n: u64) -> (r: u64)
    ensures
        r == sqrt_floor(n as int),
{
    if n == 0 {
        proof {
            lemma_sqrt_floor_unique(0, 0);
        }
        return 0;
    }
    let mut lo: u64 = 0;
    let mut hi: u64 = 0x1_0000_0000;
    proof {
        assert((0x1_0000_0000u64 as int) * (0x1_0000_0000u64 as int) == 0x1_0000_0000_0000_0000)
            by (nonlinear_arith);
    }
    while hi - lo > 1
        invariant
            0 <= lo < hi <= 0x1_0000_0000,
            (lo as int) * (lo as int) <= n as int,
            (n as int) < (hi as int) * (hi as int),
        decreases hi - lo,
    {
        let mid: u64 = lo + (hi - lo) / 2;
        proof {
            assert((mid as int) * (mid as int) <= (0xffff_ffffu64 as int) * (0xffff_ffffu64 as int))
                by (nonlinear_arith)
                requires
                    0 <= mid <= 0xffff_ffffu64,
            ;
        }
        if mid * mid <= n {
            lo = mid;
        } else {
            hi = mid;
        }
    }
    proof {
        lemma_sqrt_floor_unique(n as int, lo as int);
    }
    lo
}

} // verus!

