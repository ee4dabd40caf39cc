//! Fixed-point arithmetic on the plane: wraparound, rounding toward zero,
//! clamping, integer square roots and unit vectors in thousandths.

use vstd::prelude::*;
use vstd::arithmetic::div_mod::lemma_fundamental_div_mod_converse_mod;

verus! {

/// Thousandths per unit: a unit vector has length 1000.
pub const UNIT: i64 = 1000;

/// Largest magnitude of a coordinate or of a component of a displacement.
pub const MAX_COORD: i64 = 100_000_000;

/// `a` divided by a positive `b`, rounded toward zero.
pub open spec fn trunc_div(a: int, b: int) -> int {
    if a >= 0 {
        a / b
    } else {
        -((-a) / b)
    }
}

/// `v` confined to `[-limit, limit]`.
pub open spec fn clamp(v: int, limit: int) -> int {
    if v > limit {
        limit
    } else if v < -limit {
        -limit
    } else {
        v
    }
}

/// The largest `r` with `r * r <= n`.
pub open spec fn is_sqrt_floor(n: int, r: int) -> bool {
    0 <= r && r * r <= n && n < (r + 1) * (r + 1)
}

/// The square of the distance between two points.
pub open spec fn dist2(a: (i64, i64), b: (i64, i64)) -> int {
    (a.0 - b.0) * (a.0 - b.0) + (a.1 - b.1) * (a.1 - b.1)
}

/// The unit vector, in thousandths, along `(dx, dy)` whose floored length is
/// `len`; the zero vector where `len` is zero.
pub open spec fn unit_toward(dx: int, dy: int, len: int) -> (int, int) {
    if len == 0 {
        (0, 0)
    } else {
        (trunc_div(dx * 1000, len), trunc_div(dy * 1000, len))
    }
}

/// `u` is the unit vector, in thousandths, along `(dx, dy)`.
pub open spec fn is_unit_toward(dx: int, dy: int, u: (i64, i64)) -> bool {
    exists|len: int| #[trigger]
        is_sqrt_floor(dx * dx + dy * dy, len) && (u.0 as int, u.1 as int) == unit_toward(
            dx,
            dy,
            len,
        )
}

/// The representative of `a` modulo `b` in `[0, b)`, also for negative `a`: the
/// wraparound of a toroidal world.
pub fn modulus(a: i64, b: i64) -> (r: i64)
    requires
        b > 0,
    ensures
        0 <= r < b,
        r == a as int % b as int,
{
    if a >= 0 {
        a % b
    } else {
        let t: i64 = -(a + 1);
        let m: i64 = t % b;
        let q: i64 = t / b;
        proof {
            let r = b - 1 - m;
            assert(t == q * b + m) by (nonlinear_arith)
                requires
                    q == t as int / b as int,
                    m == t as int % b as int,
                    b > 0,
            ;
            assert(a == (-(q + 1)) * b + r) by (nonlinear_arith)
                requires
                    t == q * b + m,
                    a == -t - 1,
                    r == b - 1 - m,
            ;
            lemma_fundamental_div_mod_converse_mod(a as int, b as int, -(q + 1), r as int);
        }
        b - 1 - m
    }
}

/// Divides by a positive number, rounding toward zero.
pub fn div_toward_zero(a: i64, b: i64) -> (r: i64)
    requires
        b > 0,
        a > i64::MIN,
    ensures
        r == trunc_div(a as int, b as int),
        -abs(a as int) <= r <= abs(a as int),
{
    if a >= 0 {
        let r: i64 = a / b;
        proof {
            assert(0 <= a as int / b as int <= a) by (nonlinear_arith)
                requires
                    a >= 0,
                    b > 0,
            ;
        }
        r
    } else {
        let n: i64 = -a;
        let r: i64 = n / b;
        proof {
            assert(0 <= n as int / b as int <= n) by (nonlinear_arith)
                requires
                    n >= 0,
                    b > 0,
            ;
        }
        -r
    }
}

/// Absolute value.
pub open spec fn abs(v: int) -> int {
    if v >= 0 {
        v
    } else {
        -v
    }
}

/// Confines `v` to `[-limit, limit]`.
pub fn clamp_to(v: i64, limit: i64) -> (r: i64)
    requires
        limit >= 0,
    ensures
        r == clamp(v as int, limit as int),
        -limit <= r <= limit,
{
    if v > limit {
        limit
    } else if v < -limit {
        -limit
    } else {
        v
    }
}

/// The integer square root, rounded down.
pub fn isqrt(n: u64) -> (r: u64)
    requires
        n <= 80_000_000_000_000_000,
    ensures
        is_sqrt_floor(n as int, r as int),
        r <= 300_000_000,
{
    let mut lo: u64 = 0;
    let mut hi: u64 = 300_000_001;
    assert(n < 300_000_001 * 300_000_001) by (nonlinear_arith)
        requires
            n <= 80_000_000_000_000_000,
    ;
    while hi - lo > 1
        invariant
            lo < hi <= 300_000_001,
            lo * lo <= n,
            n < hi * hi,
        decreases hi - lo,
    {
        let mid: u64 = lo + (hi - lo) / 2;
        assert(mid * mid <= 300_000_001 * 300_000_001) by (nonlinear_arith)
            requires
                mid <= 300_000_001,
        ;
        if mid * mid <= n {
            lo = mid;
        } else {
            hi = mid;
        }
    }
    lo
}

/// The squared distance between two points within the coordinate bound.
pub fn distance_squared(a: (i64, i64), b: (i64, i64)) -> (d: i64)
    requires
        -MAX_COORD <= a.0 <= MAX_COORD,
        -MAX_COORD <= a.1 <= MAX_COORD,
        -MAX_COORD <= b.0 <= MAX_COORD,
        -MAX_COORD <= b.1 <= MAX_COORD,
    ensures
        d == dist2(a, b),
        0 <= d <= 80_000_000_000_000_000,
{
    let dx: i64 = a.0 - b.0;
    let dy: i64 = a.1 - b.1;
    assert(0 <= dx * dx <= 40_000_000_000_000_000) by (nonlinear_arith)
        requires
            -200_000_000 <= dx <= 200_000_000,
    ;
    assert(0 <= dy * dy <= 40_000_000_000_000_000) by (nonlinear_arith)
        requires
            -200_000_000 <= dy <= 200_000_000,
    ;
    dx * dx + dy * dy
}

/// The unit vector, in thousandths, that points along `(dx, dy)`: each component
/// times 1000 over the floored length, rounded toward zero. The zero vector has
/// no direction and is returned as it is.
pub fn normalize(dx: i64, dy: i64) -> (u: (i64, i64))
    requires
        -2 * MAX_COORD <= dx <= 2 * MAX_COORD,
        -2 * MAX_COORD <= dy <= 2 * MAX_COORD,
    ensures
        is_unit_toward(dx as int, dy as int, u),
        -UNIT <= u.0 <= UNIT,
        -UNIT <= u.1 <= UNIT,
        (dx == 0 && dy == 0) ==> u == (0i64, 0i64),
{
    assert(0 <= dx * dx <= 40_000_000_000_000_000) by (nonlinear_arith)
        requires
            -200_000_000 <= dx <= 200_000_000,
    ;
    assert(0 <= dy * dy <= 40_000_000_000_000_000) by (nonlinear_arith)
        requires
            -200_000_000 <= dy <= 200_000_000,
    ;
    let d2: i64 = dx * dx + dy * dy;
    let len: u64 = isqrt(d2 as u64);
    if len == 0 {
        assert(dx * dx + dy * dy < 1) by (nonlinear_arith)
            requires
                d2 == dx * dx + dy * dy,
                d2 < (len + 1) * (len + 1),
                len == 0,
        ;
        assert(dx == 0 && dy == 0) by (nonlinear_arith)
            requires
                dx * dx + dy * dy < 1,
        ;
        (0, 0)
    } else {
        let l: i64 = len as i64;
        let ux: i64 = div_toward_zero(dx * 1000, l);
        let uy: i64 = div_toward_zero(dy * 1000, l);
        proof {
            lemma_unit_component(dx as int, dy as int, l as int);
            lemma_unit_component(dy as int, dx as int, l as int);
            assert(is_sqrt_floor(dx * dx + dy * dy, l as int));
        }
        (ux, uy)
    }
}

/// A component of a vector is at most the vector's length, so that the matching
/// component of the unit vector stays within one unit.
pub proof fn lemma_unit_component(dx: int, dy: int, len: int)
    requires
        len > 0,
        is_sqrt_floor(dx * dx + dy * dy, len) || is_sqrt_floor(dy * dy + dx * dx, len),
    ensures
        -1000 <= trunc_div(dx * 1000, len) <= 1000,
{
    let a = abs(dx);
    assert(a * a == dx * dx) by (nonlinear_arith)
        requires
            a == dx || a == -dx,
    ;
    assert(a <= len) by (nonlinear_arith)
        requires
            a * a + dy * dy < (len + 1) * (len + 1),
            a >= 0,
            len > 0,
    ;
    assert((a * 1000) / len <= 1000) by (nonlinear_arith)
        requires
            0 <= a <= len,
            len > 0,
    ;
    assert((a * 1000) / len >= 0) by (nonlinear_arith)
        requires
            0 <= a,
            len > 0,
    ;
    if dx >= 0 {
        assert(dx * 1000 == a * 1000);
    } else {
        assert(-(dx * 1000) == a * 1000);
    }
}

} // verus!
