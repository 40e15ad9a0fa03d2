//! Fixed-point 3D vectors.
//!
//! Components are `i64` micro-units: `SCALE` ticks stand for one world unit,
//! so a unit-length direction has component magnitudes at most `SCALE`.
//! Normalization divides by the floor integer square root of the squared
//! norm, which keeps every operation exact and overflow-checked.

use vstd::prelude::*;

verus! {

/// Number of fixed-point ticks in one world unit (or one radian).
pub const SCALE: i64 = 1_000_000;

/// Largest component magnitude accepted by `normalize_or_zero`; keeps the
/// squared norm within `u64` range.
pub const MAX_COMPONENT: i64 = 2_000_000_000;

#[derive(Clone, Copy, Debug, PartialEq, Eq, Structural)]
pub struct Vec3Fx {
    pub x: i64,
    pub y: i64,
    pub z: i64,
}

/// Magnitude of a mathematical integer.
pub open spec fn abs_val(a: int) -> int {
    if a >= 0 {
        a
    } else {
        -a
    }
}

/// Squared Euclidean norm of a vector, as a mathematical integer.
pub open spec fn norm_sq(v: Vec3Fx) -> int {
    v.x * v.x + v.y * v.y + v.z * v.z
}

/// Floor of the square root: the largest `r >= 0` with `r * r <= n`.
pub open spec fn sqrt_floor(n: int) -> int
    decreases n,
{
    if n <= 0 {
        0
    } else if (sqrt_floor(n - 1) + 1) * (sqrt_floor(n - 1) + 1) <= n {
        sqrt_floor(n - 1) + 1
    } else {
        sqrt_floor(n - 1)
    }
}

/// Fixed-point division of `a * SCALE` by a positive length, rounding the
/// magnitude down and keeping the sign of `a`.
pub open spec fn scaled_div(a: int, len: int) -> int {
    if a >= 0 {
        (a * SCALE) / len
    } else {
        -(((-a) * SCALE) / len)
    }
}

/// One component of the normalized vector: zero when the squared norm is
/// zero, otherwise the component scaled to unit length.
pub open spec fn unit_comp(a: int, nsq: int) -> int {
    if nsq == 0 {
        0
    } else {
        scaled_div(a, sqrt_floor(nsq))
    }
}

/// All components within `normalize_or_zero`'s accepted range.
pub open spec fn in_normalize_range(v: Vec3Fx) -> bool {
    &&& -MAX_COMPONENT <= v.x <= MAX_COMPONENT
    &&& -MAX_COMPONENT <= v.y <= MAX_COMPONENT
    &&& -MAX_COMPONENT <= v.z <= MAX_COMPONENT
}

proof fn lemma_neg_square(a: int)
    by (nonlinear_arith)
    ensures
        (-a) * (-a) == a * a,
{
}

pub proof fn lemma_square_nonneg(a: int)
    by (nonlinear_arith)
    ensures
        a * a >= 0,
{
}

pub proof fn lemma_sqrt_floor_bounds(n: int)
    requires
        n >= 0,
    ensures
        sqrt_floor(n) >= 0,
        sqrt_floor(n) * sqrt_floor(n) <= n,
        n < (sqrt_floor(n) + 1) * (sqrt_floor(n) + 1),
    decreases n,
{
    if n == 0 {
    } else {
        lemma_sqrt_floor_bounds(n - 1);
        let r1 = sqrt_floor(n - 1);
        if (r1 + 1) * (r1 + 1) <= n {
            assert((r1 + 1) * (r1 + 1) < (r1 + 2) * (r1 + 2)) by (nonlinear_arith)
                requires
                    r1 >= 0,
            ;
        }
    }
}

pub proof fn lemma_sqrt_floor_unique(n: int, r: int)
    requires
        0 <= r,
        r * r <= n,
        n < (r + 1) * (r + 1),
    ensures
        r == sqrt_floor(n),
{
    lemma_sqrt_floor_bounds(n);
    let s = sqrt_floor(n);
    if r < s {
        assert((r + 1) * (r + 1) <= s * s) by (nonlinear_arith)
            requires
                0 <= r + 1 <= s,
        ;
    }
    if s < r {
        assert((s + 1) * (s + 1) <= r * r) by (nonlinear_arith)
            requires
                0 <= s + 1 <= r,
        ;
    }
}

/// A non-negative number whose square is at most `n` is at most the floor
/// square root of `n`.
pub proof fn lemma_square_le_sqrt(a: int, n: int)
    requires
        0 <= a,
        a * a <= n,
    ensures
        a <= sqrt_floor(n),
{
    lemma_sqrt_floor_bounds(n);
    let s = sqrt_floor(n);
    if s < a {
        assert((s + 1) * (s + 1) <= a * a) by (nonlinear_arith)
            requires
                0 <= s + 1 <= a,
        ;
    }
}

/// A zero component normalizes to zero, whatever the rest of the vector is.
pub proof fn lemma_unit_comp_zero(nsq: int)
    requires
        nsq >= 0,
    ensures
        unit_comp(0, nsq) == 0,
{
    if nsq != 0 {
        lemma_sqrt_floor_bounds(nsq);
        let len = sqrt_floor(nsq);
        assert(len >= 1) by (nonlinear_arith)
            requires
                len >= 0,
                nsq < (len + 1) * (len + 1),
                nsq >= 1,
        ;
        vstd::arithmetic::div_mod::lemma_div_of0(len);
    }
}

/// Floor integer square root by bisection.
pub fn isqrt(n: u64) -> (r: u64)
    ensures
        r == sqrt_floor(n as int),
{
    proof {
        lemma_sqrt_floor_bounds(n as int);
    }
    if n == 0 {
        return 0;
    }
    let mut lo: u64 = 0;
    let mut hi: u64 = 4294967296;
    while lo + 1 < hi
        invariant
            lo < hi <= 4294967296,
            (lo as int) * (lo as int) <= n as int,
            (n as int) < (hi as int) * (hi as int),
        decreases hi - lo,
    {
        let mid: u64 = lo + (hi - lo) / 2;
        proof {
            assert((mid as int) * (mid as int) <= 18446744065119617025) by (nonlinear_arith)
                requires
                    mid <= 4294967295,
            ;
        }
        let sq: u64 = mid * mid;
        if sq <= n {
            lo = mid;
        } else {
            hi = mid;
        }
    }
    proof {
        lemma_sqrt_floor_unique(n as int, lo as int);
    }
    lo
}

/// Magnitude of a component as an unsigned number.
fn magnitude(a: i64) -> (r: u64)
    requires
        a > i64::MIN,
    ensures
        r == abs_val(a as int),
{
    if a < 0 {
        (-a) as u64
    } else {
        a as u64
    }
}

impl Vec3Fx {
    pub fn new(x: i64, y: i64, z: i64) -> (r: Vec3Fx)
        ensures
            r.x == x,
            r.y == y,
            r.z == z,
    {
        Vec3Fx { x, y, z }
    }

    /// Component-wise sum.
    pub fn plus(&self, other: &Vec3Fx) -> (r: Vec3Fx)
        requires
            i64::MIN <= self.x + other.x <= i64::MAX,
            i64::MIN <= self.y + other.y <= i64::MAX,
            i64::MIN <= self.z + other.z <= i64::MAX,
        ensures
            r.x == self.x + other.x,
            r.y == self.y + other.y,
            r.z == self.z + other.z,
    {
        Vec3Fx { x: self.x + other.x, y: self.y + other.y, z: self.z + other.z }
    }

    /// Component-wise negation.
    pub fn negate(&self) -> (r: Vec3Fx)
        requires
            self.x > i64::MIN,
            self.y > i64::MIN,
            self.z > i64::MIN,
        ensures
            r.x == -self.x,
            r.y == -self.y,
            r.z == -self.z,
    {
        Vec3Fx { x: -self.x, y: -self.y, z: -self.z }
    }
}

/// Scale a vector to unit length (component magnitudes at most `SCALE`),
/// or return the zero vector when the input is zero.
pub fn normalize_or_zero(v: &Vec3Fx) -> (r: Vec3Fx)
    requires
        in_normalize_range(*v),
    ensures
        r.x == unit_comp(v.x as int, norm_sq(*v)),
        r.y == unit_comp(v.y as int, norm_sq(*v)),
        r.z == unit_comp(v.z as int, norm_sq(*v)),
        -SCALE <= r.x <= SCALE,
        -SCALE <= r.y <= SCALE,
        -SCALE <= r.z <= SCALE,
{
    let ax: u64 = magnitude(v.x);
    let ay: u64 = magnitude(v.y);
    let az: u64 = magnitude(v.z);
    proof {
        if v.x < 0 {
            lemma_neg_square(v.x as int);
        }
        if v.y < 0 {
            lemma_neg_square(v.y as int);
        }
        if v.z < 0 {
            lemma_neg_square(v.z as int);
        }
        assert((ax as int) * (ax as int) <= 4000000000000000000 && (ay as int) * (ay as int)
            <= 4000000000000000000 && (az as int) * (az as int) <= 4000000000000000000)
            by (nonlinear_arith)
            requires
                ax <= 2000000000,
                ay <= 2000000000,
                az <= 2000000000,
        ;
    }
    let n2: u64 = ax * ax + ay * ay + az * az;
    assert(n2 == norm_sq(*v));
    if n2 == 0 {
        return Vec3Fx { x: 0, y: 0, z: 0 };
    }
    let len: u64 = isqrt(n2);
    proof {
        lemma_sqrt_floor_bounds(n2 as int);
        lemma_square_nonneg(ax as int);
        lemma_square_nonneg(ay as int);
        lemma_square_nonneg(az as int);
        lemma_square_le_sqrt(ax as int, n2 as int);
        lemma_square_le_sqrt(ay as int, n2 as int);
        lemma_square_le_sqrt(az as int, n2 as int);
        assert(len >= 1) by (nonlinear_arith)
            requires
                len >= 0,
                (n2 as int) < ((len as int) + 1) * ((len as int) + 1),
                n2 >= 1,
        ;
    }
    let qx: u64 = scaled_quotient(ax, len);
    let qy: u64 = scaled_quotient(ay, len);
    let qz: u64 = scaled_quotient(az, len);
    let rx: i64 = if v.x < 0 {
        -(qx as i64)
    } else {
        qx as i64
    };
    let ry: i64 = if v.y < 0 {
        -(qy as i64)
    } else {
        qy as i64
    };
    let rz: i64 = if v.z < 0 {
        -(qz as i64)
    } else {
        qz as i64
    };
    Vec3Fx { x: rx, y: ry, z: rz }
}

/// Quotient `a * SCALE / len` for one non-negative component magnitude,
/// bounded by `SCALE` whenever `a <= len`.
fn scaled_quotient(a: u64, len: u64) -> (q: u64)
    requires
        a <= 2000000000,
        0 < len,
        a <= len,
    ensures
        q == (a * SCALE) / (len as int),
        q <= SCALE,
{
    proof {
        assert((a as int) * SCALE <= 2000000000000000 && (a as int) * SCALE <= (len as int)
            * SCALE) by (nonlinear_arith)
            requires
                a <= 2000000000,
                a <= len,
                SCALE == 1000000,
        ;
    }
    let num: u64 = a * (SCALE as u64);
    let q: u64 = num / len;
    proof {
        vstd::arithmetic::div_mod::lemma_div_is_ordered(
            (a as int) * SCALE,
            (len as int) * SCALE,
            len as int,
        );
        vstd::arithmetic::div_mod::lemma_div_multiples_vanish(SCALE as int, len as int);
    }
    q
}

} // verus!
