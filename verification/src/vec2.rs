//! Fixed-point 2-D vectors and the integer arithmetic the engine is built on:
//! truncating division, integer square roots, and the scaled unit vector.
//!
//! Coordinates are carried in thousandths of a world unit ([`SCALE`] parts per
//! unit), so a vector of length one world unit has integer norm [`SCALE`].

use vstd::prelude::*;

verus! {

/// Fixed-point resolution: coordinate values per world unit.
pub const SCALE: i64 = 1000;

/// A 2-D vector in fixed-point coordinates.
#[derive(Clone, Copy, Debug, PartialEq, Eq, Structural)]
pub struct Vec2 {
    pub x: i64,
    pub y: i64,
}

/// Mathematical model of a [`Vec2`]: the same point over unbounded integers.
pub ghost struct Vec2v {
    pub x: int,
    pub y: int,
}

impl View for Vec2 {
    type V = Vec2v;

    open spec fn view(&self) -> Vec2v {
        Vec2v { x: self.x as int, y: self.y as int }
    }
}

/// Division that truncates toward zero (the fixed-point rounding used
/// throughout the engine), defined for positive divisors.
pub open spec fn div_t(a: int, b: int) -> int {
    if a >= 0 {
        a / b
    } else {
        -((-a) / b)
    }
}

/// The integer square root: the largest `r >= 0` with `r * r <= n`.
pub open spec fn isqrt_spec(n: int) -> int
    decreases n,
{
    if n <= 0 {
        0
    } else {
        let r = isqrt_spec(n - 1);
        if (r + 1) * (r + 1) <= n {
            r + 1
        } else {
            r
        }
    }
}

impl Vec2v {
    pub open spec fn zero() -> Vec2v {
        Vec2v { x: 0, y: 0 }
    }

    pub open spec fn plus(self, o: Vec2v) -> Vec2v {
        Vec2v { x: self.x + o.x, y: self.y + o.y }
    }

    pub open spec fn minus(self, o: Vec2v) -> Vec2v {
        Vec2v { x: self.x - o.x, y: self.y - o.y }
    }

    /// The squared Euclidean length.
    pub open spec fn norm2(self) -> int {
        self.x * self.x + self.y * self.y
    }

    /// The Euclidean length rounded down to an integer.
    pub open spec fn norm(self) -> int {
        isqrt_spec(self.norm2())
    }
}

/// The squared distance between two points.
pub open spec fn dist2(a: Vec2v, b: Vec2v) -> int {
    a.minus(b).norm2()
}

/// The unit vector of `v` in fixed-point form: `v` scaled to length [`SCALE`]
/// (meaningful when `v.norm() > 0`).
pub open spec fn unit_scaled(v: Vec2v) -> Vec2v {
    let d = v.norm();
    Vec2v { x: div_t(v.x * SCALE, d), y: div_t(v.y * SCALE, d) }
}

/// `isqrt_spec` is characterized by the two bracketing inequalities.
pub proof fn lemma_isqrt_spec(n: int)
    requires
        n >= 0,
    ensures
        0 <= isqrt_spec(n),
        isqrt_spec(n) * isqrt_spec(n) <= n,
        n < (isqrt_spec(n) + 1) * (isqrt_spec(n) + 1),
    decreases n,
{
    if n > 0 {
        lemma_isqrt_spec(n - 1);
        let r = isqrt_spec(n - 1);
        if (r + 1) * (r + 1) <= n {
            assert((r + 2) * (r + 2) > n) by (nonlinear_arith)
                requires
                    r >= 0,
                    n - 1 < (r + 1) * (r + 1);
        }
    }
}

/// The bracketing inequalities pin the integer square root down uniquely.
pub proof fn lemma_isqrt_unique(n: int, r: int)
    requires
        0 <= r,
        r * r <= n,
        n < (r + 1) * (r + 1),
    ensures
        r == isqrt_spec(n),
{
    lemma_isqrt_spec(n);
    let q = isqrt_spec(n);
    if r < q {
        assert((r + 1) * (r + 1) <= q * q) by (nonlinear_arith)
            requires
                0 <= r < q;
        assert(false);
    }
    if q < r {
        assert((q + 1) * (q + 1) <= r * r) by (nonlinear_arith)
            requires
                0 <= q < r;
        assert(false);
    }
}

/// No component of a vector is longer than the whole vector.
pub proof fn lemma_component_le_norm(v: Vec2v)
    ensures
        -v.norm() <= v.x <= v.norm(),
        -v.norm() <= v.y <= v.norm(),
        v.norm() >= 0,
{
    assert(v.norm2() >= v.x * v.x && v.norm2() >= v.y * v.y) by (nonlinear_arith);
    lemma_isqrt_spec(v.norm2());
    let r = v.norm();
    assert(v.x * v.x < (r + 1) * (r + 1) ==> -r <= v.x <= r) by (nonlinear_arith)
        requires
            r >= 0;
    assert(v.y * v.y < (r + 1) * (r + 1) ==> -r <= v.y <= r) by (nonlinear_arith)
        requires
            r >= 0;
}

/// A value bracketed by squares brackets its integer square root.
pub proof fn lemma_isqrt_between(n: int, lo: int, hi: int)
    requires
        0 <= lo <= hi,
        lo * lo <= n,
        n < (hi + 1) * (hi + 1),
    ensures
        lo <= isqrt_spec(n) <= hi,
{
    lemma_isqrt_spec(n);
    let q = isqrt_spec(n);
    if q < lo {
        assert((q + 1) * (q + 1) <= lo * lo) by (nonlinear_arith)
            requires
                0 <= q < lo;
        assert(false);
    }
    if q > hi {
        assert(hi * hi < q * q && (hi + 1) * (hi + 1) <= q * q) by (nonlinear_arith)
            requires
                0 <= hi < q;
        assert(false);
    }
}

/// Truncating division lands within one divisor of the exact quotient and
/// never crosses zero.
pub proof fn lemma_div_t_near(m: int, r: int)
    requires
        r >= 1,
    ensures
        m >= 0 ==> div_t(m, r) >= 0 && m - (r - 1) <= r * div_t(m, r) <= m,
        m < 0 ==> div_t(m, r) <= 0 && m <= r * div_t(m, r) <= m + (r - 1),
{
    if m >= 0 {
        vstd::arithmetic::div_mod::lemma_fundamental_div_mod(m, r);
        vstd::arithmetic::div_mod::lemma_mod_bound(m, r);
        assert(m / r >= 0) by (nonlinear_arith)
            requires
                r >= 1,
                m >= 0;
    } else {
        vstd::arithmetic::div_mod::lemma_fundamental_div_mod(-m, r);
        vstd::arithmetic::div_mod::lemma_mod_bound(-m, r);
        let k = (-m) / r;
        assert(k >= 0) by (nonlinear_arith)
            requires
                r >= 1,
                k == (-m) / r,
                -m >= 0;
        assert(div_t(m, r) == -k);
        assert(r * (-k) == -(r * k)) by (nonlinear_arith);
    }
}

/// Truncating division moves a value toward zero and never past it:
/// the quotient's magnitude is bounded by any bound on `|a| / b`.
pub proof fn lemma_div_t_bound(a: int, b: int, c: int)
    requires
        b > 0,
        -(c * b) <= a <= c * b,
        c >= 0,
    ensures
        -c <= div_t(a, b) <= c,
{
    if a >= 0 {
        assert(0 <= a / b <= c) by (nonlinear_arith)
            requires
                b > 0,
                0 <= a <= c * b,
                c >= 0;
    } else {
        assert(0 <= (-a) / b <= c) by (nonlinear_arith)
            requires
                b > 0,
                0 <= -a <= c * b,
                c >= 0;
    }
}

/// Computes the integer square root of `n`.
pub fn isqrt(n: u128) -> (r: u64)
    requires
        n < 0x4000_0000_0000_0000_0000_0000_0000_0000u128,
    ensures
        r == isqrt_spec(n as int),
        r * r <= n < (r + 1) * (r + 1),
{
    let mut lo: u64 = 0;
    let mut hi: u64 = 0x7fff_ffff_ffff_ffffu64;
    while lo < hi
        invariant
            lo <= hi <= 0x7fff_ffff_ffff_ffffu64,
            (lo as int) * (lo as int) <= n as int,
            (n as int) < ((hi as int) + 1) * ((hi as int) + 1),
        decreases hi - lo,
    {
        let mid: u64 = lo + (hi - lo + 1) / 2;
        proof {
            assert((mid as int) * (mid as int) <= 0x4000_0000_0000_0000_0000_0000_0000_0000int)
                by (nonlinear_arith)
                requires
                    0 <= mid <= 0x8000_0000_0000_0000int;
        }
        let m2: u128 = (mid as u128) * (mid as u128);
        if m2 <= n {
            lo = mid;
        } else {
            hi = mid - 1;
        }
    }
    proof {
        lemma_isqrt_unique(n as int, lo as int);
    }
    lo
}

/// Computes the fixed-point unit vector of a non-zero `v`: `v` scaled to
/// length [`SCALE`], each component rounded toward zero.
pub fn normalize_scaled(v: Vec2) -> (r: Vec2)
    requires
        v@.norm2() >= 1,
        -4_000_000_000 <= v.x <= 4_000_000_000,
        -4_000_000_000 <= v.y <= 4_000_000_000,
    ensures
        r@ == unit_scaled(v@),
        -SCALE <= r.x <= SCALE,
        -SCALE <= r.y <= SCALE,
{
    proof {
        assert(0 <= (v.x as int) * (v.x as int) <= 16_000_000_000_000_000_000int)
            by (nonlinear_arith)
            requires
                -4_000_000_000 <= v.x as int <= 4_000_000_000;
        assert(0 <= (v.y as int) * (v.y as int) <= 16_000_000_000_000_000_000int)
            by (nonlinear_arith)
            requires
                -4_000_000_000 <= v.y as int <= 4_000_000_000;
    }
    let n2: i128 = (v.x as i128) * (v.x as i128) + (v.y as i128) * (v.y as i128);
    proof {
        assert((v.x as i128) as int == v.x as int && (v.y as i128) as int == v.y as int);
        assert(n2 as int == v@.norm2());
        assert(1 <= n2 as int <= 32_000_000_000_000_000_000int);
        assert((n2 as u128) as int == n2 as int);
    }
    let d64 = isqrt(n2 as u128);
    proof {
        lemma_isqrt_spec(n2 as int);
        assert(d64 >= 1) by (nonlinear_arith)
            requires
                n2 as int >= 1,
                d64 as int >= 0,
                (d64 as int + 1) * (d64 as int + 1) > n2 as int;
        assert(d64 < 6_000_000_000u64) by (nonlinear_arith)
            requires
                0 <= d64 as int,
                (d64 as int) * (d64 as int) <= 32_000_000_000_000_000_000int;
        lemma_component_le_norm(v@);
        assert(-((SCALE as int) * (d64 as int)) <= (v.x as int) * (SCALE as int) <= (SCALE as int)
            * (d64 as int)) by (nonlinear_arith)
            requires
                -(d64 as int) <= v.x as int <= d64 as int,
                SCALE as int > 0;
        assert(-((SCALE as int) * (d64 as int)) <= (v.y as int) * (SCALE as int) <= (SCALE as int)
            * (d64 as int)) by (nonlinear_arith)
            requires
                -(d64 as int) <= v.y as int <= d64 as int,
                SCALE as int > 0;
        lemma_div_t_bound((v.x * SCALE) as int, d64 as int, SCALE as int);
        lemma_div_t_bound((v.y * SCALE) as int, d64 as int, SCALE as int);
    }
    let d = d64 as i64;
    Vec2 { x: div_trunc(v.x * SCALE, d), y: div_trunc(v.y * SCALE, d) }
}

/// Computes `a / b` rounded toward zero.
pub fn div_trunc(a: i64, b: i64) -> (q: i64)
    requires
        b > 0,
        a > i64::MIN,
    ensures
        q == div_t(a as int, b as int),
        a >= 0 ==> 0 <= q <= a,
        a < 0 ==> a <= q <= 0,
{
    if a >= 0 {
        let q = (a as u64) / (b as u64);
        proof {
            assert(q <= a as u64) by (nonlinear_arith)
                requires
                    b >= 1,
                    q == (a as u64) / (b as u64),
                    a >= 0;
        }
        q as i64
    } else {
        let m = (-a) as u64;
        let q = m / (b as u64);
        proof {
            assert(q <= m) by (nonlinear_arith)
                requires
                    b >= 1,
                    q == m / (b as u64);
        }
        -(q as i64)
    }
}

} // verus!
