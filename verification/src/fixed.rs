//! Fixed-point scalars and 2D vectors.
//!
//! World coordinates, directions and radii are carried as `i64` values scaled
//! by `SCALE`: the stored number is the real quantity times `SCALE`, rounded.
//! All derived quantities are defined with flooring integer division, so every
//! operation has an exact mathematical description.

use vstd::prelude::*;

verus! {

/// Number of fixed-point units per world unit.
pub const SCALE: i64 = 1024;

/// Bound on the magnitude of any coordinate handled by the geometry code.
pub const COORD_MAX: i64 = 0x400_0000;

/// Bound on a circle radius accepted by the collision code.
pub const RADIUS_MAX: i64 = 0x10_0000;

/// A 2D point or direction in fixed-point world coordinates.
#[derive(Clone, Copy, PartialEq, Eq, Structural, Debug)]
pub struct Vec2 {
    pub x: i64,
    pub y: i64,
}

/// Both components of `v` have magnitude at most `bound`.
pub open spec fn in_range(v: Vec2, bound: int) -> bool {
    -bound <= v.x <= bound && -bound <= v.y <= bound
}

/// Magnitude of an integer.
pub open spec fn abs_i(a: int) -> int {
    if a < 0 {
        -a
    } else {
        a
    }
}

/// `r` is the integer square root of `n` rounded down.
pub open spec fn is_sqrt(n: int, r: int) -> bool {
    0 <= r && r * r <= n && n < (r + 1) * (r + 1)
}

/// The integer square root of `n` rounded down, as a mathematical function.
/// `lemma_sqrt_floor` shows the witness exists for every nonnegative `n`.
pub open spec fn sqrt_floor(n: int) -> int {
    choose|r: int| is_sqrt(n, r)
}

pub proof fn lemma_sqrt_unique(n: int, a: int, b: int)
    by (nonlinear_arith)
    requires
        is_sqrt(n, a),
        is_sqrt(n, b),
    ensures
        a == b,
{
}

pub proof fn lemma_sqrt_floor(n: int)
    requires
        0 <= n,
    ensures
        is_sqrt(n, sqrt_floor(n)),
    decreases n,
{
    if n == 0 {
        assert(is_sqrt(0, 0));
    } else {
        lemma_sqrt_floor(n - 1);
        let r = sqrt_floor(n - 1);
        if n < (r + 1) * (r + 1) {
            assert(is_sqrt(n, r));
        } else {
            assert(is_sqrt(n, r + 1)) by (nonlinear_arith)
                requires
                    is_sqrt(n - 1, r),
                    (r + 1) * (r + 1) <= n,
            ;
        }
    }
}

/// Binary search for the rounded-down integer square root.
pub fn isqrt(n: u64) -> (r: u64)
    requires
        n <= 0x0100_0000_0000_0000,
    ensures
        is_sqrt(n as int, r as int),
        r as int == sqrt_floor(n as int),
{
    let mut lo: u64 = 0;
    let mut hi: u64 = 0x1000_0001;
    assert(n < hi * hi) by (nonlinear_arith)
        requires
            n <= 0x0100_0000_0000_0000,
            hi == 0x1000_0001u64,
    ;
    while lo + 1 < hi
        invariant
            lo < hi <= 0x1000_0001,
            lo * lo <= n < hi * hi,
        decreases hi - lo,
    {
        let mid: u64 = lo + (hi - lo) / 2;
        assert(mid * mid <= 0x1000_0000 * 0x1000_0000) by (nonlinear_arith)
            requires
                mid <= 0x1000_0000u64,
        ;
        if mid * mid <= n {
            lo = mid;
        } else {
            hi = mid;
        }
    }
    proof {
        lemma_sqrt_floor(n as int);
        lemma_sqrt_unique(n as int, lo as int, sqrt_floor(n as int));
    }
    lo
}

/// Flooring division: rounds toward negative infinity, matching the
/// mathematical `/` on `int` for a positive divisor.
pub fn div_floor(a: i64, b: i64) -> (r: i64)
    requires
        1 <= b <= 0x2000_0000_0000_0000,
        -0x2000_0000_0000_0000 <= a <= 0x2000_0000_0000_0000,
    ensures
        r as int == a as int / b as int,
{
    if a >= 0 {
        let q: u64 = (a as u64) / (b as u64);
        q as i64
    } else {
        let na: u64 = (-a) as u64;
        let q: u64 = (na + (b as u64) - 1) / (b as u64);
        proof {
            lemma_neg_ceil_div(a as int, b as int);
        }
        -(q as i64)
    }
}

proof fn lemma_neg_ceil_div(a: int, b: int)
    requires
        a < 0,
        b >= 1,
    ensures
        a / b == -((-a + b - 1) / b),
{
    let m = -a;
    let q = (m + b - 1) / b;
    vstd::arithmetic::div_mod::lemma_fundamental_div_mod(m + b - 1, b);
    let rem = (m + b - 1) % b;
    vstd::arithmetic::div_mod::lemma_mod_bound(m + b - 1, b);
    assert(m + b - 1 == b * q + rem);
    // b*q is within [m, m + b - 1], so -b*q is within [a - b + 1, a];
    // the Euclidean quotient of a by b is therefore -q.
    assert(a / b == -q) by (nonlinear_arith)
        requires
            b >= 1,
            a == -m,
            m + b - 1 == b * q + rem,
            0 <= rem < b,
            m > 0,
    ;
}

/// Flooring division over `i128`, for the one product that outgrows `i64`.
pub fn div_floor_wide(a: i128, b: i128) -> (r: i128)
    requires
        1 <= b <= 0x2000_0000_0000_0000_0000_0000_0000_0000,
        -0x2000_0000_0000_0000_0000_0000_0000_0000 <= a
            <= 0x2000_0000_0000_0000_0000_0000_0000_0000,
    ensures
        r as int == a as int / b as int,
{
    if a >= 0 {
        let q: u128 = (a as u128) / (b as u128);
        q as i128
    } else {
        let na: u128 = (-a) as u128;
        let q: u128 = (na + (b as u128) - 1) / (b as u128);
        proof {
            lemma_neg_ceil_div(a as int, b as int);
        }
        -(q as i128)
    }
}

} // verus!
