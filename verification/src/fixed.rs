//! Fixed-point helpers: scaling by a milliunit ratio, saturation to the
//! sample range, and integer square root.

use vstd::prelude::*;

verus! {

/// `a` scaled by the ratio `q / 1000`, rounded toward zero.
pub open spec fn milli_scale(a: int, q: int) -> int {
    if a >= 0 {
        (a * q) / 1000
    } else {
        -(((-a) * q) / 1000)
    }
}

/// `a` clamped to the `i32` sample range.
pub open spec fn sat_i32(a: int) -> int {
    if a > i32::MAX as int {
        i32::MAX as int
    } else if a < i32::MIN as int {
        i32::MIN as int
    } else {
        a
    }
}

/// Largest `r` with `r * r <= n` (and `0` for negative `n`).
pub open spec fn sqrt_floor(n: int) -> int
    decreases n,
{
    if n <= 0 {
        0
    } else {
        let s = sqrt_floor(n - 1);
        if (s + 1) * (s + 1) <= n {
            s + 1
        } else {
            s
        }
    }
}

pub proof fn lemma_sqrt_floor_bracket(n: int)
    requires
        n >= 0,
    ensures
        0 <= sqrt_floor(n),
        sqrt_floor(n) * sqrt_floor(n) <= n,
        n < (sqrt_floor(n) + 1) * (sqrt_floor(n) + 1),
    decreases n,
{
    if n > 0 {
        lemma_sqrt_floor_bracket(n - 1);
        let s = sqrt_floor(n - 1);
        if (s + 1) * (s + 1) <= n {
            assert(sqrt_floor(n) == s + 1);
            assert((s + 2) * (s + 2) > (s + 1) * (s + 1)) by (nonlinear_arith)
                requires
                    s >= 0,
            ;
        } else {
            assert(sqrt_floor(n) == s);
        }
    }
}

/// The bracket `r * r <= n < (r + 1) * (r + 1)` pins `r` down.
pub proof fn lemma_sqrt_unique(n: int, r: int)
    requires
        n >= 0,
        r >= 0,
        r * r <= n,
        n < (r + 1) * (r + 1),
    ensures
        r == sqrt_floor(n),
{
    lemma_sqrt_floor_bracket(n);
    let s = sqrt_floor(n);
    if r < s {
        assert((r + 1) * (r + 1) <= s * s) by (nonlinear_arith)
            requires
                0 <= r,
                r < s,
        ;
    }
    if s < r {
        assert((s + 1) * (s + 1) <= r * r) by (nonlinear_arith)
            requires
                0 <= s,
                s < r,
        ;
    }
}

/// Floor of the square root, by bisection on the root.
pub fn isqrt64(x: u64) -> (r: u64)
    requires
        x < 0x4000_0000_0000_0000,
    ensures
        r * r <= x < (r + 1) * (r + 1),
        r == sqrt_floor(x as int),
{
    let mut lo: u64 = 0;
    let mut hi: u64 = 0x8000_0000;
    assert(hi * hi == 0x4000_0000_0000_0000) by (nonlinear_arith)
        requires
            hi == 0x8000_0000,
    ;
    while hi - lo > 1
        invariant
            lo < hi <= 0x8000_0000,
            lo * lo <= x,
            x < hi * hi,
        decreases hi - lo,
    {
        let mid = lo + (hi - lo) / 2;
        proof {
            assert(mid * mid <= 0x8000_0000 * 0x8000_0000) by (nonlinear_arith)
                requires
                    0 <= mid <= 0x8000_0000,
            ;
        }
        if mid * mid <= x {
            lo = mid;
        } else {
            hi = mid;
        }
    }
    proof {
        lemma_sqrt_unique(x as int, lo as int);
    }
    lo
}

/// `a` scaled by the milliunit ratio `q`, rounded toward zero.
pub fn scale_milli(a: i64, q: u32) -> (r: i64)
    requires
        -0x4000_0000_0000 <= a <= 0x4000_0000_0000,
        q <= 1000,
    ensures
        r == milli_scale(a as int, q as int),
        a >= 0 ==> 0 <= r <= a,
        a < 0 ==> a <= r <= 0,
{
    if a >= 0 {
        proof {
            assert(a * q <= 0x4000_0000_0000 * 1000) by (nonlinear_arith)
                requires
                    0 <= a <= 0x4000_0000_0000,
                    0 <= q <= 1000,
            ;
            assert(a * q / 1000 <= a) by (nonlinear_arith)
                requires
                    0 <= a,
                    0 <= q <= 1000,
            ;
        }
        let m: u64 = (a as u64) * (q as u64);
        let d: u64 = m / 1000;
        d as i64
    } else {
        proof {
            assert((-a) * q <= 0x4000_0000_0000 * 1000) by (nonlinear_arith)
                requires
                    0 <= -a <= 0x4000_0000_0000,
                    0 <= q <= 1000,
            ;
            assert((-a) * q / 1000 <= -a) by (nonlinear_arith)
                requires
                    0 <= -a,
                    0 <= q <= 1000,
            ;
        }
        let mag: u64 = (-a) as u64;
        let m: u64 = mag * (q as u64);
        let d: u64 = m / 1000;
        -(d as i64)
    }
}

/// Saturating conversion of a wide intermediate to the `i32` sample range.
pub fn sat32(a: i64) -> (r: i32)
    ensures
        r == sat_i32(a as int),
{
    if a > i32::MAX as i64 {
        i32::MAX
    } else if a < i32::MIN as i64 {
        i32::MIN
    } else {
        a as i32
    }
}

} // verus!
