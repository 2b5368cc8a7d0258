//! Small verified arithmetic helpers shared by the simulation: clamping,
//! saturating counters, floor division on signed values, and an integer
//! square root.

use vstd::prelude::*;

verus! {

/// What clamping into `[lo, hi]` means.
pub open spec fn clamp_spec(x: int, lo: int, hi: int) -> int {
    if x < lo {
        lo
    } else if x > hi {
        hi
    } else {
        x
    }
}

/// Clamp `x` into `[lo, hi]`.
pub fn clamp_i64(x: i64, lo: i64, hi: i64) -> (r: i64)
    requires
        lo <= hi,
    ensures
        r == clamp_spec(x as int, lo as int, hi as int),
        lo <= r <= hi,
{
    if x < lo {
        lo
    } else if x > hi {
        hi
    } else {
        x
    }
}

/// Addition on a `u64` counter that sticks at the largest representable
/// value instead of overflowing.
pub fn sat_add_u64(a: u64, b: u64) -> (r: u64)
    ensures
        r == if a + b <= u64::MAX { a + b } else { u64::MAX as int },
{
    if a > u64::MAX - b {
        u64::MAX
    } else {
        a + b
    }
}

/// Addition on a `u32` counter that sticks at the largest representable
/// value instead of overflowing.
pub fn sat_add_u32(a: u32, b: u32) -> (r: u32)
    ensures
        r == if a + b <= u32::MAX { a + b } else { u32::MAX as int },
{
    if a > u32::MAX - b {
        u32::MAX
    } else {
        a + b
    }
}

/// `r` is the integer square root of `n`: the largest integer whose square
/// does not exceed `n`.
pub open spec fn is_isqrt(n: int, r: int) -> bool {
    &&& 0 <= r
    &&& r * r <= n
    &&& n < (r + 1) * (r + 1)
}

/// Floor of the square root of `n`, by binary search.
pub fn isqrt_u64(n: u64) -> (r: u64)
    ensures
        is_isqrt(n as int, r as int),
{
    if n == 0 {
        return 0;
    }
    let mut lo: u64 = 0;
    let mut hi: u64 = 4294967296;
    assert((hi as int) * (hi as int) > n as int) by (nonlinear_arith)
        requires
            hi == 4294967296,
            n <= 0xffff_ffff_ffff_ffff,
    ;
    while lo + 1 < hi
        invariant
            lo < hi <= 4294967296,
            (lo as int) * (lo as int) <= n as int,
            (n as int) < (hi as int) * (hi as int),
        decreases hi - lo,
    {
        let mid: u64 = lo + (hi - lo) / 2;
        assert(lo < mid < hi);
        assert(mid * mid <= u64::MAX) by (nonlinear_arith)
            requires
                mid < 4294967296,
        ;
        if mid * mid <= n {
            lo = mid;
        } else {
            hi = mid;
        }
    }
    lo
}

/// Floor division of `a` by a positive `d`; agrees with mathematical
/// (Euclidean) division for positive divisors.
pub fn div_floor(a: i64, d: i64) -> (r: i64)
    requires
        d > 0,
        a > i64::MIN,
    ensures
        r == a as int / d as int,
{
    if a >= 0 {
        let q: i64 = a / d;
        proof {
            vstd::arithmetic::div_mod::lemma_fundamental_div_mod(a as int, d as int);
        }
        q
    } else {
        let n: i64 = -a;
        let q: i64 = n / d;
        proof {
            vstd::arithmetic::div_mod::lemma_fundamental_div_mod(n as int, d as int);
            vstd::arithmetic::div_mod::lemma_mod_bound(n as int, d as int);
            assert(q as int * d as int == d as int * (n as int / d as int)) by (nonlinear_arith)
                requires
                    q == n as int / d as int,
            ;
        }
        let rem: i64 = n - q * d;
        assert(rem == n as int % d as int);
        if rem == 0 {
            proof {
                assert(a as int == d as int * (-q as int) + 0) by (nonlinear_arith)
                    requires
                        a == -n && n == d as int * (q as int),
                ;
                vstd::arithmetic::div_mod::lemma_fundamental_div_mod_converse(
                    a as int,
                    d as int,
                    -q as int,
                    0,
                );
            }
            -q
        } else {
            proof {
                assert(a as int == d as int * (-q - 1 as int) + (d - rem)) by (nonlinear_arith)
                    requires
                        a == -n && n as int == d as int * (q as int) + rem as int,
                ;
                vstd::arithmetic::div_mod::lemma_fundamental_div_mod_converse(
                    a as int,
                    d as int,
                    (-q - 1) as int,
                    (d - rem) as int,
                );
            }
            -q - 1
        }
    }
}

/// Bring `x` into `[0, w)` by taking the mathematical remainder modulo `w`:
/// the toroidal wrap used for every on-screen coordinate and for angles.
pub fn wrap_into(x: i64, w: i64) -> (r: i64)
    requires
        0 < w <= 1_000_000_000,
        -1_000_000_000_000 <= x <= 1_000_000_000_000,
    ensures
        0 <= r < w,
        r == x as int % w as int,
{
    let q: i64 = div_floor(x, w);
    proof {
        vstd::arithmetic::div_mod::lemma_fundamental_div_mod(x as int, w as int);
        vstd::arithmetic::div_mod::lemma_mod_bound(x as int, w as int);
        assert(q as int * w as int == w as int * (x as int / w as int)) by (nonlinear_arith)
            requires
                q == x as int / w as int,
        ;
    }
    x - q * w
}

/// A quotient bound: when the dividend lies within `m` multiples of the
/// divisor, the quotient lies within `m`.
pub proof fn lemma_div_bound(a: int, d: int, m: int)
    requires
        0 < d,
        0 <= m,
        -(m * d) <= a <= m * d,
    ensures
        -m <= a / d <= m,
{
    assert(m * d == d * m && -(m * d) == d * (-m)) by (nonlinear_arith);
    vstd::arithmetic::div_mod::lemma_div_is_ordered(d * (-m), a, d);
    vstd::arithmetic::div_mod::lemma_div_is_ordered(a, d * m, d);
    vstd::arithmetic::div_mod::lemma_div_multiples_vanish(m, d);
    vstd::arithmetic::div_mod::lemma_div_multiples_vanish(-m, d);
}

} // verus!
