//! Sine and cosine on integer milliradians, in thousandths, via Bhaskara's
//! rational approximation on the half circle. Everything here is exact
//! integer arithmetic, so the contracts pin the results completely.

use vstd::prelude::*;

verus! {

/// Half a turn, in milliradians.
pub const PI_MRAD: i64 = 3142;

/// A full turn, in milliradians.
pub const TAU_MRAD: i64 = 6284;

/// A quarter turn, in milliradians.
pub const HALF_PI_MRAD: i64 = 1571;

/// Bhaskara's sine approximation on `[0, PI_MRAD]`, scaled to thousandths:
/// `16000·y / (5·π² − 4·y)` with `y = x·(π − x)`.
pub open spec fn sin_half_spec(x: int) -> int {
    let y = x * (PI_MRAD - x);
    16000 * y / (5 * (PI_MRAD as int) * (PI_MRAD as int) - 4 * y)
}

/// Sine in thousandths for an angle already wrapped into `[0, TAU_MRAD)`.
pub open spec fn sin_milli_spec(a: int) -> int {
    if a < PI_MRAD {
        sin_half_spec(a)
    } else {
        -sin_half_spec(a - PI_MRAD)
    }
}

/// Cosine in thousandths for an angle already wrapped into `[0, TAU_MRAD)`:
/// the sine shifted by a quarter turn.
pub open spec fn cos_milli_spec(a: int) -> int {
    if a + HALF_PI_MRAD < TAU_MRAD {
        sin_milli_spec(a + HALF_PI_MRAD)
    } else {
        sin_milli_spec(a + HALF_PI_MRAD - TAU_MRAD)
    }
}

fn sin_half(x: i64) -> (r: i64)
    requires
        0 <= x <= PI_MRAD,
    ensures
        r == sin_half_spec(x as int),
        0 <= r <= 1000,
{
    proof {
        assert(0 <= x as int * (PI_MRAD - x) as int <= 2468041) by (nonlinear_arith)
            requires
                0 <= x <= 3142,
        ;
    }
    let y: i64 = x * (PI_MRAD - x);
    let num: i64 = 16000 * y;
    let den: i64 = 49360820 - 4 * y;
    let r: i64 = num / den;
    proof {
        assert(num as int <= 1000 * den as int);
        vstd::arithmetic::div_mod::lemma_div_is_ordered(
            num as int,
            1000 * den as int,
            den as int,
        );
        vstd::arithmetic::div_mod::lemma_div_by_multiple(1000, den as int);
        vstd::arithmetic::div_mod::lemma_div_pos_is_pos(num as int, den as int);
    }
    r
}

/// Sine in thousandths of an angle in `[0, TAU_MRAD)` milliradians.
pub fn sin_milli(a: i64) -> (r: i64)
    requires
        0 <= a < TAU_MRAD,
    ensures
        r == sin_milli_spec(a as int),
        -1000 <= r <= 1000,
{
    if a < PI_MRAD {
        sin_half(a)
    } else {
        -sin_half(a - PI_MRAD)
    }
}

/// Cosine in thousandths of an angle in `[0, TAU_MRAD)` milliradians.
pub fn cos_milli(a: i64) -> (r: i64)
    requires
        0 <= a < TAU_MRAD,
    ensures
        r == cos_milli_spec(a as int),
        -1000 <= r <= 1000,
{
    let b: i64 = if a + HALF_PI_MRAD < TAU_MRAD {
        a + HALF_PI_MRAD
    } else {
        a + HALF_PI_MRAD - TAU_MRAD
    };
    sin_milli(b)
}

} // verus!
