//! Shared kinematics: distances, the direction-preserving speed clamp, and
//! the pairwise gravitational force term.

use vstd::prelude::*;
use crate::config::{GRAVITY_MILLI, MIN_DISTANCE, WINDOW_HEIGHT, WINDOW_WIDTH};
use crate::entities::Vec2;
use crate::num::{div_floor, is_isqrt, isqrt_u64};

verus! {

/// The floor of the square root, as a value: the unique `r` with
/// `r² <= n < (r+1)²`.
pub open spec fn sqrt_floor(n: int) -> int {
    choose|r: int| is_isqrt(n, r)
}

/// Any witness of `is_isqrt` is the `sqrt_floor`.
pub proof fn lemma_sqrt_floor_of(n: int, r: int)
    requires
        is_isqrt(n, r),
    ensures
        sqrt_floor(n) == r,
{
    assert(exists|x: int| is_isqrt(n, x));
    let s = sqrt_floor(n);
    assert(is_isqrt(n, s));
    assert(s == r) by (nonlinear_arith)
        requires
            0 <= s,
            s * s <= n,
            n < (s + 1) * (s + 1),
            0 <= r,
            r * r <= n,
            n < (r + 1) * (r + 1),
    ;
}

/// Every non-negative integer has a square-root floor, so `sqrt_floor`
/// denotes a genuine non-negative root.
pub proof fn lemma_isqrt_exists(n: int)
    requires
        0 <= n,
    ensures
        is_isqrt(n, sqrt_floor(n)),
        0 <= sqrt_floor(n),
    decreases n,
{
    if n == 0 {
        assert(is_isqrt(0, 0)) by (nonlinear_arith);
        assert(exists|r: int| is_isqrt(0, r)) by {
            assert(is_isqrt(0, 0));
        }
    } else {
        lemma_isqrt_exists(n - 1);
        let r = sqrt_floor(n - 1);
        if (r + 1) * (r + 1) <= n {
            assert(is_isqrt(n, r + 1)) by (nonlinear_arith)
                requires
                    0 <= r,
                    r * r <= n - 1,
                    n - 1 < (r + 1) * (r + 1),
                    (r + 1) * (r + 1) <= n,
            ;
            assert(exists|x: int| is_isqrt(n, x)) by {
                assert(is_isqrt(n, r + 1));
            }
        } else {
            assert(is_isqrt(n, r));
            assert(exists|x: int| is_isqrt(n, x)) by {
                assert(is_isqrt(n, r));
            }
        }
    }
}

/// Euclidean length (floored) of the vector `v`.
pub open spec fn norm_spec(v: Vec2) -> int {
    sqrt_floor(v.x * v.x + v.y * v.y)
}

/// Euclidean length (floored) of the vector `v`, with the bounds the
/// callers integrate under.
pub fn norm(v: Vec2) -> (s: i64)
    requires
        -2_000_000_000 <= v.x <= 2_000_000_000,
        -2_000_000_000 <= v.y <= 2_000_000_000,
    ensures
        s == norm_spec(v),
        is_isqrt(v.x * v.x + v.y * v.y, s as int),
        0 <= s <= 3_000_000_000,
        v.x <= s && -s <= v.x && v.y <= s && -s <= v.y,
{
    proof {
        assert(0 <= v.x * v.x <= 4_000_000_000_000_000_000 && 0 <= v.y * v.y
            <= 4_000_000_000_000_000_000) by (nonlinear_arith)
            requires
                -2_000_000_000 <= v.x <= 2_000_000_000,
                -2_000_000_000 <= v.y <= 2_000_000_000,
        ;
    }
    let n: u64 = (v.x * v.x) as u64 + (v.y * v.y) as u64;
    let s: u64 = isqrt_u64(n);
    proof {
        lemma_sqrt_floor_of(n as int, s as int);
        assert(s <= 3_000_000_000 && v.x <= s as int && -(s as int) <= v.x && v.y <= s as int
            && -(s as int) <= v.y) by (nonlinear_arith)
            requires
                is_isqrt(n as int, s as int),
                n == v.x * v.x + v.y * v.y,
                -2_000_000_000 <= v.x <= 2_000_000_000,
                -2_000_000_000 <= v.y <= 2_000_000_000,
        ;
    }
    s as i64
}

/// Rescale `v` onto the sphere of radius `max` when it is faster than
/// `max`, keeping its direction; slower vectors pass unchanged.
pub open spec fn clamp_speed_spec(v: Vec2, max: int) -> Vec2 {
    let s = norm_spec(v);
    if s > max {
        Vec2 { x: (v.x * max / s) as i64, y: (v.y * max / s) as i64 }
    } else {
        v
    }
}

/// The speed clamp: rescaled components never exceed `max` in magnitude.
pub fn clamp_speed(v: Vec2, max: i64) -> (r: Vec2)
    requires
        1 <= max <= 1_000_000_000,
        -2_000_000_000 <= v.x <= 2_000_000_000,
        -2_000_000_000 <= v.y <= 2_000_000_000,
    ensures
        r == clamp_speed_spec(v, max as int),
        -max <= r.x <= max,
        -max <= r.y <= max,
        norm_spec(v) <= max ==> r == v,
{
    let s: i64 = norm(v);
    if s > max {
        proof {
            assert(-4_000_000_000_000_000_000 <= v.x * max <= 4_000_000_000_000_000_000
                && -4_000_000_000_000_000_000 <= v.y * max <= 4_000_000_000_000_000_000)
                by (nonlinear_arith)
                requires
                    -2_000_000_000 <= v.x <= 2_000_000_000,
                    -2_000_000_000 <= v.y <= 2_000_000_000,
                    1 <= max <= 1_000_000_000,
            ;
            lemma_scaled_component_bounded(v.x as int, max as int, s as int);
            lemma_scaled_component_bounded(v.y as int, max as int, s as int);
        }
        let rx: i64 = div_floor(v.x * max, s);
        let ry: i64 = div_floor(v.y * max, s);
        Vec2 { x: rx, y: ry }
    } else {
        v
    }
}

/// A component no longer than the length, scaled by `max / s`, stays within
/// `[-max, max]`.
pub proof fn lemma_scaled_component_bounded(x: int, max: int, s: int)
    requires
        0 < max,
        0 < s,
        -s <= x <= s,
    ensures
        -max <= x * max / s <= max,
{
    assert(s * (-max) <= x * max <= s * max) by (nonlinear_arith)
        requires
            0 < max && 0 < s && -s <= x <= s,
    ;
    vstd::arithmetic::div_mod::lemma_div_is_ordered(s * (-max), x * max, s);
    vstd::arithmetic::div_mod::lemma_div_is_ordered(x * max, s * max, s);
    vstd::arithmetic::div_mod::lemma_div_multiples_vanish(max, s);
    vstd::arithmetic::div_mod::lemma_div_multiples_vanish(-max, s);
}

/// The gravitational force `F = G · m1 · m2 / d² · scale` exerted on a body
/// at `on` toward a body at `toward`, as per-axis components `F · d⃗ / d`,
/// with the distance floored at `MIN_DISTANCE`.
pub open spec fn gravity_term_spec(m1: int, m2: int, on: Vec2, toward: Vec2) -> (int, int) {
    let dx = toward.x - on.x;
    let dy = toward.y - on.y;
    let d0 = sqrt_floor(dx * dx + dy * dy);
    let d = if d0 < MIN_DISTANCE {
        MIN_DISTANCE as int
    } else {
        d0
    };
    let f = m1 * m2 / (d * d) * GRAVITY_MILLI / 1000;
    (f * dx / d, f * dy / d)
}

/// Per-axis magnitude bound of one gravity term for masses up to 10⁶.
pub const GRAVITY_TERM_LIMIT: i64 = 70_000_000;

/// One pairwise gravity contribution, on a body at `on` toward a body at
/// `toward`, both on the playfield.
pub fn gravity_term(m1: i64, m2: i64, on: Vec2, toward: Vec2) -> (f: (i64, i64))
    requires
        0 < m1 <= 1_000_000,
        0 < m2 <= 1_000_000,
        0 <= on.x <= WINDOW_WIDTH && 0 <= on.y <= WINDOW_HEIGHT,
        0 <= toward.x <= WINDOW_WIDTH && 0 <= toward.y <= WINDOW_HEIGHT,
    ensures
        f.0 == gravity_term_spec(m1 as int, m2 as int, on, toward).0,
        f.1 == gravity_term_spec(m1 as int, m2 as int, on, toward).1,
        -GRAVITY_TERM_LIMIT <= f.0 <= GRAVITY_TERM_LIMIT,
        -GRAVITY_TERM_LIMIT <= f.1 <= GRAVITY_TERM_LIMIT,
{
    let dx: i64 = toward.x - on.x;
    let dy: i64 = toward.y - on.y;
    let d0: i64 = norm(Vec2 { x: dx, y: dy });
    proof {
        assert(d0 <= 1_900_000) by (nonlinear_arith)
            requires
                0 <= d0,
                d0 as int * d0 as int <= dx as int * dx as int + dy as int * dy as int,
                -1_300_000 <= dx <= 1_300_000,
                -1_300_000 <= dy <= 1_300_000,
        ;
    }
    let d: i64 = if d0 < MIN_DISTANCE {
        MIN_DISTANCE
    } else {
        d0
    };
    proof {
        assert(d as int * d as int <= 16_000_000_000_000 && d as int * d as int
            >= 1_000_000 && m1 as int * m2 as int <= 1_000_000_000_000 && m1 as int
            * m2 as int > 0) by (nonlinear_arith)
            requires
                1_000 <= d <= 1_900_000,
                0 < m1 <= 1_000_000,
                0 < m2 <= 1_000_000,
        ;
        vstd::arithmetic::div_mod::lemma_div_pos_is_pos(m1 as int * m2 as int, d as int * d as int);
        vstd::arithmetic::div_mod::lemma_div_is_ordered_by_denominator(
            m1 as int * m2 as int,
            1_000_000,
            d as int * d as int,
        );
        vstd::arithmetic::div_mod::lemma_div_is_ordered(
            m1 as int * m2 as int,
            1_000_000_000_000,
            1_000_000,
        );
    }
    let q: i64 = (m1 * m2) / (d * d);
    proof {
        assert(0 <= q as int * GRAVITY_MILLI <= 66_743_000_000_000) by (nonlinear_arith)
            requires
                0 <= q <= 1_000_000,
                GRAVITY_MILLI == 66_743,
        ;
    }
    let f: i64 = q * GRAVITY_MILLI / 1000;
    proof {
        assert(-90_000_000_000_000 <= f as int * dx <= 90_000_000_000_000
            && -90_000_000_000_000 <= f as int * dy <= 90_000_000_000_000) by (nonlinear_arith)
            requires
                0 <= f <= 66_743_000,
                -1_300_000 <= dx <= 1_300_000,
                -1_300_000 <= dy <= 1_300_000,
        ;
        if f > 0 {
            lemma_scaled_component_bounded(dx as int, f as int, d as int);
            lemma_scaled_component_bounded(dy as int, f as int, d as int);
            assert(dx * f == f as int * dx && dy * f == f as int * dy) by (nonlinear_arith);
        } else {
            assert(f as int * dx == 0 && f as int * dy == 0) by (nonlinear_arith)
                requires
                    f == 0,
            ;
        }
    }
    let fx: i64 = div_floor(f * dx, d);
    let fy: i64 = div_floor(f * dy, d);
    (fx, fy)
}

} // verus!
