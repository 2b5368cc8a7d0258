//! Exact values for the arithmetic and trigonometry helpers.

use bubbleroid::entities::{mass_for, Vec2};
use bubbleroid::num::{clamp_i64, div_floor, isqrt_u64, sat_add_u32, sat_add_u64, wrap_into};
use bubbleroid::physics::{clamp_speed, gravity_term, norm};
use bubbleroid::trig::{cos_milli, sin_milli};

#[test]
fn isqrt_exact_values() {
    assert_eq!(isqrt_u64(0), 0);
    assert_eq!(isqrt_u64(1), 1);
    assert_eq!(isqrt_u64(15), 3);
    assert_eq!(isqrt_u64(16), 4);
    assert_eq!(isqrt_u64(1_000_000), 1000);
    assert_eq!(isqrt_u64(u64::MAX), 4_294_967_295);
}

#[test]
fn div_floor_rounds_toward_negative_infinity() {
    assert_eq!(div_floor(7, 2), 3);
    assert_eq!(div_floor(-7, 2), -4);
    assert_eq!(div_floor(-8, 2), -4);
    assert_eq!(div_floor(0, 5), 0);
}

#[test]
fn wrap_into_is_the_toroidal_remainder() {
    assert_eq!(wrap_into(-1, 1_280_000), 1_279_999);
    assert_eq!(wrap_into(1_280_000, 1_280_000), 0);
    assert_eq!(wrap_into(500, 1000), 500);
    assert_eq!(wrap_into(-2_500, 1000), 500);
}

#[test]
fn clamp_and_saturation() {
    assert_eq!(clamp_i64(5, -3, 3), 3);
    assert_eq!(clamp_i64(-5, -3, 3), -3);
    assert_eq!(clamp_i64(2, -3, 3), 2);
    assert_eq!(sat_add_u64(u64::MAX - 1, 5), u64::MAX);
    assert_eq!(sat_add_u64(2, 5), 7);
    assert_eq!(sat_add_u32(u32::MAX, 1), u32::MAX);
}

#[test]
fn sine_and_cosine_in_thousandths() {
    assert_eq!(sin_milli(0), 0);
    assert_eq!(sin_milli(1571), 1000);
    assert_eq!(sin_milli(3142), 0);
    assert_eq!(sin_milli(4713), -1000);
    assert_eq!(cos_milli(0), 1000);
    assert_eq!(cos_milli(3142), -1000);
    let mut a: i64 = 0;
    while a < 6284 {
        assert!(sin_milli(a).abs() <= 1000);
        assert!(cos_milli(a).abs() <= 1000);
        a += 13;
    }
}

#[test]
fn mass_follows_the_squared_radius() {
    assert_eq!(mass_for(10_000), 31_400);
    assert_eq!(mass_for(30_000), 282_600);
    assert_eq!(mass_for(40_000), 502_400);
    assert!(2 * mass_for(15_000) < mass_for(30_000));
}

#[test]
fn norm_and_speed_clamp() {
    assert_eq!(norm(Vec2 { x: 3000, y: 4000 }), 5000);
    assert_eq!(norm(Vec2 { x: -3000, y: 4000 }), 5000);
    let v = clamp_speed(Vec2 { x: 300_000, y: 400_000 }, 200_000);
    assert_eq!(v, Vec2 { x: 120_000, y: 160_000 });
    let slow = clamp_speed(Vec2 { x: 1000, y: -2000 }, 200_000);
    assert_eq!(slow, Vec2 { x: 1000, y: -2000 });
}

#[test]
fn gravity_term_exact_value() {
    let f = gravity_term(
        615_832,
        502_400,
        Vec2 { x: 0, y: 0 },
        Vec2 { x: 100_000, y: 0 },
    );
    assert_eq!(f, (2002, 0));
    let back = gravity_term(
        615_832,
        502_400,
        Vec2 { x: 100_000, y: 0 },
        Vec2 { x: 0, y: 0 },
    );
    assert_eq!(back.0, -2002);
}
