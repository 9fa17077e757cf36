//! Reflection, refraction and the checkerboard pattern.

use tinyray::fixed::SCALE;
use tinyray::render::{pattern, reflect, refract};
use tinyray::vec3::Vec3;

/// About 0.7071 in fixed point: the components of a unit diagonal.
const DIAG: i64 = 46341;

#[test]
fn reflect_straight_down_off_a_horizontal_surface() {
    let i = Vec3::new(0, -SCALE, 0);
    let n = Vec3::new(0, SCALE, 0);
    assert_eq!(reflect(&i, &n), Vec3::new(0, SCALE, 0));
}

#[test]
fn reflect_at_forty_five_degrees() {
    let i = Vec3::new(DIAG, -DIAG, 0);
    let n = Vec3::new(0, SCALE, 0);
    let r = reflect(&i, &n);
    assert_eq!(r, Vec3::new(DIAG, DIAG, 0));
    // Angle of incidence equals angle of reflection along the normal.
    assert_eq!(r.dot(n), DIAG);
    assert_eq!(i.dot(n), -DIAG);
}

#[test]
fn reflect_incidence_balance_within_tolerance() {
    // A slightly off-axis near-unit pair: the two dot products must
    // cancel within a few fixed-point units.
    let i = Vec3::new(DIAG, -DIAG, 0);
    let n = Vec3::new(1, SCALE, 0);
    let r = reflect(&i, &n);
    let gap = (r.dot(n) + i.dot(n)).abs();
    assert!(gap <= 15, "gap {gap}");
}

#[test]
fn refract_at_normal_incidence_keeps_the_direction() {
    let i = Vec3::new(0, 0, -SCALE);
    let n = Vec3::new(0, 0, SCALE);
    let glass = 98304; // index 1.5
    assert_eq!(refract(&i, &n, glass, SCALE), i);
    // Same medium on both sides: also unchanged.
    assert_eq!(refract(&i, &n, SCALE, SCALE), i);
}

#[test]
fn refract_bends_toward_the_normal_entering_a_denser_medium() {
    let i = Vec3::new(DIAG, 0, -DIAG);
    let n = Vec3::new(0, 0, SCALE);
    let glass = 98304;
    assert_eq!(refract(&i, &n, glass, SCALE), Vec3::new(30893, 0, -57798));
}

#[test]
fn refract_round_trip_recovers_the_direction() {
    // Into the denser medium and back out through the negated normal:
    // the exit path swaps the indices itself.
    let i = Vec3::new(DIAG, 0, -DIAG);
    let n = Vec3::new(0, 0, SCALE);
    let glass = 98304;
    let r1 = refract(&i, &n, glass, SCALE);
    let r2 = refract(&r1, &n.neg(), glass, SCALE);
    assert!((r2.x - i.x).abs() <= 15, "x {} vs {}", r2.x, i.x);
    assert!((r2.y - i.y).abs() <= 15, "y {} vs {}", r2.y, i.y);
    assert!((r2.z - i.z).abs() <= 15, "z {} vs {}", r2.z, i.z);
    assert_eq!(r2, Vec3::new(46339, 0, -46341));
}

#[test]
fn refract_total_internal_reflection_returns_the_sentinel() {
    // Leaving glass at a grazing angle: the discriminant goes negative
    // and the documented sentinel direction comes back.
    let i = Vec3::new(58982, 0, -28470);
    let n = Vec3::new(0, 0, SCALE);
    let glass = 98304;
    assert_eq!(refract(&i, &n, SCALE, glass), Vec3::new(SCALE, 0, 0));
}

#[test]
fn pattern_parity_picks_the_checker_colors() {
    let light = Vec3::new(0, 0, 0);
    let dark = Vec3::new(SCALE, SCALE, SCALE);
    // Cell indices 1000 + (-10): even parity, light square.
    assert_eq!(pattern(0, -10 * SCALE, &light, &dark), light);
    // Cell indices 1001 + (-10): odd parity, dark square.
    assert_eq!(pattern(SCALE, -10 * SCALE, &light, &dark), dark);
    // One cell over in the second coordinate flips the parity back.
    assert_eq!(pattern(SCALE, -9 * SCALE, &light, &dark), light);
}
