//! Exact behavior of the fixed-point scalar operations.

use tinyray::fixed::{
    fp_abs, fp_add, fp_clamp, fp_div, fp_max, fp_mul, fp_neg, fp_pow, fp_sqrt, fp_sub, fp_trunc,
    FP_BOUND, HALF_SCALE, SCALE,
};

#[test]
fn addition_and_subtraction_are_exact_in_range() {
    assert_eq!(fp_add(SCALE, SCALE), 2 * SCALE);
    assert_eq!(fp_sub(SCALE, 3 * SCALE), -2 * SCALE);
    assert_eq!(fp_neg(-7 * SCALE), 7 * SCALE);
}

#[test]
fn addition_saturates_at_the_bound() {
    assert_eq!(fp_add(FP_BOUND, FP_BOUND), FP_BOUND);
    assert_eq!(fp_sub(-FP_BOUND, FP_BOUND), -FP_BOUND);
}

#[test]
fn multiplication_rounds_toward_negative_infinity() {
    assert_eq!(fp_mul(SCALE, SCALE), SCALE);
    assert_eq!(fp_mul(HALF_SCALE, HALF_SCALE), SCALE / 4);
    assert_eq!(fp_mul(3, 3), 0);
    assert_eq!(fp_mul(-1, 1), -1);
    assert_eq!(fp_mul(2 * SCALE, -3 * SCALE), -6 * SCALE);
}

#[test]
fn division_is_exact_on_exact_quotients() {
    assert_eq!(fp_div(SCALE, 2 * SCALE), HALF_SCALE);
    assert_eq!(fp_div(-SCALE, 2 * SCALE), -HALF_SCALE);
    assert_eq!(fp_div(6 * SCALE, 3 * SCALE), 2 * SCALE);
}

#[test]
fn square_root_matches_the_integer_floor() {
    assert_eq!(fp_sqrt(0), 0);
    assert_eq!(fp_sqrt(SCALE), SCALE);
    assert_eq!(fp_sqrt(4 * SCALE), 2 * SCALE);
    assert_eq!(fp_sqrt(25 * SCALE), 5 * SCALE);
    assert_eq!(fp_sqrt(2 * SCALE), 92681);
}

#[test]
fn power_multiplies_the_base_exponent_times() {
    assert_eq!(fp_pow(2 * SCALE, 0), SCALE);
    assert_eq!(fp_pow(2 * SCALE, 10), 1024 * SCALE);
    assert_eq!(fp_pow(SCALE, 50), SCALE);
    assert_eq!(fp_pow(0, 3), 0);
}

#[test]
fn truncation_rounds_toward_zero() {
    assert_eq!(fp_trunc(5 * SCALE / 2), 2);
    assert_eq!(fp_trunc(-3 * HALF_SCALE), -1);
    assert_eq!(fp_trunc(-2 * SCALE), -2);
    assert_eq!(fp_trunc(0), 0);
}

#[test]
fn clamp_max_and_abs_behave_as_stated() {
    assert_eq!(fp_clamp(3 * SCALE, -SCALE, SCALE), SCALE);
    assert_eq!(fp_clamp(-3 * SCALE, -SCALE, SCALE), -SCALE);
    assert_eq!(fp_clamp(17, -SCALE, SCALE), 17);
    assert_eq!(fp_max(-5, 3), 3);
    assert_eq!(fp_abs(-9 * SCALE), 9 * SCALE);
}
