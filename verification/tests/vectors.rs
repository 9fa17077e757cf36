//! Vector algebra: arithmetic, norms, normalization and its error case.

use tinyray::fixed::SCALE;
use tinyray::vec3::{RenderError, Vec3};

#[test]
fn componentwise_arithmetic() {
    let a = Vec3::new(SCALE, 2 * SCALE, 3 * SCALE);
    let b = Vec3::new(SCALE, SCALE, SCALE);
    assert_eq!(a.add(b), Vec3::new(2 * SCALE, 3 * SCALE, 4 * SCALE));
    assert_eq!(a.sub(b), Vec3::new(0, SCALE, 2 * SCALE));
    assert_eq!(a.neg(), Vec3::new(-SCALE, -2 * SCALE, -3 * SCALE));
    assert_eq!(a.scale(2 * SCALE), Vec3::new(2 * SCALE, 4 * SCALE, 6 * SCALE));
    assert_eq!(a.div_scalar(2 * SCALE), Vec3::new(SCALE / 2, SCALE, 3 * SCALE / 2));
}

#[test]
fn dot_product_exact_values() {
    let a = Vec3::new(3 * SCALE, 4 * SCALE, 0);
    assert_eq!(a.dot(a), 25 * SCALE);
    let b = Vec3::new(SCALE, 2 * SCALE, 3 * SCALE);
    let c = Vec3::new(4 * SCALE, 5 * SCALE, 6 * SCALE);
    assert_eq!(b.dot(c), 32 * SCALE);
    assert_eq!(Vec3::new(SCALE, 0, 0).dot(Vec3::new(0, SCALE, 0)), 0);
}

#[test]
fn norm_of_a_three_four_triangle() {
    let a = Vec3::new(3 * SCALE, 4 * SCALE, 0);
    assert_eq!(a.norm(), 5 * SCALE);
}

#[test]
fn normalization_of_an_axis_vector_is_exact() {
    let v = Vec3::new(0, 0, -5 * SCALE);
    assert_eq!(v.normalized(), Ok(Vec3::new(0, 0, -SCALE)));
}

#[test]
fn normalizing_the_zero_vector_is_an_error() {
    let v = Vec3::new(0, 0, 0);
    assert_eq!(v.normalized(), Err(RenderError::DegenerateVector));
}

#[test]
fn component_access_and_update() {
    let v = Vec3::new(10, 20, 30);
    assert_eq!(v.component(0), 10);
    assert_eq!(v.component(1), 20);
    assert_eq!(v.component(2), 30);
    assert_eq!(v.component(9), 30);
    assert_eq!(v.set_component(1, 99), Vec3::new(10, 99, 30));
    assert_eq!(v.set_component(0, -1), Vec3::new(-1, 20, 30));
}
