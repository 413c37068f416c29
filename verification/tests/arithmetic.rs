use entity_core::fixed::{add_sat, mul_fixed, SCALE};
use entity_core::vec3::Vec3;

#[test]
fn scale_is_a_thousand() {
    assert_eq!(SCALE, 1000);
}

#[test]
fn add_sat_plain_sums() {
    assert_eq!(add_sat(2, 3), 5);
    assert_eq!(add_sat(-9810, -9810), -19620);
    assert_eq!(add_sat(0, 0), 0);
}

#[test]
fn add_sat_saturates_at_both_ends() {
    assert_eq!(add_sat(i64::MAX, 1), i64::MAX);
    assert_eq!(add_sat(i64::MAX, i64::MAX), i64::MAX);
    assert_eq!(add_sat(i64::MIN, -1), i64::MIN);
    assert_eq!(add_sat(i64::MIN, i64::MIN), i64::MIN);
}

#[test]
fn mul_fixed_scales_the_product_back() {
    // 1.5 * 2.0 == 3.0
    assert_eq!(mul_fixed(1500, 2000), 3000);
    // -9.81 * 1.0 == -9.81
    assert_eq!(mul_fixed(-9810, 1000), -9810);
    // -9.81 * 0.5 == -4.905
    assert_eq!(mul_fixed(-9810, 500), -4905);
    assert_eq!(mul_fixed(0, 12345), 0);
}

#[test]
fn mul_fixed_truncates_toward_zero() {
    // 0.001 * 0.999 == 0.000999, which truncates to 0
    assert_eq!(mul_fixed(1, 999), 0);
    // -0.001 * 0.999 truncates to 0, not to -0.001
    assert_eq!(mul_fixed(-1, 999), 0);
    // 0.007 * 0.5 == 0.0035, which truncates to 0.003
    assert_eq!(mul_fixed(7, 500), 3);
    assert_eq!(mul_fixed(-7, 500), -3);
}

#[test]
fn mul_fixed_saturates_at_both_ends() {
    assert_eq!(mul_fixed(i64::MAX, i64::MAX), i64::MAX);
    assert_eq!(mul_fixed(i64::MIN, i64::MAX), i64::MIN);
    assert_eq!(mul_fixed(i64::MIN, i64::MIN), i64::MAX);
}

#[test]
fn vector_sum_is_componentwise() {
    let a = Vec3::new(1, -2, 3);
    let b = Vec3::new(10, 20, -30);
    assert_eq!(a.plus(b), Vec3::new(11, 18, -27));
    assert_eq!(Vec3::zero().plus(a), a);
}

#[test]
fn vector_scaling_is_componentwise() {
    let v = Vec3::new(1000, -2000, 500);
    // times 2.0
    assert_eq!(v.scaled(2000), Vec3::new(2000, -4000, 1000));
    // times 0
    assert_eq!(v.scaled(0), Vec3::zero());
}
