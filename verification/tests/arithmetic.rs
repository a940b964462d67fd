use collisioneer::fixed::{isqrt, mul_div, mul_mul_div_capped, LIMIT, SCALE};
use collisioneer::vector::Vec3;

#[test]
fn scale_is_a_million() {
    assert_eq!(SCALE, 1_000_000);
    assert_eq!(LIMIT, 1i64 << 60);
}

#[test]
fn isqrt_rounds_down() {
    assert_eq!(isqrt(0), 0);
    assert_eq!(isqrt(1), 1);
    assert_eq!(isqrt(3), 1);
    assert_eq!(isqrt(4), 2);
    assert_eq!(isqrt(24), 4);
    assert_eq!(isqrt(25), 5);
    assert_eq!(isqrt(2_000_000_000_000), 1_414_213);
    assert_eq!(isqrt(1_000_000_000_000), 1_000_000);
    assert_eq!(isqrt(999_999_999_999), 999_999);
}

#[test]
fn isqrt_of_the_largest_argument() {
    let n: u128 = (1u128 << 126) - 1;
    let r = isqrt(n) as u128;
    assert_eq!(r, (1u128 << 63) - 1);
    assert!(r * r <= n && n < (r + 1) * (r + 1));
}

#[test]
fn mul_div_rounds_toward_zero() {
    assert_eq!(mul_div(7, 1, 2), 3);
    assert_eq!(mul_div(-7, 1, 2), -3);
    assert_eq!(mul_div(7, -1, 2), -3);
    assert_eq!(mul_div(-7, -1, 2), 3);
    assert_eq!(mul_div(1_500_000, 2_500_000, SCALE), 3_750_000);
    assert_eq!(mul_div(1, 1, SCALE), 0);
    assert_eq!(mul_div(-1, 1, SCALE), 0);
}

#[test]
fn mul_div_takes_the_product_in_128_bits() {
    assert_eq!(mul_div(i64::MAX, i64::MAX, i64::MAX), i64::MAX);
    assert_eq!(mul_div(4_000_000_000_000, 5_000_000_000_000, 10_000_000_000_000), 2_000_000_000_000);
}

#[test]
fn mul_mul_div_capped_multiplies_three() {
    let squared = 1_000_000_000_000;
    assert_eq!(mul_mul_div_capped(10_000_000, 10_000, 12_000_000, squared, i64::MAX), 1_200_000);
    assert_eq!(mul_mul_div_capped(3, 5, 7, 2, 100), 52);
    assert_eq!(mul_mul_div_capped(0, 5, 7, 2, 100), 0);
}

#[test]
fn mul_mul_div_capped_stops_at_the_cap() {
    assert_eq!(mul_mul_div_capped(3, 5, 7, 2, 52), 52);
    assert_eq!(mul_mul_div_capped(3, 5, 7, 2, 51), 51);
    assert_eq!(mul_mul_div_capped(3, 5, 7, 2, 0), 0);
    assert_eq!(mul_mul_div_capped(i64::MAX, 1, i64::MAX, 1, 1_000), 1_000);
}

#[test]
fn vectors_add_and_subtract_by_component() {
    let a = Vec3::new(1, -2, 3);
    let b = Vec3::new(10, 20, -30);
    assert_eq!(a.plus(b), Vec3::new(11, 18, -27));
    assert_eq!(a.minus(b), Vec3::new(-9, -22, 33));
    assert_eq!(Vec3::zero(), Vec3::new(0, 0, 0));
}

#[test]
fn length_of_a_three_four_five_triangle() {
    assert_eq!(Vec3::new(3_000_000, 4_000_000, 0).length(), 5_000_000);
    assert_eq!(Vec3::new(0, 0, 0).length(), 0);
    assert_eq!(Vec3::new(1_000_000, 0, 1_000_000).length(), 1_414_213);
    assert_eq!(Vec3::new(-2_000_000, 0, 0).length(), 2_000_000);
}

#[test]
fn normalized_has_unit_length() {
    assert_eq!(Vec3::new(3_000_000, -4_000_000, 0).normalized(), Vec3::new(600_000, -800_000, 0));
    assert_eq!(Vec3::new(0, 0, -250).normalized(), Vec3::new(0, 0, -1_000_000));
    assert_eq!(Vec3::new(1_000_000, 0, 1_000_000).normalized(), Vec3::new(707_107, 0, 707_107));
}

#[test]
fn normalized_zero_stays_zero() {
    assert_eq!(Vec3::new(0, 0, 0).normalized(), Vec3::new(0, 0, 0));
}

#[test]
fn dot_is_a_fixed_point_scalar() {
    let a = Vec3::new(1_000_000, 2_000_000, 3_000_000);
    let b = Vec3::new(4_000_000, -5_000_000, 6_000_000);
    assert_eq!(a.dot(b), 12_000_000);
    assert_eq!(Vec3::new(0, 700_001, 0).dot(Vec3::new(0, 1_000_000, 0)), 700_001);
    assert_eq!(Vec3::new(1, 0, 0).dot(Vec3::new(1, 0, 0)), 0);
}

#[test]
fn scaled_and_ratio_round_toward_zero() {
    let v = Vec3::new(1_500_000, -1_500_000, 1);
    assert_eq!(v.scaled(500_000), Vec3::new(750_000, -750_000, 0));
    assert_eq!(v.scaled(-2_000_000), Vec3::new(-3_000_000, 3_000_000, -2));
    assert_eq!(v.ratio(1, 3), Vec3::new(500_000, -500_000, 0));
    assert_eq!(Vec3::new(10, -10, 7).ratio(2, 4), Vec3::new(5, -5, 3));
}

#[test]
fn is_within_takes_the_bound_in() {
    assert!(Vec3::new(5, -5, 0).is_within(5));
    assert!(!Vec3::new(5, -6, 0).is_within(5));
    assert!(Vec3::new(LIMIT, -LIMIT, 0).is_within(LIMIT));
}
