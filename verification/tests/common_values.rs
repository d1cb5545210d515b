use lane_battle::geometry::{isqrt, mul_div, mul_div_wide, mul_wide, clamp_wide, Vec2};

#[test]
fn isqrt_rounds_down() {
    assert_eq!(isqrt(0), 0);
    assert_eq!(isqrt(1), 1);
    assert_eq!(isqrt(3), 1);
    assert_eq!(isqrt(4), 2);
    assert_eq!(isqrt(99), 9);
    assert_eq!(isqrt(100), 10);
    assert_eq!(isqrt(4_496_000_000), 67_052);
    assert_eq!(isqrt(50_000_000), 7_071);
}

#[test]
fn isqrt_of_largest_number() {
    assert_eq!(isqrt(u128::MAX), u64::MAX);
}

#[test]
fn wide_product_and_division() {
    assert_eq!(mul_wide(i64::MAX, i64::MAX), (i64::MAX as i128) * (i64::MAX as i128));
    assert_eq!(mul_wide(-3, 7), -21);
    assert_eq!(mul_div(500, 954, 1000), 477);
    assert_eq!(mul_div(500, -989, 1000), -494);
    assert_eq!(mul_div_wide(-7, 3, 2), -10);
    assert_eq!(mul_div_wide(7, 3, 2), 10);
}

#[test]
fn clamp_keeps_inside_the_limit() {
    assert_eq!(clamp_wide(5, 10), 5);
    assert_eq!(clamp_wide(50, 10), 10);
    assert_eq!(clamp_wide(-50, 10), -10);
}

#[test]
fn vector_sum_difference_and_quarter_turn() {
    let a = Vec2::new(3, 4);
    let b = Vec2::new(-1, 10);
    assert_eq!(a.plus(&b), Vec2::new(2, 14));
    assert_eq!(a.minus(&b), Vec2::new(4, -6));
    assert_eq!(a.perp(), Vec2::new(-4, 3));
    assert_eq!(Vec2::zero(), Vec2::new(0, 0));
}

#[test]
fn vector_products_and_lengths() {
    let a = Vec2::new(3000, 4000);
    assert_eq!(a.dot(&Vec2::new(2, -1)), 2000);
    assert_eq!(a.norm_sq(), 25_000_000);
    assert_eq!(a.length(), 5000);
    assert_eq!(a.distance_squared(&Vec2::new(0, 0)), 25_000_000);
    assert_eq!(Vec2::new(1, 1).length(), 1);
}

#[test]
fn direction_has_the_length_of_the_scale() {
    assert_eq!(Vec2::new(3000, 4000).direction(), Vec2::new(600, 800));
    assert_eq!(Vec2::new(64_000, 20_000).direction(), Vec2::new(954, 298));
    assert_eq!(Vec2::new(0, -24_662).direction(), Vec2::new(0, -1000));
    assert_eq!(Vec2::new(0, 0).direction(), Vec2::new(0, 0));
}

#[test]
fn scaling_rounds_toward_zero() {
    assert_eq!(Vec2::new(7, -7).scaled(1, 2), Vec2::new(3, -3));
    assert_eq!(Vec2::new(1000, -1000).scaled(500, 1000), Vec2::new(500, -500));
}

#[test]
fn clamped_vector_stays_in_the_square() {
    assert_eq!(Vec2::new(15, -15).clamped(10), Vec2::new(10, -10));
    assert_eq!(Vec2::new(5, -5).clamped(10), Vec2::new(5, -5));
}
