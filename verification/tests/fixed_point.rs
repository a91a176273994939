use magnet_arena::fixed::{fx_add, fx_mul, fx_mul_div, fx_sub, isqrt_u128, saturate, SCALE};
use magnet_arena::vec2::Vec2;

#[test]
fn scale_is_a_million() {
    assert_eq!(SCALE, 1_000_000);
}

#[test]
fn sums_and_differences_saturate() {
    assert_eq!(fx_add(2, 3), 5);
    assert_eq!(fx_sub(2, 3), -1);
    assert_eq!(fx_add(i64::MAX, 1), i64::MAX);
    assert_eq!(fx_add(i64::MIN, -1), i64::MIN);
    assert_eq!(fx_sub(i64::MIN, 1), i64::MIN);
    assert_eq!(fx_sub(i64::MAX, -1), i64::MAX);
    assert_eq!(fx_sub(0, i64::MIN), i64::MAX);
}

#[test]
fn narrowing_saturates() {
    assert_eq!(saturate(7), 7);
    assert_eq!(saturate(i128::MAX), i64::MAX);
    assert_eq!(saturate(i128::MIN), i64::MIN);
    assert_eq!(saturate(i64::MAX as i128 + 1), i64::MAX);
    assert_eq!(saturate(i64::MIN as i128 - 1), i64::MIN);
}

#[test]
fn products_round_toward_zero() {
    assert_eq!(fx_mul(3, 500_000), 1);
    assert_eq!(fx_mul(-3, 500_000), -1);
    assert_eq!(fx_mul(1, 500_000), 0);
    assert_eq!(fx_mul(-1, 500_000), 0);
    assert_eq!(fx_mul(2 * SCALE, 3 * SCALE), 6 * SCALE);
    assert_eq!(fx_mul(-2 * SCALE, 3 * SCALE), -6 * SCALE);
    assert_eq!(fx_mul(500_000_000, 950_000), 475_000_000);
}

#[test]
fn products_saturate() {
    assert_eq!(fx_mul(i64::MAX, 2 * SCALE), i64::MAX);
    assert_eq!(fx_mul(i64::MIN, 2 * SCALE), i64::MIN);
    assert_eq!(fx_mul(i64::MIN, i64::MIN), i64::MAX);
    assert_eq!(fx_mul(i64::MIN, i64::MAX), i64::MIN);
}

#[test]
fn product_over_a_divisor() {
    assert_eq!(fx_mul_div(10, 3, 4), 7);
    assert_eq!(fx_mul_div(-10, 3, 4), -7);
    assert_eq!(fx_mul_div(50_000_000, 43_333_200, 50_000_000), 43_333_200);
    assert_eq!(fx_mul_div(i64::MAX, i64::MAX, 1), i64::MAX);
}

#[test]
fn product_over_nothing_is_nothing() {
    assert_eq!(fx_mul_div(10, 3, 0), 0);
    assert_eq!(fx_mul_div(10, 3, -5), 0);
    assert_eq!(fx_mul_div(0, 0, 0), 0);
}

#[test]
fn integer_square_roots() {
    assert_eq!(isqrt_u128(0), 0);
    assert_eq!(isqrt_u128(1), 1);
    assert_eq!(isqrt_u128(2), 1);
    assert_eq!(isqrt_u128(3), 1);
    assert_eq!(isqrt_u128(4), 2);
    assert_eq!(isqrt_u128(99), 9);
    assert_eq!(isqrt_u128(100), 10);
    assert_eq!(isqrt_u128(1_000_000_000_000), 1_000_000);
    assert_eq!(isqrt_u128(2_000_000_000_000), 1_414_213);
    assert_eq!(isqrt_u128(u128::MAX), u64::MAX);
}

#[test]
fn integer_square_root_brackets_its_argument() {
    let mut n: u128 = 0;
    while n < 5_000 {
        let r = isqrt_u128(n) as u128;
        assert!(r * r <= n);
        assert!(n < (r + 1) * (r + 1));
        n += 1;
    }
}

#[test]
fn vector_sum_difference_and_scale() {
    let a = Vec2::new(3 * SCALE, -4 * SCALE);
    let b = Vec2::new(SCALE, SCALE);
    assert_eq!(a.plus(b), Vec2::new(4 * SCALE, -3 * SCALE));
    assert_eq!(a.minus(b), Vec2::new(2 * SCALE, -5 * SCALE));
    assert_eq!(a.scaled(500_000), Vec2::new(1_500_000, -2_000_000));
    assert_eq!(a.dot(b), -SCALE);
    assert_eq!(Vec2::zero(), Vec2::new(0, 0));
}

#[test]
fn vector_length() {
    assert_eq!(Vec2::new(3 * SCALE, 4 * SCALE).length(), 5 * SCALE);
    assert_eq!(Vec2::new(-3 * SCALE, 4 * SCALE).length_squared(), 25_000_000_000_000);
    assert_eq!(Vec2::new(0, 0).length(), 0);
    assert_eq!(Vec2::new(1, 1).length(), 1);
    assert_eq!(Vec2::new(i64::MIN, i64::MIN).length(), i64::MAX);
    assert_eq!(Vec2::new(i64::MIN, i64::MIN).length_squared(), 1u128 << 127);
}

#[test]
fn normalizing_gives_unit_length_or_zero() {
    assert_eq!(Vec2::new(3 * SCALE, 4 * SCALE).normalize_or_zero(), Vec2::new(600_000, 800_000));
    assert_eq!(Vec2::new(-7, 0).normalize_or_zero(), Vec2::new(-SCALE, 0));
    assert_eq!(Vec2::new(SCALE, SCALE).normalize_or_zero(), Vec2::new(707_107, 707_107));
    assert_eq!(Vec2::new(0, 0).normalize_or_zero(), Vec2::new(0, 0));
    assert_eq!(Vec2::new(i64::MIN, 0).normalize_or_zero(), Vec2::new(-SCALE, 0));
}

#[test]
fn rotating_into_the_facing_frame() {
    let offset = Vec2::new(0, 32 * SCALE);
    assert_eq!(offset.rotated_to(Vec2::new(0, SCALE)), Vec2::new(0, 32 * SCALE));
    assert_eq!(offset.rotated_to(Vec2::new(SCALE, 0)), Vec2::new(32 * SCALE, 0));
    assert_eq!(offset.rotated_to(Vec2::new(0, -SCALE)), Vec2::new(0, -32 * SCALE));
    assert_eq!(offset.rotated_to(Vec2::new(-SCALE, 0)), Vec2::new(-32 * SCALE, 0));
    let side = Vec2::new(10 * SCALE, 0);
    assert_eq!(side.rotated_to(Vec2::new(0, SCALE)), Vec2::new(10 * SCALE, 0));
    assert_eq!(side.rotated_to(Vec2::new(SCALE, 0)), Vec2::new(0, -10 * SCALE));
}

#[test]
fn a_normalized_vector_is_about_a_unit_long() {
    for v in [
        Vec2::new(3 * SCALE, 4 * SCALE),
        Vec2::new(SCALE, SCALE),
        Vec2::new(-123_456_789, 987_654_321),
        Vec2::new(1_000_001, -1),
        Vec2::new(i64::MAX, i64::MIN),
        Vec2::new(SCALE, 0),
    ] {
        let length = v.normalize_or_zero().length();
        assert!(length >= SCALE - 2);
        assert!(length <= SCALE);
    }
}

#[test]
fn a_vector_of_a_few_steps_is_normalized_coarsely() {
    assert_eq!(Vec2::new(1, 1).normalize_or_zero(), Vec2::new(SCALE, SCALE));
    assert_eq!(Vec2::new(1, 1).normalize_or_zero().length(), 1_414_213);
    assert_eq!(Vec2::new(3, 4).normalize_or_zero(), Vec2::new(600_000, 800_000));
    let v = Vec2::new(10, 10);
    let length = v.normalize_or_zero().length() as i128;
    let len = v.length() as i128;
    assert!(length >= (SCALE - 2) as i128);
    assert!(length * len < SCALE as i128 * (len + 1));
}
