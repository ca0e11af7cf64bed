use scalar_kalman::fixed::{floor_div, isqrt, mul_scaled_wide, sqrt_scaled, SCALE};

#[test]
fn scale_is_one_billion() {
    assert_eq!(SCALE, 1_000_000_000);
}

#[test]
fn floor_div_rounds_towards_negative_infinity() {
    assert_eq!(floor_div(7, 2), 3);
    assert_eq!(floor_div(-7, 2), -4);
    assert_eq!(floor_div(-8, 2), -4);
    assert_eq!(floor_div(0, 5), 0);
    assert_eq!(floor_div(-1, 1_000_000_000), -1);
    assert_eq!(floor_div(i128::MIN, 1), i128::MIN);
    assert_eq!(floor_div(i128::MAX, i128::MAX), 1);
    assert_eq!(floor_div(i128::MIN, i128::MAX), -2);
}

#[test]
fn mul_scaled_wide_of_whole_numbers() {
    assert_eq!(mul_scaled_wide(2 * SCALE, 3 * SCALE), (6 * SCALE) as i128);
    assert_eq!(mul_scaled_wide(9 * SCALE, 10_000_000), 90_000_000);
    assert_eq!(mul_scaled_wide(-2 * SCALE, 3 * SCALE), (-6 * SCALE) as i128);
    assert_eq!(mul_scaled_wide(0, i64::MAX), 0);
    assert_eq!(mul_scaled_wide(i64::MAX, SCALE), i64::MAX as i128);
    assert_eq!(mul_scaled_wide(i64::MIN, SCALE), i64::MIN as i128);
}

#[test]
fn mul_scaled_wide_rounds_down() {
    assert_eq!(mul_scaled_wide(1, 1), 0);
    assert_eq!(mul_scaled_wide(-1, 1), -1);
    assert_eq!(mul_scaled_wide(1, -1), -1);
    assert_eq!(mul_scaled_wide(-1, -1), 0);
    assert_eq!(mul_scaled_wide(1_500_000_000, 1_500_000_001), 2_250_000_001);
}

#[test]
fn mul_scaled_wide_never_fails() {
    assert_eq!(mul_scaled_wide(i64::MAX, 2 * SCALE), 2 * (i64::MAX as i128));
    assert_eq!(
        mul_scaled_wide(i64::MIN, i64::MIN),
        ((i64::MIN as i128) * (i64::MIN as i128)).div_euclid(SCALE as i128)
    );
    assert_eq!(mul_scaled_wide(-1, 1), -1);
}

#[test]
fn isqrt_of_small_numbers() {
    assert_eq!(isqrt(0), 0);
    assert_eq!(isqrt(1), 1);
    assert_eq!(isqrt(2), 1);
    assert_eq!(isqrt(3), 1);
    assert_eq!(isqrt(4), 2);
    assert_eq!(isqrt(8), 2);
    assert_eq!(isqrt(9), 3);
    assert_eq!(isqrt(99), 9);
    assert_eq!(isqrt(100), 10);
}

#[test]
fn isqrt_of_large_numbers() {
    assert_eq!(isqrt(1_000_000_000_000_000_000), 1_000_000_000);
    assert_eq!(isqrt(999_999_999_999_999_999), 999_999_999);
    assert_eq!(isqrt(u128::MAX), u64::MAX);
    assert_eq!(isqrt((u64::MAX as u128) * (u64::MAX as u128)), u64::MAX);
    assert_eq!(isqrt((u64::MAX as u128) * (u64::MAX as u128) - 1), u64::MAX - 1);
}

#[test]
fn isqrt_brackets_its_argument() {
    let mut n: u128 = 0;
    while n < 5000 {
        let r = isqrt(n) as u128;
        assert!(r * r <= n);
        assert!(n < (r + 1) * (r + 1));
        n += 1;
    }
}

#[test]
fn sqrt_scaled_exact_values() {
    assert_eq!(sqrt_scaled(0), 0);
    assert_eq!(sqrt_scaled(SCALE), SCALE);
    assert_eq!(sqrt_scaled(4 * SCALE), 2 * SCALE);
    assert_eq!(sqrt_scaled(200 * SCALE), 14_142_135_623);
    assert_eq!(sqrt_scaled(2 * SCALE), 1_414_213_562);
    assert_eq!(sqrt_scaled(3 * SCALE), 1_732_050_807);
    assert_eq!(sqrt_scaled(10_000), 3_162_277);
    assert_eq!(sqrt_scaled(1), 31_622);
}

#[test]
fn sqrt_scaled_of_the_largest_value() {
    let r = sqrt_scaled(i64::MAX) as i128;
    let n = (i64::MAX as i128) * (SCALE as i128);
    assert!(r * r <= n);
    assert!(n < (r + 1) * (r + 1));
}
