use physics_engine::fixed::{integer_sqrt, Fixed, SCALE};

fn raw(value: i64) -> Fixed {
    Fixed::from_raw(value)
}

#[test]
fn test_scale_is_a_million() {
    assert_eq!(SCALE, 1_000_000);
    assert_eq!(Fixed::one().raw, 1_000_000);
    assert_eq!(Fixed::zero().raw, 0);
}

#[test]
fn test_from_int_scales_and_saturates() {
    assert_eq!(Fixed::from_int(3).raw, 3_000_000);
    assert_eq!(Fixed::from_int(-7).raw, -7_000_000);
    assert_eq!(Fixed::from_int(i64::MAX).raw, i64::MAX);
    assert_eq!(Fixed::from_int(i64::MIN).raw, i64::MIN);
    assert_eq!(Fixed::from_int(9_223_372_036_854).raw, 9_223_372_036_854_000_000);
    assert_eq!(Fixed::from_int(9_223_372_036_855).raw, i64::MAX);
}

#[test]
fn test_add_and_sub_are_exact_within_range() {
    assert_eq!(raw(1_500_000).add(raw(2_250_000)), raw(3_750_000));
    assert_eq!(raw(1_500_000).sub(raw(2_250_000)), raw(-750_000));
}

#[test]
fn test_add_and_sub_saturate() {
    assert_eq!(raw(i64::MAX).add(raw(1)), raw(i64::MAX));
    assert_eq!(raw(i64::MIN).add(raw(-1)), raw(i64::MIN));
    assert_eq!(raw(i64::MIN).sub(raw(1)), raw(i64::MIN));
    assert_eq!(raw(i64::MAX).sub(raw(-1)), raw(i64::MAX));
    assert_eq!(raw(i64::MAX).add(raw(i64::MIN)), raw(-1));
}

#[test]
fn test_neg_and_abs_saturate_at_the_smallest_value() {
    assert_eq!(raw(5).neg(), raw(-5));
    assert_eq!(raw(i64::MIN).neg(), raw(i64::MAX));
    assert_eq!(raw(i64::MAX).neg(), raw(-i64::MAX));
    assert_eq!(raw(-3_000_000).abs(), raw(3_000_000));
    assert_eq!(raw(3_000_000).abs(), raw(3_000_000));
    assert_eq!(raw(i64::MIN).abs(), raw(i64::MAX));
}

#[test]
fn test_mul_rounds_toward_zero() {
    assert_eq!(raw(1_500_000).mul(raw(1_500_000)), raw(2_250_000));
    assert_eq!(Fixed::from_int(3).mul(Fixed::from_int(-4)), Fixed::from_int(-12));
    assert_eq!(raw(1).mul(raw(500_000)), raw(0));
    assert_eq!(raw(-1).mul(raw(500_000)), raw(0));
    assert_eq!(raw(3).mul(raw(500_000)), raw(1));
    assert_eq!(raw(-3).mul(raw(500_000)), raw(-1));
    assert_eq!(raw(3).mul(raw(-500_000)), raw(-1));
    assert_eq!(raw(-3).mul(raw(-500_000)), raw(1));
}

#[test]
fn test_mul_saturates() {
    let big = Fixed::from_int(4_000_000_000);
    assert_eq!(big.mul(big), raw(i64::MAX));
    assert_eq!(big.mul(big.neg()), raw(i64::MIN));
    assert_eq!(raw(i64::MIN).mul(raw(i64::MIN)), raw(i64::MAX));
    assert_eq!(raw(i64::MIN).mul(Fixed::one()), raw(i64::MIN));
    assert_eq!(raw(i64::MIN).mul(Fixed::one().neg()), raw(i64::MAX));
}

#[test]
fn test_div_rounds_toward_zero() {
    assert_eq!(Fixed::from_int(7).div(Fixed::from_int(2)), raw(3_500_000));
    assert_eq!(Fixed::from_int(1).div(Fixed::from_int(3)), raw(333_333));
    assert_eq!(Fixed::from_int(-1).div(Fixed::from_int(3)), raw(-333_333));
    assert_eq!(Fixed::from_int(1).div(Fixed::from_int(-3)), raw(-333_333));
    assert_eq!(Fixed::from_int(-2).div(Fixed::from_int(-3)), raw(666_666));
    assert_eq!(raw(1).div(Fixed::from_int(3)), raw(0));
    assert_eq!(raw(-1).div(Fixed::from_int(3)), raw(0));
}

#[test]
fn test_div_by_zero_saturates_toward_the_sign_of_the_dividend() {
    assert_eq!(Fixed::from_int(1).div(Fixed::zero()), raw(i64::MAX));
    assert_eq!(Fixed::from_int(-1).div(Fixed::zero()), raw(i64::MIN));
    assert_eq!(Fixed::zero().div(Fixed::zero()), raw(0));
}

#[test]
fn test_div_saturates() {
    assert_eq!(raw(i64::MAX).div(raw(500_000)), raw(i64::MAX));
    assert_eq!(raw(i64::MIN).div(raw(500_000)), raw(i64::MIN));
    assert_eq!(raw(i64::MIN).div(raw(-500_000)), raw(i64::MAX));
    assert_eq!(Fixed::from_int(1).div(raw(1)), Fixed::from_int(1_000_000));
}

#[test]
fn test_min_max_and_clamp() {
    assert_eq!(raw(3).min(raw(5)), raw(3));
    assert_eq!(raw(5).min(raw(3)), raw(3));
    assert_eq!(raw(3).max(raw(5)), raw(5));
    assert_eq!(raw(-5).max(raw(-3)), raw(-3));
    assert_eq!(raw(7).clamp(raw(-2), raw(2)), raw(2));
    assert_eq!(raw(-7).clamp(raw(-2), raw(2)), raw(-2));
    assert_eq!(raw(1).clamp(raw(-2), raw(2)), raw(1));
}

#[test]
fn test_clamp_with_crossed_bounds_gives_the_upper_bound() {
    assert_eq!(raw(5).clamp(raw(10), raw(0)), raw(0));
    assert_eq!(raw(-5).clamp(raw(10), raw(0)), raw(0));
}

#[test]
fn test_signum_of_zero_is_one() {
    assert_eq!(raw(0).signum(), Fixed::one());
    assert_eq!(raw(17).signum(), Fixed::one());
    assert_eq!(raw(-1).signum(), Fixed::one().neg());
}

#[test]
fn test_integer_sqrt_of_small_numbers() {
    let expected: [u128; 18] = [0, 1, 1, 1, 2, 2, 2, 2, 2, 3, 3, 3, 3, 3, 3, 3, 4, 4];
    for (n, root) in expected.iter().enumerate() {
        assert_eq!(integer_sqrt(n as u128), *root);
    }
}

#[test]
fn test_integer_sqrt_of_large_numbers() {
    assert_eq!(integer_sqrt(1_000_000_000_000), 1_000_000);
    assert_eq!(integer_sqrt(999_999_999_999), 999_999);
    assert_eq!(integer_sqrt(u128::MAX), 18_446_744_073_709_551_615);
    let largest: u128 = 18_446_744_073_709_551_615;
    assert_eq!(integer_sqrt(largest * largest), largest);
    assert_eq!(integer_sqrt(largest * largest - 1), largest - 1);
}

#[test]
fn test_integer_sqrt_brackets_its_argument() {
    let mut state: u128 = 0x2545_f491_4f6c_dd1d;
    for _ in 0..2000 {
        state = state.wrapping_mul(6364136223846793005).wrapping_add(1442695040888963407);
        let n = state >> (state % 97);
        let root = integer_sqrt(n);
        assert!(root * root <= n);
        assert!(root == 18_446_744_073_709_551_615 || (root + 1) * (root + 1) > n);
    }
}
