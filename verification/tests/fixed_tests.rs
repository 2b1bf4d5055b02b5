use foodsim::fixed::{fix_div, fix_mul, fix_sqrt, half, sat_add, sat_sub, FIX_HALF, FIX_ONE};

#[test]
fn fix_mul_matches_exact_products() {
    assert_eq!(fix_mul(3 * FIX_ONE, 2 * FIX_ONE), 6 * FIX_ONE);
    assert_eq!(fix_mul(FIX_HALF, FIX_HALF), FIX_ONE / 4);
    assert_eq!(fix_mul(-3 * FIX_ONE, 2 * FIX_ONE), -6 * FIX_ONE);
    // Truncation toward zero on both signs.
    assert_eq!(fix_mul(1, 1), 0);
    assert_eq!(fix_mul(-1, 1), 0);
}

#[test]
fn fix_mul_saturates_at_the_representable_range() {
    assert_eq!(fix_mul(i64::MAX, i64::MAX), i64::MAX);
    assert_eq!(fix_mul(i64::MAX, -i64::MAX), i64::MIN);
}

#[test]
fn fix_div_matches_exact_quotients() {
    assert_eq!(fix_div(6 * FIX_ONE, 2 * FIX_ONE), 3 * FIX_ONE);
    assert_eq!(fix_div(FIX_ONE, 3 * FIX_ONE), 21845);
    assert_eq!(fix_div(-FIX_ONE, 2 * FIX_ONE), -FIX_HALF);
}

#[test]
fn saturating_sum_and_difference() {
    assert_eq!(sat_add(1, 2), 3);
    assert_eq!(sat_add(i64::MAX, 1), i64::MAX);
    assert_eq!(sat_sub(i64::MIN, 1), i64::MIN);
    assert_eq!(sat_sub(5, 7), -2);
}

#[test]
fn fix_sqrt_is_exact_on_squares() {
    assert_eq!(fix_sqrt(4 * FIX_ONE), 2 * FIX_ONE);
    assert_eq!(fix_sqrt(9 * FIX_ONE), 3 * FIX_ONE);
    assert_eq!(fix_sqrt(0), 0);
    // sqrt(2) in fixed point, rounded down.
    assert_eq!(fix_sqrt(2 * FIX_ONE), 92681);
}

#[test]
fn half_truncates_toward_zero() {
    assert_eq!(half(5), 2);
    assert_eq!(half(-5), -2);
    assert_eq!(half(FIX_ONE), FIX_HALF);
}
