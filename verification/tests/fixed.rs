use bw_adventures::fixed::{
    clamp, fx_abs, fx_add, fx_div, fx_midpoint, fx_mul, fx_sub, COORD_MAX, LIMIT, UNIT,
};

#[test]
fn unit_and_limits() {
    assert_eq!(UNIT, 1_000_000);
    assert_eq!(LIMIT, 2 * COORD_MAX);
}

#[test]
fn clamp_keeps_what_is_in_range() {
    assert_eq!(clamp(0), 0);
    assert_eq!(clamp(-17), -17);
    assert_eq!(clamp(LIMIT as i128), LIMIT);
    assert_eq!(clamp(-(LIMIT as i128)), -LIMIT);
}

#[test]
fn clamp_saturates_outside() {
    assert_eq!(clamp(LIMIT as i128 + 1), LIMIT);
    assert_eq!(clamp(-(LIMIT as i128) - 1), -LIMIT);
    assert_eq!(clamp(i128::MAX), LIMIT);
    assert_eq!(clamp(i128::MIN), -LIMIT);
}

#[test]
fn add_and_sub_are_exact_in_range() {
    assert_eq!(fx_add(3 * UNIT, 4 * UNIT), 7 * UNIT);
    assert_eq!(fx_sub(3 * UNIT, 4 * UNIT), -UNIT);
    assert_eq!(fx_add(-5, 5), 0);
}

#[test]
fn add_and_sub_saturate() {
    assert_eq!(fx_add(LIMIT, 1), LIMIT);
    assert_eq!(fx_sub(-LIMIT, 1), -LIMIT);
    assert_eq!(fx_add(i64::MAX, i64::MAX), LIMIT);
    assert_eq!(fx_sub(i64::MIN, i64::MAX), -LIMIT);
    assert_eq!(fx_sub(0, i64::MIN), LIMIT);
}

#[test]
fn mul_scales_by_the_unit() {
    // 2.5 * 4 = 10
    assert_eq!(fx_mul(2_500_000, 4 * UNIT), 10 * UNIT);
    // 0.08 * 10 = 0.8
    assert_eq!(fx_mul(80_000, 10 * UNIT), 800_000);
    assert_eq!(fx_mul(-3 * UNIT, 2 * UNIT), -6 * UNIT);
    assert_eq!(fx_mul(-3 * UNIT, -2 * UNIT), 6 * UNIT);
    assert_eq!(fx_mul(0, 123_456), 0);
}

#[test]
fn mul_rounds_towards_zero() {
    // 0.000001 * 0.5 = 0.0000005
    assert_eq!(fx_mul(1, 500_000), 0);
    assert_eq!(fx_mul(-1, 500_000), 0);
    // 0.000003 * 0.5 = 0.0000015
    assert_eq!(fx_mul(3, 500_000), 1);
    assert_eq!(fx_mul(-3, 500_000), -1);
}

#[test]
fn mul_saturates() {
    assert_eq!(fx_mul(i64::MAX, i64::MAX), LIMIT);
    assert_eq!(fx_mul(i64::MIN, i64::MAX), -LIMIT);
    assert_eq!(fx_mul(i64::MIN, i64::MIN), LIMIT);
    assert_eq!(fx_mul(LIMIT, 2 * UNIT), LIMIT);
}

#[test]
fn div_scales_by_the_unit() {
    // 7 / 2 = 3.5
    assert_eq!(fx_div(7 * UNIT, 2 * UNIT), 3_500_000);
    assert_eq!(fx_div(-7 * UNIT, 2 * UNIT), -3_500_000);
    assert_eq!(fx_div(7 * UNIT, -2 * UNIT), -3_500_000);
    assert_eq!(fx_div(-7 * UNIT, -2 * UNIT), 3_500_000);
    assert_eq!(fx_div(0, 3 * UNIT), 0);
}

#[test]
fn div_rounds_towards_zero() {
    // 1 / 3 = 0.333333...
    assert_eq!(fx_div(UNIT, 3 * UNIT), 333_333);
    assert_eq!(fx_div(-UNIT, 3 * UNIT), -333_333);
    // 2 / 3 = 0.666666...
    assert_eq!(fx_div(2 * UNIT, 3 * UNIT), 666_666);
    assert_eq!(fx_div(2 * UNIT, -3 * UNIT), -666_666);
}

#[test]
fn div_saturates() {
    assert_eq!(fx_div(i64::MAX, 1), LIMIT);
    assert_eq!(fx_div(i64::MIN, 1), -LIMIT);
    assert_eq!(fx_div(i64::MIN, -1), LIMIT);
}

#[test]
fn abs_is_the_magnitude() {
    assert_eq!(fx_abs(5), 5);
    assert_eq!(fx_abs(-5), 5);
    assert_eq!(fx_abs(0), 0);
    assert_eq!(fx_abs(i64::MIN), LIMIT);
    assert_eq!(fx_abs(i64::MAX), LIMIT);
}

#[test]
fn midpoint_is_the_mean() {
    assert_eq!(fx_midpoint(0, 5 * UNIT), 2_500_000);
    assert_eq!(fx_midpoint(-2 * UNIT, 0), -UNIT);
    assert_eq!(fx_midpoint(7, 7), 7);
}

#[test]
fn midpoint_rounds_towards_zero() {
    assert_eq!(fx_midpoint(0, 5), 2);
    assert_eq!(fx_midpoint(0, -5), -2);
    assert_eq!(fx_midpoint(i64::MAX, i64::MAX), i64::MAX);
    assert_eq!(fx_midpoint(i64::MIN, i64::MIN), i64::MIN);
}
