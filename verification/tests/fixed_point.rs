use softbody::util::fixed::{
    fx_abs, fx_add, fx_clamp, fx_div, fx_div_count, fx_halve, fx_int_sqrt, fx_mul, fx_mul_count,
    fx_neg, fx_sub, saturate_wide, SCALE,
};
use softbody::util::vector::Vec2;

#[test]
fn scale_is_one_million() {
    assert_eq!(SCALE, 1_000_000);
}

#[test]
fn add_and_sub_are_exact_in_range() {
    assert_eq!(fx_add(1_500_000, 2_250_000), 3_750_000);
    assert_eq!(fx_sub(1_500_000, 2_250_000), -750_000);
}

#[test]
fn add_and_sub_saturate() {
    assert_eq!(fx_add(i64::MAX, 1), i64::MAX);
    assert_eq!(fx_add(i64::MIN, -1), i64::MIN);
    assert_eq!(fx_sub(i64::MIN, 1), i64::MIN);
    assert_eq!(fx_sub(i64::MAX, -1), i64::MAX);
}

#[test]
fn neg_and_abs_saturate_at_the_lowest_value() {
    assert_eq!(fx_neg(5), -5);
    assert_eq!(fx_neg(i64::MIN), i64::MAX);
    assert_eq!(fx_abs(-7), 7);
    assert_eq!(fx_abs(7), 7);
    assert_eq!(fx_abs(i64::MIN), i64::MAX);
}

#[test]
fn mul_rounds_toward_zero() {
    // 1.5 * 2.5 = 3.75
    assert_eq!(fx_mul(1_500_000, 2_500_000), 3_750_000);
    // 0.000001 * 0.5 = 0.0000005, which rounds to zero from either side
    assert_eq!(fx_mul(1, 500_000), 0);
    assert_eq!(fx_mul(-1, 500_000), 0);
    // -1.000001 * 0.5 = -0.5000005
    assert_eq!(fx_mul(-1_000_001, 500_000), -500_000);
}

#[test]
fn mul_saturates() {
    assert_eq!(fx_mul(i64::MAX, 2_000_000), i64::MAX);
    assert_eq!(fx_mul(i64::MAX, -2_000_000), i64::MIN);
    assert_eq!(fx_mul(i64::MIN, i64::MIN), i64::MAX);
}

#[test]
fn div_rounds_toward_zero_and_guards_zero() {
    assert_eq!(fx_div(1_000_000, 3_000_000), 333_333);
    assert_eq!(fx_div(-1_000_000, 3_000_000), -333_333);
    assert_eq!(fx_div(1_000_000, -3_000_000), -333_333);
    assert_eq!(fx_div(7_000_000, 0), 0);
    assert_eq!(fx_div(i64::MAX, 1), i64::MAX);
}

#[test]
fn halve_and_share_round_toward_zero() {
    assert_eq!(fx_halve(7), 3);
    assert_eq!(fx_halve(-7), -3);
    assert_eq!(fx_div_count(10, 3), 3);
    assert_eq!(fx_div_count(-10, 3), -3);
    assert_eq!(fx_div_count(10, 0), 0);
}

#[test]
fn multiple_and_clamp() {
    assert_eq!(fx_mul_count(3_000_000, 4), 12_000_000);
    assert_eq!(fx_mul_count(i64::MAX, 2), i64::MAX);
    assert_eq!(fx_clamp(-5, 0, 10), 0);
    assert_eq!(fx_clamp(15, 0, 10), 10);
    assert_eq!(fx_clamp(5, 0, 10), 5);
    assert_eq!(saturate_wide(i128::MAX), i64::MAX);
    assert_eq!(saturate_wide(-3), -3);
}

#[test]
fn int_sqrt_is_the_floor_of_the_root() {
    assert_eq!(fx_int_sqrt(0), 0);
    assert_eq!(fx_int_sqrt(1), 1);
    assert_eq!(fx_int_sqrt(24), 4);
    assert_eq!(fx_int_sqrt(25), 5);
    assert_eq!(fx_int_sqrt(26), 5);
    assert_eq!(fx_int_sqrt(u128::MAX), u64::MAX);
}

#[test]
fn vector_sum_difference_and_scale() {
    let a = Vec2::new(1_000_000, -2_000_000);
    let b = Vec2::new(500_000, 250_000);
    assert_eq!(a.plus(b), Vec2::new(1_500_000, -1_750_000));
    assert_eq!(a.minus(b), Vec2::new(500_000, -2_250_000));
    assert_eq!(a.scaled(2_500_000), Vec2::new(2_500_000, -5_000_000));
    assert_eq!(a.halved(), Vec2::new(500_000, -1_000_000));
    assert_eq!(a.doubled(), Vec2::new(2_000_000, -4_000_000));
    assert_eq!(a.shared(4), Vec2::new(250_000, -500_000));
    assert_eq!(Vec2::zero(), Vec2::new(0, 0));
}

#[test]
fn midpoint_does_not_saturate() {
    let a = Vec2::new(i64::MAX, i64::MIN);
    let b = Vec2::new(i64::MAX - 2, i64::MIN + 2);
    assert_eq!(a.midpoint(b), Vec2::new(i64::MAX - 1, i64::MIN + 1));
    assert_eq!(Vec2::new(0, 0).midpoint(Vec2::new(3, -3)), Vec2::new(1, -1));
}

#[test]
fn perpendicular_is_a_quarter_turn_clockwise() {
    assert_eq!(Vec2::new(0, 1_000_000).perpendicular(), Vec2::new(1_000_000, 0));
    assert_eq!(Vec2::new(1_000_000, 0).perpendicular(), Vec2::new(0, -1_000_000));
}

#[test]
fn length_of_a_three_four_five_triangle() {
    assert_eq!(Vec2::new(3_000_000, 4_000_000).length(), 5_000_000);
    assert_eq!(Vec2::new(-3_000_000, 4_000_000).length(), 5_000_000);
    assert_eq!(Vec2::new(1, 1).length(), 1);
    assert_eq!(Vec2::new(0, 0).length(), 0);
}

#[test]
fn normalized_has_length_one() {
    assert_eq!(Vec2::new(3_000_000, 4_000_000).normalized(), Vec2::new(600_000, 800_000));
    assert_eq!(Vec2::new(-100_000_000, 0).normalized(), Vec2::new(-1_000_000, 0));
}

#[test]
fn normalized_of_the_origin_is_the_origin() {
    assert_eq!(Vec2::new(0, 0).normalized(), Vec2::new(0, 0));
}

#[test]
fn normalized_at_the_ends_of_the_range() {
    let v = Vec2::new(i64::MIN, i64::MIN).normalized();
    assert_eq!(v, Vec2::new(-707_106, -707_106));
}

#[test]
fn clamped_confines_each_coordinate() {
    assert_eq!(Vec2::new(-1, 700).clamped(0, 500), Vec2::new(0, 500));
    assert_eq!(Vec2::new(20, 30).clamped(0, 500), Vec2::new(20, 30));
}
