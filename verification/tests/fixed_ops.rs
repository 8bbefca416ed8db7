use xsection::fixed::{div_trunc, fx_cos, fx_div, fx_floor, fx_fract, fx_mul, fx_sin, FX_ONE};

#[test]
fn fx_mul_scales_products() {
    assert_eq!(fx_mul(15000, 15000), 22500);
    assert_eq!(fx_mul(10000, 25000), 25000);
    assert_eq!(fx_mul(3, 3), 0);
    assert_eq!(fx_mul(0, 123456), 0);
}

#[test]
fn fx_mul_truncates_toward_zero_symmetrically() {
    assert_eq!(fx_mul(-15000, 15000), -22500);
    assert_eq!(fx_mul(15000, -15000), -22500);
    assert_eq!(fx_mul(-15000, -15000), 22500);
    assert_eq!(fx_mul(9999, 1), 0);
    assert_eq!(fx_mul(-9999, 1), 0);
}

#[test]
fn fx_div_is_the_scaled_quotient() {
    assert_eq!(fx_div(10000, 30000), 3333);
    assert_eq!(fx_div(-10000, 30000), -3333);
    assert_eq!(fx_div(10000, -30000), -3333);
    assert_eq!(fx_div(10000, 1), 100_000_000);
}

#[test]
fn fx_floor_rounds_down() {
    assert_eq!(fx_floor(13000), 1);
    assert_eq!(fx_floor(-13000), -2);
    assert_eq!(fx_floor(-20000), -2);
    assert_eq!(fx_floor(0), 0);
    assert_eq!(fx_floor(9999), 0);
}

#[test]
fn fx_fract_is_nonnegative() {
    assert_eq!(fx_fract(13000), 3000);
    assert_eq!(fx_fract(-13000), 7000);
    assert_eq!(fx_fract(-20000), 0);
    assert_eq!(fx_fract(9999), 9999);
}

#[test]
fn div_trunc_rounds_toward_zero() {
    assert_eq!(div_trunc(7, 2), 3);
    assert_eq!(div_trunc(-7, 2), -3);
}

#[test]
fn trig_small_angle_values() {
    assert_eq!(fx_sin(0), 0);
    assert_eq!(fx_cos(0), FX_ONE);
    // An eighth of a turn: both near half the square root of two.
    assert_eq!(fx_sin(7854), 7071);
    assert_eq!(fx_cos(7854), 7074);
    assert_eq!(fx_sin(-7854), -7071);
    assert_eq!(fx_cos(-7854), 7074);
}
