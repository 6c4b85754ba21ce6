use buddhabrot::complex::Num;
use buddhabrot::fixed::{Fixed, FRAC_ONE};

fn fx(v: i32) -> Fixed {
    Fixed::from_int(v)
}

#[test]
fn from_int_scales_by_frac_one() {
    assert_eq!(fx(1).v, FRAC_ONE);
    assert_eq!(fx(-2).v, -131072);
    assert_eq!(fx(0).v, 0);
}

#[test]
fn add_and_sub_are_exact_in_range() {
    assert_eq!(fx(3).add(fx(4)), fx(7));
    assert_eq!(fx(3).sub(fx(4)), fx(-1));
}

#[test]
fn add_saturates_at_the_ends() {
    let top = Fixed { v: i64::MAX };
    assert_eq!(top.add(fx(1)).v, i64::MAX);
    let bottom = Fixed { v: i64::MIN };
    assert_eq!(bottom.sub(fx(1)).v, i64::MIN);
}

#[test]
fn mul_truncates_toward_zero() {
    // 2.5 * 0.5 = 1.25
    let a = Fixed { v: 163840 };
    let b = Fixed { v: 32768 };
    assert_eq!(a.mul(b).v, 81920);
    // (-2.5) * 0.5 = -1.25: symmetric truncation
    let c = Fixed { v: -163840 };
    assert_eq!(c.mul(b).v, -81920);
    // smallest positive units: (1/65536)² truncates to zero
    let eps = Fixed { v: 1 };
    assert_eq!(eps.mul(eps).v, 0);
}

#[test]
fn div_is_exact_on_halves() {
    assert_eq!(fx(1).div(fx(2)).v, 32768);
    assert_eq!(fx(-1).div(fx(2)).v, -32768);
}

#[test]
fn div_by_zero_saturates_by_sign() {
    assert_eq!(fx(5).div(fx(0)).v, i64::MAX);
    assert_eq!(fx(-5).div(fx(0)).v, i64::MIN);
}

#[test]
fn gt_is_strict() {
    assert!(fx(3).gt(fx(2)));
    assert!(!fx(2).gt(fx(2)));
    assert!(!fx(1).gt(fx(2)));
}

#[test]
fn constants_hold_their_values() {
    assert_eq!(Fixed::two().v, 131072);
    assert_eq!(Fixed::quarter().v, 16384);
    assert_eq!(Fixed::half().v, 32768);
}

#[test]
fn of_usize_scales() {
    assert_eq!(Fixed::of_usize(3).v, 3 * FRAC_ONE);
    assert_eq!(Fixed::of_usize(0).v, 0);
}

#[test]
fn as_i32_truncates_toward_zero() {
    assert_eq!(fx(7).as_i32(), 7);
    assert_eq!(Fixed { v: 98304 }.as_i32(), 1); // 1.5
    assert_eq!(Fixed { v: -98304 }.as_i32(), -1); // -1.5
    assert_eq!(Fixed { v: i64::MAX }.as_i32(), i32::MAX);
    assert_eq!(Fixed { v: i64::MIN }.as_i32(), i32::MIN);
}
