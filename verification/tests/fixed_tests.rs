use raytracer::fixed::{isqrt, Fixed, RAW_MAX, SCALE};
use raytracer::quadratic::{dot3, ratio, roots};
use raytracer::wide::Wide;

fn fx(x: f64) -> Fixed {
    Fixed::from_raw((x * 1e12).round() as i64)
}

#[test]
fn from_int_counts_whole_units() {
    assert_eq!(Fixed::from_int(3).raw(), 3 * SCALE);
    assert_eq!(Fixed::from_int(-7).raw(), -7 * SCALE);
    assert_eq!(Fixed::from_int(0).raw(), 0);
}

#[test]
fn from_int_saturates() {
    assert_eq!(Fixed::from_int(10_000_000).raw(), RAW_MAX);
    assert_eq!(Fixed::from_int(-10_000_000).raw(), -RAW_MAX);
    assert_eq!(Fixed::from_int(i64::MIN).raw(), -RAW_MAX);
}

#[test]
fn from_milli_counts_thousandths() {
    assert_eq!(Fixed::from_milli(250).raw(), 250_000_000_000);
    assert_eq!(Fixed::from_milli(-1300).raw(), -1_300_000_000_000);
    assert_eq!(Fixed::from_milli(2_000_000).raw(), 2_000_000_000_000_000);
    assert_eq!(Fixed::from_milli(i32::MAX).raw(), RAW_MAX);
    assert_eq!(Fixed::from_milli(i32::MIN).raw(), -RAW_MAX);
}

#[test]
fn from_raw_keeps_the_range_symmetric() {
    assert_eq!(Fixed::from_raw(i64::MIN).raw(), -RAW_MAX);
    assert_eq!(Fixed::from_raw(i64::MAX).raw(), RAW_MAX);
    assert_eq!(Fixed::from_raw(-5).raw(), -5);
}

#[test]
fn named_values() {
    assert_eq!(Fixed::zero().raw(), 0);
    assert_eq!(Fixed::one().raw(), SCALE);
    assert_eq!(Fixed::max_value().raw(), RAW_MAX);
}

#[test]
fn add_and_sub_are_exact_in_range() {
    assert_eq!(fx(1.5).add(fx(2.25)).raw(), 3_750_000_000_000);
    assert_eq!(fx(1.5).sub(fx(2.25)).raw(), -750_000_000_000);
}

#[test]
fn add_and_sub_saturate() {
    let top = Fixed::max_value();
    assert_eq!(top.add(Fixed::one()).raw(), RAW_MAX);
    assert_eq!(top.neg().sub(Fixed::one()).raw(), -RAW_MAX);
    assert_eq!(top.add(top.neg()).raw(), 0);
}

#[test]
fn neg_and_abs() {
    assert_eq!(fx(2.5).neg().raw(), -2_500_000_000_000);
    assert_eq!(fx(-2.5).abs().raw(), 2_500_000_000_000);
    assert_eq!(fx(2.5).abs().raw(), 2_500_000_000_000);
    assert_eq!(Fixed::max_value().neg().abs().raw(), RAW_MAX);
}

#[test]
fn mul_rounds_toward_zero() {
    assert_eq!(fx(1.5).mul(fx(2.5)).raw(), 3_750_000_000_000);
    assert_eq!(fx(-1.5).mul(fx(2.5)).raw(), -3_750_000_000_000);
    assert_eq!(Fixed::from_raw(1).mul(Fixed::from_raw(1)).raw(), 0);
    assert_eq!(Fixed::from_raw(-1).mul(fx(0.5)).raw(), 0);
    assert_eq!(Fixed::from_raw(3).mul(fx(0.5)).raw(), 1);
    assert_eq!(Fixed::from_raw(-3).mul(fx(0.5)).raw(), -1);
}

#[test]
fn mul_saturates() {
    let big = Fixed::from_int(5_000);
    assert_eq!(big.mul(big).raw(), RAW_MAX);
    assert_eq!(big.mul(big.neg()).raw(), -RAW_MAX);
}

#[test]
fn div_rounds_toward_zero() {
    assert_eq!(Fixed::one().div(Fixed::from_int(3)).raw(), 333_333_333_333);
    assert_eq!(Fixed::one().neg().div(Fixed::from_int(3)).raw(), -333_333_333_333);
    assert_eq!(Fixed::one().div(Fixed::from_int(-3)).raw(), -333_333_333_333);
    assert_eq!(Fixed::one().neg().div(Fixed::from_int(-3)).raw(), 333_333_333_333);
    assert_eq!(fx(7.5).div(fx(2.5)).raw(), 3 * SCALE);
}

#[test]
fn div_by_zero_saturates_by_sign() {
    assert_eq!(Fixed::one().div(Fixed::zero()).raw(), RAW_MAX);
    assert_eq!(Fixed::one().neg().div(Fixed::zero()).raw(), -RAW_MAX);
    assert_eq!(Fixed::zero().div(Fixed::zero()).raw(), 0);
}

#[test]
fn div_saturates() {
    assert_eq!(Fixed::from_int(1_000).div(Fixed::from_raw(1)).raw(), RAW_MAX);
    assert_eq!(Fixed::from_int(-1_000).div(Fixed::from_raw(1)).raw(), -RAW_MAX);
}

#[test]
fn sqrt_rounds_down() {
    assert_eq!(fx(0.25).sqrt().raw(), 500_000_000_000);
    assert_eq!(Fixed::from_int(2).sqrt().raw(), 1_414_213_562_373);
    assert_eq!(Fixed::from_int(9).sqrt().raw(), 3 * SCALE);
    assert_eq!(Fixed::zero().sqrt().raw(), 0);
}

#[test]
fn sqrt_of_a_negative_is_zero() {
    assert_eq!(fx(-4.0).sqrt().raw(), 0);
}

#[test]
fn isqrt_is_the_floor() {
    assert_eq!(isqrt(0), 0);
    assert_eq!(isqrt(1), 1);
    assert_eq!(isqrt(15), 3);
    assert_eq!(isqrt(16), 4);
    assert_eq!(isqrt(17), 4);
    assert_eq!(isqrt(u128::MAX), 0xFFFF_FFFF_FFFF_FFFF);
    assert_eq!(isqrt(1_000_000_000_000_000_000_000_000), 1_000_000_000_000);
}

#[test]
fn trunc_drops_the_fraction() {
    assert_eq!(fx(2.9).trunc(), 2);
    assert_eq!(fx(-2.9).trunc(), -2);
    assert_eq!(fx(0.999).trunc(), 0);
    assert_eq!(fx(255.744).trunc(), 255);
}

#[test]
fn norm3_is_the_euclidean_norm() {
    assert_eq!(Fixed::norm3(fx(3.0), fx(4.0), fx(0.0)).raw(), 5 * SCALE);
    assert_eq!(Fixed::norm3(fx(1.0), fx(1.0), fx(1.0)).raw(), 1_732_050_807_568);
    assert_eq!(Fixed::norm3(fx(0.0), fx(0.0), fx(0.0)).raw(), 0);
    assert_eq!(Fixed::norm3(fx(0.0), fx(-2.0), fx(0.0)).raw(), 2 * SCALE);
}

#[test]
fn norm3_saturates() {
    let top = Fixed::max_value();
    assert_eq!(Fixed::norm3(top, top, top).raw(), RAW_MAX);
    assert_eq!(Fixed::norm3(top, Fixed::zero(), Fixed::zero()).raw(), RAW_MAX);
}

#[test]
fn comparisons() {
    assert!(fx(1.0).lt(fx(2.0)));
    assert!(!fx(2.0).lt(fx(2.0)));
    assert!(fx(2.0).le(fx(2.0)));
    assert!(fx(3.0).gt(fx(2.0)));
    assert!(fx(2.0).ge(fx(2.0)));
    assert!(!fx(1.0).ge(fx(2.0)));
    assert!(Fixed::zero().is_zero());
    assert!(!Fixed::from_raw(1).is_zero());
}

#[test]
fn max_min_clamp() {
    assert_eq!(fx(1.0).max(fx(2.0)), fx(2.0));
    assert_eq!(fx(1.0).min(fx(2.0)), fx(1.0));
    assert_eq!(fx(1.5).clamp(Fixed::zero(), Fixed::one()), Fixed::one());
    assert_eq!(fx(-1.5).clamp(Fixed::zero(), Fixed::one()), Fixed::zero());
    assert_eq!(fx(0.5).clamp(Fixed::zero(), Fixed::one()), fx(0.5));
}

#[test]
fn the_range_ends_at_two_million() {
    assert_eq!(RAW_MAX, 2_000_000 * SCALE);
    assert_eq!(Fixed::from_int(2_000_000).raw(), RAW_MAX);
    assert_eq!(Fixed::from_int(2_000_001).raw(), RAW_MAX);
    assert_eq!(Fixed::from_raw(RAW_MAX + 1).raw(), RAW_MAX);
    assert_eq!(Fixed::from_raw(-RAW_MAX - 1).raw(), -RAW_MAX);
}

#[test]
fn wide_product_is_exact() {
    let w = Wide::mul(u128::MAX, u128::MAX);
    assert_eq!((w.hi, w.lo), (u128::MAX - 1, 1));
    let w = Wide::mul(1 << 64, 1 << 64);
    assert_eq!((w.hi, w.lo), (1, 0));
    let w = Wide::mul(12345, 6789);
    assert_eq!((w.hi, w.lo), (0, 12345 * 6789));
    let w = Wide::mul(0, u128::MAX);
    assert_eq!((w.hi, w.lo), (0, 0));
    let w = Wide::mul((1 << 100) + 7, (1 << 90) + 3);
    assert_eq!((w.hi, w.lo), (1 << 62, 3 * (1 << 100) + 7 * (1 << 90) + 21));
}

#[test]
fn wide_sum_difference_and_order() {
    let a = Wide { hi: 1, lo: u128::MAX };
    let b = Wide { hi: 2, lo: 5 };
    let sum = a.add(b);
    assert_eq!((sum.hi, sum.lo), (4, 4));
    let diff = b.sub(a);
    assert_eq!((diff.hi, diff.lo), (0, 6));
    assert!(a.le(b) && !b.le(a) && a.le(a));
    let same = a.sub(a);
    assert_eq!((same.hi, same.lo), (0, 0));
}

#[test]
fn wide_square_root_and_quotient() {
    let n = Wide::mul(1 << 100, 1 << 100);
    assert_eq!(n.isqrt(), 1 << 100);
    assert_eq!(Wide { hi: 0, lo: 17 }.isqrt(), 4);
    assert_eq!(Wide { hi: 0, lo: 0 }.isqrt(), 0);
    let below = n.sub(Wide { hi: 0, lo: 1 });
    assert_eq!(below.isqrt(), (1 << 100) - 1);
    assert_eq!(n.div_capped(1 << 100, u128::MAX), 1 << 100);
    assert_eq!(n.div_capped(1 << 100, 1000), 1000);
    assert_eq!(n.div_capped(3, u128::MAX), u128::MAX);
    assert_eq!(Wide::mul(1 << 70, 1 << 70).div_capped(1 << 20, u128::MAX), 1 << 120);
    assert_eq!(Wide::mul(1 << 70, 3 << 60).div_capped(1000, u128::MAX), 4083388403051261561560495289181218537);
    assert_eq!(Wide { hi: 0, lo: 17 }.div_capped(5, 100), 3);
    assert_eq!(Wide { hi: 0, lo: 17 }.div_capped(18, 100), 0);
    assert_eq!(Wide { hi: 0, lo: 17 }.div_capped(1, 17), 17);
}

#[test]
fn ratio_rounds_toward_zero() {
    let one = SCALE as i128;
    assert_eq!(ratio(one, 3 * one).raw(), 333_333_333_333);
    assert_eq!(ratio(-one, 3 * one).raw(), -333_333_333_333);
    assert_eq!(ratio(0, one).raw(), 0);
    assert_eq!(ratio(7 * one * one, 2 * one * one).raw(), 3_500_000_000_000);
    assert_eq!(ratio(one * one, 1).raw(), RAW_MAX);
    assert_eq!(ratio(-one * one, 1).raw(), -RAW_MAX);
}

#[test]
fn roots_of_a_quadratic() {
    let unit = (SCALE as i128) * (SCALE as i128);
    let (near, far) = roots(unit, -3 * unit, 8 * unit).unwrap();
    assert_eq!((near.raw(), far.raw()), (2 * SCALE, 4 * SCALE));
    let (near, far) = roots(unit, 0, -2 * unit).unwrap();
    assert_eq!((near.raw(), far.raw()), (-1_414_213_562_373, 1_414_213_562_373));
    let (near, far) = roots(4 * unit, 4 * unit, 4 * unit).unwrap();
    assert_eq!((near.raw(), far.raw()), (-SCALE, -SCALE));
    assert!(roots(unit, unit, 2 * unit).is_none());
    assert!(roots(0, unit, -unit).is_none());
    assert!(roots(-unit, unit, unit).is_none());
}

#[test]
fn roots_at_the_limit_of_the_coefficients() {
    let top: i128 = 48_000_000_000_000_000_000_000_000_000_000_000_000;
    let (near, far) = roots(top, top, -top).unwrap();
    assert_eq!((near.raw(), far.raw()), (-2_414_213_562_373, 414_213_562_373));
    let (near, far) = roots(1, -top, top).unwrap();
    assert_eq!((near.raw(), far.raw()), (SCALE, RAW_MAX));
    assert!(roots(top, top - 1, top).is_none());
}

#[test]
fn dot_product_of_whole_numbers() {
    assert_eq!(dot3(1, 2, 3, 4, -5, 6), 12);
    let top = 2 * (RAW_MAX as i128);
    assert_eq!(dot3(top, top, top, top, top, top), 3 * top * top);
    assert_eq!(dot3(top, -top, top, -top, top, -top), -3 * top * top);
}
