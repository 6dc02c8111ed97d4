use es_core::numbers::{
    clamp_length, e262_equal, e262_same_value, e262_same_value_zero, is_inf, is_nan,
    is_neg_inf, is_neg_zero, is_pos_inf, is_pos_zero, is_zero, truncate, MAX_SAFE_INTEGER,
};
use es_core::Number;

fn num(x: f64) -> Number {
    Number::from_bits(x.to_bits())
}

#[test]
fn is_nan_works() {
    assert!(is_nan(num(f64::NAN)));
    assert!(!is_nan(num(0.0)));
}

#[test]
fn is_neg_zero_works() {
    assert!(is_neg_zero(num(-0.0)));
    assert!(!is_neg_zero(num(0.0)));
}

#[test]
fn is_pos_zero_works() {
    assert!(is_pos_zero(num(0.0)));
    assert!(!is_pos_zero(num(-0.0)));
}

#[test]
fn is_zero_works() {
    assert!(is_zero(num(0.0)));
    assert!(is_zero(num(-0.0)));
    assert!(!is_zero(num(1.0)));
}

#[test]
fn infinities_are_recognised() {
    assert!(is_inf(num(f64::INFINITY)));
    assert!(is_inf(num(f64::NEG_INFINITY)));
    assert!(is_pos_inf(num(f64::INFINITY)));
    assert!(!is_pos_inf(num(f64::NEG_INFINITY)));
    assert!(is_neg_inf(num(f64::NEG_INFINITY)));
    assert!(!is_inf(num(1e308)));
    assert!(!is_inf(num(f64::NAN)));
}

#[test]
fn number_comparisons() {
    assert!(!e262_equal(num(f64::NAN), num(f64::NAN)));
    assert!(e262_equal(num(0.0), num(-0.0)));
    assert!(e262_equal(num(2.5), num(2.5)));
    assert!(e262_same_value(num(f64::NAN), num(f64::NAN)));
    assert!(!e262_same_value(num(0.0), num(-0.0)));
    assert!(e262_same_value(num(-0.0), num(-0.0)));
    assert!(e262_same_value_zero(num(0.0), num(-0.0)));
    assert!(e262_same_value_zero(num(f64::NAN), num(f64::NAN)));
    assert!(!e262_same_value_zero(num(1.0), num(2.0)));
}

#[test]
fn truncation_toward_zero() {
    assert_eq!(f64::from_bits(truncate(num(3.7)).to_bits()), 3.0);
    assert_eq!(f64::from_bits(truncate(num(-3.7)).to_bits()), -3.0);
    assert_eq!(truncate(num(0.5)).to_bits(), 0);
    assert_eq!(truncate(num(-0.5)).to_bits(), (-0.0f64).to_bits());
    assert_eq!(f64::from_bits(truncate(num(1e20)).to_bits()), 1e20);
    assert_eq!(f64::from_bits(truncate(num(123456.999)).to_bits()), 123456.0);
}

#[test]
fn clamped_lengths() {
    assert_eq!(clamp_length(num(3.7)), 3);
    assert_eq!(clamp_length(num(-5.0)), 0);
    assert_eq!(clamp_length(num(0.25)), 0);
    assert_eq!(clamp_length(num(1e300)), MAX_SAFE_INTEGER);
    assert_eq!(clamp_length(num(9007199254740991.0)), 9007199254740991);
    assert_eq!(clamp_length(num(9007199254740992.0)), MAX_SAFE_INTEGER);
    assert_eq!(clamp_length(num(4503599627370496.5)), 4503599627370496);
}
