use core::cmp::Ordering;
use decimal64::{DecimalU64, U0, U2, U3, U5, U8};
use signed_decimal64::error::{MathError, ParseSignedDecimalError};
use signed_decimal64::round::{should_increment, RoundingMode};
use signed_decimal64::SignedDecimalU64;

fn d2(s: &str) -> SignedDecimalU64<U2> {
    SignedDecimalU64::<U2>::from_str(s).unwrap()
}

#[test]
fn normalization_of_sign() {
    for b in [false, true] {
        assert!(!SignedDecimalU64::<U2>::new(b, 0).is_negative());
        for m in [1u64, 7, u64::MAX] {
            assert_eq!(SignedDecimalU64::<U2>::new(b, m).is_negative(), b);
        }
    }
    let (neg, mag) = SignedDecimalU64::<U2>::new(true, 0).into_parts();
    assert!(!neg);
    assert_eq!(mag, 0);
}

#[test]
fn text_round_trip() {
    let values = [
        SignedDecimalU64::<U2>::new(false, 0),
        SignedDecimalU64::<U2>::new(true, 1),
        SignedDecimalU64::<U2>::new(false, 1234),
        SignedDecimalU64::<U2>::new(true, u64::MAX),
    ];
    for x in values {
        assert_eq!(SignedDecimalU64::<U2>::from_str(&x.to_string()).unwrap(), x);
    }
    let big = SignedDecimalU64::<U8>::new(true, u64::MAX);
    assert_eq!(big.to_string(), "-184467440737.09551615");
    assert_eq!(SignedDecimalU64::<U8>::from_str(&big.to_string()).unwrap(), big);
    let whole = SignedDecimalU64::<U0>::new(false, 42);
    assert_eq!(whole.to_string(), "42");
    assert_eq!(SignedDecimalU64::<U0>::from_str("42").unwrap(), whole);
}

#[test]
fn sign_identities() {
    let x = d2("-3.25");
    let y = d2("1.50");
    assert_eq!(x.negated().negated(), x);
    assert_eq!(x + x.negated(), SignedDecimalU64::<U2>::zero());
    assert_eq!(x.checked_sub(y), x.checked_add(-y));
    assert_eq!(x.checked_sub(y).unwrap().to_string(), "-4.75");
    assert_eq!(SignedDecimalU64::<U2>::zero().negated().to_string(), "0.00");
    assert!(!SignedDecimalU64::<U2>::zero().negated().is_negative());
}

#[test]
fn rescale_widen_then_narrow() {
    let x = SignedDecimalU64::<U2>::from_str("-1.25").unwrap();
    let wide = x.to_scale::<U5>(RoundingMode::HalfUp);
    assert_eq!(wide.to_string(), "-1.25000");
    let back = wide.to_scale::<U2>(RoundingMode::TowardZero);
    assert_eq!(back, x);
    let same = x.to_scale::<U2>(RoundingMode::AwayFromZero);
    assert_eq!(same, x);
    let narrowed = SignedDecimalU64::<U3>::from_str("-1.234")
        .unwrap()
        .to_scale::<U0>(RoundingMode::Floor);
    assert_eq!(narrowed.to_string(), "-2");
}

#[test]
fn overflow_boundary() {
    let max = SignedDecimalU64::<U0>::new(false, u64::MAX);
    let min = SignedDecimalU64::<U0>::new(true, u64::MAX);
    let two = SignedDecimalU64::<U0>::from_i64(2);
    assert!(max.checked_add(SignedDecimalU64::<U0>::one()).is_none());
    assert!(max.checked_mul(two).is_none());
    assert!(min.checked_sub(SignedDecimalU64::<U0>::one()).is_none());
    assert_eq!(max.checked_add(min), Some(SignedDecimalU64::<U0>::zero()));
    assert_eq!(
        max.checked_sub(SignedDecimalU64::<U0>::one()).unwrap().unscaled(),
        u64::MAX - 1
    );
}

#[test]
fn division_rules() {
    let x = d2("1.00");
    let three = d2("3.00");
    let zero = SignedDecimalU64::<U2>::zero();
    assert!(x.checked_div(zero).is_none());
    assert_eq!(x.try_div(zero), Err(MathError::DivisionByZero));
    assert_eq!(zero.checked_div(three), Some(zero));
    assert_eq!(x.checked_div(three).unwrap().to_string(), "0.33");
    assert_eq!(d2("-1.00").checked_div(three).unwrap().to_string(), "-0.33");
    let max = SignedDecimalU64::<U2>::new(false, u64::MAX);
    assert!(max.checked_div(d2("0.01")).is_none());
    assert_eq!(max.try_div(d2("0.01")), Err(MathError::Overflow));
    assert_eq!(x.try_div(three).unwrap().unscaled(), 33);
}

#[test]
fn multiplication_at_scale() {
    assert_eq!(d2("0.01").checked_mul(d2("0.01")).unwrap().to_string(), "0.00");
    let tiny = d2("-0.01").checked_mul(d2("0.01")).unwrap();
    assert!(!tiny.is_negative());
    assert_eq!(tiny.to_string(), "0.00");
    assert_eq!(d2("-2.50").checked_mul(d2("-4.00")).unwrap().to_string(), "10.00");
    let mut acc = d2("1.50");
    acc.mul_assign(d2("2.00"));
    assert_eq!(acc.to_string(), "3.00");
    acc.div_assign(d2("-4.00"));
    assert_eq!(acc.to_string(), "-0.75");
    acc.add_assign(d2("1.00"));
    assert_eq!(acc.to_string(), "0.25");
    acc.sub_assign(d2("0.50"));
    assert_eq!(acc.to_string(), "-0.25");
    assert_eq!(d2("1.50").mul(d2("-2.00")).to_string(), "-3.00");
    assert_eq!(d2("3.00").div(d2("2.00")).to_string(), "1.50");
}

#[test]
fn total_order() {
    let a = d2("-5.00");
    let b = d2("-1.00");
    let c = d2("2.00");
    assert_eq!(SignedDecimalU64::<U2>::zero(), SignedDecimalU64::<U2>::new(true, 0));
    assert!(a < b && b < c && a < c);
    assert_eq!(a.cmp(&b), Ordering::Less);
    assert_eq!(c.cmp(&a), Ordering::Greater);
    assert_eq!(b.partial_cmp(&d2("-1.00")), Some(Ordering::Equal));
    assert!(a <= a);
}

#[test]
fn parse_errors_and_whitespace() {
    assert_eq!(SignedDecimalU64::<U2>::from_str(""), Err(ParseSignedDecimalError::Empty));
    assert_eq!(SignedDecimalU64::<U2>::from_str("   "), Err(ParseSignedDecimalError::Empty));
    assert_eq!(SignedDecimalU64::<U2>::from_str("-"), Err(ParseSignedDecimalError::Empty));
    assert_eq!(SignedDecimalU64::<U2>::from_str("+"), Err(ParseSignedDecimalError::Empty));
    assert_eq!(
        SignedDecimalU64::<U2>::from_str("1.234"),
        Err(ParseSignedDecimalError::InvalidMagnitude)
    );
    assert_eq!(
        SignedDecimalU64::<U2>::from_str("12a"),
        Err(ParseSignedDecimalError::InvalidMagnitude)
    );
    assert_eq!(
        SignedDecimalU64::<U2>::from_str("--1"),
        Err(ParseSignedDecimalError::InvalidMagnitude)
    );
    assert_eq!(
        SignedDecimalU64::<U2>::from_str("184467440737095516.16"),
        Err(ParseSignedDecimalError::InvalidMagnitude)
    );
    let long_zeros = format!("0.{}", "0".repeat(300));
    assert_eq!(
        SignedDecimalU64::<U2>::from_str(&long_zeros),
        Err(ParseSignedDecimalError::InvalidMagnitude)
    );
    assert_eq!(d2("  +1.5 ").to_string(), "1.50");
    assert_eq!(d2("\t-7\n").to_string(), "-7.00");
    assert_eq!(SignedDecimalU64::<U2>::parse_trimmed(" 1").is_err(), true);
    assert_eq!(SignedDecimalU64::<U2>::parse_trimmed("-0.05").unwrap().unscaled(), 5);
}

#[test]
fn signed_integer_conversions() {
    assert_eq!(SignedDecimalU64::<U2>::try_from(i128::MIN), Err(MathError::Overflow));
    assert_eq!(
        SignedDecimalU64::<U2>::try_from(u64::MAX as i128 + 1),
        Err(MathError::Overflow)
    );
    let low = SignedDecimalU64::<U2>::try_from(-(u64::MAX as i128)).unwrap();
    assert_eq!(low.into_unscaled_i128(), -(u64::MAX as i128));
    assert_eq!(SignedDecimalU64::<U2>::from_i64(i64::MIN).into_unscaled_i128(), i64::MIN as i128);
    assert_eq!(SignedDecimalU64::<U2>::from_i64(-250).to_string(), "-2.50");
}

#[test]
fn sign_queries() {
    let n = d2("-0.01");
    assert_eq!(n.signum(), -1);
    assert_eq!(d2("0.01").signum(), 1);
    assert!(d2("0.01").is_positive());
    assert!(SignedDecimalU64::<U2>::zero().is_zero());
    assert_eq!(n.try_into_unsigned(), None);
    assert_eq!(n.to_unsigned(), 1);
    assert_eq!(d2("2.00").expect_non_negative("non-negative"), 200);
    assert_eq!(SignedDecimalU64::<U2>::default(), SignedDecimalU64::<U2>::zero());
    assert_eq!(SignedDecimalU64::<U2>::one().to_string(), "1.00");
}

#[test]
fn rounding_edges() {
    let max = SignedDecimalU64::<U2>::new(false, u64::MAX);
    assert!(max.checked_round_dp(0, RoundingMode::AwayFromZero).is_none());
    assert_eq!(max.trunc().unscaled(), u64::MAX / 100 * 100);
    assert_eq!(d2("2.50").round_dp(0, RoundingMode::HalfEven).to_string(), "2.00");
    assert_eq!(d2("3.50").round_dp(0, RoundingMode::HalfEven).to_string(), "4.00");
    assert_eq!(d2("-2.51").round_dp(0, RoundingMode::HalfDown).to_string(), "-3.00");
    assert_eq!(d2("-0.49").round_dp(0, RoundingMode::HalfUp).to_string(), "0.00");
    assert!(!d2("-0.49").round_dp(0, RoundingMode::HalfUp).is_negative());
    assert_eq!(d2("1.99").round_dp(9, RoundingMode::AwayFromZero), d2("1.99"));
    assert_eq!(d2("1.99").trunc_dp(1).to_string(), "1.90");
    assert_eq!(d2("-1.99").trunc().to_string(), "-1.00");
    assert!(should_increment(4, 5, 10, false, RoundingMode::HalfUp));
    assert!(!should_increment(4, 5, 10, false, RoundingMode::HalfEven));
    assert!(should_increment(5, 5, 10, false, RoundingMode::HalfEven));
    assert!(!should_increment(5, 0, 10, true, RoundingMode::AwayFromZero));
    assert!(should_increment(5, 1, 10, true, RoundingMode::Floor));
    assert!(!should_increment(5, 1, 10, true, RoundingMode::Ceil));
}

#[test]
fn sums_and_products() {
    let empty: [SignedDecimalU64<U2>; 0] = [];
    assert_eq!(SignedDecimalU64::<U2>::sum(&empty), SignedDecimalU64::<U2>::zero());
    assert_eq!(SignedDecimalU64::<U2>::product(&empty), SignedDecimalU64::<U2>::one());
    let vals = [d2("1.50"), d2("-2.00"), d2("0.10")];
    assert_eq!(SignedDecimalU64::<U2>::sum(&vals).to_string(), "-0.40");
    assert_eq!(SignedDecimalU64::<U2>::product(&vals).to_string(), "-0.30");
}

#[test]
fn error_messages() {
    assert_eq!(MathError::DivisionByZero.message(), "division by zero");
    assert_eq!(MathError::Overflow.message(), "overflow");
    assert_eq!(ParseSignedDecimalError::Empty.message(), "empty string");
    assert_eq!(
        ParseSignedDecimalError::InvalidMagnitude.message(),
        "invalid decimal literal for this fixed scale"
    );
}

#[test]
fn magnitude_engine_text() {
    let m = DecimalU64::<U3>::new(1230);
    assert_eq!(SignedDecimalU64::<U3>::from_mag(m.0).to_string(), m.to_string());
    assert_eq!(SignedDecimalU64::<U3>::from_str("1.23").unwrap().unscaled(), 1230);
    assert_eq!(SignedDecimalU64::<U3>::from_str("1.2.3").unwrap().unscaled(), 1230);
}
