//! Calls into decimal64's unsigned `DecimalU64`, on unscaled integers.
use crate::scale::{pow10, FixedScale};
use crate::text::{fraction_digits, magnitude_chars, parsed_magnitude};
use decimal64::{DecimalU64, ScaleMetrics, U0};
use vstd::prelude::*;

verus! {

/// Relies on `DecimalU64::checked_add`: the sum of the unscaled integers,
/// absent when it does not fit in `u64`. The scale plays no part in it.
#[verifier::external_body]
pub(crate) fn magnitude_add(a: u64, b: u64) -> (r: Option<u64>)
    ensures
        r == (if a + b <= u64::MAX {
            Some((a + b) as u64)
        } else {
            None::<u64>
        }),
{
    DecimalU64::<U0>::new(a).checked_add(DecimalU64::<U0>::new(b)).map(|m| m.0)
}

/// Relies on `DecimalU64::checked_sub`: the difference of the unscaled
/// integers, absent when it is negative. The scale plays no part in it.
#[verifier::external_body]
pub(crate) fn magnitude_sub(a: u64, b: u64) -> (r: Option<u64>)
    ensures
        r == (if a >= b {
            Some((a - b) as u64)
        } else {
            None::<u64>
        }),
{
    DecimalU64::<U0>::new(a).checked_sub(DecimalU64::<U0>::new(b)).map(|m| m.0)
}

/// The unscaled product of two magnitudes at `scale` digits: `a * b / 10^scale`.
pub open spec fn scaled_product(a: nat, b: nat, scale: nat) -> int {
    (a * b) as int / pow10(scale)
}

/// The unscaled quotient of two magnitudes at `scale` digits: `a * 10^scale / b`.
pub open spec fn scaled_quotient(a: nat, b: nat, scale: nat) -> int {
    (a * pow10(scale)) / (b as int)
}

/// Relies on `DecimalU64::checked_mul`: the product taken in 128 bits, divided
/// by the scale factor `10^scale`, absent when it does not fit in `u64`.
#[verifier::external_body]
pub(crate) fn magnitude_mul<S: FixedScale + ScaleMetrics>(a: u64, b: u64) -> (r: Option<u64>)
    ensures
        r == (if scaled_product(a as nat, b as nat, S::digits()) <= u64::MAX {
            Some(scaled_product(a as nat, b as nat, S::digits()) as u64)
        } else {
            None::<u64>
        }),
{
    DecimalU64::<S>::new(a).checked_mul(DecimalU64::<S>::new(b)).map(|m| m.0)
}

/// Relies on `DecimalU64::checked_div`: the dividend times the scale factor
/// `10^scale`, taken in 128 bits, divided by the divisor; absent for a zero
/// divisor or when the quotient does not fit in `u64`.
#[verifier::external_body]
pub(crate) fn magnitude_div<S: FixedScale + ScaleMetrics>(a: u64, b: u64) -> (r: Option<u64>)
    ensures
        r == (if b != 0 && scaled_quotient(a as nat, b as nat, S::digits()) <= u64::MAX {
            Some(scaled_quotient(a as nat, b as nat, S::digits()) as u64)
        } else {
            None::<u64>
        }),
{
    DecimalU64::<S>::new(a).checked_div(DecimalU64::<S>::new(b)).map(|m| m.0)
}

/// Relies on `DecimalU64::from_str`: digits with an optional decimal point,
/// at most `scale` fractional digits, within 64 bits. Its fractional digit
/// counter is a `u8`, hence the bound on what may follow the point.
#[verifier::external_body]
pub(crate) fn magnitude_parse<S: FixedScale + ScaleMetrics>(s: &str) -> (r: Option<u64>)
    requires
        fraction_digits(s@) <= 255,
    ensures
        r == parsed_magnitude(s@, S::digits()),
{
    DecimalU64::<S>::from_str(s).ok().map(|m| m.0)
}

/// Relies on `DecimalU64`'s `Display`: the integer part, then, for a nonzero
/// scale, a point and exactly `scale` fractional digits.
#[verifier::external_body]
pub(crate) fn magnitude_text<S: FixedScale + ScaleMetrics>(u: u64) -> (r: String)
    ensures
        r@ == magnitude_chars(u as nat, S::digits()),
{
    DecimalU64::<S>::new(u).to_string()
}

} // verus!
