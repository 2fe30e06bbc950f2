//! A signed fixed-point decimal built over decimal64's unsigned `DecimalU64`.
//!
//! A value is a sign and an unscaled magnitude: the decimal number times
//! `10^scale`, where the scale is fixed by the type parameter. Zero is never
//! negative.

pub mod scale;
pub mod text;
pub mod error;
pub mod arithmetic;
pub mod round;
pub mod parse;
pub mod laws;
mod magnitude;
mod sealed;

pub use decimal64::{DecimalU64, ScaleMetrics, U0, U1, U2, U3, U4, U5, U6, U7, U8};
pub use scale::{pow10_u64, FixedScale};

use core::cmp::Ordering;
use core::marker::PhantomData;
use error::MathError;
use scale::pow10;
use vstd::prelude::*;

verus! {

/// `-m` when `negative`, else `m`.
pub open spec fn signed(negative: bool, m: int) -> int {
    if negative {
        -m
    } else {
        m
    }
}

/// The values whose magnitude fits in 64 bits.
pub open spec fn in_range(v: int) -> bool {
    -(u64::MAX as int) <= v <= u64::MAX as int
}

/// A signed decimal with `S::digits()` fractional digits.
#[derive(Debug, Hash)]
pub struct SignedDecimalU64<S> {
    negative: bool,
    unscaled: u64,
    scale: PhantomData<S>,
}

impl<S> SignedDecimalU64<S> {
    /// No negative zero.
    #[verifier::type_invariant]
    pub open(crate) spec fn well_formed(self) -> bool {
        self.negative ==> self.unscaled != 0
    }

    /// The sign bit: true only for a strictly negative value.
    pub open(crate) spec fn sign(self) -> bool {
        self.negative
    }

    /// The unscaled magnitude.
    pub open(crate) spec fn magnitude(self) -> u64 {
        self.unscaled
    }

    /// The value as a signed count of units of `10^-scale`.
    pub open(crate) spec fn value(self) -> int {
        signed(self.negative, self.unscaled as int)
    }

    /// The decimal whose value is `v`, for `v` in range.
    pub open(crate) spec fn of_value(v: int) -> Self {
        SignedDecimalU64 {
            negative: v < 0,
            unscaled: (if v < 0 { -v } else { v }) as u64,
            scale: PhantomData,
        }
    }

    /// Builds a value from a sign and an unscaled magnitude; a zero
    /// magnitude is never negative.
    pub fn new(negative: bool, unscaled: u64) -> (r: Self)
        ensures
            r.sign() == (negative && unscaled != 0),
            (r.value() < 0) == (negative && unscaled != 0),
            r.magnitude() == unscaled,
            r.value() == signed(negative, unscaled as int),
    {
        SignedDecimalU64 { negative: negative && unscaled != 0, unscaled, scale: PhantomData }
    }

    /// The non-negative value of an unscaled magnitude.
    pub fn from_mag(unscaled: u64) -> (r: Self)
        ensures
            r.value() == unscaled as int,
            r.magnitude() == unscaled,
    {
        Self::new(false, unscaled)
    }

    /// Zero.
    pub fn zero() -> (r: Self)
        ensures
            r.value() == 0,
            r.magnitude() == 0,
            !r.sign(),
    {
        Self::new(false, 0)
    }

    /// The sign (true when strictly negative) and the unscaled magnitude.
    pub fn into_parts(self) -> (r: (bool, u64))
        ensures
            r.0 == (self.value() < 0),
            r.1 == self.magnitude(),
    {
        proof {
            use_type_invariant(&self);
        }
        (self.negative && self.unscaled != 0, self.unscaled)
    }

    /// The unscaled magnitude.
    pub fn unscaled(&self) -> (r: u64)
        ensures
            r == self.magnitude(),
    {
        self.unscaled
    }

    /// Whether the value is strictly negative.
    pub fn is_negative(&self) -> (r: bool)
        ensures
            r == (self.value() < 0),
            r == self.sign(),
    {
        proof {
            use_type_invariant(self);
        }
        self.negative && self.unscaled != 0
    }

    /// Whether the value is zero.
    pub fn is_zero(&self) -> (r: bool)
        ensures
            r == (self.value() == 0),
    {
        self.unscaled == 0
    }

    /// Whether the value is strictly positive.
    pub fn is_positive(&self) -> (r: bool)
        ensures
            r == (self.value() > 0),
    {
        !self.is_negative() && !self.is_zero()
    }

    /// `-1`, `0` or `1` by the sign of the value.
    pub fn signum(&self) -> (r: i8)
        ensures
            r == (if self.value() < 0 {
                -1int
            } else if self.value() == 0 {
                0int
            } else {
                1int
            }),
    {
        if self.is_negative() {
            -1
        } else if self.is_zero() {
            0
        } else {
            1
        }
    }

    /// The value with its sign flipped; zero stays non-negative.
    pub fn negated(self) -> (r: Self)
        ensures
            r.value() == -self.value(),
            r.magnitude() == self.magnitude(),
    {
        proof {
            use_type_invariant(&self);
        }
        if self.unscaled == 0 {
            self
        } else {
            SignedDecimalU64 { negative: !self.negative, unscaled: self.unscaled, scale: PhantomData }
        }
    }

    /// The absolute value.
    pub fn abs(self) -> (r: Self)
        ensures
            r.value() == self.magnitude() as int,
            r.magnitude() == self.magnitude(),
    {
        SignedDecimalU64 { negative: false, unscaled: self.unscaled, scale: PhantomData }
    }

    /// Replaces the value by its absolute value.
    pub fn abs_assign(&mut self)
        ensures
            final(self).value() == old(self).magnitude() as int,
            final(self).magnitude() == old(self).magnitude(),
    {
        *self = SignedDecimalU64 { negative: false, unscaled: self.unscaled, scale: PhantomData };
    }

    /// The unscaled magnitude, the sign dropped.
    pub fn into_unsigned(self) -> (r: u64)
        ensures
            r == self.magnitude(),
    {
        self.unscaled
    }

    /// The unscaled magnitude, the sign dropped.
    pub fn to_unsigned(&self) -> (r: u64)
        ensures
            r == self.magnitude(),
    {
        self.unscaled
    }

    /// The signed unscaled integer.
    pub fn into_unscaled_i128(self) -> (r: i128)
        ensures
            r == self.value(),
    {
        proof {
            use_type_invariant(&self);
        }
        if self.negative && self.unscaled != 0 {
            -(self.unscaled as i128)
        } else {
            self.unscaled as i128
        }
    }

    /// The unscaled magnitude of a non-negative value; none for a negative one.
    pub fn try_into_unsigned(self) -> (r: Option<u64>)
        ensures
            r == (if self.value() < 0 {
                None
            } else {
                Some(self.magnitude())
            }),
    {
        if self.is_negative() {
            None
        } else {
            Some(self.unscaled)
        }
    }

    /// The unscaled magnitude of a value that the caller knows to be
    /// non-negative; `msg` says why.
    pub fn expect_non_negative(self, msg: &str) -> (r: u64)
        requires
            self.value() >= 0,
        ensures
            r == self.magnitude(),
    {
        self.unscaled
    }

    /// The value of a signed unscaled integer; fails with `Overflow` when its
    /// absolute value does not fit in 64 bits (`i128::MIN` included).
    pub fn try_from(value: i128) -> (r: Result<Self, MathError>)
        ensures
            match r {
                Ok(x) => in_range(value as int) && x.value() == value,
                Err(e) => !in_range(value as int) && e == MathError::Overflow,
            },
    {
        if value == i128::MIN {
            return Err(MathError::Overflow);
        }
        let neg = value < 0;
        let abs: u128 = if neg {
            (-value) as u128
        } else {
            value as u128
        };
        if abs > u64::MAX as u128 {
            return Err(MathError::Overflow);
        }
        Ok(Self::new(neg, abs as u64))
    }

    /// The value of a signed unscaled 64-bit integer.
    pub fn from_i64(value: i64) -> (r: Self)
        ensures
            r.value() == value,
    {
        let abs: u64 = if value < 0 {
            (-(value as i128)) as u64
        } else {
            value as u64
        };
        Self::new(value < 0, abs)
    }

    /// Compares by value: negatives below zero below positives; of two
    /// negatives, the larger magnitude is the smaller.
    pub fn cmp(&self, other: &Self) -> (r: Ordering)
        ensures
            r == compare(self.value(), other.value()),
    {
        let a_neg = self.is_negative();
        let b_neg = other.is_negative();
        if self.unscaled == 0 && other.unscaled == 0 {
            Ordering::Equal
        } else if a_neg && !b_neg {
            Ordering::Less
        } else if !a_neg && b_neg {
            Ordering::Greater
        } else if !a_neg {
            compare_u64(self.unscaled, other.unscaled)
        } else {
            compare_u64(other.unscaled, self.unscaled)
        }
    }
}

/// The ordering of two integers.
pub open spec fn compare(a: int, b: int) -> Ordering {
    if a < b {
        Ordering::Less
    } else if a == b {
        Ordering::Equal
    } else {
        Ordering::Greater
    }
}

fn compare_u64(a: u64, b: u64) -> (r: Ordering)
    ensures
        r == compare(a as int, b as int),
{
    if a < b {
        Ordering::Less
    } else if a == b {
        Ordering::Equal
    } else {
        Ordering::Greater
    }
}

impl<S: FixedScale + ScaleMetrics> SignedDecimalU64<S> {
    /// One: the unscaled magnitude `10^scale`.
    pub fn one() -> (r: Self)
        ensures
            r.value() == pow10(S::digits()),
    {
        let d = S::scale_digits();
        Self::new(false, pow10_u64(d))
    }
}

impl<S> Clone for SignedDecimalU64<S> {
    fn clone(&self) -> (r: Self)
        ensures
            r == *self,
    {
        *self
    }
}

impl<S> Copy for SignedDecimalU64<S> {
}

impl<S> Default for SignedDecimalU64<S> {
    fn default() -> (r: Self)
        ensures
            r.value() == 0,
    {
        Self::zero()
    }
}

impl<S> PartialEq for SignedDecimalU64<S> {
    fn eq(&self, other: &Self) -> (r: bool) {
        let na = self.is_negative();
        let nb = other.is_negative();
        na == nb && self.unscaled == other.unscaled
    }
}

impl<S> vstd::std_specs::cmp::PartialEqSpecImpl for SignedDecimalU64<S> {
    open spec fn obeys_eq_spec() -> bool {
        true
    }

    open spec fn eq_spec(&self, other: &Self) -> bool {
        self.value() == other.value()
    }
}

impl<S> Eq for SignedDecimalU64<S> {
}

impl<S> PartialOrd for SignedDecimalU64<S> {
    fn partial_cmp(&self, other: &Self) -> (r: Option<Ordering>) {
        Some(self.cmp(other))
    }
}

impl<S> vstd::std_specs::cmp::PartialOrdSpecImpl for SignedDecimalU64<S> {
    open spec fn obeys_partial_cmp_spec() -> bool {
        true
    }

    open spec fn partial_cmp_spec(&self, other: &Self) -> Option<Ordering> {
        Some(compare(self.value(), other.value()))
    }
}

impl<S> std::ops::Neg for SignedDecimalU64<S> {
    type Output = Self;

    fn neg(self) -> (r: Self)
        ensures
            r.value() == -self.value(),
    {
        let r = self.negated();
        proof {
            use_type_invariant(&r);
        }
        r
    }
}

impl<S> vstd::std_specs::ops::NegSpecImpl for SignedDecimalU64<S> {
    open spec fn obeys_neg_spec() -> bool {
        true
    }

    open spec fn neg_req(self) -> bool {
        true
    }

    open spec fn neg_spec(self) -> Self {
        Self::of_value(-self.value())
    }
}

} // verus!
