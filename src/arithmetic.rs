//! Sign-aware arithmetic over the magnitude operations of decimal64.
use crate::error::MathError;
use crate::magnitude::{
    magnitude_add, magnitude_div, magnitude_mul, magnitude_sub, scaled_product, scaled_quotient,
};
use crate::scale::{pow10, FixedScale};
use crate::{in_range, signed, SignedDecimalU64};
use decimal64::ScaleMetrics;
use vstd::prelude::*;

verus! {

/// The absolute value of an integer.
pub open spec fn abs_int(v: int) -> int {
    if v < 0 {
        -v
    } else {
        v
    }
}

/// The product of two values at `scale` digits: the product of the
/// magnitudes divided by `10^scale` and truncated, with the sign of the
/// product.
pub open spec fn product_value(a: int, b: int, scale: nat) -> int {
    signed((a < 0) != (b < 0), scaled_product(abs_int(a) as nat, abs_int(b) as nat, scale))
}

/// The quotient of two values at `scale` digits: the dividend's magnitude
/// times `10^scale`, divided by the divisor's magnitude and truncated, with
/// the sign of the quotient.
pub open spec fn quotient_value(a: int, b: int, scale: nat) -> int {
    signed((a < 0) != (b < 0), scaled_quotient(abs_int(a) as nat, abs_int(b) as nat, scale))
}

/// The sum of the values of a sequence.
pub open spec fn total<S>(vals: Seq<SignedDecimalU64<S>>) -> int
    decreases vals.len(),
{
    if vals.len() == 0 {
        0
    } else {
        total(vals.drop_last()) + vals.last().value()
    }
}

/// The product of the values of a sequence at `scale` digits, from one.
pub open spec fn total_product<S>(vals: Seq<SignedDecimalU64<S>>, scale: nat) -> int
    decreases vals.len(),
{
    if vals.len() == 0 {
        pow10(scale)
    } else {
        product_value(total_product(vals.drop_last(), scale), vals.last().value(), scale)
    }
}

impl<S> SignedDecimalU64<S> {
    /// Checked addition: absent when the sum's magnitude does not fit in 64 bits.
    pub fn checked_add(self, rhs: Self) -> (r: Option<Self>)
        ensures
            match r {
                Some(x) => in_range(self.value() + rhs.value()) && x.value() == self.value()
                    + rhs.value(),
                None => !in_range(self.value() + rhs.value()),
            },
    {
        let a_mag = self.unscaled();
        let b_mag = rhs.unscaled();
        let a_neg = self.is_negative();
        let b_neg = rhs.is_negative();
        if a_neg == b_neg {
            match magnitude_add(a_mag, b_mag) {
                Some(m) => Some(Self::new(a_neg, m)),
                None => None,
            }
        } else if a_mag >= b_mag {
            match magnitude_sub(a_mag, b_mag) {
                Some(m) => Some(Self::new(a_neg, m)),
                None => None,
            }
        } else {
            match magnitude_sub(b_mag, a_mag) {
                Some(m) => Some(Self::new(b_neg, m)),
                None => None,
            }
        }
    }

    /// Checked subtraction: `self + (-rhs)`.
    pub fn checked_sub(self, rhs: Self) -> (r: Option<Self>)
        ensures
            match r {
                Some(x) => in_range(self.value() - rhs.value()) && x.value() == self.value()
                    - rhs.value(),
                None => !in_range(self.value() - rhs.value()),
            },
    {
        self.checked_add(rhs.negated())
    }

    /// The sum of `values`, from zero; every partial sum must stay in range.
    pub fn sum(values: &[Self]) -> (r: Self)
        requires
            forall|i: int| 0 <= i <= values@.len() ==> in_range(#[trigger] total(values@.take(i))),
        ensures
            r.value() == total(values@),
    {
        let mut acc = Self::zero();
        let mut i: usize = 0;
        while i < values.len()
            invariant
                i <= values@.len(),
                acc.value() == total(values@.take(i as int)),
                forall|j: int| 0 <= j <= values@.len() ==> in_range(#[trigger] total(values@.take(j))),
            decreases values@.len() - i,
        {
            proof {
                assert(values@.take(i + 1).drop_last() =~= values@.take(i as int));
                assert(in_range(total(values@.take(i + 1))));
            }
            acc = acc + values[i];
            i = i + 1;
        }
        proof {
            assert(values@.take(i as int) =~= values@);
        }
        acc
    }

    /// Replaces the value by `self + rhs`, which must be in range.
    pub fn add_assign(&mut self, rhs: Self)
        requires
            in_range(old(self).value() + rhs.value()),
        ensures
            final(self).value() == old(self).value() + rhs.value(),
    {
        *self = *self + rhs;
    }

    /// Replaces the value by `self - rhs`, which must be in range.
    pub fn sub_assign(&mut self, rhs: Self)
        requires
            in_range(old(self).value() - rhs.value()),
        ensures
            final(self).value() == old(self).value() - rhs.value(),
    {
        *self = *self - rhs;
    }

}

impl<S: FixedScale + ScaleMetrics> SignedDecimalU64<S> {
    /// Checked multiplication at the fixed scale.
    pub fn checked_mul(self, rhs: Self) -> (r: Option<Self>)
        ensures
            match r {
                Some(x) => in_range(product_value(self.value(), rhs.value(), S::digits()))
                    && x.value() == product_value(self.value(), rhs.value(), S::digits()),
                None => !in_range(product_value(self.value(), rhs.value(), S::digits())),
            },
    {
        let a_mag = self.unscaled();
        let b_mag = rhs.unscaled();
        proof {
            crate::scale::lemma_pow10_positive(S::digits());
        }
        if a_mag == 0 || b_mag == 0 {
            proof {
                assert(a_mag as nat * b_mag as nat == 0) by (nonlinear_arith)
                    requires a_mag == 0 || b_mag == 0;
            }
            return Some(Self::zero());
        }
        let neg = self.is_negative() != rhs.is_negative();
        proof {
            assert((a_mag as nat * b_mag as nat) as int / pow10(S::digits()) >= 0) by (nonlinear_arith)
                requires pow10(S::digits()) >= 1;
        }
        match magnitude_mul::<S>(a_mag, b_mag) {
            Some(m) => Some(Self::new(neg, m)),
            None => None,
        }
    }

    /// Checked division at the fixed scale: absent for a zero divisor or when
    /// the quotient's magnitude does not fit in 64 bits.
    pub fn checked_div(self, rhs: Self) -> (r: Option<Self>)
        ensures
            match r {
                Some(x) => rhs.value() != 0 && in_range(
                    quotient_value(self.value(), rhs.value(), S::digits()),
                ) && x.value() == quotient_value(self.value(), rhs.value(), S::digits()),
                None => rhs.value() == 0 || !in_range(
                    quotient_value(self.value(), rhs.value(), S::digits()),
                ),
            },
    {
        let a_mag = self.unscaled();
        let b_mag = rhs.unscaled();
        if b_mag == 0 {
            return None;
        }
        proof {
            crate::scale::lemma_pow10_positive(S::digits());
            assert((a_mag as nat * pow10(S::digits())) / (b_mag as int) >= 0) by (nonlinear_arith)
                requires pow10(S::digits()) >= 1, b_mag > 0;
        }
        if a_mag == 0 {
            proof {
                assert((a_mag as nat * pow10(S::digits())) / (b_mag as int) == 0) by (nonlinear_arith)
                    requires a_mag == 0, b_mag > 0;
            }
            return Some(Self::zero());
        }
        let neg = self.is_negative() != rhs.is_negative();
        match magnitude_div::<S>(a_mag, b_mag) {
            Some(m) => Some(Self::new(neg, m)),
            None => None,
        }
    }

    /// Division that tells a zero divisor from an overflow.
    pub fn try_div(self, rhs: Self) -> (r: Result<Self, MathError>)
        ensures
            match r {
                Ok(x) => rhs.value() != 0 && in_range(
                    quotient_value(self.value(), rhs.value(), S::digits()),
                ) && x.value() == quotient_value(self.value(), rhs.value(), S::digits()),
                Err(MathError::DivisionByZero) => rhs.value() == 0,
                Err(MathError::Overflow) => rhs.value() != 0 && !in_range(
                    quotient_value(self.value(), rhs.value(), S::digits()),
                ),
            },
    {
        if rhs.is_zero() {
            return Err(MathError::DivisionByZero);
        }
        match self.checked_div(rhs) {
            Some(x) => Ok(x),
            None => Err(MathError::Overflow),
        }
    }

    /// The product of `values`, from one; every partial product must stay in range.
    pub fn product(values: &[Self]) -> (r: Self)
        requires
            forall|i: int|
                0 <= i <= values@.len() ==> in_range(
                    #[trigger] total_product(values@.take(i), S::digits()),
                ),
        ensures
            r.value() == total_product(values@, S::digits()),
    {
        let mut acc = Self::one();
        let mut i: usize = 0;
        proof {
            assert(values@.take(0) =~= Seq::<Self>::empty());
        }
        while i < values.len()
            invariant
                i <= values@.len(),
                acc.value() == total_product(values@.take(i as int), S::digits()),
                forall|j: int|
                    0 <= j <= values@.len() ==> in_range(
                        #[trigger] total_product(values@.take(j), S::digits()),
                    ),
            decreases values@.len() - i,
        {
            proof {
                assert(values@.take(i + 1).drop_last() =~= values@.take(i as int));
                assert(in_range(total_product(values@.take(i + 1), S::digits())));
            }
            acc = acc.mul(values[i]);
            i = i + 1;
        }
        proof {
            assert(values@.take(i as int) =~= values@);
        }
        acc
    }

    /// Multiplication; the product must be in range.
    pub fn mul(self, rhs: Self) -> (r: Self)
        requires
            in_range(product_value(self.value(), rhs.value(), S::digits())),
        ensures
            r.value() == product_value(self.value(), rhs.value(), S::digits()),
    {
        match self.checked_mul(rhs) {
            Some(x) => x,
            None => self,
        }
    }

    /// Division; the divisor must be nonzero and the quotient in range.
    pub fn div(self, rhs: Self) -> (r: Self)
        requires
            rhs.value() != 0,
            in_range(quotient_value(self.value(), rhs.value(), S::digits())),
        ensures
            r.value() == quotient_value(self.value(), rhs.value(), S::digits()),
    {
        match self.checked_div(rhs) {
            Some(x) => x,
            None => self,
        }
    }

    /// Replaces the value by `self * rhs`, which must be in range.
    pub fn mul_assign(&mut self, rhs: Self)
        requires
            in_range(product_value(old(self).value(), rhs.value(), S::digits())),
        ensures
            final(self).value() == product_value(old(self).value(), rhs.value(), S::digits()),
    {
        *self = self.mul(rhs);
    }

    /// Replaces the value by `self / rhs`, which must be defined and in range.
    pub fn div_assign(&mut self, rhs: Self)
        requires
            rhs.value() != 0,
            in_range(quotient_value(old(self).value(), rhs.value(), S::digits())),
        ensures
            final(self).value() == quotient_value(old(self).value(), rhs.value(), S::digits()),
    {
        *self = self.div(rhs);
    }
}

impl<S> std::ops::Add for SignedDecimalU64<S> {
    type Output = Self;

    /// Addition; the sum must be in range.
    fn add(self, rhs: Self) -> (r: Self)
        ensures
            r.value() == self.value() + rhs.value(),
    {
        match self.checked_add(rhs) {
            Some(x) => {
                proof {
                    use_type_invariant(&x);
                }
                x
            },
            None => self,
        }
    }
}

impl<S> vstd::std_specs::ops::AddSpecImpl for SignedDecimalU64<S> {
    open spec fn obeys_add_spec() -> bool {
        true
    }

    open spec fn add_req(self, rhs: Self) -> bool {
        in_range(self.value() + rhs.value())
    }

    open spec fn add_spec(self, rhs: Self) -> Self {
        Self::of_value(self.value() + rhs.value())
    }
}

impl<S> std::ops::Sub for SignedDecimalU64<S> {
    type Output = Self;

    /// Subtraction; the difference must be in range.
    fn sub(self, rhs: Self) -> (r: Self)
        ensures
            r.value() == self.value() - rhs.value(),
    {
        match self.checked_sub(rhs) {
            Some(x) => {
                proof {
                    use_type_invariant(&x);
                }
                x
            },
            None => self,
        }
    }
}

impl<S> vstd::std_specs::ops::SubSpecImpl for SignedDecimalU64<S> {
    open spec fn obeys_sub_spec() -> bool {
        true
    }

    open spec fn sub_req(self, rhs: Self) -> bool {
        in_range(self.value() - rhs.value())
    }

    open spec fn sub_spec(self, rhs: Self) -> Self {
        Self::of_value(self.value() - rhs.value())
    }
}

} // verus!
