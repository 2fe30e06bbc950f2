//! Rounding to fewer fractional digits, and conversion between scales.
use crate::scale::{lemma_pow10_monotone, lemma_pow10_positive, pow10, pow10_u64, FixedScale};
use crate::arithmetic::abs_int;
use crate::{in_range, signed, SignedDecimalU64};
use vstd::arithmetic::div_mod::lemma_fundamental_div_mod;
use vstd::prelude::*;

verus! {

/// How dropped digits are resolved.
#[derive(Clone, Copy, Debug, PartialEq, Eq, Structural)]
pub enum RoundingMode {
    /// Toward zero (truncate).
    TowardZero,
    /// Away from zero when anything is dropped.
    AwayFromZero,
    /// Toward positive infinity.
    Ceil,
    /// Toward negative infinity.
    Floor,
    /// To nearest; ties away from zero.
    HalfUp,
    /// To nearest; ties toward zero.
    HalfDown,
    /// To nearest; ties to an even last kept digit.
    HalfEven,
}

/// Whether the kept magnitude `q` goes up by one, when `r` of `unit` was
/// dropped from a value of the given sign.
pub open spec fn increments(q: int, r: int, unit: int, negative: bool, mode: RoundingMode) -> bool {
    r != 0 && match mode {
        RoundingMode::TowardZero => false,
        RoundingMode::AwayFromZero => true,
        RoundingMode::Ceil => !negative,
        RoundingMode::Floor => negative,
        RoundingMode::HalfUp => 2 * r >= unit,
        RoundingMode::HalfDown => 2 * r > unit,
        RoundingMode::HalfEven => 2 * r > unit || (2 * r == unit && q % 2 == 1),
    }
}

/// The magnitude `u` divided by `unit`, rounded by `mode`.
pub open spec fn kept_units(u: nat, unit: nat, negative: bool, mode: RoundingMode) -> int {
    u as int / unit as int + if increments(
        u as int / unit as int,
        u as int % unit as int,
        unit as int,
        negative,
        mode,
    ) {
        1int
    } else {
        0int
    }
}

/// The number of digits that rounding to `dp` fractional digits drops at `scale`.
pub open spec fn dropped_digits(dp: nat, scale: nat) -> nat {
    if dp >= scale {
        0
    } else {
        (scale - dp) as nat
    }
}

/// The value `v` (in units of its scale) with its last `drop` digits zeroed by `mode`.
pub open spec fn rounded_value(v: int, drop: nat, mode: RoundingMode) -> int {
    signed(v < 0, kept_units(abs_int(v) as nat, pow10(drop) as nat, v < 0, mode) * pow10(drop))
}

/// The value `v` at scale `from`, expressed at scale `to`: multiplied by a
/// power of ten when widening, divided and rounded by `mode` when narrowing.
pub open spec fn rescaled_value(v: int, from: nat, to: nat, mode: RoundingMode) -> int {
    if to >= from {
        v * pow10((to - from) as nat)
    } else {
        signed(v < 0, kept_units(abs_int(v) as nat, pow10((from - to) as nat) as nat, v < 0, mode))
    }
}

/// Decides whether the kept magnitude `q` goes up by one, when `r` (less than
/// `unit`) was dropped from a value of the given sign.
pub fn should_increment(q: u64, r: u64, unit: u64, is_negative: bool, mode: RoundingMode) -> (inc: bool)
    requires
        r < unit,
    ensures
        inc == increments(q as int, r as int, unit as int, is_negative, mode),
{
    if r == 0 {
        return false;
    }
    match mode {
        RoundingMode::TowardZero => false,
        RoundingMode::AwayFromZero => true,
        RoundingMode::Ceil => !is_negative,
        RoundingMode::Floor => is_negative,
        RoundingMode::HalfUp => r >= unit - r,
        RoundingMode::HalfDown => r > unit - r,
        RoundingMode::HalfEven => {
            if r > unit - r {
                true
            } else if r < unit - r {
                false
            } else {
                q % 2 == 1
            }
        },
    }
}

/// The kept units of `u` at `unit`, and the facts about them that the
/// rounding functions need.
fn split_and_round(u: u64, unit: u64, negative: bool, mode: RoundingMode) -> (k: u64)
    requires
        unit >= 10,
    ensures
        k == kept_units(u as nat, unit as nat, negative, mode),
        k <= u / 10 + 1,
        mode == RoundingMode::TowardZero ==> k * unit <= u,
{
    let q = u / unit;
    let r = u % unit;
    proof {
        lemma_fundamental_div_mod(u as int, unit as int);
        assert(q * 10 <= u) by (nonlinear_arith)
            requires
                u == unit * q + r,
                unit >= 10,
                r >= 0,
                q >= 0,
        ;
        assert(q * unit <= u) by (nonlinear_arith)
            requires
                u == unit * q + r,
                r >= 0,
        ;
    }
    let inc = should_increment(q, r, unit, negative, mode);
    if inc {
        q + 1
    } else {
        q
    }
}

impl<S: FixedScale> SignedDecimalU64<S> {
    /// Rounds to `dp` fractional digits (at most the scale) by `mode`,
    /// keeping the scale; absent when the rounded magnitude overflows.
    pub fn checked_round_dp(self, dp: u32, mode: RoundingMode) -> (r: Option<Self>)
        ensures
            match r {
                Some(x) => in_range(rounded_value(self.value(), dropped_digits(dp as nat, S::digits()), mode))
                    && x.value() == rounded_value(self.value(), dropped_digits(dp as nat, S::digits()), mode),
                None => !in_range(rounded_value(self.value(), dropped_digits(dp as nat, S::digits()), mode)),
            },
    {
        let scale = S::scale_digits();
        let dp = if dp < scale {
            dp
        } else {
            scale
        };
        let drop = scale - dp;
        let neg = self.is_negative();
        let u = self.unscaled();
        if drop == 0 {
            proof {
                assert(pow10(0) == 1);
                lemma_fundamental_div_mod(u as int, 1);
            }
            return Some(self);
        }
        let unit = pow10_u64(drop);
        proof {
            lemma_pow10_monotone(1, drop as nat);
            assert(pow10(1) == 10) by {
                reveal_with_fuel(pow10, 2);
            }
        }
        let k = split_and_round(u, unit, neg, mode);
        match k.checked_mul(unit) {
            Some(m) => Some(Self::new(neg, m)),
            None => None,
        }
    }

    /// Rounds to `dp` fractional digits by `mode`, keeping the scale; the
    /// rounded magnitude must fit.
    pub fn round_dp(self, dp: u32, mode: RoundingMode) -> (r: Self)
        requires
            in_range(rounded_value(self.value(), dropped_digits(dp as nat, S::digits()), mode)),
        ensures
            r.value() == rounded_value(self.value(), dropped_digits(dp as nat, S::digits()), mode),
    {
        match self.checked_round_dp(dp, mode) {
            Some(x) => x,
            None => self,
        }
    }

    /// Truncates to `dp` fractional digits (toward zero).
    pub fn trunc_dp(self, dp: u32) -> (r: Self)
        ensures
            r.value() == rounded_value(
                self.value(),
                dropped_digits(dp as nat, S::digits()),
                RoundingMode::TowardZero,
            ),
    {
        proof {
            self.lemma_trunc_in_range(dp as nat);
        }
        self.round_dp(dp, RoundingMode::TowardZero)
    }

    /// Truncation never leaves the range.
    proof fn lemma_trunc_in_range(self, dp: nat)
        ensures
            in_range(rounded_value(self.value(), dropped_digits(dp, S::digits()), RoundingMode::TowardZero)),
    {
        let drop = dropped_digits(dp, S::digits());
        let unit = pow10(drop);
        let a = abs_int(self.value());
        lemma_pow10_positive(drop);
        lemma_fundamental_div_mod(a, unit);
        assert(0 <= a / unit * unit <= a) by (nonlinear_arith)
            requires
                a == unit * (a / unit) + a % unit,
                0 <= a % unit,
                a >= 0,
                unit >= 1,
        ;
    }

    /// Truncates to an integer (toward zero).
    pub fn trunc(self) -> (r: Self)
        ensures
            r.value() == rounded_value(self.value(), S::digits(), RoundingMode::TowardZero),
    {
        self.trunc_dp(0)
    }

    /// Rounds down to an integer (toward negative infinity); the result must fit.
    pub fn floor(self) -> (r: Self)
        requires
            in_range(rounded_value(self.value(), S::digits(), RoundingMode::Floor)),
        ensures
            r.value() == rounded_value(self.value(), S::digits(), RoundingMode::Floor),
    {
        self.round_dp(0, RoundingMode::Floor)
    }

    /// Rounds up to an integer (toward positive infinity); the result must fit.
    pub fn ceil(self) -> (r: Self)
        requires
            in_range(rounded_value(self.value(), S::digits(), RoundingMode::Ceil)),
        ensures
            r.value() == rounded_value(self.value(), S::digits(), RoundingMode::Ceil),
    {
        self.round_dp(0, RoundingMode::Ceil)
    }

    /// Converts to scale `T`, rounding by `mode` when digits are dropped;
    /// absent when the magnitude at `T` overflows.
    pub fn checked_to_scale<T: FixedScale>(self, mode: RoundingMode) -> (r: Option<SignedDecimalU64<T>>)
        ensures
            match r {
                Some(x) => in_range(rescaled_value(self.value(), S::digits(), T::digits(), mode))
                    && x.value() == rescaled_value(self.value(), S::digits(), T::digits(), mode),
                None => !in_range(rescaled_value(self.value(), S::digits(), T::digits(), mode)),
            },
    {
        let s_from = S::scale_digits();
        let s_to = T::scale_digits();
        let neg = self.is_negative();
        let mag = self.unscaled();
        if s_from == s_to {
            proof {
                assert(pow10(0) == 1);
                assert(rescaled_value(self.value(), S::digits(), T::digits(), mode) == self.value() * pow10(0));
            }
            return Some(SignedDecimalU64::<T>::new(neg, mag));
        }
        if s_to < s_from {
            let unit = pow10_u64(s_from - s_to);
            proof {
                lemma_pow10_monotone(1, (s_from - s_to) as nat);
                assert(pow10(1) == 10) by {
                    reveal_with_fuel(pow10, 2);
                }
            }
            let k = split_and_round(mag, unit, neg, mode);
            Some(SignedDecimalU64::<T>::new(neg, k))
        } else {
            let factor = pow10_u64(s_to - s_from);
            proof {
                lemma_pow10_positive((s_to - s_from) as nat);
                assert(signed(neg, mag as int) * factor == signed(neg, mag * factor)) by (nonlinear_arith);
            }
            match mag.checked_mul(factor) {
                Some(m) => Some(SignedDecimalU64::<T>::new(neg, m)),
                None => None,
            }
        }
    }

    /// Converts to scale `T`, rounding by `mode` when digits are dropped; the
    /// magnitude at `T` must fit.
    pub fn to_scale<T: FixedScale>(self, mode: RoundingMode) -> (r: SignedDecimalU64<T>)
        requires
            in_range(rescaled_value(self.value(), S::digits(), T::digits(), mode)),
        ensures
            r.value() == rescaled_value(self.value(), S::digits(), T::digits(), mode),
    {
        match self.checked_to_scale::<T>(mode) {
            Some(x) => x,
            None => SignedDecimalU64::<T>::zero(),
        }
    }
}

} // verus!
