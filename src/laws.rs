//! Laws that relate the operations of the library.
use crate::arithmetic::quotient_value;
use crate::parse::{parsed_value, value_chars};
use crate::error::ParseSignedDecimalError;
use crate::round::{rescaled_value, RoundingMode, kept_units, increments};
use crate::scale::{lemma_pow10_positive, pow10, FixedScale};
use crate::text::{is_literal_char, lemma_magnitude_chars_parse};
use crate::{compare, in_range, signed, SignedDecimalU64};
use core::cmp::Ordering;
use vstd::prelude::*;

verus! {

/// A valid decimal is determined by its value: two with equal values are
/// the same, so the laws below, stated of values, are laws of decimals.
pub proof fn law_value_determines<S>(a: SignedDecimalU64<S>, b: SignedDecimalU64<S>)
    requires
        a.well_formed(),
        b.well_formed(),
        a.value() == b.value(),
    ensures
        a == b,
{
}

/// The text of any decimal is made of digits, a point and a sign (so
/// trimming keeps it whole), and parses back to the same value.
pub proof fn law_text_round_trip<S: FixedScale>(x: SignedDecimalU64<S>)
    ensures
        forall|i: int|
            0 <= i < value_chars(x.value(), S::digits()).len() ==> is_literal_char(
                #[trigger] value_chars(x.value(), S::digits())[i],
            ),
        parsed_value(value_chars(x.value(), S::digits()), S::digits()) == Ok::<
            int,
            ParseSignedDecimalError,
        >(x.value()),
{
    let u = x.magnitude();
    let scale = S::digits();
    lemma_magnitude_chars_parse(u, scale);
    let m = crate::text::magnitude_chars(u as nat, scale);
    let s = value_chars(x.value(), scale);
    if x.value() < 0 {
        assert(s == seq!['-'] + m);
        assert(s.skip(1) =~= m);
        assert forall|i: int| 0 <= i < s.len() implies is_literal_char(#[trigger] s[i]) by {
            if i > 0 {
                assert(s[i] == m[i - 1]);
            }
        }
    } else {
        assert(s == m);
        assert forall|i: int| 0 <= i < s.len() implies is_literal_char(#[trigger] s[i]) by {
            assert(crate::text::is_digit(m[i]) || m[i] == '.');
        }
    }
}

/// Negating twice gives the decimal back; a value plus its negation is zero
/// (and in range); subtracting is adding the negation, with the same range.
pub proof fn law_sign_identities<S>(a: SignedDecimalU64<S>, b: SignedDecimalU64<S>)
    requires
        a.well_formed(),
    ensures
        -(-a.value()) == a.value(),
        SignedDecimalU64::<S>::of_value(-(-a.value())) == a,
        in_range(a.value() + (-a.value())),
        a.value() + (-a.value()) == 0,
        in_range(a.value() - b.value()) == in_range(a.value() + (-b.value())),
        a.value() - b.value() == a.value() + (-b.value()),
{
}

/// Widening from scale `from` to `to` and narrowing back, by any rounding
/// mode, recovers the value, when the widened magnitude fits.
pub proof fn law_rescale_round_trip(v: int, from: nat, to: nat, widen: RoundingMode, narrow: RoundingMode)
    requires
        from <= to,
        in_range(v),
        in_range(rescaled_value(v, from, to, widen)),
    ensures
        rescaled_value(rescaled_value(v, from, to, widen), to, from, narrow) == v,
{
    let d = (to - from) as nat;
    let p = pow10(d);
    lemma_pow10_positive(d);
    let w = v * p;
    assert(rescaled_value(v, from, to, widen) == w);
    if to > from {
        let a = if w < 0 { -w } else { w };
        let av = if v < 0 { -v } else { v };
        assert(a == av * p) by (nonlinear_arith)
            requires
                w == v * p,
                p >= 1,
                a == (if w < 0 { -w } else { w }),
                av == (if v < 0 { -v } else { v }),
        ;
        assert(a / p == av && a % p == 0) by {
            vstd::arithmetic::div_mod::lemma_fundamental_div_mod_converse(a, p, av, 0);
        }
        assert(!increments(a / p, a % p, p, w < 0, narrow));
        assert(kept_units(a as nat, p as nat, w < 0, narrow) == av);
        assert((w < 0) == (v < 0)) by (nonlinear_arith)
            requires
                w == v * p,
                p >= 1,
        ;
    } else {
        assert(p == 1);
    }
}

/// Dividing zero by a nonzero divisor gives zero. (Dividing by zero gives
/// nothing: `checked_div` returns a value only for a nonzero divisor.)
pub proof fn law_zero_dividend(y: int, scale: nat)
    requires
        y != 0,
    ensures
        quotient_value(0, y, scale) == 0,
        in_range(quotient_value(0, y, scale)),
{
    let b = if y < 0 { -y } else { y };
    assert((0nat * pow10(scale)) / b == 0);
}

/// The order of decimals: a negative zero built by `new` equals zero; the
/// order is transitive; of two negatives, the larger magnitude is smaller.
pub proof fn law_total_order<S>(a: SignedDecimalU64<S>, b: SignedDecimalU64<S>, c: SignedDecimalU64<S>)
    ensures
        signed(true, 0) == 0,
        compare(a.value(), b.value()) != Ordering::Greater && compare(b.value(), c.value())
            != Ordering::Greater ==> compare(a.value(), c.value()) != Ordering::Greater,
        a.value() < 0 && b.value() < 0 && a.magnitude() > b.magnitude() ==> compare(
            a.value(),
            b.value(),
        ) == Ordering::Less,
{
}

} // verus!
