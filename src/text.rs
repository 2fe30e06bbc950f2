//! The decimal text forms of magnitudes: `INTEGER.FRACTION` with exactly
//! `scale` fractional digits, and what a magnitude parser accepts.
use crate::scale::pow10;
use vstd::arithmetic::div_mod::{lemma_fundamental_div_mod, lemma_mod_breakdown};
use vstd::prelude::*;

verus! {

pub open spec fn digit_char(d: nat) -> char {
    (d + ('0' as nat)) as char
}

pub open spec fn is_digit(c: char) -> bool {
    '0' <= c && c <= '9'
}

pub open spec fn digit_value(c: char) -> nat {
    (c as nat - '0' as nat) as nat
}

/// The shortest decimal digits of `n` (`"0"` for zero).
pub open spec fn nat_digits(n: nat) -> Seq<char>
    decreases n,
{
    if n < 10 {
        seq![digit_char(n)]
    } else {
        nat_digits(n / 10).push(digit_char(n % 10))
    }
}

/// The last `width` decimal digits of `n`, with leading zeros.
pub open spec fn padded_digits(n: nat, width: nat) -> Seq<char>
    decreases width,
{
    if width == 0 {
        Seq::empty()
    } else {
        padded_digits(n / 10, (width - 1) as nat).push(digit_char(n % 10))
    }
}

/// The text of the unscaled magnitude `u` at `scale` fractional digits.
pub open spec fn magnitude_chars(u: nat, scale: nat) -> Seq<char> {
    let int_part = nat_digits(u / (pow10(scale) as nat));
    if scale == 0 {
        int_part
    } else {
        int_part + seq!['.'] + padded_digits(u % (pow10(scale) as nat), scale)
    }
}

/// Every character is a digit or a decimal point.
pub open spec fn is_digit_text(s: Seq<char>) -> bool {
    forall|i: int| 0 <= i < s.len() ==> is_digit(#[trigger] s[i]) || s[i] == '.'
}

/// The integer spelled by the digits of `s`, points left out.
pub open spec fn digits_number(s: Seq<char>) -> nat
    decreases s.len(),
{
    if s.len() == 0 {
        0
    } else if s.last() == '.' {
        digits_number(s.drop_last())
    } else {
        digits_number(s.drop_last()) * 10 + digit_value(s.last())
    }
}

/// The number of digits that stand after the first decimal point of `s`.
pub open spec fn fraction_digits(s: Seq<char>) -> nat
    decreases s.len(),
{
    if s.len() == 0 {
        0
    } else if is_digit(s.last()) && s.drop_last().contains('.') {
        fraction_digits(s.drop_last()) + 1
    } else {
        fraction_digits(s.drop_last())
    }
}

/// The unscaled magnitude that `s` denotes at `scale` fractional digits, if
/// it is made of digits and points, has at most `scale` digits after its
/// first point, and fits in 64 bits.
pub open spec fn parsed_magnitude(s: Seq<char>, scale: nat) -> Option<u64> {
    let n = digits_number(s);
    let f = fraction_digits(s);
    if is_digit_text(s) && f <= scale && n * pow10((scale - f) as nat) <= u64::MAX {
        Some((n * pow10((scale - f) as nat)) as u64)
    } else {
        None
    }
}

/// A character that may stand in a signed decimal literal.
pub open spec fn is_literal_char(c: char) -> bool {
    is_digit(c) || c == '.' || c == '-' || c == '+'
}

proof fn lemma_digit_char(d: nat)
    requires
        d < 10,
    ensures
        is_digit(digit_char(d)),
        digit_value(digit_char(d)) == d,
{
}

proof fn lemma_push_last(s: Seq<char>, c: char)
    ensures
        s.push(c).drop_last() == s,
        s.push(c).last() == c,
{
    assert(s.push(c).drop_last() =~= s);
}

/// The shortest digits of `n` are digits, spell `n`, and hold no point.
pub proof fn lemma_nat_digits(n: nat)
    ensures
        nat_digits(n).len() >= 1,
        is_digit(nat_digits(n)[0]),
        forall|i: int| 0 <= i < nat_digits(n).len() ==> is_digit(#[trigger] nat_digits(n)[i]),
        digits_number(nat_digits(n)) == n,
        !nat_digits(n).contains('.'),
    decreases n,
{
    if n < 10 {
        lemma_digit_char(n);
        assert(nat_digits(n) == seq![digit_char(n)]);
        assert(seq![digit_char(n)].drop_last() =~= Seq::<char>::empty());
        assert(digit_char(n) != '.');
        assert(digits_number(nat_digits(n)) == digits_number(Seq::<char>::empty()) * 10 + digit_value(
            digit_char(n),
        ));
        if nat_digits(n).contains('.') {
            assert(nat_digits(n)[0] == '.');
        }
    } else {
        let prefix = nat_digits(n / 10);
        let c = digit_char(n % 10);
        lemma_nat_digits(n / 10);
        lemma_digit_char(n % 10);
        lemma_push_last(prefix, c);
        let s = prefix.push(c);
        assert(s[0] == prefix[0]);
        assert forall|i: int| 0 <= i < s.len() implies is_digit(#[trigger] s[i]) by {
            if i < prefix.len() {
                assert(s[i] == prefix[i]);
            }
        }
        if s.contains('.') {
            let j = choose|j: int| 0 <= j < s.len() && s[j] == '.';
            assert(is_digit(s[j]));
        }
        lemma_fundamental_div_mod(n as int, 10);
        assert(c != '.');
        assert(digits_number(s) == digits_number(prefix) * 10 + digit_value(c));
    }
}

/// The padded digits of `n` are `width` digits that spell `n % 10^width`.
pub proof fn lemma_padded_digits(n: nat, width: nat)
    ensures
        padded_digits(n, width).len() == width,
        forall|i: int| 0 <= i < width ==> is_digit(#[trigger] padded_digits(n, width)[i]),
        digits_number(padded_digits(n, width)) == n % (pow10(width) as nat),
    decreases width,
{
    crate::scale::lemma_pow10_positive(width);
    if width > 0 {
        let w1 = (width - 1) as nat;
        let prefix = padded_digits(n / 10, w1);
        let c = digit_char(n % 10);
        lemma_padded_digits(n / 10, w1);
        lemma_digit_char(n % 10);
        lemma_push_last(prefix, c);
        let s = prefix.push(c);
        assert forall|i: int| 0 <= i < width implies is_digit(#[trigger] s[i]) by {
            if i < prefix.len() {
                assert(s[i] == prefix[i]);
            }
        }
        crate::scale::lemma_pow10_positive(w1);
        lemma_mod_breakdown(n as int, 10, pow10(w1));
        assert(pow10(width) == 10 * pow10(w1));
    }
}

/// Appending digits shifts the number spelled so far.
pub proof fn lemma_digits_number_append(a: Seq<char>, b: Seq<char>)
    requires
        forall|i: int| 0 <= i < b.len() ==> is_digit(#[trigger] b[i]),
    ensures
        digits_number(a + b) == digits_number(a) * pow10(b.len()) + digits_number(b),
    decreases b.len(),
{
    if b.len() == 0 {
        assert(a + b =~= a);
        assert(pow10(0) == 1);
        assert(digits_number(b) == 0);
    } else {
        let b1 = b.drop_last();
        assert((a + b).drop_last() =~= a + b1);
        assert((a + b).last() == b.last());
        assert(is_digit(b[b.len() - 1]));
        assert(b.last() != '.');
        assert(b.drop_last() == b1);
        assert(digits_number(b) == digits_number(b1) * 10 + digit_value(b.last()));
        assert(digits_number(a + b) == digits_number(a + b1) * 10 + digit_value(b.last()));
        lemma_digits_number_append(a, b1);
        let da = digits_number(a) as int;
        let p = pow10(b1.len());
        assert(pow10(b.len()) == 10 * p);
        assert((da * p + digits_number(b1)) * 10 == da * (10 * p) + digits_number(b1) * 10)
            by (nonlinear_arith);
    }
}

/// Text with no point has no fractional digits.
pub proof fn lemma_no_point_fraction(s: Seq<char>)
    requires
        !s.contains('.'),
    ensures
        fraction_digits(s) == 0,
    decreases s.len(),
{
    if s.len() > 0 {
        let s1 = s.drop_last();
        if s1.contains('.') {
            let j = choose|j: int| 0 <= j < s1.len() && s1[j] == '.';
            assert(s[j] == '.');
        }
        lemma_no_point_fraction(s1);
    }
}

/// Digits after a point all count as fractional.
pub proof fn lemma_fraction_append(a: Seq<char>, b: Seq<char>)
    requires
        a.contains('.'),
        forall|i: int| 0 <= i < b.len() ==> is_digit(#[trigger] b[i]),
    ensures
        fraction_digits(a + b) == fraction_digits(a) + b.len(),
    decreases b.len(),
{
    if b.len() == 0 {
        assert(a + b =~= a);
    } else {
        let b1 = b.drop_last();
        assert((a + b).drop_last() =~= a + b1);
        assert((a + b).last() == b.last());
        assert(is_digit(b[b.len() - 1]));
        let j = choose|j: int| 0 <= j < a.len() && a[j] == '.';
        assert((a + b1)[j] == '.');
        lemma_fraction_append(a, b1);
    }
}

/// The text of a magnitude is made of digits and points, starts with a
/// digit, and parses back to the magnitude.
pub proof fn lemma_magnitude_chars_parse(u: u64, scale: nat)
    ensures
        magnitude_chars(u as nat, scale).len() >= 1,
        is_digit(magnitude_chars(u as nat, scale)[0]),
        is_digit_text(magnitude_chars(u as nat, scale)),
        parsed_magnitude(magnitude_chars(u as nat, scale), scale) == Some(u),
{
    let p = pow10(scale);
    crate::scale::lemma_pow10_positive(scale);
    let q = u as nat / (p as nat);
    let r = u as nat % (p as nat);
    let int_part = nat_digits(q);
    lemma_nat_digits(q);
    lemma_no_point_fraction(int_part);
    lemma_fundamental_div_mod(u as int, p);
    let s = magnitude_chars(u as nat, scale);
    if scale == 0 {
        assert(p == 1);
        assert(u as int / 1 == u);
        assert(q == u);
        assert(s == int_part);
        assert(u as int * pow10(0) == u);
    } else {
        let frac = padded_digits(r, scale);
        lemma_padded_digits(r, scale);
        let head = int_part + seq!['.'];
        assert(head.drop_last() =~= int_part);
        assert(head[head.len() - 1] == '.');
        assert(head.contains('.'));
        assert(s == head + frac);
        lemma_digits_number_append(head, frac);
        lemma_fraction_append(head, frac);
        assert(fraction_digits(head) == fraction_digits(int_part));
        assert(digits_number(head) == digits_number(int_part));
        assert(r < p) by {
            vstd::arithmetic::div_mod::lemma_mod_bound(u as int, p);
        }
        assert(r % (p as nat) == r) by {
            vstd::arithmetic::div_mod::lemma_small_mod(r, p as nat);
        }
        assert(s[0] == int_part[0]);
        assert forall|i: int| 0 <= i < s.len() implies is_digit(#[trigger] s[i]) || s[i] == '.' by {
            if i < int_part.len() {
                assert(s[i] == int_part[i]);
            } else if i == int_part.len() {
                assert(s[i] == '.');
            } else {
                assert(s[i] == frac[i - head.len()]);
            }
        }
        assert(q * p + r == u) by (nonlinear_arith)
            requires
                u == p * (u as int / p) + u as int % p,
                q == u as int / p,
                r == u as int % p,
        ;
        assert(u as int * pow10(0) == u);
    }
}

} // verus!
