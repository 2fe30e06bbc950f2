//! Decimal text: parsing with an optional sign, and display.
use crate::error::ParseSignedDecimalError;
use crate::magnitude::{magnitude_parse, magnitude_text};
use crate::scale::FixedScale;
use crate::text::{fraction_digits, is_literal_char, magnitude_chars, parsed_magnitude};
use crate::{signed, SignedDecimalU64};
use decimal64::ScaleMetrics;
use vstd::prelude::*;
use vstd::string::*;

verus! {

/// The text with leading and trailing white space removed.
pub uninterp spec fn trimmed(s: Seq<char>) -> Seq<char>;

/// Relies on `str::trim`: it removes leading and trailing white space, so
/// text made only of digits, points and signs comes back whole.
#[verifier::external_body]
fn trim_text(s: &str) -> (r: &str)
    ensures
        r@ == trimmed(s@),
        (forall|i: int| 0 <= i < s@.len() ==> is_literal_char(#[trigger] s@[i])) ==> r@ == s@,
{
    s.trim()
}

/// The text after an optional leading sign.
pub open spec fn unsigned_part(s: Seq<char>) -> Seq<char> {
    if s.len() > 0 && (s[0] == '-' || s[0] == '+') {
        s.skip(1)
    } else {
        s
    }
}

/// What `s` denotes at `scale` digits, in units of the scale: an optional
/// sign, then a magnitude. Text that is empty or only a sign is `Empty`;
/// a magnitude that does not parse is `InvalidMagnitude`.
pub open spec fn parsed_value(s: Seq<char>, scale: nat) -> Result<int, ParseSignedDecimalError> {
    if unsigned_part(s).len() == 0 {
        Err(ParseSignedDecimalError::Empty)
    } else {
        match parsed_magnitude(unsigned_part(s), scale) {
            Some(m) => Ok(signed(s[0] == '-', m as int)),
            None => Err(ParseSignedDecimalError::InvalidMagnitude),
        }
    }
}

/// The text of the value `v` at `scale` digits: a minus sign for a negative
/// value, then the magnitude with exactly `scale` fractional digits.
pub open spec fn value_chars(v: int, scale: nat) -> Seq<char> {
    if v < 0 {
        seq!['-'] + magnitude_chars((-v) as nat, scale)
    } else {
        magnitude_chars(v as nat, scale)
    }
}

/// Counts the digits after the first decimal point.
fn count_fraction_digits(s: &str) -> (n: usize)
    ensures
        n == fraction_digits(s@),
{
    let len = s.unicode_len();
    let mut i: usize = 0;
    let mut n: usize = 0;
    let mut seen_point = false;
    while i < len
        invariant
            len == s@.len(),
            i <= len,
            n <= i,
            n == fraction_digits(s@.take(i as int)),
            seen_point == s@.take(i as int).contains('.'),
        decreases len - i,
    {
        let c = s.get_char(i);
        proof {
            let t = s@.take(i + 1);
            assert(t.drop_last() =~= s@.take(i as int));
            assert(t.last() == c);
            if t.contains('.') {
                let j = choose|j: int| 0 <= j < t.len() && t[j] == '.';
                if j < i {
                    assert(s@.take(i as int)[j] == '.');
                }
            }
            if s@.take(i as int).contains('.') {
                let j = choose|j: int| 0 <= j < i && s@.take(i as int)[j] == '.';
                assert(t[j] == '.');
            }
            if c == '.' {
                assert(t[i as int] == '.');
            }
        }
        if '0' <= c && c <= '9' && seen_point {
            n = n + 1;
        }
        if c == '.' {
            seen_point = true;
        }
        i = i + 1;
    }
    proof {
        assert(s@.take(len as int) =~= s@);
    }
    n
}

impl<S: FixedScale + ScaleMetrics> SignedDecimalU64<S> {
    /// Parses text with no white space to strip: an optional `+` or `-`,
    /// then a magnitude in decimal64's syntax at the fixed scale.
    pub fn parse_trimmed(s: &str) -> (r: Result<Self, ParseSignedDecimalError>)
        ensures
            match r {
                Ok(x) => parsed_value(s@, S::digits()) == Ok::<int, ParseSignedDecimalError>(x.value()),
                Err(e) => parsed_value(s@, S::digits()) == Err::<int, ParseSignedDecimalError>(e),
            },
    {
        let len = s.unicode_len();
        if len == 0 {
            return Err(ParseSignedDecimalError::Empty);
        }
        let first = s.get_char(0);
        let neg = first == '-';
        let rest = if first == '-' || first == '+' {
            s.substring_char(1, len)
        } else {
            s
        };
        proof {
            if first == '-' || first == '+' {
                assert(rest@ =~= s@.skip(1));
            }
            assert(rest@ == unsigned_part(s@));
        }
        if rest.unicode_len() == 0 {
            return Err(ParseSignedDecimalError::Empty);
        }
        let digits = S::scale_digits();
        if count_fraction_digits(rest) > 255 {
            return Err(ParseSignedDecimalError::InvalidMagnitude);
        }
        match magnitude_parse::<S>(rest) {
            Some(m) => Ok(Self::new(neg, m)),
            None => Err(ParseSignedDecimalError::InvalidMagnitude),
        }
    }

    /// Parses a signed decimal: surrounding white space is ignored, then an
    /// optional `+` or `-`, then a magnitude at the fixed scale.
    pub fn from_str(s: &str) -> (r: Result<Self, ParseSignedDecimalError>)
        ensures
            match r {
                Ok(x) => parsed_value(trimmed(s@), S::digits()) == Ok::<int, ParseSignedDecimalError>(x.value()),
                Err(e) => parsed_value(trimmed(s@), S::digits()) == Err::<int, ParseSignedDecimalError>(e),
            },
    {
        let t = trim_text(s);
        Self::parse_trimmed(t)
    }

    /// The text of the value: `-` for a negative value, then the magnitude
    /// with exactly as many fractional digits as the scale.
    pub fn to_string(&self) -> (r: String)
        ensures
            r@ == value_chars(self.value(), S::digits()),
    {
        let m = magnitude_text::<S>(self.unscaled());
        if self.is_negative() {
            let mut out = String::new();
            proof {
                reveal_strlit("-");
            }
            out.append("-");
            out.append(m.as_str());
            out
        } else {
            m
        }
    }
}

} // verus!
