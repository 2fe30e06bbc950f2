//! Scale markers and powers of ten.
use decimal64::{U0, U1, U2, U3, U4, U5, U6, U7, U8};
use vstd::prelude::*;

verus! {

/// `10^n` as a mathematical integer.
pub open spec fn pow10(n: nat) -> int
    decreases n,
{
    if n == 0 {
        1
    } else {
        10 * pow10((n - 1) as nat)
    }
}

pub proof fn lemma_pow10_positive(n: nat)
    ensures
        pow10(n) >= 1,
    decreases n,
{
    if n > 0 {
        lemma_pow10_positive((n - 1) as nat);
    }
}

/// Powers of ten grow with the exponent.
pub proof fn lemma_pow10_monotone(m: nat, n: nat)
    requires
        m <= n,
    ensures
        pow10(m) <= pow10(n),
    decreases n,
{
    lemma_pow10_positive(n);
    if m < n {
        lemma_pow10_monotone(m, (n - 1) as nat);
    }
}

pub proof fn lemma_pow10_19()
    ensures
        pow10(19) == 10_000_000_000_000_000_000int,
{
    reveal_with_fuel(pow10, 20);
}

/// 10^n as `u64` for 0 <= n <= 19.
pub fn pow10_u64(n: u32) -> (r: u64)
    requires
        n <= 19,
    ensures
        r == pow10(n as nat),
{
    let mut r: u64 = 1;
    let mut i: u32 = 0;
    while i < n
        invariant
            i <= n <= 19,
            r == pow10(i as nat),
        decreases n - i,
    {
        proof {
            lemma_pow10_monotone((i + 1) as nat, 19);
            lemma_pow10_19();
        }
        r = r * 10;
        i = i + 1;
    }
    r
}

/// A fixed-point scale: the number of fractional decimal digits that values
/// of a type carry. It is implemented for decimal64's markers `U0` to `U8`
/// alone, whose scale factor is `10^digits`.
pub trait FixedScale: crate::sealed::Sealed {
    /// The number of fractional digits.
    spec fn digits() -> nat;

    /// The number of fractional digits, at run time.
    fn scale_digits() -> (r: u32)
        ensures
            r as nat == Self::digits(),
            r <= 8,
    ;
}

#[verifier::external_type_specification]
#[verifier::external_body]
pub struct ExU0(U0);

#[verifier::external_type_specification]
#[verifier::external_body]
pub struct ExU1(U1);

#[verifier::external_type_specification]
#[verifier::external_body]
pub struct ExU2(U2);

#[verifier::external_type_specification]
#[verifier::external_body]
pub struct ExU3(U3);

#[verifier::external_type_specification]
#[verifier::external_body]
pub struct ExU4(U4);

#[verifier::external_type_specification]
#[verifier::external_body]
pub struct ExU5(U5);

#[verifier::external_type_specification]
#[verifier::external_body]
pub struct ExU6(U6);

#[verifier::external_type_specification]
#[verifier::external_body]
pub struct ExU7(U7);

#[verifier::external_type_specification]
#[verifier::external_body]
pub struct ExU8(U8);

impl FixedScale for U0 {
    open spec fn digits() -> nat {
        0
    }

    fn scale_digits() -> (r: u32) {
        0
    }
}

impl FixedScale for U1 {
    open spec fn digits() -> nat {
        1
    }

    fn scale_digits() -> (r: u32) {
        1
    }
}

impl FixedScale for U2 {
    open spec fn digits() -> nat {
        2
    }

    fn scale_digits() -> (r: u32) {
        2
    }
}

impl FixedScale for U3 {
    open spec fn digits() -> nat {
        3
    }

    fn scale_digits() -> (r: u32) {
        3
    }
}

impl FixedScale for U4 {
    open spec fn digits() -> nat {
        4
    }

    fn scale_digits() -> (r: u32) {
        4
    }
}

impl FixedScale for U5 {
    open spec fn digits() -> nat {
        5
    }

    fn scale_digits() -> (r: u32) {
        5
    }
}

impl FixedScale for U6 {
    open spec fn digits() -> nat {
        6
    }

    fn scale_digits() -> (r: u32) {
        6
    }
}

impl FixedScale for U7 {
    open spec fn digits() -> nat {
        7
    }

    fn scale_digits() -> (r: u32) {
        7
    }
}

impl FixedScale for U8 {
    open spec fn digits() -> nat {
        8
    }

    fn scale_digits() -> (r: u32) {
        8
    }
}

} // verus!
