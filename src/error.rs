//! Error types.
use vstd::prelude::*;

verus! {

/// Errors of the fallible arithmetic and conversions.
#[derive(Debug, Clone, Copy, PartialEq, Eq, Structural)]
pub enum MathError {
    /// Division by zero.
    DivisionByZero,
    /// A magnitude does not fit in 64 bits.
    Overflow,
}

impl MathError {
    /// A short description of the error.
    pub fn message(&self) -> (r: &'static str)
        ensures
            r@ == (match self {
                MathError::DivisionByZero => "division by zero"@,
                MathError::Overflow => "overflow"@,
            }),
    {
        match self {
            MathError::DivisionByZero => {
                proof {
                    reveal_strlit("division by zero");
                }
                "division by zero"
            },
            MathError::Overflow => {
                proof {
                    reveal_strlit("overflow");
                }
                "overflow"
            },
        }
    }
}

/// Errors of parsing a signed decimal from text.
#[derive(Debug, Clone, Copy, PartialEq, Eq, Structural)]
pub enum ParseSignedDecimalError {
    /// Empty, or only a sign.
    Empty,
    /// The magnitude does not parse at the fixed scale.
    InvalidMagnitude,
}

impl ParseSignedDecimalError {
    /// A short description of the error.
    pub fn message(&self) -> (r: &'static str)
        ensures
            r@ == (match self {
                ParseSignedDecimalError::Empty => "empty string"@,
                ParseSignedDecimalError::InvalidMagnitude => "invalid decimal literal for this fixed scale"@,
            }),
    {
        match self {
            ParseSignedDecimalError::Empty => {
                proof {
                    reveal_strlit("empty string");
                }
                "empty string"
            },
            ParseSignedDecimalError::InvalidMagnitude => {
                proof {
                    reveal_strlit("invalid decimal literal for this fixed scale");
                }
                "invalid decimal literal for this fixed scale"
            },
        }
    }
}

} // verus!
