//! Keeps `FixedScale` to decimal64's scale markers.
use decimal64::{U0, U1, U2, U3, U4, U5, U6, U7, U8};
use vstd::prelude::*;

verus! {

/// Implemented only here, so that no other crate can implement `FixedScale`.
pub trait Sealed {
}

impl Sealed for U0 {
}

impl Sealed for U1 {
}

impl Sealed for U2 {
}

impl Sealed for U3 {
}

impl Sealed for U4 {
}

impl Sealed for U5 {
}

impl Sealed for U6 {
}

impl Sealed for U7 {
}

impl Sealed for U8 {
}

} // verus!
