//! Exact representation of the decimal numbers that appear in DBC text.
//!
//! A signal definition carries scale, offset, minimum and maximum as decimal
//! literals such as `0.125` or `8031.88`.  The library keeps them exactly as
//! written, as a sign, an integer mantissa and a power of ten, so that no
//! rounding enters the verified core.  A consumer that wants a machine float
//! converts at the edge.

use vstd::prelude::*;

verus! {

/// A signed decimal number: the value is
/// `(-1)^negative * mantissa * 10^exponent`.
#[derive(Clone, Copy, PartialEq, Eq, Structural, Debug)]
pub struct Decimal {
    pub negative: bool,
    pub mantissa: u64,
    pub exponent: i32,
}

impl Decimal {
    /// The number zero, as the grammar produces it from the literal `0`.
    pub fn zero() -> (r: Decimal)
        ensures
            r == Decimal::spec_zero(),
    {
        Decimal { negative: false, mantissa: 0, exponent: 0 }
    }

    /// The value that stands for an absent decimal field.
    pub open spec fn spec_zero() -> Decimal {
        Decimal { negative: false, mantissa: 0, exponent: 0 }
    }

    /// Builds a decimal from its parts.
    pub fn new(negative: bool, mantissa: u64, exponent: i32) -> (r: Decimal)
        ensures
            r == (Decimal { negative, mantissa, exponent }),
    {
        Decimal { negative, mantissa, exponent }
    }
}

} // verus!
