//! Small policy enumerations shared by the conversion options.

use vstd::prelude::*;

verus! {

/// Controls how blank string sources are interpreted during conversion.
#[derive(Clone, Copy, Debug, PartialEq, Eq, Structural, Hash)]
pub enum BlankStringPolicy {
    /// Keep blank strings as real string values.
    Preserve,
    /// Treat blank strings as missing values.
    TreatAsMissing,
    /// Reject blank strings as invalid input.
    Reject,
}

/// Controls how empty collection items are interpreted after splitting.
#[derive(Clone, Copy, Debug, PartialEq, Eq, Structural, Hash)]
pub enum EmptyItemPolicy {
    /// Keep empty items and pass them to the element converter.
    Keep,
    /// Drop empty items before element conversion.
    Skip,
    /// Reject empty items as invalid input.
    Reject,
}

/// Accepted integer domain when integers convert to booleans.
#[derive(Clone, Copy, Debug, PartialEq, Eq, Structural, Hash)]
pub enum BooleanNumericPolicy {
    /// Only `0` (false) and `1` (true) are accepted.
    ZeroOrOne,
    /// Zero is false and every other integer is true.
    NonZero,
    /// Integers never convert to booleans.
    Reject,
}

impl BooleanNumericPolicy {
    /// The strict default: only `0` and `1` are accepted.
    pub fn default_policy() -> (policy: Self)
        ensures
            policy == BooleanNumericPolicy::ZeroOrOne,
    {
        BooleanNumericPolicy::ZeroOrOne
    }
}

/// Whether numeric conversions must be exact or may truncate fractions.
#[derive(Clone, Copy, Debug, PartialEq, Eq, Structural, Hash)]
pub enum NumericConversionPolicy {
    /// Reject conversions that would lose information.
    Exact,
    /// Truncate fractional values toward zero.
    Lossy,
}

} // verus!
