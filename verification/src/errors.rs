//! The reasons for which an operator or a builder refuses its input.

use vstd::prelude::*;

verus! {

/// Why an operator or a builder refused its input.
#[derive(Clone, Copy, Debug, PartialEq, Eq, Structural)]
pub enum Error {
    /// The period is zero, or not smaller than the length of the series.
    InvalidPeriod,
    /// A moment was asked of a series without elements.
    EmptySeries,
    /// Two paired series differ in length.
    LengthMismatch,
    /// Fewer than two paired points were given.
    InsufficientData,
    /// A builder was finished before a part that it needs was given.
    MissingField,
}

} // verus!
