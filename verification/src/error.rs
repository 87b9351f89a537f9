//! The ways in which an expansion can be refused.

use vstd::prelude::*;

verus! {

/// Why no fragment was produced. Every refusal is atomic: nothing is emitted
/// beside it.
#[derive(Clone, Copy, Debug, PartialEq, Eq, Structural)]
pub enum GenerateError {
    /// The bound is not a non-negative integer literal that fits the machine.
    InvalidBound,
    /// The item that the bound is attached to is not a trait declaration.
    MalformedTrait,
    /// The trait declares no associated type.
    MissingAssociatedType,
    /// The trait declares more than one associated type.
    AmbiguousAssociatedType,
    /// A text holds more tokens than a reader takes. No expansion gives this:
    /// it comes from the readers of source text alone, before they read.
    TextTooLong,
}

} // verus!
