//! What a shape refuses to store.

use vstd::prelude::*;

verus! {

/// Why a shape refused an object.
#[derive(Clone, Copy, Debug, PartialEq, Eq, Structural)]
pub enum ValidationError {
    /// The object refers to something that the shape does not hold: a handle
    /// of another shape, or one to an object that was never stored.
    MissingReference,
    /// The cycle has several edges, and one of them has no vertices.
    MixedCycle,
}

impl ValidationError {
    /// The error in words.
    pub fn message(&self) -> (r: &'static str)
        ensures
            r@ == match self {
                ValidationError::MissingReference => "object refers to something that the shape does not hold"@,
                ValidationError::MixedCycle => "cycle of several edges holds an edge without vertices"@,
            },
    {
        match self {
            ValidationError::MissingReference => "object refers to something that the shape does not hold",
            ValidationError::MixedCycle => "cycle of several edges holds an edge without vertices",
        }
    }
}

} // verus!
