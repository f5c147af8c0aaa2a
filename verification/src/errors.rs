//! Error kinds surfaced by the engine.
//!
//! Errors propagate synchronously through the call chain; nothing is retried
//! and nothing is swallowed.

use vstd::prelude::*;

verus! {

/// The recoverable error categories of the engine.
#[derive(Clone, Copy, Debug, PartialEq, Eq, Structural)]
pub enum ErrorDesc {
    /// A downcast met a storage of another element type.
    TypeMismatch,
    /// A bitmap, index or storage variant had the wrong shape for the call.
    ShapeMismatch,
    /// Two lengths that must agree differ.
    LengthMismatch,
    /// An operation or internal service is not present in the registry.
    Lookup,
    /// A position or column id lies out of bounds.
    Boundary,
    /// A call that the receiving variant does not allow.
    Policy,
}

} // verus!
