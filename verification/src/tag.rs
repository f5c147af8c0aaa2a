//! Runtime element-type tags.
//!
//! Every storage carries one of these tags; typed entry points probe the tag
//! and fail with a type mismatch when it differs from the requested type.

use vstd::prelude::*;

verus! {

/// The runtime type identifier of a column's element type.
#[derive(Clone, Copy, Debug, PartialEq, Eq, Structural)]
pub enum ItemTypeId {
    U8,
    U16,
    U32,
    U64,
    USize,
    Bool,
    /// Variable-length byte strings (the binary element type).
    Str,
}

} // verus!
