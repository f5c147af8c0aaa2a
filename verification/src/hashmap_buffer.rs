//! Null-aware row keys and the grouping scratch pool.
//!
//! Two rows are equal as grouping keys if and only if both are null, or both
//! are valid and their values are equal. Hashing mixes the validity bit first
//! and the value only when it is valid, so the key equality below is exactly
//! the equality grouping observes.

use vstd::prelude::*;

verus! {

/// A value paired with its validity bit (`true` marks a valid row).
#[derive(Debug)]
pub struct NullableValue<T> {
    pub value: T,
    pub bitmap: bool,
}

/// Key equality under nulls: both null, or both valid with equal values.
pub open spec fn nv_eq<T>(a: NullableValue<T>, b: NullableValue<T>) -> bool {
    (!a.bitmap && !b.bitmap) || (a.bitmap && b.bitmap && a.value == b.value)
}

/// Key equality is reflexive, symmetric and transitive.
pub proof fn lemma_nv_eq_equivalence<T>(a: NullableValue<T>, b: NullableValue<T>, c: NullableValue<
    T,
>)
    ensures
        nv_eq(a, a),
        nv_eq(a, b) == nv_eq(b, a),
        nv_eq(a, b) && nv_eq(b, c) ==> nv_eq(a, c),
{
}

/// Scratch pool for grouping. Grouping in this engine compares rows directly
/// against earlier rows, so no per-type map state is kept between calls; the
/// pool only preserves the call sites' shape.
pub struct HashMapBuffer {
    pub generation: usize,
}

impl HashMapBuffer {
    /// A fresh pool.
    pub fn new() -> (r: Self)
        ensures
            r.generation == 0,
    {
        Self { generation: 0 }
    }
}

} // verus!
