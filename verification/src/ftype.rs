//! Per-element operation interfaces for the kernel combinators.
//!
//! A kernel is a small value implementing one of these traits; its
//! specification function is the single source of truth that the combinator
//! contracts and the operation registry both speak of.

use vstd::prelude::*;

use crate::sized_data::Element;

verus! {

/// A two-operand assign kernel: maps one source row to an output row.
pub trait AssignOp2<T1: Element, T2: Element> {
    /// The `(valid, value)` the kernel yields for a source row.
    spec fn apply_spec(v: T2, b: bool) -> (bool, T1);

    fn apply(&self, v: T2, b: bool) -> (r: (bool, T1))
        ensures
            r == Self::apply_spec(v, b),
    ;
}

/// A two-operand update kernel: folds one source row into a destination row.
pub trait UpdateOp2<T1: Element, T2: Element> {
    /// The new `(value, valid)` of a destination row.
    spec fn update_spec(t: T1, tb: bool, v: T2, b: bool) -> (T1, bool);

    fn update(&self, t: T1, tb: bool, v: T2, b: bool) -> (r: (T1, bool))
        ensures
            r == Self::update_spec(t, tb, v, b),
    ;
}

/// A three-operand assign kernel: maps two source rows to an output row.
pub trait AssignOp3<T1: Element, T2: Element, T3: Element> {
    /// The `(valid, value)` the kernel yields for a pair of source rows.
    spec fn apply_spec(v2: T2, b2: bool, v3: T3, b3: bool) -> (bool, T1);

    fn apply(&self, v2: T2, b2: bool, v3: T3, b3: bool) -> (r: (bool, T1))
        ensures
            r == Self::apply_spec(v2, b2, v3, b3),
    ;
}

/// A two-operand assign kernel over one binary source.
pub trait BinaryAssignOp2<T1: Element> {
    /// The `(valid, value)` the kernel yields for a source byte string.
    spec fn apply_spec(v: Seq<u8>, b: bool) -> (bool, T1);

    fn apply(&self, v: &[u8], b: bool) -> (r: (bool, T1))
        ensures
            r == Self::apply_spec(v@, b),
    ;
}

/// A two-operand update kernel over one binary source.
pub trait BinaryUpdateOp2<T1: Element> {
    /// The new `(value, valid)` of a destination row.
    spec fn update_spec(t: T1, tb: bool, v: Seq<u8>, b: bool) -> (T1, bool);

    fn update(&self, t: T1, tb: bool, v: &[u8], b: bool) -> (r: (T1, bool))
        ensures
            r == Self::update_spec(t, tb, v@, b),
    ;
}

/// A three-operand assign kernel over two binary sources.
pub trait BinaryAssignOp3<T1: Element> {
    /// The `(valid, value)` the kernel yields for a pair of byte strings.
    spec fn apply_spec(v2: Seq<u8>, b2: bool, v3: Seq<u8>, b3: bool) -> (bool, T1);

    fn apply(&self, v2: &[u8], b2: bool, v3: &[u8], b3: bool) -> (r: (bool, T1))
        ensures
            r == Self::apply_spec(v2@, b2, v3@, b3),
    ;
}

} // verus!
