//! Row indices: first-class row-remapping arrays applied at read time.
//!
//! The `Option`-valued shapes encode outer-join semantics: an absent source
//! row reads as null.

use vstd::prelude::*;

use crate::errors::ErrorDesc;

verus! {

/// A row index over a column's storage, or its absence.
#[derive(Debug)]
pub enum ColumnDataIndex {
    /// No index: rows are read positionally.
    Missing,
    Owned(Vec<usize>),
    Slice(Vec<usize>),
    SliceMut(Vec<usize>),
    OwnedOption(Vec<Option<usize>>),
    SliceOption(Vec<Option<usize>>),
}

impl ColumnDataIndex {
    /// The plain positions, for the total shapes.
    pub open spec fn plain_model(&self) -> Option<Seq<usize>> {
        match self {
            ColumnDataIndex::Owned(v) => Some(v@),
            ColumnDataIndex::Slice(v) => Some(v@),
            ColumnDataIndex::SliceMut(v) => Some(v@),
            _ => None,
        }
    }

    /// The optional positions, for the outer-join shapes.
    pub open spec fn option_model(&self) -> Option<Seq<Option<usize>>> {
        match self {
            ColumnDataIndex::OwnedOption(v) => Some(v@),
            ColumnDataIndex::SliceOption(v) => Some(v@),
            _ => None,
        }
    }

    /// The number of rows the index selects, when present.
    pub open spec fn len_spec(&self) -> Option<nat> {
        if self.plain_model() is Some {
            Some(self.plain_model().unwrap().len())
        } else if self.option_model() is Some {
            Some(self.option_model().unwrap().len())
        } else {
            None
        }
    }

    /// Every selected position lies below `bound`.
    pub open spec fn in_bounds(&self, bound: nat) -> bool {
        match self {
            ColumnDataIndex::Missing => true,
            ColumnDataIndex::Owned(v) => forall|i: int|
                0 <= i < v@.len() ==> #[trigger] v@[i] < bound,
            ColumnDataIndex::Slice(v) => forall|i: int|
                0 <= i < v@.len() ==> #[trigger] v@[i] < bound,
            ColumnDataIndex::SliceMut(v) => forall|i: int|
                0 <= i < v@.len() ==> #[trigger] v@[i] < bound,
            ColumnDataIndex::OwnedOption(v) => forall|i: int|
                0 <= i < v@.len() ==> ((#[trigger] v@[i]) matches Some(p) ==> p < bound),
            ColumnDataIndex::SliceOption(v) => forall|i: int|
                0 <= i < v@.len() ==> ((#[trigger] v@[i]) matches Some(p) ==> p < bound),
        }
    }

    /// Wraps an owned index vector.
    pub fn new(data: Vec<usize>) -> (r: Self)
        ensures
            r == ColumnDataIndex::Owned(data),
    {
        ColumnDataIndex::Owned(data)
    }

    /// Wraps an owned optional-index vector.
    pub fn new_option(data: Vec<Option<usize>>) -> (r: Self)
        ensures
            r == ColumnDataIndex::OwnedOption(data),
    {
        ColumnDataIndex::OwnedOption(data)
    }

    /// Captures a borrowed index slice (read-only).
    pub fn new_from_slice(data: &[usize]) -> (r: Self)
        ensures
            r.plain_model() == Some(data@),
            r is Slice,
    {
        ColumnDataIndex::Slice(vstd::slice::slice_to_vec(data))
    }

    /// Captures a mutable borrowed index slice. The positions are copied:
    /// later changes to the index do not reach the caller's slice.
    pub fn new_from_slice_mut(data: &mut [usize]) -> (r: Self)
        ensures
            r.plain_model() == Some(old(data)@),
            final(data)@ == old(data)@,
            r is SliceMut,
    {
        ColumnDataIndex::SliceMut(vstd::slice::slice_to_vec(data))
    }

    /// Whether an index is present.
    pub fn is_some(&self) -> (r: bool)
        ensures
            r == !(self is Missing),
    {
        match self {
            ColumnDataIndex::Missing => false,
            _ => true,
        }
    }

    /// Whether no index is present.
    pub fn is_missing(&self) -> (r: bool)
        ensures
            r == (self is Missing),
    {
        match self {
            ColumnDataIndex::Missing => true,
            _ => false,
        }
    }

    /// The number of rows the index selects, when present.
    pub fn len(&self) -> (r: Option<usize>)
        ensures
            match r {
                Some(n) => self.len_spec() == Some(n as nat),
                None => self is Missing,
            },
    {
        match self {
            ColumnDataIndex::Missing => None,
            ColumnDataIndex::Owned(v) => Some(v.len()),
            ColumnDataIndex::Slice(v) => Some(v.len()),
            ColumnDataIndex::SliceMut(v) => Some(v.len()),
            ColumnDataIndex::OwnedOption(v) => Some(v.len()),
            ColumnDataIndex::SliceOption(v) => Some(v.len()),
        }
    }

    /// Checked borrow of the plain positions.
    pub fn downcast_ref(&self) -> (r: Result<&Vec<usize>, ErrorDesc>)
        ensures
            match r {
                Ok(v) => self.plain_model() == Some(v@),
                Err(e) => self.plain_model() is None && e == ErrorDesc::ShapeMismatch,
            },
    {
        match self {
            ColumnDataIndex::Owned(v) => Ok(v),
            ColumnDataIndex::Slice(v) => Ok(v),
            ColumnDataIndex::SliceMut(v) => Ok(v),
            _ => Err(ErrorDesc::ShapeMismatch),
        }
    }

    /// Checked borrow of the optional positions.
    pub fn downcast_option_ref(&self) -> (r: Result<&Vec<Option<usize>>, ErrorDesc>)
        ensures
            match r {
                Ok(v) => self.option_model() == Some(v@),
                Err(e) => self.option_model() is None && e == ErrorDesc::ShapeMismatch,
            },
    {
        match self {
            ColumnDataIndex::OwnedOption(v) => Ok(v),
            ColumnDataIndex::SliceOption(v) => Ok(v),
            _ => Err(ErrorDesc::ShapeMismatch),
        }
    }

    /// Checked mutable borrow of a writable plain index.
    pub fn downcast_vec(&mut self) -> (r: Result<&mut Vec<usize>, ErrorDesc>)
        ensures
            r is Ok <==> (*old(self) is Owned || *old(self) is SliceMut),
            r matches Ok(v) ==> old(self).plain_model() == Some((*v)@) && final(self).plain_model()
                == Some(final(v)@),
            r is Err ==> *final(self) == *old(self),
    {
        match self {
            ColumnDataIndex::Owned(v) => Ok(v),
            ColumnDataIndex::SliceMut(v) => Ok(v),
            _ => Err(ErrorDesc::ShapeMismatch),
        }
    }

    /// Moves the index out, leaving absence behind.
    pub fn take(&mut self) -> (r: Self)
        ensures
            r == *old(self),
            *final(self) == ColumnDataIndex::Missing,
    {
        let mut tmp = ColumnDataIndex::Missing;
        core::mem::swap(self, &mut tmp);
        tmp
    }
}

/// One row index per partition.
pub type PartitionedIndex = Vec<ColumnDataIndex>;

} // verus!
