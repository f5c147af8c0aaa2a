//! The canonical column handle: a typed storage paired with an optional
//! nullability bitmap (`true` marks a valid row).

use vstd::prelude::*;

use crate::columndata::{ColumnData, ColumnDataF};
use crate::sized_data::Element;

verus! {

/// A column: storage plus optional bitmap, aligned length for length.
#[derive(Debug)]
pub struct ColumnWrapper {
    pub column: ColumnData,
    pub bitmap: ColumnDataF<bool>,
}

impl ColumnWrapper {
    /// A column and its bitmap, when present, have the same logical length,
    /// and binary layouts are sound.
    pub open spec fn wf(&self) -> bool {
        &&& self.column.data_wf()
        &&& self.bitmap.model() matches Some(b) ==> b.len() == self.column.len_spec()
    }

    /// The typed rows of a sized column: one `(valid, value)` pair per row.
    pub open spec fn sized_rows<T: Element>(&self) -> Option<Seq<(bool, T)>> {
        match self.column.sized_model::<T>() {
            Some(vals) => Some(
                Seq::new(
                    vals.len(),
                    |i: int|
                        (
                            match self.bitmap.model() {
                                Some(b) => b[i],
                                None => true,
                            },
                            vals[i],
                        ),
                ),
            ),
            None => None,
        }
    }

    /// The rows of a binary column: one `(valid, bytes)` pair per row.
    pub open spec fn binary_rows(&self) -> Option<Seq<(bool, Seq<u8>)>> {
        match self.column.binary_model() {
            Some(vals) => Some(
                Seq::new(
                    vals.len(),
                    |i: int|
                        (
                            match self.bitmap.model() {
                                Some(b) => b[i],
                                None => true,
                            },
                            vals[i],
                        ),
                ),
            ),
            None => None,
        }
    }

    /// Whether both the storage and the bitmap are owned.
    pub fn is_owned(&self) -> (r: bool)
        ensures
            r == ((self.column is Owned || self.column is BinaryOwned) && self.bitmap is Owned),
    {
        self.column.is_owned() && self.bitmap.is_owned()
    }

    /// Whether the storage holds variable-length elements.
    pub fn is_binary(&self) -> (r: bool)
        ensures
            r == (self.column.binary_of() is Some),
    {
        self.column.is_binary()
    }

    /// Whether the storage holds fixed-width elements.
    pub fn is_sized(&self) -> (r: bool)
        ensures
            r == (self.column.sized_of() is Some),
    {
        self.column.is_sized()
    }

    /// Wraps a storage with no bitmap.
    pub fn new_from_columndata(data: ColumnData) -> (r: Self)
        ensures
            r.column == data,
            r.bitmap == ColumnDataF::<bool>::Missing,
    {
        ColumnWrapper { column: data, bitmap: ColumnDataF::Missing }
    }

    /// Attaches a borrowed bitmap.
    pub fn with_bitmap_slice(&mut self, bmap: &[bool])
        ensures
            final(self).column == old(self).column,
            final(self).bitmap.model() == Some(bmap@),
    {
        self.bitmap = ColumnDataF::new_from_slice(bmap);
    }

    /// Moves the storage and bitmap out.
    pub fn get_inner(self) -> (r: (ColumnData, ColumnDataF<bool>))
        ensures
            r.0 == self.column,
            r.1 == self.bitmap,
    {
        (self.column, self.bitmap)
    }

    /// Borrows the storage and bitmap.
    pub fn get_inner_ref(&self) -> (r: (&ColumnData, &ColumnDataF<bool>))
        ensures
            r.0 == &self.column,
            r.1 == &self.bitmap,
    {
        (&self.column, &self.bitmap)
    }

    /// Borrows the storage.
    pub fn column(&self) -> (r: &ColumnData)
        ensures
            r == &self.column,
    {
        &self.column
    }

    /// Borrows the bitmap.
    pub fn bitmap(&self) -> (r: &ColumnDataF<bool>)
        ensures
            r == &self.bitmap,
    {
        &self.bitmap
    }

    /// Replaces the bitmap.
    pub fn bitmap_set(&mut self, b: ColumnDataF<bool>)
        ensures
            final(self).column == old(self).column,
            final(self).bitmap == b,
    {
        self.bitmap = b;
    }
}

/// One column per partition.
pub type PartitionedColumn = Vec<ColumnWrapper>;

} // verus!
