//! Scratch columns for expression evaluation, pooled by element type.
//!
//! A pushed column is truncated (and its owned bitmap cleared) before reuse.

use vstd::prelude::*;

use crate::column::ColumnWrapper;
use crate::columndata::{ColumnData, ColumnDataF};
use crate::owned::OwnedColumn;
use crate::sized_data::{sized_tag, Element, SizedData};
use crate::tag::ItemTypeId;

verus! {

/// A FIFO of reusable owned scratch columns.
pub struct ColumnBuffer {
    pub stored: Vec<ColumnWrapper>,
}

impl ColumnBuffer {
    /// Every pooled column is well-formed and empty.
    pub open spec fn wf(&self) -> bool {
        forall|i: int|
            0 <= i < self.stored@.len() ==> (#[trigger] self.stored@[i]).wf()
                && self.stored@[i].column.len_spec() == 0
    }

    /// An empty pool.
    pub fn new() -> (r: Self)
        ensures
            r.stored@.len() == 0,
            r.wf(),
    {
        Self { stored: Vec::new() }
    }

    /// Returns a truncated column to the pool; non-owned columns are dropped.
    pub fn push(&mut self, mut c: ColumnWrapper)
        requires
            old(self).wf(),
        ensures
            final(self).wf(),
    {
        match c.truncate() {
            Ok(_) => {
                self.stored.push(c);
            },
            Err(_) => {},
        }
    }

    /// Takes an empty owned column of the requested element type from the
    /// pool, or makes a fresh one.
    pub fn pop(&mut self, item_type_id: ItemTypeId) -> (r: ColumnWrapper)
        requires
            old(self).wf(),
        ensures
            final(self).wf(),
            r.column.type_of() == item_type_id,
            r.column.len_spec() == 0,
            r.column is Owned || r.column is BinaryOwned,
            (r.bitmap.model() matches Some(b) ==> b.len() == 0),
            r.wf(),
            crate::generic_functions_3::set3_inserts(r),
    {
        let n = self.stored.len();
        let mut i: usize = 0;
        while i < n
            invariant
                i <= n,
                n == self.stored@.len(),
                self.wf(),
            decreases n - i,
        {
            let found: bool = {
                let c = &self.stored[i];
                c.column.item_type_id() == item_type_id && c.len() == 0 && (c.column.is_owned())
                    && (match c.bitmap.len() {
                    Some(k) => k == 0,
                    None => true,
                })
            };
            if found {
                let c = self.stored.remove(i);
                return c;
            }
            i = i + 1;
        }
        new_empty_owned(item_type_id)
    }
}

/// A fresh empty owned column of the given element type, with no bitmap.
pub fn new_empty_owned(item_type_id: ItemTypeId) -> (r: ColumnWrapper)
    ensures
        r.column.type_of() == item_type_id,
        r.column.len_spec() == 0,
        r.column is Owned || r.column is BinaryOwned,
        r.bitmap is Missing,
        r.wf(),
        crate::generic_functions_3::set3_inserts(r),
{
    match item_type_id {
        ItemTypeId::U8 => ColumnWrapper::new_from_vec::<u8>(Vec::new()),
        ItemTypeId::U16 => ColumnWrapper::new_from_vec::<u16>(Vec::new()),
        ItemTypeId::U32 => ColumnWrapper::new_from_vec::<u32>(Vec::new()),
        ItemTypeId::U64 => ColumnWrapper::new_from_vec::<u64>(Vec::new()),
        ItemTypeId::USize => ColumnWrapper::new_from_vec::<usize>(Vec::new()),
        ItemTypeId::Bool => ColumnWrapper::new_from_vec::<bool>(Vec::new()),
        ItemTypeId::Str => {
            let empty: Vec<Vec<u8>> = Vec::new();
            ColumnWrapper::new_from_binary_vec(&empty)
        },
    }
}

} // verus!
