//! The table: partitioned columns, optional nullability bitmaps, shared
//! row-index slots, and the operations that run over them.

use vstd::prelude::*;

use crate::column::{ColumnWrapper, PartitionedColumn};
use crate::columndata::ColumnDataF;
use crate::columnop::{group_in_post, hash_in_post, wrapper_rows_binary, wrapper_rows_sized};
use crate::errors::ErrorDesc;
use crate::helpers::part_with_sizes;
use crate::index::{ColumnDataIndex, PartitionedIndex};
use crate::indexedreadbinarycolumn::ReadBinaryColumn;
use crate::indexedreadcolumn::{bit_at, ReadColumn};
use crate::dictionary::Dictionary;
use crate::ops::{input_ok, lemma_input_ok_binary, lemma_input_ok_sized, InputTypes};
use crate::signature::OpName;
use crate::sized_data::Element;
use crate::tabletotable::TableToTableMap;

verus! {

/// The table stays well-formed after appending a column whose partitions are
/// sound and sized to the layout.
proof fn lemma_push_col_wf(orig: Table, now: Table, newcol: PartitionedColumn, b: bool)
    requires
        orig.wf(),
        now.partition_sizes == orig.partition_sizes,
        now.table_rows == orig.table_rows,
        now.indexes == orig.indexes,
        now.columns@ == orig.columns@.push(newcol),
        now.columns_nullable@ == orig.columns_nullable@.push(b),
        now.columnindexmap@ == orig.columnindexmap@.push(None),
        newcol@.len() == orig.partition_sizes@.len(),
        forall|p: int|
            0 <= p < newcol@.len() ==> crate::ops::wrapper_input_ok(
                #[trigger] newcol@[p],
                ColumnDataIndex::Missing,
            ),
        forall|p: int|
            0 <= p < newcol@.len() ==> crate::ops::wrapper_logical_len(
                #[trigger] newcol@[p],
                ColumnDataIndex::Missing,
            ) == orig.partition_sizes@[p] || newcol@[p].column is Const || newcol@[p].column
                is BinaryConst,
        forall|p: int|
            0 <= p < newcol@.len() ==> (b <==> (#[trigger] newcol@[p]).bitmap.model() is Some),
    ensures
        now.wf(),
{
    let np = orig.partition_sizes@.len() as int;
    let nc = orig.columns@.len() as int;
    assert forall|c: int, p: int|
        0 <= c < now.columns@.len() && 0 <= p < np implies crate::ops::wrapper_input_ok(
        #[trigger] now.columns@[c]@[p],
        now.index_of(c, p),
    ) by {
        if c < nc {
            assert(crate::ops::wrapper_input_ok(orig.columns@[c]@[p], orig.index_of(c, p)));
            assert(now.index_of(c, p) == orig.index_of(c, p));
        } else {
            assert(now.columns@[c] == newcol);
            assert(now.index_of(c, p) == ColumnDataIndex::Missing);
        }
    }
    assert forall|c: int, p: int|
        0 <= c < now.columns@.len() && 0 <= p < np implies crate::ops::wrapper_logical_len(
        #[trigger] now.columns@[c]@[p],
        now.index_of(c, p),
    ) == now.partition_sizes@[p] || now.columns@[c]@[p].column is Const
        || now.columns@[c]@[p].column is BinaryConst by {
        if c < nc {
            assert(now.index_of(c, p) == orig.index_of(c, p));
            assert(crate::ops::wrapper_logical_len(orig.columns@[c]@[p], orig.index_of(c, p))
                == orig.partition_sizes@[p] || orig.columns@[c]@[p].column is Const
                || orig.columns@[c]@[p].column is BinaryConst);
        } else {
            assert(now.index_of(c, p) == ColumnDataIndex::Missing);
        }
    }
    assert forall|c: int, p: int|
        0 <= c < now.columns@.len() && 0 <= p < np implies (now.columns_nullable@[c] <==> (
    #[trigger] now.columns@[c]@[p]).bitmap.model() is Some) by {
        if c < nc {
            assert(orig.columns_nullable@[c] <==> orig.columns@[c]@[p].bitmap.model() is Some);
        }
    }
}

/// A table of partitioned columns. Many columns may share one row-index slot;
/// a column with no slot is read positionally.
#[derive(Debug)]
pub struct Table {
    /// Total logical rows over all partitions.
    pub table_rows: usize,
    /// Logical rows per partition.
    pub partition_sizes: Vec<usize>,
    /// One partitioned column per pushed column.
    pub columns: Vec<PartitionedColumn>,
    /// Whether each column carries a bitmap.
    pub columns_nullable: Vec<bool>,
    /// The shared row-index slots.
    pub indexes: Vec<PartitionedIndex>,
    /// For each column, the index slot applied at read, if any.
    pub columnindexmap: Vec<Option<usize>>,
}

impl Table {
    /// The index applied to column `c` in partition `p`.
    pub open spec fn index_of(&self, c: int, p: int) -> ColumnDataIndex {
        match self.columnindexmap@[c] {
            Some(s) => self.indexes@[s as int]@[p],
            None => ColumnDataIndex::Missing,
        }
    }

    /// Structural soundness: aligned lengths, well-formed columns, in-bounds
    /// indexes, and per-partition logical sizes.
    pub open spec fn wf(&self) -> bool {
        let np = self.partition_sizes@.len() as int;
        &&& self.columns@.len() == self.columns_nullable@.len()
        &&& self.columns@.len() == self.columnindexmap@.len()
        &&& crate::helpers::sum_prefix(self.partition_sizes@, np) == self.table_rows
        &&& forall|s: int|
            0 <= s < self.indexes@.len() ==> (#[trigger] self.indexes@[s])@.len() == np
        &&& forall|c: int|
            0 <= c < self.columns@.len() ==> (#[trigger] self.columns@[c])@.len() == np
        &&& forall|c: int|
            0 <= c < self.columnindexmap@.len() ==> ((#[trigger] self.columnindexmap@[c]) matches
            Some(s) ==> s < self.indexes@.len())
        &&& forall|c: int, p: int|
            0 <= c < self.columns@.len() && 0 <= p < np ==> crate::ops::wrapper_input_ok(
                #[trigger] self.columns@[c]@[p],
                self.index_of(c, p),
            )
        &&& forall|c: int, p: int|
            0 <= c < self.columns@.len() && 0 <= p < np ==> crate::ops::wrapper_logical_len(
                #[trigger] self.columns@[c]@[p],
                self.index_of(c, p),
            ) == self.partition_sizes@[p] || self.columns@[c]@[p].column is Const
                || self.columns@[c]@[p].column is BinaryConst
        &&& forall|c: int, p: int|
            0 <= c < self.columns@.len() && 0 <= p < np ==> (self.columns_nullable@[c]
                <==> (#[trigger] self.columns@[c]@[p]).bitmap.model() is Some)
    }

    /// A fresh table with the given partition layout and no columns.
    pub fn new(partition_sizes: Vec<usize>) -> (r: Result<Table, ErrorDesc>)
        ensures
            match r {
                Ok(t) => {
                    &&& t.wf()
                    &&& t.partition_sizes == partition_sizes
                    &&& t.columns@.len() == 0
                    &&& t.indexes@.len() == 0
                    &&& t.table_rows == crate::helpers::sum_prefix(
                        partition_sizes@,
                        partition_sizes@.len() as int,
                    )
                },
                Err(_) => crate::helpers::sum_prefix(
                    partition_sizes@,
                    partition_sizes@.len() as int,
                ) > usize::MAX,
            },
    {
        let total: usize = match crate::helpers::sum_of(&partition_sizes) {
            Some(t) => t,
            None => {
                return Err(ErrorDesc::LengthMismatch);
            },
        };
        Ok(
            Table {
                table_rows: total,
                partition_sizes,
                columns: Vec::new(),
                columns_nullable: Vec::new(),
                indexes: Vec::new(),
                columnindexmap: Vec::new(),
            },
        )
    }

    /// The number of columns.
    pub fn number_of_columns(&self) -> (r: usize)
        ensures
            r == self.columns@.len(),
    {
        self.columns.len()
    }

    /// The partitions of one column.
    pub fn get_part_col(&self, column_id: &usize) -> (r: Result<&PartitionedColumn, ErrorDesc>)
        ensures
            match r {
                Ok(c) => *column_id < self.columns@.len() && c == &self.columns@[*column_id as int],
                Err(e) => *column_id >= self.columns@.len() && e == ErrorDesc::Boundary,
            },
    {
        if *column_id < self.columns.len() {
            Ok(&self.columns[*column_id])
        } else {
            Err(ErrorDesc::Boundary)
        }
    }

    /// Appends a sized column read from a borrowed slice, without a bitmap.
    pub fn push<T: Element>(&mut self, data: &Vec<T>) -> (r: Result<(), ErrorDesc>)
        requires
            old(self).wf(),
        ensures
            final(self).wf(),
            r is Err <==> data@.len() != old(self).table_rows,
            match r {
                Ok(_) => {
                    &&& data@.len() == old(self).table_rows
                    &&& final(self).columns@.len() == old(self).columns@.len() + 1
                    &&& crate::helpers::sized_parts_of::<T>(
                        final(self).columns@.last()@,
                        final(self).partition_sizes@,
                    ) =~= data@
                    &&& final(self).partition_sizes == old(self).partition_sizes
                    &&& final(self).indexes == old(self).indexes
                    &&& final(self).table_rows == old(self).table_rows
                    &&& final(self).columns_nullable@ == old(self).columns_nullable@.push(false)
                    &&& final(self).columnindexmap@ == old(self).columnindexmap@.push(None)
                },
                Err(_) => *final(self) == *old(self),
            },
    {
        if data.len() != self.table_rows {
            return Err(ErrorDesc::LengthMismatch);
        }
        let empty_bitmap: Vec<bool> = Vec::new();
        let parts = match part_with_sizes::<T>(
            data.as_slice(),
            empty_bitmap.as_slice(),
            &self.partition_sizes,
        ) {
            Ok(p) => p,
            Err(e) => {
                return Err(e);
            },
        };
        proof {
            assert forall|p: int|
                0 <= p < parts@.len() implies crate::ops::wrapper_logical_len(
                #[trigger] parts@[p],
                ColumnDataIndex::Missing,
            ) == self.partition_sizes@[p] by {
                T::data_model_tag(&parts@[p].column.sized_of().unwrap());
            }
        }
        let ghost orig = *self;
        let ghost newcol_g = parts;
        self.columns.push(parts);
        self.columns_nullable.push(false);
        self.columnindexmap.push(None);
        proof {
            lemma_push_col_wf(orig, *self, newcol_g, false);
        }
        Ok(())
    }

    /// Appends a sized column with an aligned nullability bitmap.
    pub fn push_with_bitmap<T: Element>(&mut self, data: &Vec<T>, bitmap: &Vec<bool>) -> (r: Result<
        (),
        ErrorDesc,
    >)
        requires
            old(self).wf(),
        ensures
            final(self).wf(),
            r is Err <==> data@.len() != old(self).table_rows || bitmap@.len() != old(
                self,
            ).table_rows || old(self).table_rows == 0,
            match r {
                Ok(_) => {
                    &&& data@.len() == old(self).table_rows
                    &&& bitmap@.len() == old(self).table_rows
                    &&& final(self).columns@.len() == old(self).columns@.len() + 1
                    &&& crate::helpers::sized_parts_of::<T>(
                        final(self).columns@.last()@,
                        final(self).partition_sizes@,
                    ) =~= data@
                    &&& final(self).partition_sizes == old(self).partition_sizes
                    &&& final(self).indexes == old(self).indexes
                    &&& final(self).table_rows == old(self).table_rows
                    &&& final(self).columns_nullable@ == old(self).columns_nullable@.push(true)
                    &&& final(self).columnindexmap@ == old(self).columnindexmap@.push(None)
                },
                Err(_) => *final(self) == *old(self),
            },
    {
        if data.len() != self.table_rows || bitmap.len() != self.table_rows {
            return Err(ErrorDesc::LengthMismatch);
        }
        if self.table_rows == 0 {
            return Err(ErrorDesc::LengthMismatch);
        }
        let parts = match part_with_sizes::<T>(
            data.as_slice(),
            bitmap.as_slice(),
            &self.partition_sizes,
        ) {
            Ok(p) => p,
            Err(e) => {
                return Err(e);
            },
        };
        proof {
            assert forall|p: int|
                0 <= p < parts@.len() implies crate::ops::wrapper_logical_len(
                #[trigger] parts@[p],
                ColumnDataIndex::Missing,
            ) == self.partition_sizes@[p] by {
                T::data_model_tag(&parts@[p].column.sized_of().unwrap());
            }
        }
        let ghost orig = *self;
        let ghost newcol_g = parts;
        self.columns.push(parts);
        self.columns_nullable.push(true);
        self.columnindexmap.push(None);
        proof {
            lemma_push_col_wf(orig, *self, newcol_g, true);
        }
        Ok(())
    }

    /// Appends a sized column from a mutable borrowed slice, with an aligned
    /// bitmap. The slice contents are copied into the table's own writable
    /// storage: later in-place updates change the table's copy, not the
    /// caller's buffer.
    pub fn push_mut_with_bitmap<T: Element>(&mut self, data: &mut [T], bitmap: &mut [bool]) -> (r:
        Result<(), ErrorDesc>)
        requires
            old(self).wf(),
        ensures
            final(self).wf(),
            final(data)@ == old(data)@,
            final(bitmap)@ == old(bitmap)@,
            r is Err <==> old(data)@.len() != old(self).table_rows || old(bitmap)@.len() != old(
                self,
            ).table_rows,
            match r {
                Ok(_) => {
                    &&& old(data)@.len() == old(self).table_rows
                    &&& final(self).columns@.len() == old(self).columns@.len() + 1
                    &&& final(self).partition_sizes == old(self).partition_sizes
                    &&& final(self).indexes == old(self).indexes
                    &&& final(self).table_rows == old(self).table_rows
                    &&& final(self).columns_nullable@ == old(self).columns_nullable@.push(true)
                    &&& final(self).columnindexmap@ == old(self).columnindexmap@.push(None)
                },
                Err(_) => *final(self) == *old(self),
            },
    {
        if data.len() != self.table_rows || bitmap.len() != self.table_rows {
            return Err(ErrorDesc::LengthMismatch);
        }
        let data_total = data.len();
        let np = self.partition_sizes.len();
        let mut parts: Vec<ColumnWrapper> = Vec::new();
        let mut cur: usize = 0;
        let mut p: usize = 0;
        while p < np
            invariant
                p <= np,
                np == self.partition_sizes@.len(),
                cur == crate::helpers::sum_prefix(self.partition_sizes@, p as int),
                crate::helpers::sum_prefix(self.partition_sizes@, np as int) == data@.len(),
                data@.len() <= usize::MAX,
                bitmap@.len() == data@.len(),
                data@ == old(data)@,
                bitmap@ == old(bitmap)@,
                parts@.len() == p,
                forall|q: int|
                    0 <= q < p ==> crate::ops::wrapper_input_ok(
                        #[trigger] parts@[q],
                        ColumnDataIndex::Missing,
                    ) && crate::ops::wrapper_logical_len(parts@[q], ColumnDataIndex::Missing)
                        == self.partition_sizes@[q] && parts@[q].bitmap.model() is Some,
            decreases np - p,
        {
            proof {
                crate::helpers::lemma_sum_prefix_monotonic(
                    self.partition_sizes@,
                    p + 1,
                    np as int,
                );
            }
            let l = self.partition_sizes[p];
            let vals: Vec<T> = vstd::slice::slice_to_vec(&data[cur..cur + l]);
            let bits: Vec<bool> = vstd::slice::slice_to_vec(&bitmap[cur..cur + l]);
            let mut c = ColumnWrapper::new_from_columndata(
                crate::columndata::ColumnData::SliceMut(
                    crate::owned::SliceRefMut { data: T::wrap_vec(vals) },
                ),
            );
            c.bitmap_set(ColumnDataF::SliceMut(bits));
            proof {
                T::data_model_tag(&c.column.sized_of().unwrap());
                assert(c.column.len_spec() == l);
                assert(c.wf());
                assert(crate::ops::wrapper_input_ok(c, ColumnDataIndex::Missing));
                assert(crate::ops::wrapper_logical_len(c, ColumnDataIndex::Missing) == l);
            }
            parts.push(c);
            cur = cur + l;
            p = p + 1;
        }
        let ghost orig = *self;
        let ghost newcol_g = parts;
        self.columns.push(parts);
        self.columns_nullable.push(true);
        self.columnindexmap.push(None);
        proof {
            lemma_push_col_wf(orig, *self, newcol_g, true);
        }
        Ok(())
    }

    /// Appends a sized column from a mutable borrowed slice, no bitmap. The
    /// slice contents are copied: later updates do not reach the caller's
    /// buffer.
    pub fn push_mut<T: Element>(&mut self, data: &mut [T]) -> (r: Result<(), ErrorDesc>)
        requires
            old(self).wf(),
        ensures
            final(self).wf(),
            final(data)@ == old(data)@,
            r is Err <==> old(data)@.len() != old(self).table_rows,
            match r {
                Ok(_) => {
                    &&& old(data)@.len() == old(self).table_rows
                    &&& final(self).columns@.len() == old(self).columns@.len() + 1
                    &&& crate::helpers::sized_parts_of::<T>(
                        final(self).columns@.last()@,
                        final(self).partition_sizes@,
                    ) =~= old(data)@
                    &&& final(self).partition_sizes == old(self).partition_sizes
                    &&& final(self).indexes == old(self).indexes
                    &&& final(self).table_rows == old(self).table_rows
                    &&& final(self).columns_nullable@ == old(self).columns_nullable@.push(false)
                    &&& final(self).columnindexmap@ == old(self).columnindexmap@.push(None)
                },
                Err(_) => *final(self) == *old(self),
            },
    {
        let dv: Vec<T> = vstd::slice::slice_to_vec(data);
        self.push::<T>(&dv)
    }

    /// Appends a binary column of byte strings, with or without a bitmap
    /// (an empty bitmap vector means none).
    pub fn push_binary(&mut self, data: &Vec<Vec<u8>>, bitmap: &Vec<bool>) -> (r: Result<
        (),
        ErrorDesc,
    >)
        requires
            old(self).wf(),
        ensures
            final(self).wf(),
            r is Err <==> data@.len() != old(self).table_rows || (bitmap@.len() > 0 && bitmap@.len()
                != old(self).table_rows),
            match r {
                Ok(_) => {
                    &&& data@.len() == old(self).table_rows
                    &&& final(self).columns@.len() == old(self).columns@.len() + 1
                    &&& final(self).partition_sizes == old(self).partition_sizes
                    &&& final(self).indexes == old(self).indexes
                    &&& final(self).table_rows == old(self).table_rows
                    &&& final(self).columns_nullable@ == old(self).columns_nullable@.push(
                        bitmap@.len() > 0,
                    )
                    &&& final(self).columnindexmap@ == old(self).columnindexmap@.push(None)
                },
                Err(_) => *final(self) == *old(self),
            },
    {
        let data_total = data.len();
        if data_total != self.table_rows {
            return Err(ErrorDesc::LengthMismatch);
        }
        let with_bitmap = bitmap.len() > 0;
        if with_bitmap && bitmap.len() != self.table_rows {
            return Err(ErrorDesc::LengthMismatch);
        }
        let np = self.partition_sizes.len();
        let mut parts: Vec<ColumnWrapper> = Vec::new();
        let mut cur: usize = 0;
        let mut p: usize = 0;
        #[verifier::loop_isolation(false)]
        while p < np
            invariant
                p <= np,
                np == self.partition_sizes@.len(),
                cur == crate::helpers::sum_prefix(self.partition_sizes@, p as int),
                crate::helpers::sum_prefix(self.partition_sizes@, np as int) == data@.len(),
                data@.len() <= usize::MAX,
                with_bitmap ==> bitmap@.len() == data@.len(),
                parts@.len() == p,
                forall|q: int|
                    0 <= q < p ==> crate::ops::wrapper_input_ok(
                        #[trigger] parts@[q],
                        ColumnDataIndex::Missing,
                    ) && crate::ops::wrapper_logical_len(parts@[q], ColumnDataIndex::Missing)
                        == self.partition_sizes@[q] && (with_bitmap <==> parts@[q].bitmap.model()
                        is Some),
            decreases np - p,
        {
            proof {
                crate::helpers::lemma_sum_prefix_monotonic(
                    self.partition_sizes@,
                    p + 1,
                    np as int,
                );
            }
            let l = self.partition_sizes[p];
            let mut chunk: Vec<Vec<u8>> = Vec::new();
            let mut k: usize = 0;
            while k < l
                invariant
                    k <= l,
                    cur + l <= data@.len(),
                    data@.len() <= usize::MAX,
                    chunk@.len() == k,
                    forall|j: int| 0 <= j < k ==> #[trigger] chunk@[j]@ == data@[cur + j]@,
                decreases l - k,
            {
                chunk.push(vstd::slice::slice_to_vec(data[cur + k].as_slice()));
                k = k + 1;
            }
            let mut c = ColumnWrapper::new_from_binary_vec(&chunk);
            if with_bitmap {
                c.bitmap_set(ColumnDataF::new_from_slice(&bitmap.as_slice()[cur..cur + l]));
            }
            proof {
                assert(c.column.len_spec() == l);
                assert(c.wf());
                assert(crate::ops::wrapper_input_ok(c, ColumnDataIndex::Missing));
                assert(crate::ops::wrapper_logical_len(c, ColumnDataIndex::Missing) == l);
            }
            parts.push(c);
            cur = cur + l;
            p = p + 1;
        }
        let ghost orig = *self;
        let ghost newcol_g = parts;
        self.columns.push(parts);
        self.columns_nullable.push(with_bitmap);
        self.columnindexmap.push(None);
        proof {
            lemma_push_col_wf(orig, *self, newcol_g, with_bitmap);
        }
        Ok(())
    }

    /// Installs a plain row index (one per partition) and points the listed
    /// columns at it. The caller supplies an index whose lengths match the
    /// partition sizes and whose positions lie inside the pointed-at columns'
    /// storage; column ids out of range are rejected.
    pub fn push_index(&mut self, index: PartitionedIndex, applies_for_columns: &[usize]) -> (r:
        Result<(), ErrorDesc>)
        requires
            old(self).wf(),
            index@.len() == old(self).partition_sizes@.len(),
            forall|q: int|
                0 <= q < index@.len() ==> (#[trigger] index@[q]).plain_model() is Some
                    && index@[q].plain_model().unwrap().len() == old(self).partition_sizes@[q],
            forall|j: int, q: int|
                #![trigger applies_for_columns@[j], index@[q]]
                0 <= j < applies_for_columns@.len() && 0 <= q < index@.len()
                    && applies_for_columns@[j] < old(self).columns@.len() ==> index@[q].in_bounds(
                    old(self).columns@[applies_for_columns@[j] as int]@[q].column.len_spec(),
                ) && !(old(self).columns@[applies_for_columns@[j] as int]@[q].column is Const)
                    && !(old(self).columns@[applies_for_columns@[j] as int]@[q].column
                is BinaryConst),
        ensures
            final(self).wf(),
            r is Err <==> exists|j: int|
                0 <= j < applies_for_columns@.len() && #[trigger] applies_for_columns@[j] >= old(
                    self,
                ).columns@.len(),
            match r {
                Ok(_) => {
                    &&& final(self).indexes@ == old(self).indexes@.push(index)
                    &&& final(self).columns == old(self).columns
                    &&& final(self).columns_nullable == old(self).columns_nullable
                    &&& final(self).partition_sizes == old(self).partition_sizes
                    &&& final(self).table_rows == old(self).table_rows
                    &&& final(self).columnindexmap@.len() == old(self).columnindexmap@.len()
                    &&& forall|c: int|
                        0 <= c < old(self).columnindexmap@.len()
                            ==> #[trigger] final(self).columnindexmap@[c] == if (exists|j: int|
                            0 <= j < applies_for_columns@.len() && applies_for_columns@[j] == c) {
                            Some(old(self).indexes@.len() as usize)
                        } else {
                            old(self).columnindexmap@[c]
                        }
                },
                Err(_) => *final(self) == *old(self),
            },
    {
        let np = self.partition_sizes.len();
        let nc = applies_for_columns.len();
        let mut k: usize = 0;
        while k < nc
            invariant
                k <= nc,
                nc == applies_for_columns@.len(),
                *self == *old(self),
                old(self).wf(),
                forall|j: int|
                    0 <= j < k ==> #[trigger] applies_for_columns@[j] < self.columns@.len(),
            decreases nc - k,
        {
            if applies_for_columns[k] >= self.columns.len() {
                return Err(ErrorDesc::Boundary);
            }
            k = k + 1;
        }
        let ghost orig = *self;
        let ghost pushed = index;
        self.indexes.push(index);
        let slot = self.indexes.len() - 1;
        let ncols = self.columnindexmap.len();
        let mut newmap: Vec<Option<usize>> = Vec::with_capacity(ncols);
        let mut c: usize = 0;
        while c < ncols
            invariant
                c <= ncols,
                ncols == self.columnindexmap@.len(),
                slot < self.indexes@.len(),
                nc == applies_for_columns@.len(),
                newmap@.len() == c,
                forall|i: int|
                    0 <= i < c ==> #[trigger] newmap@[i] == if (exists|j: int|
                        0 <= j < nc && applies_for_columns@[j] == i) {
                        Some(slot)
                    } else {
                        self.columnindexmap@[i]
                    },
            decreases ncols - c,
        {
            if list_contains(applies_for_columns, c) {
                newmap.push(Some(slot));
            } else {
                newmap.push(self.columnindexmap[c]);
            }
            c = c + 1;
        }
        let mut tmp = newmap;
        core::mem::swap(&mut self.columnindexmap, &mut tmp);
        proof {
            lemma_push_index_wf(orig, *self, slot, applies_for_columns@, np as int);
        }
        Ok(())
    }
}

/// The table stays well-formed after installing a validated index.
proof fn lemma_push_index_wf(orig: Table, now: Table, slot: usize, applies: Seq<usize>, np: int)
    requires
        orig.wf(),
        np == orig.partition_sizes@.len(),
        now.partition_sizes == orig.partition_sizes,
        now.table_rows == orig.table_rows,
        now.columns == orig.columns,
        now.columns_nullable == orig.columns_nullable,
        slot == orig.indexes@.len(),
        now.indexes@ == orig.indexes@.push(now.indexes@[slot as int]),
        now.indexes@[slot as int]@.len() == np,
        now.columnindexmap@.len() == orig.columnindexmap@.len(),
        forall|c: int|
            0 <= c < now.columnindexmap@.len() ==> #[trigger] now.columnindexmap@[c] == if (
            exists|j: int| 0 <= j < applies.len() && applies[j] == c) {
                Some(slot)
            } else {
                orig.columnindexmap@[c]
            },
        forall|j: int| 0 <= j < applies.len() ==> #[trigger] applies[j] < now.columns@.len(),
        forall|j: int, q: int|
            #![trigger applies[j], now.indexes@[slot as int]@[q]]
            0 <= j < applies.len() && 0 <= q < np ==> now.indexes@[slot as int]@[q].in_bounds(
                now.columns@[applies[j] as int]@[q].column.len_spec(),
            ) && !(now.columns@[applies[j] as int]@[q].column is Const) && !(
            now.columns@[applies[j] as int]@[q].column is BinaryConst),
        forall|q: int|
            0 <= q < np ==> (#[trigger] now.indexes@[slot as int]@[q]).plain_model() is Some
                && now.indexes@[slot as int]@[q].plain_model().unwrap().len()
                == now.partition_sizes@[q],
    ensures
        now.wf(),
{
    assert forall|c: int, p: int|
        0 <= c < now.columns@.len() && 0 <= p < np implies crate::ops::input_ok(
        InputTypes::Ref(&(#[trigger] now.columns@[c]@[p]), &now.index_of(c, p)),
    ) by {
        if exists|j: int| 0 <= j < applies.len() && applies[j] == c {
            let j = choose|j: int| 0 <= j < applies.len() && applies[j] == c;
            assert(now.index_of(c, p) == now.indexes@[slot as int]@[p]);
            assert(now.indexes@[slot as int]@[p].in_bounds(
                now.columns@[c]@[p].column.len_spec(),
            ));
            assert(crate::ops::input_ok(
                InputTypes::Ref(&orig.columns@[c]@[p], &orig.index_of(c, p)),
            ));
        } else {
            assert(crate::ops::input_ok(
                InputTypes::Ref(&orig.columns@[c]@[p], &orig.index_of(c, p)),
            ));
            assert(now.index_of(c, p) == orig.index_of(c, p));
        }
    }
    assert forall|c: int, p: int|
        0 <= c < now.columns@.len() && 0 <= p < np
            implies crate::generic_functions_3::input_logical_len(
        InputTypes::Ref(&(#[trigger] now.columns@[c]@[p]), &now.index_of(c, p)),
    ) == now.partition_sizes@[p] || now.columns@[c]@[p].column is Const
        || now.columns@[c]@[p].column is BinaryConst by {
        if exists|j: int| 0 <= j < applies.len() && applies[j] == c {
            let j = choose|j: int| 0 <= j < applies.len() && applies[j] == c;
            assert(now.index_of(c, p) == now.indexes@[slot as int]@[p]);
        } else {
            assert(now.index_of(c, p) == orig.index_of(c, p));
            assert(crate::generic_functions_3::input_logical_len(
                InputTypes::Ref(&orig.columns@[c]@[p], &orig.index_of(c, p)),
            ) == orig.partition_sizes@[p] || orig.columns@[c]@[p].column is Const
                || orig.columns@[c]@[p].column is BinaryConst);
        }
    }
}

/// Whether a list of column ids contains `v`.
fn list_contains(xs: &[usize], v: usize) -> (r: bool)
    ensures
        r == exists|j: int| 0 <= j < xs@.len() && xs@[j] == v,
{
    let mut i: usize = 0;
    while i < xs.len()
        invariant
            i <= xs@.len(),
            forall|j: int| 0 <= j < i ==> xs@[j] != v,
        decreases xs@.len() - i,
    {
        if xs[i] == v {
            return true;
        }
        i = i + 1;
    }
    false
}

/// The values of resolved rows.
pub open spec fn rows_vals<V>(s: Seq<(bool, V)>) -> Seq<V> {
    Seq::new(s.len(), |i: int| s[i].1)
}

/// The validity bits of resolved rows.
pub open spec fn rows_bits<V>(s: Seq<(bool, V)>) -> Seq<bool> {
    Seq::new(s.len(), |i: int| s[i].0)
}

/// The rows of column `c` over partitions `[0, k)`, resolved through the
/// column's index, as `(valid, value)` pairs.
pub open spec fn sized_rows_concat<T: Element>(t: &Table, c: int, k: int) -> Seq<(bool, T)>
    decreases k,
{
    if k <= 0 {
        Seq::empty()
    } else {
        sized_rows_concat::<T>(t, c, k - 1) + wrapper_rows_sized::<T>(
            t.columns@[c]@[k - 1],
            t.index_of(c, k - 1),
            t.partition_sizes@[k - 1] as nat,
        )
    }
}

/// As `sized_rows_concat`, for a binary column.
pub open spec fn binary_rows_concat(t: &Table, c: int, k: int) -> Seq<(bool, Seq<u8>)>
    decreases k,
{
    if k <= 0 {
        Seq::empty()
    } else {
        binary_rows_concat(t, c, k - 1) + wrapper_rows_binary(
            t.columns@[c]@[k - 1],
            t.index_of(c, k - 1),
            t.partition_sizes@[k - 1] as nat,
        )
    }
}

impl Table {
    /// Materializes a sized column: every logical row's value, with the
    /// bitmap when the column is nullable. Row `k` reads as
    /// `(bitmap[idx(k)], data[idx(k)])` where `idx` is the column's resolved
    /// index or the identity.
    pub fn materialize<T: Element>(&self, column_id: &usize) -> (r: Result<
        (Vec<T>, ColumnDataF<bool>),
        ErrorDesc,
    >)
        requires
            self.wf(),
        ensures
            r is Ok <==> *column_id < self.columns@.len() && (forall|p: int|
                0 <= p < self.partition_sizes@.len() ==> (#[trigger] self.columns@[*column_id as int]@[p]).column.sized_model::<T>() is Some),
            match r {
                Ok(out) => {
                    let rows = sized_rows_concat::<T>(
                        self,
                        *column_id as int,
                        self.partition_sizes@.len() as int,
                    );
                    &&& *column_id < self.columns@.len()
                    &&& out.0@ =~= rows_vals(rows)
                    &&& (self.columns_nullable@[*column_id as int] ==> out.1.model() == Some(
                        rows_bits(rows),
                    ))
                    &&& (!self.columns_nullable@[*column_id as int] ==> out.1 is Missing)
                },
                Err(_) => true,
            },
    {
        if *column_id >= self.columns.len() {
            return Err(ErrorDesc::Boundary);
        }
        let c = *column_id;
        let np = self.partition_sizes.len();
        let nullable = self.columns_nullable[c];
        let mut vals: Vec<T> = Vec::new();
        let mut bits: Vec<bool> = Vec::new();
        let mut p: usize = 0;
        #[verifier::loop_isolation(false)]
        while p < np
            invariant
                p <= np,
                vals@.len() == bits@.len(),
                vals@ =~= rows_vals(sized_rows_concat::<T>(self, c as int, p as int)),
                bits@ =~= rows_bits(sized_rows_concat::<T>(self, c as int, p as int)),
                forall|q: int|
                    0 <= q < p ==> (#[trigger] self.columns@[c as int]@[q]).column.sized_model::<
                    T>() is Some,
            decreases np - p,
        {
            let w = &self.columns[c][p];
            let ghost ixg = self.index_of(c as int, p as int);
            let target = self.partition_sizes[p];
            proof {
                if w.column.sized_of() is Some {
                    T::data_model_tag(&w.column.sized_of().unwrap());
                }
            }
            let rc: Result<ReadColumn<T>, ErrorDesc> = match &self.columnindexmap[c] {
                Some(s) => ReadColumn::from_parts(
                    &w.column,
                    &w.bitmap,
                    &self.indexes[*s][p],
                    target,
                ),
                None => ReadColumn::from_parts(
                    &w.column,
                    &w.bitmap,
                    &ColumnDataIndex::Missing,
                    target,
                ),
            };
            let src: ReadColumn<T> = match rc {
                Ok(s) => s,
                Err(e) => {
                    return Err(e);
                },
            };
            proof {
                assert(src.items() == wrapper_rows_sized::<T>(
                    self.columns@[c as int]@[p as int],
                    ixg,
                    target as nat,
                ));
            }
            let n = src.len();
            proof {
                assert(n == target);
            }
            let ghost rows = src.items();
            let mut i: usize = 0;
            while i < n
                invariant
                    i <= n,
                    src.wf(),
                    src.items() == rows,
                    rows.len() == n,
                    vals@.len() == bits@.len(),
                    vals@ =~= rows_vals(
                        sized_rows_concat::<T>(self, c as int, p as int) + rows.subrange(
                            0,
                            i as int,
                        ),
                    ),
                    bits@ =~= rows_bits(
                        sized_rows_concat::<T>(self, c as int, p as int) + rows.subrange(
                            0,
                            i as int,
                        ),
                    ),
                decreases n - i,
            {
                let (b, v) = src.index(i);
                vals.push(v);
                bits.push(b);
                i = i + 1;
            }
            proof {
                assert(rows.subrange(0, n as int) =~= rows);
            }
            p = p + 1;
        }
        let bm: ColumnDataF<bool> = if nullable {
            ColumnDataF::Owned(bits)
        } else {
            ColumnDataF::Missing
        };
        Ok((vals, bm))
    }
}

/// The display forms of resolved rows, with null rows shown as the null
/// marker.
pub open spec fn display_rows_nulled<T: Element>(rows: Seq<(bool, T)>) -> Seq<Seq<u8>> {
    Seq::new(
        rows.len(),
        |i: int|
            if rows[i].0 {
                T::display_spec(rows[i].1)
            } else {
                null_display_spec()
            },
    )
}

/// The display rows of one column partition under its index: each resolved
/// row's display form, null rows as the null marker.
pub open spec fn partition_display(w: ColumnWrapper, ix: ColumnDataIndex) -> Seq<Seq<u8>> {
    let n = crate::ops::wrapper_logical_len(w, ix);
    match w.column.type_of() {
        crate::tag::ItemTypeId::U8 => display_rows_nulled::<u8>(wrapper_rows_sized::<u8>(w, ix, n)),
        crate::tag::ItemTypeId::U16 => display_rows_nulled::<u16>(
            wrapper_rows_sized::<u16>(w, ix, n),
        ),
        crate::tag::ItemTypeId::U32 => display_rows_nulled::<u32>(
            wrapper_rows_sized::<u32>(w, ix, n),
        ),
        crate::tag::ItemTypeId::U64 => display_rows_nulled::<u64>(
            wrapper_rows_sized::<u64>(w, ix, n),
        ),
        crate::tag::ItemTypeId::USize => display_rows_nulled::<usize>(
            wrapper_rows_sized::<usize>(w, ix, n),
        ),
        crate::tag::ItemTypeId::Bool => display_rows_nulled::<bool>(
            wrapper_rows_sized::<bool>(w, ix, n),
        ),
        crate::tag::ItemTypeId::Str => {
            let rows = wrapper_rows_binary(w, ix, n);
            Seq::new(
                rows.len(),
                |i: int|
                    if rows[i].0 {
                        rows[i].1
                    } else {
                        null_display_spec()
                    },
            )
        },
    }
}

/// The display rows of column `c` over partitions `[0, k)`.
pub open spec fn display_rows_concat(t: &Table, c: int, k: int) -> Seq<Seq<u8>>
    decreases k,
{
    if k <= 0 {
        Seq::empty()
    } else {
        display_rows_concat(t, c, k - 1) + partition_display(
            t.columns@[c]@[k - 1],
            t.index_of(c, k - 1),
        )
    }
}

/// Bridges the per-row display and validity guarantees of one partition to
/// its combined nulled display rows.
proof fn lemma_partition_display(
    w: ColumnWrapper,
    ix: ColumnDataIndex,
    strings: Seq<Seq<u8>>,
    valid: Seq<bool>,
)
    requires
        crate::ops::wrapper_input_ok(w, ix),
        w.column.typed_model_ok(),
        crate::columnop::as_string_post(w, ix, crate::ops::wrapper_logical_len(w, ix), strings),
        crate::columnop::validity_post(w, ix, crate::ops::wrapper_logical_len(w, ix), valid),
    ensures
        partition_display(w, ix).len() == strings.len(),
        valid.len() == strings.len(),
        forall|i: int|
            0 <= i < strings.len() ==> #[trigger] partition_display(w, ix)[i] == if valid[i] {
                strings[i]
            } else {
                null_display_spec()
            },
{
    let n = crate::ops::wrapper_logical_len(w, ix);
    match w.column.type_of() {
        crate::tag::ItemTypeId::U8 => {
            let rows = wrapper_rows_sized::<u8>(w, ix, n);
            if w.column.sized_of() is Some {
                <u8 as Element>::data_model_tag(&w.column.sized_of().unwrap());
            }
            assert(rows.len() == n);
            assert(valid =~= Seq::new(rows.len(), |i: int| rows[i].0));
            lemma_display_nulled_pointwise::<u8>(rows, strings, valid);
        },
        crate::tag::ItemTypeId::U16 => {
            let rows = wrapper_rows_sized::<u16>(w, ix, n);
            if w.column.sized_of() is Some {
                <u16 as Element>::data_model_tag(&w.column.sized_of().unwrap());
            }
            assert(rows.len() == n);
            assert(valid =~= Seq::new(rows.len(), |i: int| rows[i].0));
            lemma_display_nulled_pointwise::<u16>(rows, strings, valid);
        },
        crate::tag::ItemTypeId::U32 => {
            let rows = wrapper_rows_sized::<u32>(w, ix, n);
            if w.column.sized_of() is Some {
                <u32 as Element>::data_model_tag(&w.column.sized_of().unwrap());
            }
            assert(rows.len() == n);
            assert(valid =~= Seq::new(rows.len(), |i: int| rows[i].0));
            lemma_display_nulled_pointwise::<u32>(rows, strings, valid);
        },
        crate::tag::ItemTypeId::U64 => {
            let rows = wrapper_rows_sized::<u64>(w, ix, n);
            if w.column.sized_of() is Some {
                <u64 as Element>::data_model_tag(&w.column.sized_of().unwrap());
            }
            assert(rows.len() == n);
            assert(valid =~= Seq::new(rows.len(), |i: int| rows[i].0));
            lemma_display_nulled_pointwise::<u64>(rows, strings, valid);
        },
        crate::tag::ItemTypeId::USize => {
            let rows = wrapper_rows_sized::<usize>(w, ix, n);
            if w.column.sized_of() is Some {
                <usize as Element>::data_model_tag(&w.column.sized_of().unwrap());
            }
            assert(rows.len() == n);
            assert(valid =~= Seq::new(rows.len(), |i: int| rows[i].0));
            lemma_display_nulled_pointwise::<usize>(rows, strings, valid);
        },
        crate::tag::ItemTypeId::Bool => {
            let rows = wrapper_rows_sized::<bool>(w, ix, n);
            if w.column.sized_of() is Some {
                <bool as Element>::data_model_tag(&w.column.sized_of().unwrap());
            }
            assert(rows.len() == n);
            assert(valid =~= Seq::new(rows.len(), |i: int| rows[i].0));
            lemma_display_nulled_pointwise::<bool>(rows, strings, valid);
        },
        crate::tag::ItemTypeId::Str => {
            let rows = wrapper_rows_binary(w, ix, n);
            assert(rows.len() == n);
            assert(strings =~= Seq::new(rows.len(), |i: int| rows[i].1));
            assert(valid =~= Seq::new(rows.len(), |i: int| rows[i].0));
            assert forall|i: int|
                0 <= i < strings.len() implies #[trigger] partition_display(w, ix)[i] == (
            if valid[i] {
                strings[i]
            } else {
                null_display_spec()
            }) by {
                assert(partition_display(w, ix)[i] == if rows[i].0 {
                    rows[i].1
                } else {
                    null_display_spec()
                });
            }
        },
    }
}

/// Pointwise bridge between separate display and validity rows and the
/// combined nulled display rows.
proof fn lemma_display_nulled_pointwise<T: Element>(
    rows: Seq<(bool, T)>,
    strings: Seq<Seq<u8>>,
    valid: Seq<bool>,
)
    requires
        strings == crate::columnop::display_rows::<T>(rows),
        valid == Seq::new(rows.len(), |i: int| rows[i].0),
    ensures
        display_rows_nulled::<T>(rows).len() == strings.len(),
        valid.len() == strings.len(),
        forall|i: int|
            0 <= i < strings.len() ==> #[trigger] display_rows_nulled::<T>(rows)[i] == if valid[i] {
                strings[i]
            } else {
                null_display_spec()
            },
{
}

impl Table {
    /// Materializes a binary column: every logical row's byte string, with
    /// the bitmap when the column is nullable.
    pub fn materialize_binary(&self, column_id: &usize) -> (r: Result<
        (Vec<Vec<u8>>, ColumnDataF<bool>),
        ErrorDesc,
    >)
        requires
            self.wf(),
        ensures
            r is Ok <==> *column_id < self.columns@.len() && (forall|p: int|
                0 <= p < self.partition_sizes@.len() ==> (#[trigger] self.columns@[*column_id as int]@[p]).column.binary_model() is Some),
            match r {
                Ok(out) => {
                    let rows = binary_rows_concat(
                        self,
                        *column_id as int,
                        self.partition_sizes@.len() as int,
                    );
                    &&& *column_id < self.columns@.len()
                    &&& out.0@.map_values(|v: Vec<u8>| v@) =~= rows_vals(rows)
                    &&& (self.columns_nullable@[*column_id as int] ==> out.1.model() == Some(
                        rows_bits(rows),
                    ))
                    &&& (!self.columns_nullable@[*column_id as int] ==> out.1 is Missing)
                },
                Err(_) => true,
            },
    {
        if *column_id >= self.columns.len() {
            return Err(ErrorDesc::Boundary);
        }
        let c = *column_id;
        let np = self.partition_sizes.len();
        let nullable = self.columns_nullable[c];
        let mut vals: Vec<Vec<u8>> = Vec::new();
        let mut bits: Vec<bool> = Vec::new();
        let mut p: usize = 0;
        #[verifier::loop_isolation(false)]
        while p < np
            invariant
                p <= np,
                vals@.len() == bits@.len(),
                vals@.map_values(|v: Vec<u8>| v@) =~= rows_vals(
                    binary_rows_concat(self, c as int, p as int),
                ),
                bits@ =~= rows_bits(binary_rows_concat(self, c as int, p as int)),
                forall|q: int|
                    0 <= q < p ==> (#[trigger] self.columns@[c as int]@[q]).column.binary_model()
                        is Some,
            decreases np - p,
        {
            let w = &self.columns[c][p];
            let ghost ixg = self.index_of(c as int, p as int);
            let target = self.partition_sizes[p];
            let rc: Result<ReadBinaryColumn, ErrorDesc> = match &self.columnindexmap[c] {
                Some(s) => ReadBinaryColumn::from_parts(
                    &w.column,
                    &w.bitmap,
                    &self.indexes[*s][p],
                    target,
                ),
                None => ReadBinaryColumn::from_parts(
                    &w.column,
                    &w.bitmap,
                    &ColumnDataIndex::Missing,
                    target,
                ),
            };
            let src: ReadBinaryColumn = match rc {
                Ok(s) => s,
                Err(e) => {
                    return Err(e);
                },
            };
            proof {
                assert(src.items() == wrapper_rows_binary(
                    self.columns@[c as int]@[p as int],
                    ixg,
                    target as nat,
                ));
            }
            let n = src.len();
            proof {
                assert(n == target);
            }
            let ghost rows = src.items();
            let mut i: usize = 0;
            while i < n
                invariant
                    i <= n,
                    src.wf(),
                    src.items() == rows,
                    rows.len() == n,
                    vals@.len() == bits@.len(),
                    vals@.map_values(|v: Vec<u8>| v@) =~= rows_vals(
                        binary_rows_concat(self, c as int, p as int) + rows.subrange(0, i as int),
                    ),
                    bits@ =~= rows_bits(
                        binary_rows_concat(self, c as int, p as int) + rows.subrange(0, i as int),
                    ),
                decreases n - i,
            {
                let (b, v) = src.index(i);
                let ghost vals_prev = vals@;
                vals.push(vstd::slice::slice_to_vec(v));
                bits.push(b);
                proof {
                    assert(vals@.map_values(|x: Vec<u8>| x@) =~= vals_prev.map_values(
                        |x: Vec<u8>| x@,
                    ).push(v@));
                }
                i = i + 1;
            }
            proof {
                assert(rows.subrange(0, n as int) =~= rows);
            }
            p = p + 1;
        }
        let bm: ColumnDataF<bool> = if nullable {
            ColumnDataF::Owned(bits)
        } else {
            ColumnDataF::Missing
        };
        Ok((vals, bm))
    }

    /// Renders a column's logical rows as display byte strings; null rows
    /// render as `(null)`.
    pub fn materialize_as_string(&self, column_id: &usize) -> (r: Result<Vec<Vec<u8>>, ErrorDesc>)
        requires
            self.wf(),
        ensures
            *column_id >= self.columns@.len() ==> r is Err,
            (*column_id < self.columns@.len() && forall|p: int|
                0 <= p < self.partition_sizes@.len() ==> (#[trigger] self.columns@[*column_id as int]@[p]).column.typed_model_ok()) ==> r is Ok,
            match r {
                Ok(out) => {
                    &&& *column_id < self.columns@.len()
                    &&& out@.map_values(|v: Vec<u8>| v@) == display_rows_concat(
                        self,
                        *column_id as int,
                        self.partition_sizes@.len() as int,
                    )
                },
                Err(_) => true,
            },
    {
        if *column_id >= self.columns.len() {
            return Err(ErrorDesc::Boundary);
        }
        let c = *column_id;
        let np = self.partition_sizes.len();
        let mut out: Vec<Vec<u8>> = Vec::new();
        let mut p: usize = 0;
        #[verifier::loop_isolation(false)]
        while p < np
            invariant
                p <= np,
                out@.map_values(|v: Vec<u8>| v@) == display_rows_concat(self, c as int, p as int),
            decreases np - p,
        {
            let w = &self.columns[c][p];
            let ghost wg = self.columns@[c as int]@[p as int];
            let ghost ixg = self.index_of(c as int, p as int);
            let strings: Vec<Vec<u8>> = {
                let rr = match &self.columnindexmap[c] {
                    Some(s) => w.as_string(&self.indexes[*s][p]),
                    None => w.as_string(&ColumnDataIndex::Missing),
                };
                match rr {
                    Ok(v) => v,
                    Err(e) => {
                        return Err(e);
                    },
                }
            };
            let valid: Vec<bool> = {
                let rr = match &self.columnindexmap[c] {
                    Some(s) => w.validity(&self.indexes[*s][p]),
                    None => w.validity(&ColumnDataIndex::Missing),
                };
                match rr {
                    Ok(v) => v,
                    Err(e) => {
                        return Err(e);
                    },
                }
            };
            proof {
                assert(crate::columnop::as_string_post(
                    wg,
                    ixg,
                    crate::ops::wrapper_logical_len(wg, ixg),
                    strings@.map_values(|v: Vec<u8>| v@),
                ));
                assert(crate::columnop::validity_post(
                    wg,
                    ixg,
                    crate::ops::wrapper_logical_len(wg, ixg),
                    valid@,
                ));
                lemma_partition_display(wg, ixg, strings@.map_values(|v: Vec<u8>| v@), valid@);
            }
            if strings.len() != valid.len() {
                return Err(ErrorDesc::LengthMismatch);
            }
            let ghost pd = partition_display(wg, ixg);
            let n = strings.len();
            let mut i: usize = 0;
            while i < n
                invariant
                    i <= n,
                    n == strings@.len(),
                    n == valid@.len(),
                    pd == partition_display(wg, ixg),
                    pd.len() == n,
                    forall|k: int|
                        0 <= k < n ==> #[trigger] pd[k] == if valid@[k] {
                            strings@[k]@
                        } else {
                            null_display_spec()
                        },
                    out@.map_values(|v: Vec<u8>| v@) =~= display_rows_concat(
                        self,
                        c as int,
                        p as int,
                    ) + pd.subrange(0, i as int),
                decreases n - i,
            {
                let ghost prev = out@;
                if valid[i] {
                    out.push(vstd::slice::slice_to_vec(strings[i].as_slice()));
                } else {
                    out.push(null_display());
                }
                proof {
                    assert(out@.map_values(|v: Vec<u8>| v@) =~= prev.map_values(
                        |v: Vec<u8>| v@,
                    ).push(pd[i as int]));
                    assert(pd.subrange(0, i + 1) =~= pd.subrange(0, i as int).push(pd[i as int]));
                }
                i = i + 1;
            }
            proof {
                assert(pd.subrange(0, n as int) =~= pd);
                assert(out@.map_values(|v: Vec<u8>| v@) =~= display_rows_concat(
                    self,
                    c as int,
                    p + 1,
                ));
            }
            p = p + 1;
        }
        Ok(out)
    }
}

/// An all-zero id vector of the given length.
pub open spec fn zeros(n: nat) -> Seq<usize> {
    Seq::new(n, |i: int| 0usize)
}

/// Every listed column is in range and, in every partition, carries the
/// payload its tag names and is not a broadcast constant.
pub open spec fn hashable_columns(t: &Table, ids: Seq<usize>) -> bool {
    &&& forall|j: int| 0 <= j < ids.len() ==> #[trigger] ids[j] < t.columns@.len()
    &&& forall|j: int, p: int|
        0 <= j < ids.len() && 0 <= p < t.partition_sizes@.len() ==> (
        #[trigger] t.columns@[ids[j] as int]@[p]).column.typed_model_ok() && !(
        t.columns@[ids[j] as int]@[p].column is Const) && !(t.columns@[ids[j] as int]@[p].column
            is BinaryConst)
}

/// Every listed column is in range and, in every partition, carries the
/// payload its tag names.
pub open spec fn groupable_columns(t: &Table, ids: Seq<usize>) -> bool {
    &&& forall|j: int| 0 <= j < ids.len() ==> #[trigger] ids[j] < t.columns@.len()
    &&& forall|j: int, p: int|
        0 <= j < ids.len() && 0 <= p < t.partition_sizes@.len() ==> (
        #[trigger] t.columns@[ids[j] as int]@[p]).column.typed_model_ok()
}

/// A hashing step's output length: the logical length on a fresh
/// destination, the old length on a chained one.
proof fn lemma_hash_post_len(
    w: ColumnWrapper,
    ix: ColumnDataIndex,
    old_dst: Seq<u64>,
    new_dst: Seq<u64>,
)
    requires
        crate::columnop::hash_in_post(w, ix, old_dst, new_dst),
        w.column.typed_model_ok(),
        w.wf(),
    ensures
        old_dst.len() == 0 ==> new_dst.len() == crate::ops::wrapper_logical_len(w, ix),
        old_dst.len() > 0 ==> new_dst.len() == old_dst.len(),
{
    w.column.lemma_typed_model();
    if w.column.sized_of() is Some {
        <u8 as Element>::data_model_tag(&w.column.sized_of().unwrap());
        <u16 as Element>::data_model_tag(&w.column.sized_of().unwrap());
        <u32 as Element>::data_model_tag(&w.column.sized_of().unwrap());
        <u64 as Element>::data_model_tag(&w.column.sized_of().unwrap());
        <usize as Element>::data_model_tag(&w.column.sized_of().unwrap());
        <bool as Element>::data_model_tag(&w.column.sized_of().unwrap());
    }
}

/// Relational chain of `hash_in` over a column list: each step hashes one
/// column's rows into the running vector.
pub open spec fn hash_chain_rel(
    t: &Table,
    ids: Seq<usize>,
    p: int,
    k: int,
    cur: Seq<u64>,
    fin: Seq<u64>,
) -> bool
    decreases ids.len() - k,
{
    if k >= ids.len() {
        fin == cur
    } else {
        exists|mid: Seq<u64>|
            #[trigger] hash_in_post(
                t.columns@[ids[k] as int]@[p],
                t.index_of(ids[k] as int, p),
                cur,
                mid,
            ) && hash_chain_rel(t, ids, p, k + 1, mid, fin)
    }
}

/// Relational chain of `group_in` over a column list: each step refines the
/// running group-id vector by one column's rows.
pub open spec fn group_chain_rel(
    t: &Table,
    ids: Seq<usize>,
    p: int,
    k: int,
    cur: Seq<usize>,
    fin: Seq<usize>,
) -> bool
    decreases ids.len() - k,
{
    if k >= ids.len() {
        fin == cur
    } else {
        exists|mid: Seq<usize>|
            #[trigger] group_in_post(
                t.columns@[ids[k] as int]@[p],
                t.index_of(ids[k] as int, p),
                cur,
                mid,
            ) && group_chain_rel(t, ids, p, k + 1, mid, fin)
    }
}

/// What `build_groups` yields for one partition: the raw first-occurrence
/// ids of a `group_in` chain over the listed columns, started all-zero,
/// renumbered densely in order of first appearance, with the group count.
/// An empty partition yields no ids and no groups.
pub open spec fn groups_post(t: &Table, ids: Seq<usize>, p: int, dense: Seq<usize>, g: usize) -> bool {
    if t.partition_sizes@[p] == 0 {
        dense.len() == 0 && g == 0
    } else {
        exists|raw: Seq<usize>|
            #[trigger] group_chain_rel(t, ids, p, 0, zeros(t.partition_sizes@[p] as nat), raw)
                && dense == Seq::new(
                raw.len(),
                |i: int| (count_firsts(raw, raw[i] as int) as usize),
            ) && g == count_firsts(raw, raw.len() as int)
    }
}

/// The number of self-pointing (first-occurrence) ids among the first `k`.
pub open spec fn count_firsts(v: Seq<usize>, k: int) -> nat
    decreases k,
{
    if k <= 0 {
        0
    } else {
        count_firsts(v, k - 1) + if v[k - 1] == k - 1 {
            1nat
        } else {
            0nat
        }
    }
}

/// Counting first occurrences grows with the prefix, by at most one per row.
pub proof fn lemma_count_firsts_mono(v: Seq<usize>, i: int, j: int)
    requires
        0 <= i <= j,
    ensures
        count_firsts(v, i) <= count_firsts(v, j),
        count_firsts(v, j) <= count_firsts(v, i) + (j - i),
    decreases j - i,
{
    if i < j {
        lemma_count_firsts_mono(v, i, j - 1);
    }
}

/// Every dense id below the group count is attained by a first occurrence.
pub proof fn lemma_count_firsts_surjective(v: Seq<usize>, n: int, d: nat)
    requires
        0 <= n <= v.len(),
        d < count_firsts(v, n),
    ensures
        exists|i: int|
            0 <= i < n && v[i] == i && #[trigger] count_firsts(v, i) == d,
    decreases n,
{
    if n > 0 {
        if v[n - 1] == n - 1 && count_firsts(v, n - 1) == d {
            assert(0 <= n - 1 < n && v[n - 1] == n - 1 && count_firsts(v, n - 1) == d);
        } else {
            lemma_count_firsts_surjective(v, n - 1, d);
        }
    }
}

/// Renumbers raw group ids (first-occurrence row positions) into a dense
/// `0..G` numbering in order of first appearance; yields `G`. `id(row)` stays
/// `id(first-row-with-same-key)`.
pub fn densify(v: &mut Vec<usize>) -> (g: usize)
    requires
        forall|i: int|
            0 <= i < old(v)@.len() ==> #[trigger] old(v)@[i] <= i && old(v)@[old(v)@[i] as int]
                == old(v)@[i],
    ensures
        final(v)@.len() == old(v)@.len(),
        forall|i: int|
            0 <= i < old(v)@.len() ==> #[trigger] final(v)@[i] == count_firsts(
                old(v)@,
                old(v)@[i] as int,
            ),
        g == count_firsts(old(v)@, old(v)@.len() as int),
        forall|i: int| 0 <= i < old(v)@.len() ==> #[trigger] final(v)@[i] < g || g == 0,
{
    let n = v.len();
    let ghost orig = v@;
    let mut out: Vec<usize> = Vec::with_capacity(n);
    let mut g: usize = 0;
    let mut i: usize = 0;
    while i < n
        invariant
            i <= n,
            n == orig.len(),
            v@ == orig,
            out@.len() == i,
            g == count_firsts(orig, i as int),
            g <= i,
            forall|k: int|
                0 <= k < i ==> #[trigger] out@[k] == count_firsts(orig, orig[k] as int),
            forall|k: int|
                0 <= k < n ==> #[trigger] orig[k] <= k && orig[orig[k] as int] == orig[k],
        decreases n - i,
    {
        if v[i] == i {
            out.push(g);
            proof {
                lemma_count_firsts_mono(orig, i as int, i + 1);
            }
            g = g + 1;
        } else {
            let fo = v[i];
            let d = out[fo];
            out.push(d);
        }
        i = i + 1;
    }
    proof {
        assert forall|k: int| 0 <= k < n implies #[trigger] out@[k] < g || g == 0 by {
            if g > 0 {
                lemma_count_firsts_mono(orig, orig[k] as int, orig[k] + 1);
                lemma_count_firsts_mono(orig, orig[k] + 1, n as int);
            }
        }
    }
    let mut tmp = out;
    core::mem::swap(v, &mut tmp);
    g
}

/// The operands a table-level operation hands the kernel in partition `p`:
/// each listed column paired with its applied index.
pub open spec fn resolved_operands(t: Table, ids: Seq<usize>, p: int) -> Seq<InputTypes<'static>> {
    Seq::new(
        ids.len(),
        |j: int|
            InputTypes::Owned(t.columns@[ids[j] as int]@[p], t.index_of(ids[j] as int, p)),
    )
}

/// What `Table::op` guarantees of the destination column in partition `p`:
/// the named kernel's dispatch guarantee, over the listed operand columns
/// resolved through their indexes, against the old destination partition.
pub open spec fn table_op_post(
    t: Table,
    name: OpName,
    c1: int,
    ids: Seq<usize>,
    p: int,
    new_dst: ColumnWrapper,
) -> bool {
    crate::dictionary::op_post(
        name,
        t.columns@[c1]@[p],
        &ColumnDataIndex::Missing,
        resolved_operands(t, ids, p),
        new_dst,
    )
}

/// The conditions under which a table-level operation succeeds: a valid
/// destination, valid distinct operand ids, and the dispatcher's own
/// success conditions over the resolved operands in every partition.
pub open spec fn table_op_ready(t: Table, name: OpName, c1: int, ids: Seq<usize>) -> bool {
    &&& 0 <= c1 < t.columns@.len()
    &&& forall|j: int|
        0 <= j < ids.len() ==> #[trigger] ids[j] < t.columns@.len() && ids[j] != c1
    &&& forall|p: int|
        0 <= p < t.partition_sizes@.len() ==> crate::dictionary::op_ready(
            name,
            t.columns@[c1]@[p],
            &ColumnDataIndex::Missing,
            resolved_operands(t, ids, p),
        )
}

impl Table {
    /// Runs the named operation per partition, with `c1` as the destination
    /// and the listed columns as operands; `c1` among the operands is
    /// rejected, as are out-of-range ids. Each partition is written by the
    /// named kernel (whose contract pins the values); other columns, indexes
    /// and layout stay unchanged.
    pub fn op(&mut self, dict: &Dictionary, name: OpName, c1: &usize, input_ids: &[usize]) -> (r:
        Result<(), ErrorDesc>)
        requires
            old(self).wf(),
        ensures
            final(self).partition_sizes == old(self).partition_sizes,
            final(self).indexes == old(self).indexes,
            final(self).columns_nullable == old(self).columns_nullable,
            final(self).columnindexmap == old(self).columnindexmap,
            final(self).columns@.len() == old(self).columns@.len(),
            forall|c: int|
                0 <= c < old(self).columns@.len() && c != *c1 ==> final(self).columns@[c]
                    == #[trigger] old(self).columns@[c],
            (*c1 >= old(self).columns@.len() || exists|j: int|
                0 <= j < input_ids@.len() && (#[trigger] input_ids@[j] >= old(
                    self,
                ).columns@.len() || input_ids@[j] == *c1)) ==> r is Err,
            table_op_ready(*old(self), name, *c1 as int, input_ids@) ==> r is Ok,
            match r {
                Ok(_) => {
                    &&& *c1 < old(self).columns@.len()
                    &&& forall|j: int|
                        0 <= j < input_ids@.len() ==> #[trigger] input_ids@[j] < old(
                            self,
                        ).columns@.len() && input_ids@[j] != *c1
                    &&& final(self).columns@[*c1 as int]@.len() == old(
                        self,
                    ).partition_sizes@.len()
                    &&& forall|p: int|
                        0 <= p < old(self).partition_sizes@.len() ==> table_op_post(
                            *old(self),
                            name,
                            *c1 as int,
                            input_ids@,
                            p,
                            #[trigger] final(self).columns@[*c1 as int]@[p],
                        )
                },
                Err(_) => true,
            },
    {
        let np = self.partition_sizes.len();
        if *c1 >= self.columns.len() {
            return Err(ErrorDesc::Boundary);
        }
        let mut k: usize = 0;
        #[verifier::loop_isolation(false)]
        while k < input_ids.len()
            invariant
                k <= input_ids@.len(),
                *self == *old(self),
                *c1 < self.columns@.len(),
                forall|j: int|
                    0 <= j < k ==> #[trigger] input_ids@[j] < self.columns@.len() && input_ids@[j]
                        != *c1,
            decreases input_ids@.len() - k,
        {
            if input_ids[k] >= self.columns.len() || input_ids[k] == *c1 {
                return Err(ErrorDesc::Boundary);
            }
            k = k + 1;
        }
        let cc = *c1;
        let ghost snap = *self;
        let mut p: usize = 0;
        #[verifier::loop_isolation(false)]
        while p < np
            invariant
                p <= np,
                cc == *c1,
                cc < self.columns@.len(),
                forall|j: int|
                    0 <= j < input_ids@.len() ==> #[trigger] input_ids@[j] < self.columns@.len()
                        && input_ids@[j] != cc,
                self.partition_sizes == snap.partition_sizes,
                self.indexes == snap.indexes,
                self.columns_nullable == snap.columns_nullable,
                self.columnindexmap == snap.columnindexmap,
                self.columns@.len() == snap.columns@.len(),
                forall|c: int|
                    0 <= c < snap.columns@.len() && c != cc ==> #[trigger] self.columns@[c]
                        == snap.columns@[c],
                forall|c: int|
                    0 <= c < self.columns@.len() ==> (#[trigger] self.columns@[c])@.len() == np,
                forall|q: int|
                    p <= q < np ==> #[trigger] self.columns@[cc as int]@[q] == snap.columns@[
                    cc as int]@[q],
                forall|q: int|
                    0 <= q < p ==> table_op_post(
                        snap,
                        name,
                        cc as int,
                        input_ids@,
                        q,
                        #[trigger] self.columns@[cc as int]@[q],
                    ),
            decreases np - p,
        {
            // Take the destination partition out, so the operand borrows into
            // the table do not alias it.
            let mut dst = crate::column_buffer::new_empty_owned(crate::tag::ItemTypeId::U8);
            let dst_slot: &mut ColumnWrapper = &mut self.columns[cc][p];
            core::mem::swap(dst_slot, &mut dst);
            let mut inputs: Vec<InputTypes> = Vec::new();
            let mut j: usize = 0;
            let missing = ColumnDataIndex::Missing;
            #[verifier::loop_isolation(false)]
            while j < input_ids.len()
                invariant
                    j <= input_ids@.len(),
                    p < np,
                    missing == ColumnDataIndex::Missing,
                    cc < self.columns@.len(),
                    self.columns@.len() == snap.columns@.len(),
                    self.columnindexmap == snap.columnindexmap,
                    self.indexes == snap.indexes,
                    forall|c: int|
                        0 <= c < snap.columns@.len() && c != cc ==> #[trigger] self.columns@[c]
                            == snap.columns@[c],
                    forall|jj: int|
                        0 <= jj < input_ids@.len() ==> #[trigger] input_ids@[jj]
                            < self.columns@.len() && input_ids@[jj] != cc,
                    forall|c: int|
                        0 <= c < self.columns@.len() ==> (#[trigger] self.columns@[c])@.len()
                            == np,
                    inputs@.len() == j,
                    forall|jj: int|
                        0 <= jj < j ==> crate::ops::input_ok(#[trigger] inputs@[jj]),
                    dst == snap.columns@[cc as int]@[p as int],
                    forall|q: int|
                        p < q < np ==> #[trigger] self.columns@[cc as int]@[q] == snap.columns@[
                        cc as int]@[q],
                    forall|q: int|
                        0 <= q < p ==> table_op_post(
                            snap,
                            name,
                            cc as int,
                            input_ids@,
                            q,
                            #[trigger] self.columns@[cc as int]@[q],
                        ),
                    forall|jj: int|
                        0 <= jj < j ==> (#[trigger] inputs@[jj]).wrapper_of() == snap.columns@[
                        input_ids@[jj] as int]@[p as int] && inputs@[jj].index_of()
                            == snap.index_of(input_ids@[jj] as int, p as int),
                decreases input_ids@.len() - j,
            {
                let id = input_ids[j];
                match self.columnindexmap[id] {
                    Some(ss) => {
                        proof {
                            assert(snap.columnindexmap@[id as int] == Some(ss));
                            assert(snap.index_of(id as int, p as int) == snap.indexes@[
                            ss as int]@[p as int]);
                            assert(crate::ops::wrapper_input_ok(
                                snap.columns@[id as int]@[p as int],
                                snap.index_of(id as int, p as int),
                            ));
                        }
                        let inp: InputTypes = InputTypes::Ref(
                            &self.columns[id][p],
                            &self.indexes[ss][p],
                        );
                        proof {
                            assert(inp.wrapper_of() == self.columns@[id as int]@[p as int]);
                            assert(inp.index_of() == self.indexes@[ss as int]@[p as int]);
                            assert(crate::ops::input_ok(inp));
                        }
                        inputs.push(inp);
                    },
                    None => {
                        proof {
                            assert(snap.index_of(id as int, p as int)
                                == ColumnDataIndex::Missing);
                            assert(crate::ops::wrapper_input_ok(
                                snap.columns@[id as int]@[p as int],
                                snap.index_of(id as int, p as int),
                            ));
                        }
                        let inp: InputTypes = InputTypes::Ref(&self.columns[id][p], &missing);
                        proof {
                            assert(inp.wrapper_of() == self.columns@[id as int]@[p as int]);
                            assert(inp.index_of() == missing);
                            assert(crate::ops::input_ok(inp));
                        }
                        inputs.push(inp);
                    },
                }
                j = j + 1;
            }
            let dst_index: &ColumnDataIndex = &missing;
            let ghost dst_before = dst;
            let rr = dst.op(dict, name, dst_index, inputs.as_slice());
            let ghost dst_after = dst;
            let ghost inputs_g = inputs@;
            // Put the (written or untouched) destination back.
            let dst_slot2: &mut ColumnWrapper = &mut self.columns[cc][p];
            core::mem::swap(dst_slot2, &mut dst);
            match rr {
                Ok(_) => {
                    proof {
                        assert(crate::dictionary::op_post(
                            name,
                            dst_before,
                            &missing,
                            inputs_g,
                            dst_after,
                        ));
                        let b = resolved_operands(snap, input_ids@, p as int);
                        assert forall|j: int|
                            #![trigger inputs_g[j], b[j]]
                            0 <= j < inputs_g.len() implies inputs_g[j].wrapper_of()
                            == b[j].wrapper_of() && inputs_g[j].index_of() == b[j].index_of() by {
                            assert(b[j] == InputTypes::Owned(
                                snap.columns@[input_ids@[j] as int]@[p as int],
                                snap.index_of(input_ids@[j] as int, p as int),
                            ));
                        }
                        crate::dictionary::lemma_op_post_congruent(
                            name,
                            dst_before,
                            &missing,
                            inputs_g,
                            b,
                            dst_after,
                        );
                        assert(table_op_post(
                            snap,
                            name,
                            cc as int,
                            input_ids@,
                            p as int,
                            self.columns@[cc as int]@[p as int],
                        ));
                    }
                },
                Err(e) => {
                    proof {
                        if table_op_ready(snap, name, cc as int, input_ids@) {
                            let b = resolved_operands(snap, input_ids@, p as int);
                            assert forall|j: int|
                                #![trigger b[j], inputs_g[j]]
                                0 <= j < b.len() implies b[j].wrapper_of()
                                == inputs_g[j].wrapper_of() && b[j].index_of()
                                == inputs_g[j].index_of() by {
                                assert(b[j] == InputTypes::Owned(
                                    snap.columns@[input_ids@[j] as int]@[p as int],
                                    snap.index_of(input_ids@[j] as int, p as int),
                                ));
                            }
                            crate::dictionary::lemma_op_ready_congruent(
                                name,
                                dst_before,
                                &missing,
                                b,
                                inputs_g,
                            );
                            assert(false);
                        }
                    }
                    return Err(e);
                },
            }
            p = p + 1;
        }
        Ok(())
    }

    /// Hashes the listed columns row by row into one vector per partition:
    /// the first column writes fresh row hashes, later ones add theirs with
    /// wrapping addition. A null row hashes to `u64::MAX`.
    pub fn build_hash(&self, input_ids: &[usize]) -> (r: Result<Vec<Vec<u64>>, ErrorDesc>)
        requires
            self.wf(),
        ensures
            (exists|j: int|
                0 <= j < input_ids@.len() && #[trigger] input_ids@[j] >= self.columns@.len())
                ==> r is Err,
            hashable_columns(self, input_ids@) ==> r is Ok,
            match r {
                Ok(out) => {
                    &&& out@.len() == self.partition_sizes@.len()
                    &&& forall|j: int|
                        0 <= j < input_ids@.len() ==> #[trigger] input_ids@[j]
                            < self.columns@.len()
                    &&& forall|p: int|
                        0 <= p < out@.len() ==> hash_chain_rel(
                            self,
                            input_ids@,
                            p,
                            0,
                            Seq::empty(),
                            (#[trigger] out@[p])@,
                        )
                },
                Err(_) => true,
            },
    {
        let np = self.partition_sizes.len();
        let mut k: usize = 0;
        while k < input_ids.len()
            invariant
                k <= input_ids@.len(),
                self.wf(),
                forall|j: int|
                    0 <= j < k ==> #[trigger] input_ids@[j] < self.columns@.len(),
            decreases input_ids@.len() - k,
        {
            if input_ids[k] >= self.columns.len() {
                return Err(ErrorDesc::Boundary);
            }
            k = k + 1;
        }
        let mut out: Vec<Vec<u64>> = Vec::new();
        let mut p: usize = 0;
        #[verifier::loop_isolation(false)]
        while p < np
            invariant
                p <= np,
                out@.len() == p,
                forall|q: int|
                    0 <= q < p ==> hash_chain_rel(
                        self,
                        input_ids@,
                        q,
                        0,
                        Seq::empty(),
                        (#[trigger] out@[q])@,
                    ),
            decreases np - p,
        {
            let mut dst: Vec<u64> = Vec::new();
            let mut j: usize = 0;
            #[verifier::loop_isolation(false)]
            while j < input_ids.len()
                invariant
                    j <= input_ids@.len(),
                    p < np,
                    hashable_columns(self, input_ids@) ==> (if j == 0 {
                        dst@.len() == 0
                    } else {
                        dst@.len() == self.partition_sizes@[p as int]
                    }),
                    forall|fin: Seq<u64>|
                        hash_chain_rel(self, input_ids@, p as int, j as int, dst@, fin)
                            ==> #[trigger] hash_chain_rel(
                            self,
                            input_ids@,
                            p as int,
                            0,
                            Seq::empty(),
                            fin,
                        ),
                decreases input_ids@.len() - j,
            {
                let id = input_ids[j];
                let ghost pre = dst@;
                let w = &self.columns[id][p];
                let rr = match &self.columnindexmap[id] {
                    Some(s) => w.hash_in(&self.indexes[*s][p], &mut dst),
                    None => w.hash_in(&ColumnDataIndex::Missing, &mut dst),
                };
                match rr {
                    Ok(_) => {},
                    Err(e) => {
                        proof {
                            if hashable_columns(self, input_ids@) {
                                assert(false);
                            }
                        }
                        return Err(e);
                    },
                }
                proof {
                    assert(hash_in_post(
                        self.columns@[id as int]@[p as int],
                        self.index_of(id as int, p as int),
                        pre,
                        dst@,
                    ));
                    if hashable_columns(self, input_ids@) {
                        lemma_hash_post_len(
                            self.columns@[id as int]@[p as int],
                            self.index_of(id as int, p as int),
                            pre,
                            dst@,
                        );
                    }
                    assert forall|fin: Seq<u64>|
                        hash_chain_rel(self, input_ids@, p as int, j + 1, dst@, fin)
                            implies #[trigger] hash_chain_rel(
                        self,
                        input_ids@,
                        p as int,
                        0,
                        Seq::empty(),
                        fin,
                    ) by {
                        assert(hash_chain_rel(self, input_ids@, p as int, j as int, pre, fin));
                    }
                }
                j = j + 1;
            }
            proof {
                assert(hash_chain_rel(
                    self,
                    input_ids@,
                    p as int,
                    input_ids@.len() as int,
                    dst@,
                    dst@,
                ));
            }
            out.push(dst);
            p = p + 1;
        }
        Ok(out)
    }

    /// Dense-groups the rows of the listed columns, per partition: group ids
    /// are first-occurrence row positions refined column by column, then
    /// renumbered densely; yields `(ids, G)` per partition.
    pub fn build_groups(&self, input_ids: &[usize]) -> (r: Result<
        Vec<(Vec<usize>, usize)>,
        ErrorDesc,
    >)
        requires
            self.wf(),
        ensures
            (exists|j: int|
                0 <= j < input_ids@.len() && #[trigger] input_ids@[j] >= self.columns@.len())
                ==> r is Err,
            groupable_columns(self, input_ids@) ==> r is Ok,
            match r {
                Ok(out) => {
                    &&& out@.len() == self.partition_sizes@.len()
                    &&& forall|j: int|
                        0 <= j < input_ids@.len() ==> #[trigger] input_ids@[j]
                            < self.columns@.len()
                    &&& forall|p: int|
                        0 <= p < out@.len() ==> ((#[trigger] out@[p]).0)@.len()
                            == self.partition_sizes@[p]
                    &&& forall|p: int|
                        0 <= p < out@.len() ==> groups_post(
                            self,
                            input_ids@,
                            p,
                            ((#[trigger] out@[p]).0)@,
                            out@[p].1,
                        )
                },
                Err(_) => true,
            },
    {
        let np = self.partition_sizes.len();
        let mut k: usize = 0;
        while k < input_ids.len()
            invariant
                k <= input_ids@.len(),
                self.wf(),
                forall|j: int|
                    0 <= j < k ==> #[trigger] input_ids@[j] < self.columns@.len(),
            decreases input_ids@.len() - k,
        {
            if input_ids[k] >= self.columns.len() {
                return Err(ErrorDesc::Boundary);
            }
            k = k + 1;
        }
        let mut out: Vec<(Vec<usize>, usize)> = Vec::new();
        let mut p: usize = 0;
        #[verifier::loop_isolation(false)]
        while p < np
            invariant
                p <= np,
                out@.len() == p,
                forall|q: int|
                    0 <= q < p ==> ((#[trigger] out@[q]).0)@.len() == self.partition_sizes@[q],
                forall|q: int|
                    0 <= q < p ==> groups_post(
                        self,
                        input_ids@,
                        q,
                        ((#[trigger] out@[q]).0)@,
                        out@[q].1,
                    ),
            decreases np - p,
        {
            let n = self.partition_sizes[p];
            let mut dst: Vec<usize> = crate::binarycolumn::vec_fill_usize(n);
            proof {
                assert(dst@ =~= zeros(n as nat));
            }
            let mut j: usize = if n == 0 {
                input_ids.len()
            } else {
                0
            };
            #[verifier::loop_isolation(false)]
            while j < input_ids.len()
                invariant
                    j <= input_ids@.len(),
                    p < np,
                    n == self.partition_sizes@[p as int],
                    n == 0 ==> j == input_ids@.len(),
                    dst@.len() == n,
                    forall|i: int|
                        0 <= i < dst@.len() ==> #[trigger] dst@[i] <= i && dst@[dst@[i] as int]
                            == dst@[i],
                    n > 0 ==> forall|fin: Seq<usize>|
                        group_chain_rel(self, input_ids@, p as int, j as int, dst@, fin)
                            ==> #[trigger] group_chain_rel(
                            self,
                            input_ids@,
                            p as int,
                            0,
                            zeros(n as nat),
                            fin,
                        ),
                decreases input_ids@.len() - j,
            {
                let id = input_ids[j];
                let ghost pre = dst@;
                let w = &self.columns[id][p];
                let rr = match &self.columnindexmap[id] {
                    Some(s) => w.group_in(&self.indexes[*s][p], &mut dst),
                    None => w.group_in(&ColumnDataIndex::Missing, &mut dst),
                };
                match rr {
                    Ok(_) => {},
                    Err(e) => {
                        proof {
                            if groupable_columns(self, input_ids@) {
                                assert(false);
                            }
                        }
                        return Err(e);
                    },
                }
                let dlen_now = dst.len();
                proof {
                    assert(dst@.len() == dlen_now);
                    assert(group_in_post(
                        self.columns@[id as int]@[p as int],
                        self.index_of(id as int, p as int),
                        pre,
                        dst@,
                    ));
                    lemma_group_post_len(
                        self.columns@[id as int]@[p as int],
                        self.index_of(id as int, p as int),
                        pre,
                        dst@,
                    );
                    lemma_group_post_keeps_shape(
                        self.columns@[id as int]@[p as int],
                        self.index_of(id as int, p as int),
                        pre,
                        dst@,
                    );
                    assert forall|fin: Seq<usize>|
                        group_chain_rel(self, input_ids@, p as int, j + 1, dst@, fin)
                            implies #[trigger] group_chain_rel(
                        self,
                        input_ids@,
                        p as int,
                        0,
                        zeros(n as nat),
                        fin,
                    ) by {
                        assert(group_chain_rel(self, input_ids@, p as int, j as int, pre, fin));
                    }
                }
                j = j + 1;
            }
            let ghost raw = dst@;
            let g = densify(&mut dst);
            proof {
                if n > 0 {
                    assert(group_chain_rel(
                        self,
                        input_ids@,
                        p as int,
                        input_ids@.len() as int,
                        raw,
                        raw,
                    ));
                    assert(group_chain_rel(self, input_ids@, p as int, 0, zeros(n as nat), raw));
                    assert(dst@ =~= Seq::new(
                        raw.len(),
                        |i: int| (count_firsts(raw, raw[i] as int) as usize),
                    ));
                    assert(groups_post(self, input_ids@, p as int, dst@, g));
                } else {
                    assert(groups_post(self, input_ids@, p as int, dst@, g));
                }
            }
            out.push((dst, g));
            p = p + 1;
        }
        Ok(out)
    }
}

/// A grouping step into a non-empty destination keeps its length and the
/// first-occurrence shape of the ids.
pub proof fn lemma_eval_group_step(
    w: ColumnWrapper,
    ix: ColumnDataIndex,
    pre: Seq<usize>,
    post: Seq<usize>,
)
    requires
        post.len() <= usize::MAX,
        crate::columnop::group_in_post(w, ix, pre, post),
        pre.len() > 0,
        forall|i: int|
            0 <= i < pre.len() ==> #[trigger] pre[i] <= i && pre[pre[i] as int] == pre[i],
    ensures
        post.len() == pre.len(),
        forall|i: int|
            0 <= i < post.len() ==> #[trigger] post[i] <= i && post[post[i] as int] == post[i],
{
    lemma_group_post_len(w, ix, pre, post);
    lemma_group_post_keeps_shape(w, ix, pre, post);
}

/// A grouping step into a non-empty destination keeps its length.
proof fn lemma_group_post_len(
    w: ColumnWrapper,
    ix: ColumnDataIndex,
    pre: Seq<usize>,
    post: Seq<usize>,
)
    requires
        crate::columnop::group_in_post(w, ix, pre, post),
        pre.len() > 0,
    ensures
        post.len() == pre.len(),
{
}

/// A grouping step keeps the first-occurrence shape of the id vector: ids
/// point at self-pointing rows no later than their own.
proof fn lemma_group_post_keeps_shape(
    w: ColumnWrapper,
    ix: ColumnDataIndex,
    pre: Seq<usize>,
    post: Seq<usize>,
)
    requires
        post.len() <= usize::MAX,
        crate::columnop::group_in_post(w, ix, pre, post),
        forall|i: int|
            0 <= i < pre.len() ==> #[trigger] pre[i] <= i && pre[pre[i] as int] == pre[i],
    ensures
        forall|i: int|
            0 <= i < post.len() ==> #[trigger] post[i] <= i && post[post[i] as int] == post[i],
{
    let n = if pre.len() == 0 {
        crate::ops::wrapper_logical_len(w, ix)
    } else {
        pre.len()
    };
    match w.column.type_of() {
        crate::tag::ItemTypeId::U8 => {
            lemma_group_shape_case::<u8>(w.column is Const, wrapper_rows_sized::<u8>(w, ix, n), pre, post)
        },
        crate::tag::ItemTypeId::U16 => {
            lemma_group_shape_case::<u16>(w.column is Const, wrapper_rows_sized::<u16>(w, ix, n), pre, post)
        },
        crate::tag::ItemTypeId::U32 => {
            lemma_group_shape_case::<u32>(w.column is Const, wrapper_rows_sized::<u32>(w, ix, n), pre, post)
        },
        crate::tag::ItemTypeId::U64 => {
            lemma_group_shape_case::<u64>(w.column is Const, wrapper_rows_sized::<u64>(w, ix, n), pre, post)
        },
        crate::tag::ItemTypeId::USize => {
            lemma_group_shape_case::<usize>(
                w.column is Const,
                wrapper_rows_sized::<usize>(w, ix, n),
                pre,
                post,
            )
        },
        crate::tag::ItemTypeId::Bool => {
            lemma_group_shape_case::<bool>(
                w.column is Const,
                wrapper_rows_sized::<bool>(w, ix, n),
                pre,
                post,
            )
        },
        crate::tag::ItemTypeId::Str => {
            lemma_group_shape_case::<Seq<u8>>(
                w.column is BinaryConst,
                wrapper_rows_binary(w, ix, n),
                pre,
                post,
            )
        },
    }
}

/// One typed case of `lemma_group_post_keeps_shape`.
proof fn lemma_group_shape_case<V>(
    is_const: bool,
    rows: Seq<(bool, V)>,
    pre: Seq<usize>,
    post: Seq<usize>,
)
    requires
        post.len() <= usize::MAX,
        crate::columnop::group_in_post_rows::<V>(is_const, rows, pre, post),
        forall|i: int|
            0 <= i < pre.len() ==> #[trigger] pre[i] <= i && pre[pre[i] as int] == pre[i],
    ensures
        forall|i: int|
            0 <= i < post.len() ==> #[trigger] post[i] <= i && post[post[i] as int] == post[i],
{
    if pre.len() == 0 {
        crate::columnop::lemma_group_ids_wf(Seq::new(rows.len(), |i: int| 0usize), rows);
    } else if is_const {
    } else {
        crate::columnop::lemma_group_ids_wf(pre, rows);
    }
}

/// The conditions under which a repartition of column `c` by the given hash
/// chunks succeeds: the column is in range, there is a hash chunk of the
/// partition's size for every partition, and every partition of the column
/// carries the payload of one shared tag.
pub open spec fn repartition_ready(t: &Table, hs: Seq<Seq<u64>>, c: int) -> bool {
    &&& 0 <= c < t.columns@.len()
    &&& t.partition_sizes@.len() > 0
    &&& hs.len() == t.partition_sizes@.len()
    &&& forall|p: int|
        0 <= p < hs.len() ==> (#[trigger] hs[p]).len() == t.partition_sizes@[p]
    &&& forall|p: int|
        0 <= p < t.partition_sizes@.len() ==> (#[trigger] t.columns@[c]@[p]).column.type_of()
            == t.columns@[c]@[0].column.type_of() && t.columns@[c]@[p].column.typed_model_ok()
}

/// The rows among the first `k` whose masked hash selects bucket `b`, in
/// order.
pub open spec fn bucket_filter<V>(rows: Seq<V>, h: Seq<u64>, mask: u64, b: u64, k: int) -> Seq<V>
    decreases k,
{
    if k <= 0 {
        Seq::empty()
    } else {
        let p = bucket_filter(rows, h, mask, b, k - 1);
        if h[k - 1] & mask == b {
            p.push(rows[k - 1])
        } else {
            p
        }
    }
}

/// The resolved rows of column `c` over partitions `[0, k)` that fall into
/// bucket `b`, in partition-then-row order.
pub open spec fn bucket_rows_sized<T: Element>(
    t: &Table,
    c: int,
    hs: Seq<Seq<u64>>,
    mask: u64,
    b: u64,
    k: int,
) -> Seq<(bool, T)>
    decreases k,
{
    if k <= 0 {
        Seq::empty()
    } else {
        bucket_rows_sized::<T>(t, c, hs, mask, b, k - 1) + bucket_filter(
            wrapper_rows_sized::<T>(
                t.columns@[c]@[k - 1],
                t.index_of(c, k - 1),
                t.partition_sizes@[k - 1] as nat,
            ),
            hs[k - 1],
            mask,
            b,
            t.partition_sizes@[k - 1] as int,
        )
    }
}

/// As `bucket_rows_sized`, for a binary column.
pub open spec fn bucket_rows_binary(
    t: &Table,
    c: int,
    hs: Seq<Seq<u64>>,
    mask: u64,
    b: u64,
    k: int,
) -> Seq<(bool, Seq<u8>)>
    decreases k,
{
    if k <= 0 {
        Seq::empty()
    } else {
        bucket_rows_binary(t, c, hs, mask, b, k - 1) + bucket_filter(
            wrapper_rows_binary(
                t.columns@[c]@[k - 1],
                t.index_of(c, k - 1),
                t.partition_sizes@[k - 1] as nat,
            ),
            hs[k - 1],
            mask,
            b,
            t.partition_sizes@[k - 1] as int,
        )
    }
}

/// What one repartitioned bucket holds of a sized column: exactly the rows
/// whose masked hash selects the bucket, in partition-then-row order, with
/// their validity bits when the column is nullable.
pub open spec fn bucket_post_sized<T: Element>(
    t: &Table,
    c: int,
    hs: Seq<Seq<u64>>,
    mask: u64,
    b: u64,
    col: ColumnWrapper,
) -> bool {
    let rows = bucket_rows_sized::<T>(t, c, hs, mask, b, t.partition_sizes@.len() as int);
    &&& col.wf()
    &&& col.column is Owned
    &&& col.column.sized_model::<T>() == Some(rows_vals(rows))
    &&& (t.columns_nullable@[c] ==> col.bitmap.model() == Some(rows_bits(rows)))
    &&& (!t.columns_nullable@[c] ==> col.bitmap is Missing)
}

/// As `bucket_post_sized`, for a binary column.
pub open spec fn bucket_post_binary(
    t: &Table,
    c: int,
    hs: Seq<Seq<u64>>,
    mask: u64,
    b: u64,
    col: ColumnWrapper,
) -> bool {
    let rows = bucket_rows_binary(t, c, hs, mask, b, t.partition_sizes@.len() as int);
    &&& col.wf()
    &&& col.column is BinaryOwned
    &&& col.column.binary_of().unwrap().packed()
    &&& col.column.binary_model() == Some(rows_vals(rows))
    &&& (t.columns_nullable@[c] ==> col.bitmap.model() == Some(rows_bits(rows)))
    &&& (!t.columns_nullable@[c] ==> col.bitmap is Missing)
}

/// What `column_repartition` guarantees of every bucket, dispatched on the
/// column's element type.
pub open spec fn bucket_post(
    t: &Table,
    c: int,
    hs: Seq<Seq<u64>>,
    mask: u64,
    b: u64,
    col: ColumnWrapper,
) -> bool {
    match t.columns@[c]@[0].column.type_of() {
        crate::tag::ItemTypeId::U8 => bucket_post_sized::<u8>(t, c, hs, mask, b, col),
        crate::tag::ItemTypeId::U16 => bucket_post_sized::<u16>(t, c, hs, mask, b, col),
        crate::tag::ItemTypeId::U32 => bucket_post_sized::<u32>(t, c, hs, mask, b, col),
        crate::tag::ItemTypeId::U64 => bucket_post_sized::<u64>(t, c, hs, mask, b, col),
        crate::tag::ItemTypeId::USize => bucket_post_sized::<usize>(t, c, hs, mask, b, col),
        crate::tag::ItemTypeId::Bool => bucket_post_sized::<bool>(t, c, hs, mask, b, col),
        crate::tag::ItemTypeId::Str => bucket_post_binary(t, c, hs, mask, b, col),
    }
}

impl Table {
    /// Splits one column into hash buckets: row `i` of partition `p` goes to
    /// bucket `hash[p][i] & (buckets - 1)`; within a bucket, rows keep their
    /// partition order. Yields one owned column per bucket, with a bitmap when
    /// the source column is nullable.
    pub fn column_repartition(
        &self,
        hash: &Vec<Vec<u64>>,
        tmap: &TableToTableMap,
        column_id: &usize,
    ) -> (r: Result<Vec<ColumnWrapper>, ErrorDesc>)
        requires
            self.wf(),
        ensures
            *column_id >= self.columns@.len() ==> r is Err,
            repartition_ready(self, hash@.map_values(|v: Vec<u64>| v@), *column_id as int)
                && tmap.number_of_buckets > 0 ==> r is Ok,
            match r {
                Ok(out) => {
                    &&& out@.len() == tmap.number_of_buckets
                    &&& *column_id < self.columns@.len()
                    &&& tmap.number_of_buckets > 0
                    &&& hash@.len() == self.partition_sizes@.len()
                    &&& forall|b: int|
                        0 <= b < out@.len() ==> bucket_post(
                            self,
                            *column_id as int,
                            hash@.map_values(|v: Vec<u64>| v@),
                            ((tmap.number_of_buckets - 1) as u64),
                            b as u64,
                            #[trigger] out@[b],
                        )
                },
                Err(_) => true,
            },
    {
        if *column_id >= self.columns.len() {
            return Err(ErrorDesc::Boundary);
        }
        if tmap.number_of_buckets == 0 {
            return Err(ErrorDesc::ShapeMismatch);
        }
        if hash.len() != self.partition_sizes.len() {
            return Err(ErrorDesc::LengthMismatch);
        }
        if self.partition_sizes.len() == 0 {
            return Err(ErrorDesc::ShapeMismatch);
        }
        let mask: u64 = (tmap.number_of_buckets - 1) as u64;
        let c = *column_id;
        proof {
            let hs = hash@.map_values(|v: Vec<u64>| v@);
            if repartition_ready(self, hs, c as int) {
                assert forall|p: int|
                    0 <= p < self.partition_sizes@.len() implies {
                    let col = (#[trigger] self.columns@[c as int]@[p]).column;
                    match self.columns@[c as int]@[0].column.type_of() {
                        crate::tag::ItemTypeId::U8 => col.sized_model::<u8>() is Some,
                        crate::tag::ItemTypeId::U16 => col.sized_model::<u16>() is Some,
                        crate::tag::ItemTypeId::U32 => col.sized_model::<u32>() is Some,
                        crate::tag::ItemTypeId::U64 => col.sized_model::<u64>() is Some,
                        crate::tag::ItemTypeId::USize => col.sized_model::<usize>() is Some,
                        crate::tag::ItemTypeId::Bool => col.sized_model::<bool>() is Some,
                        crate::tag::ItemTypeId::Str => col.binary_model() is Some,
                    }
                } by {
                    self.columns@[c as int]@[p].column.lemma_typed_model();
                }
            }
        }
        match self.columns[c][0].column.item_type_id() {
            crate::tag::ItemTypeId::U8 => self.repartition_sized::<u8>(hash, mask, tmap.number_of_buckets, c),
            crate::tag::ItemTypeId::U16 => self.repartition_sized::<u16>(hash, mask, tmap.number_of_buckets, c),
            crate::tag::ItemTypeId::U32 => self.repartition_sized::<u32>(hash, mask, tmap.number_of_buckets, c),
            crate::tag::ItemTypeId::U64 => self.repartition_sized::<u64>(hash, mask, tmap.number_of_buckets, c),
            crate::tag::ItemTypeId::USize => self.repartition_sized::<usize>(hash, mask, tmap.number_of_buckets, c),
            crate::tag::ItemTypeId::Bool => self.repartition_sized::<bool>(hash, mask, tmap.number_of_buckets, c),
            crate::tag::ItemTypeId::Str => self.repartition_binary(hash, mask, tmap.number_of_buckets, c),
        }
    }

    /// Bucket split of a sized column.
    fn repartition_sized<T: Element>(
        &self,
        hash: &Vec<Vec<u64>>,
        mask: u64,
        nb: usize,
        c: usize,
    ) -> (r: Result<Vec<ColumnWrapper>, ErrorDesc>)
        requires
            self.wf(),
            c < self.columns@.len(),
            hash@.len() == self.partition_sizes@.len(),
        ensures
            (forall|p: int|
                0 <= p < self.partition_sizes@.len() ==> (
                #[trigger] self.columns@[c as int]@[p]).column.sized_model::<T>() is Some
                    && hash@.map_values(|v: Vec<u64>| v@)[p].len() == self.partition_sizes@[p])
                ==> r is Ok,
            match r {
                Ok(out) => {
                    &&& out@.len() == nb
                    &&& forall|b: int|
                        0 <= b < nb ==> bucket_post_sized::<T>(
                            self,
                            c as int,
                            hash@.map_values(|v: Vec<u64>| v@),
                            mask,
                            b as u64,
                            #[trigger] out@[b],
                        )
                },
                Err(_) => true,
            },
    {
        let ghost hs = hash@.map_values(|v: Vec<u64>| v@);
        let np = self.partition_sizes.len();
        let nullable = self.columns_nullable[c];
        let mut out: Vec<ColumnWrapper> = Vec::new();
        let mut b: usize = 0;
        #[verifier::loop_isolation(false)]
        while b < nb
            invariant
                b <= nb,
                out@.len() == b,
                forall|bb: int|
                    0 <= bb < b ==> bucket_post_sized::<T>(
                        self,
                        c as int,
                        hs,
                        mask,
                        bb as u64,
                        #[trigger] out@[bb],
                    ),
            decreases nb - b,
        {
            let mut vals: Vec<T> = Vec::new();
            let mut bits: Vec<bool> = Vec::new();
            let mut p: usize = 0;
            #[verifier::loop_isolation(false)]
            while p < np
                invariant
                    p <= np,
                    vals@ == rows_vals(
                        bucket_rows_sized::<T>(self, c as int, hs, mask, b as u64, p as int),
                    ),
                    bits@ == rows_bits(
                        bucket_rows_sized::<T>(self, c as int, hs, mask, b as u64, p as int),
                    ),
                decreases np - p,
            {
                let w = &self.columns[c][p];
                let ghost ixg = self.index_of(c as int, p as int);
                let target = self.partition_sizes[p];
                proof {
                    if w.column.sized_of() is Some {
                        T::data_model_tag(&w.column.sized_of().unwrap());
                    }
                }
                let rc: Result<ReadColumn<T>, ErrorDesc> = match &self.columnindexmap[c] {
                    Some(s) => ReadColumn::from_parts(
                        &w.column,
                        &w.bitmap,
                        &self.indexes[*s][p],
                        target,
                    ),
                    None => ReadColumn::from_parts(
                        &w.column,
                        &w.bitmap,
                        &ColumnDataIndex::Missing,
                        target,
                    ),
                };
                let src: ReadColumn<T> = match rc {
                    Ok(s) => s,
                    Err(e) => {
                        return Err(e);
                    },
                };
                proof {
                    assert(src.items() == wrapper_rows_sized::<T>(
                        self.columns@[c as int]@[p as int],
                        ixg,
                        target as nat,
                    ));
                }
                let n = src.len();
                proof {
                    assert(n == target);
                }
                if hash[p].len() != n {
                    return Err(ErrorDesc::LengthMismatch);
                }
                let hrow = &hash[p];
                proof {
                    assert(hrow@ == hs[p as int]);
                }
                let ghost rows = src.items();
                let ghost base = bucket_rows_sized::<T>(self, c as int, hs, mask, b as u64, p as int);
                let mut i: usize = 0;
                #[verifier::loop_isolation(false)]
                while i < n
                    invariant
                        i <= n,
                        src.wf(),
                        src.items() == rows,
                        rows.len() == n,
                        n == hrow@.len(),
                        vals@ =~= rows_vals(
                            base + bucket_filter(rows, hrow@, mask, b as u64, i as int),
                        ),
                        bits@ =~= rows_bits(
                            base + bucket_filter(rows, hrow@, mask, b as u64, i as int),
                        ),
                    decreases n - i,
                {
                    let ghost fpre = bucket_filter(rows, hrow@, mask, b as u64, i as int);
                    if hrow[i] & mask == (b as u64) {
                        let (bit, v) = src.index(i);
                        vals.push(v);
                        bits.push(bit);
                        proof {
                            assert(bucket_filter(rows, hrow@, mask, b as u64, i + 1) == fpre.push(
                                rows[i as int],
                            ));
                            assert(vals@ =~= rows_vals(
                                base + bucket_filter(rows, hrow@, mask, b as u64, i + 1),
                            ));
                            assert(bits@ =~= rows_bits(
                                base + bucket_filter(rows, hrow@, mask, b as u64, i + 1),
                            ));
                        }
                    } else {
                        proof {
                            assert(bucket_filter(rows, hrow@, mask, b as u64, i + 1) == fpre);
                        }
                    }
                    i = i + 1;
                }
                proof {
                    assert(vals@ =~= rows_vals(
                        bucket_rows_sized::<T>(self, c as int, hs, mask, b as u64, p + 1),
                    ));
                    assert(bits@ =~= rows_bits(
                        bucket_rows_sized::<T>(self, c as int, hs, mask, b as u64, p + 1),
                    ));
                }
                p = p + 1;
            }
            let mut col = ColumnWrapper::new_from_vec::<T>(vals);
            if nullable {
                col.bitmap_set(ColumnDataF::Owned(bits));
            }
            proof {
                assert(bucket_post_sized::<T>(self, c as int, hs, mask, b as u64, col));
            }
            out.push(col);
            b = b + 1;
        }
        Ok(out)
    }

    /// Bucket split of a binary column. The two-pass byte layout of the
    /// borrowed original collapses here: each bucket's blob is packed directly
    /// while its byte strings are collected.
    fn repartition_binary(
        &self,
        hash: &Vec<Vec<u64>>,
        mask: u64,
        nb: usize,
        c: usize,
    ) -> (r: Result<Vec<ColumnWrapper>, ErrorDesc>)
        requires
            self.wf(),
            c < self.columns@.len(),
            hash@.len() == self.partition_sizes@.len(),
        ensures
            (forall|p: int|
                0 <= p < self.partition_sizes@.len() ==> (
                #[trigger] self.columns@[c as int]@[p]).column.binary_model() is Some
                    && hash@.map_values(|v: Vec<u64>| v@)[p].len() == self.partition_sizes@[p])
                ==> r is Ok,
            match r {
                Ok(out) => {
                    &&& out@.len() == nb
                    &&& forall|b: int|
                        0 <= b < nb ==> bucket_post_binary(
                            self,
                            c as int,
                            hash@.map_values(|v: Vec<u64>| v@),
                            mask,
                            b as u64,
                            #[trigger] out@[b],
                        )
                },
                Err(_) => true,
            },
    {
        let ghost hs = hash@.map_values(|v: Vec<u64>| v@);
        let np = self.partition_sizes.len();
        let nullable = self.columns_nullable[c];
        let mut out: Vec<ColumnWrapper> = Vec::new();
        let mut b: usize = 0;
        #[verifier::loop_isolation(false)]
        while b < nb
            invariant
                b <= nb,
                out@.len() == b,
                forall|bb: int|
                    0 <= bb < b ==> bucket_post_binary(
                        self,
                        c as int,
                        hs,
                        mask,
                        bb as u64,
                        #[trigger] out@[bb],
                    ),
            decreases nb - b,
        {
            let mut vals: Vec<Vec<u8>> = Vec::new();
            let mut bits: Vec<bool> = Vec::new();
            let mut p: usize = 0;
            #[verifier::loop_isolation(false)]
            while p < np
                invariant
                    p <= np,
                    vals@.map_values(|v: Vec<u8>| v@) == rows_vals(
                        bucket_rows_binary(self, c as int, hs, mask, b as u64, p as int),
                    ),
                    bits@ == rows_bits(
                        bucket_rows_binary(self, c as int, hs, mask, b as u64, p as int),
                    ),
                decreases np - p,
            {
                let w = &self.columns[c][p];
                let ghost ixg = self.index_of(c as int, p as int);
                let target = self.partition_sizes[p];
                let rc: Result<ReadBinaryColumn, ErrorDesc> = match &self.columnindexmap[c] {
                    Some(s) => ReadBinaryColumn::from_parts(
                        &w.column,
                        &w.bitmap,
                        &self.indexes[*s][p],
                        target,
                    ),
                    None => ReadBinaryColumn::from_parts(
                        &w.column,
                        &w.bitmap,
                        &ColumnDataIndex::Missing,
                        target,
                    ),
                };
                let src: ReadBinaryColumn = match rc {
                    Ok(s) => s,
                    Err(e) => {
                        return Err(e);
                    },
                };
                proof {
                    assert(src.items() == wrapper_rows_binary(
                        self.columns@[c as int]@[p as int],
                        ixg,
                        target as nat,
                    ));
                }
                let n = src.len();
                proof {
                    assert(n == target);
                }
                if hash[p].len() != n {
                    return Err(ErrorDesc::LengthMismatch);
                }
                let hrow = &hash[p];
                proof {
                    assert(hrow@ == hs[p as int]);
                }
                let ghost rows = src.items();
                let ghost base = bucket_rows_binary(self, c as int, hs, mask, b as u64, p as int);
                let mut i: usize = 0;
                #[verifier::loop_isolation(false)]
                while i < n
                    invariant
                        i <= n,
                        src.wf(),
                        src.items() == rows,
                        rows.len() == n,
                        n == hrow@.len(),
                        vals@.map_values(|v: Vec<u8>| v@) =~= rows_vals(
                            base + bucket_filter(rows, hrow@, mask, b as u64, i as int),
                        ),
                        bits@ =~= rows_bits(
                            base + bucket_filter(rows, hrow@, mask, b as u64, i as int),
                        ),
                    decreases n - i,
                {
                    let ghost fpre = bucket_filter(rows, hrow@, mask, b as u64, i as int);
                    if hrow[i] & mask == (b as u64) {
                        let (bit, v) = src.index(i);
                        let ghost vals_prev = vals@;
                        vals.push(vstd::slice::slice_to_vec(v));
                        bits.push(bit);
                        proof {
                            assert(vals@.map_values(|x: Vec<u8>| x@) =~= vals_prev.map_values(
                                |x: Vec<u8>| x@,
                            ).push(v@));
                            assert(bucket_filter(rows, hrow@, mask, b as u64, i + 1) == fpre.push(
                                rows[i as int],
                            ));
                            assert(vals@.map_values(|x: Vec<u8>| x@) =~= rows_vals(
                                base + bucket_filter(rows, hrow@, mask, b as u64, i + 1),
                            ));
                            assert(bits@ =~= rows_bits(
                                base + bucket_filter(rows, hrow@, mask, b as u64, i + 1),
                            ));
                        }
                    } else {
                        proof {
                            assert(bucket_filter(rows, hrow@, mask, b as u64, i + 1) == fpre);
                        }
                    }
                    i = i + 1;
                }
                proof {
                    assert(vals@.map_values(|v: Vec<u8>| v@) =~= rows_vals(
                        bucket_rows_binary(self, c as int, hs, mask, b as u64, p + 1),
                    ));
                    assert(bits@ =~= rows_bits(
                        bucket_rows_binary(self, c as int, hs, mask, b as u64, p + 1),
                    ));
                }
                p = p + 1;
            }
            let mut col = ColumnWrapper::new_from_binary_vec(&vals);
            if nullable {
                col.bitmap_set(ColumnDataF::Owned(bits));
            }
            proof {
                assert(bucket_post_binary(self, c as int, hs, mask, b as u64, col));
            }
            out.push(col);
            b = b + 1;
        }
        Ok(out)
    }
}

/// The display form of a null row.
pub open spec fn null_display_spec() -> Seq<u8> {
    seq![40u8, 110u8, 117u8, 108u8, 108u8, 41u8]
}

/// The display form of a null row: the bytes of `(null)`.
pub fn null_display() -> (r: Vec<u8>)
    ensures
        r@ == null_display_spec(),
{
    let mut v: Vec<u8> = Vec::new();
    v.push(40);
    v.push(110);
    v.push(117);
    v.push(108);
    v.push(108);
    v.push(41);
    proof {
        assert(v@ =~= null_display_spec());
    }
    v
}

/// Whether every position the index selects lies below `bound`.
pub fn index_in_bounds_exec(ix: &ColumnDataIndex, bound: usize) -> (r: bool)
    ensures
        r == ix.in_bounds(bound as nat),
{
    match ix {
        ColumnDataIndex::Missing => true,
        ColumnDataIndex::Owned(v) => positions_below(v.as_slice(), bound),
        ColumnDataIndex::Slice(v) => positions_below(v.as_slice(), bound),
        ColumnDataIndex::SliceMut(v) => positions_below(v.as_slice(), bound),
        ColumnDataIndex::OwnedOption(v) => option_positions_below(v.as_slice(), bound),
        ColumnDataIndex::SliceOption(v) => option_positions_below(v.as_slice(), bound),
    }
}

/// Whether every position lies below `bound`.
fn positions_below(v: &[usize], bound: usize) -> (r: bool)
    ensures
        r == forall|i: int| 0 <= i < v@.len() ==> #[trigger] v@[i] < bound,
{
    let mut i: usize = 0;
    while i < v.len()
        invariant
            i <= v@.len(),
            forall|j: int| 0 <= j < i ==> #[trigger] v@[j] < bound,
        decreases v@.len() - i,
    {
        if v[i] >= bound {
            return false;
        }
        i = i + 1;
    }
    true
}

/// Whether every present position lies below `bound`.
fn option_positions_below(v: &[Option<usize>], bound: usize) -> (r: bool)
    ensures
        r == forall|i: int|
            0 <= i < v@.len() ==> ((#[trigger] v@[i]) matches Some(p) ==> p < bound),
{
    let mut i: usize = 0;
    while i < v.len()
        invariant
            i <= v@.len(),
            forall|j: int| 0 <= j < i ==> ((#[trigger] v@[j]) matches Some(p) ==> p < bound),
        decreases v@.len() - i,
    {
        match v[i] {
            Some(p) => {
                if p >= bound {
                    return false;
                }
            },
            None => {},
        }
        i = i + 1;
    }
    true
}

} // verus!
