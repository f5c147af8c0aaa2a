//! Per-type internal services on columns: construction, length, truncation,
//! copying, display, hashing and grouping, dispatched on the runtime tag.

use vstd::prelude::*;

use crate::column::ColumnWrapper;
use crate::columndata::{ColumnData, ColumnDataF};
use crate::errors::ErrorDesc;
use crate::ftype::AssignOp2;
use crate::generic_functions_2::{assign_2_sized_sized_unroll, assigned_dest, map_assign2};
use crate::hashing::{
    ahash_bytes, ahash_of_bytes, HASH_SEED_0, HASH_SEED_1, HASH_SEED_2, HASH_SEED_3,
};
use crate::index::ColumnDataIndex;
use crate::indexedreadbinarycolumn::ReadBinaryColumn;
use crate::indexedreadcolumn::ReadColumn;
use crate::binarycolumn::OnwedBinaryColumn;
use crate::ops::{sized_input_rows, InputTypes};
use crate::owned::{OwnedColumn, SliceRef, SliceRefMut};
use crate::sized_data::Element;
use crate::tag::ItemTypeId;

verus! {

/// The identity kernel: copies a row through unchanged.
pub struct CopyOp;

impl<T: Element> AssignOp2<T, T> for CopyOp {
    open spec fn apply_spec(v: T, b: bool) -> (bool, T) {
        (b, v)
    }

    fn apply(&self, v: T, b: bool) -> (bool, T) {
        (b, v)
    }
}

/// The hash a row contributes: its value's hash when valid, `u64::MAX` when
/// null.
pub open spec fn row_hash<T: Element>(row: (bool, T)) -> u64 {
    if row.0 {
        T::hash_spec(row.1)
    } else {
        u64::MAX
    }
}

/// As `row_hash`, for a binary row.
pub open spec fn bytes_row_hash(row: (bool, Seq<u8>)) -> u64 {
    if row.0 {
        ahash_of_bytes(HASH_SEED_0, HASH_SEED_1, HASH_SEED_2, HASH_SEED_3, row.1)
    } else {
        u64::MAX
    }
}

impl ColumnWrapper {
    /// Wraps an owned vector as an owned column without a bitmap.
    pub fn new_from_vec<T: Element>(data: Vec<T>) -> (r: Self)
        ensures
            r.column is Owned,
            r.column.sized_model::<T>() == Some(data@),
            r.column.type_of() == T::tag_spec(),
            r.column.len_spec() == data@.len(),
            r.bitmap is Missing,
            r.wf(),
    {
        let c = ColumnWrapper::new_from_columndata(ColumnData::Owned(OwnedColumn::new::<T>(data)));
        proof {
            T::data_model_tag(&c.column.sized_of().unwrap());
        }
        c
    }

    /// Captures a borrowed slice as a read-only column without a bitmap.
    pub fn new_from_slice<T: Element>(data: &[T]) -> (r: Self)
        ensures
            r.column is Slice,
            r.column.sized_model::<T>() == Some(data@),
            r.column.type_of() == T::tag_spec(),
            r.column.len_spec() == data@.len(),
            r.bitmap is Missing,
            r.wf(),
    {
        let c = ColumnWrapper::new_from_columndata(ColumnData::Slice(SliceRef::new::<T>(data)));
        proof {
            T::data_model_tag(&c.column.sized_of().unwrap());
        }
        c
    }

    /// Captures a mutable borrowed slice as a writable column.
    pub fn new_from_slice_mut<T: Element>(data: &mut [T]) -> (r: Self)
        ensures
            r.column is SliceMut,
            r.column.sized_model::<T>() == Some(old(data)@),
            r.column.type_of() == T::tag_spec(),
            r.column.len_spec() == old(data)@.len(),
            final(data)@ == old(data)@,
            r.bitmap is Missing,
            r.wf(),
    {
        let c = ColumnWrapper::new_from_columndata(
            ColumnData::SliceMut(SliceRefMut::new::<T>(data)),
        );
        proof {
            T::data_model_tag(&c.column.sized_of().unwrap());
        }
        c
    }

    /// A single-value constant column, broadcast to any requested length.
    pub fn new_const<T: Element>(data: T) -> (r: Self)
        ensures
            r.column is Const,
            r.column.sized_model::<T>() == Some(seq![data]),
            r.column.type_of() == T::tag_spec(),
            r.column.len_spec() == 1,
            r.bitmap is Missing,
            r.wf(),
    {
        let mut v: Vec<T> = Vec::new();
        v.push(data);
        let c = ColumnWrapper::new_from_columndata(ColumnData::Const(OwnedColumn::new::<T>(v)));
        proof {
            T::data_model_tag(&c.column.sized_of().unwrap());
            assert(c.column.sized_model::<T>().unwrap() =~= seq![data]);
        }
        c
    }

    /// Wraps owned byte strings as an owned binary column without a bitmap.
    pub fn new_from_binary_vec(data: &Vec<Vec<u8>>) -> (r: Self)
        ensures
            r.column is BinaryOwned,
            r.column.binary_model() == Some(data@.map_values(|v: Vec<u8>| v@)),
            r.column.type_of() == ItemTypeId::Str,
            r.column.len_spec() == data@.len(),
            r.bitmap is Missing,
            r.wf(),
            r.column.binary_of().unwrap().packed(),
    {
        let b = OnwedBinaryColumn::new(data);
        proof {
            b.lemma_packed_wf();
            assert(b.elems().len() == data@.map_values(|v: Vec<u8>| v@).len());
        }
        ColumnWrapper::new_from_columndata(ColumnData::BinaryOwned(b))
    }

    /// A single-byte-string constant column.
    pub fn new_const_binary(data: Vec<u8>) -> (r: Self)
        ensures
            r.column is BinaryConst,
            r.column.binary_model() == Some(seq![data@]),
            r.column.type_of() == ItemTypeId::Str,
            r.column.len_spec() == 1,
            r.bitmap is Missing,
            r.wf(),
    {
        let mut v: Vec<Vec<u8>> = Vec::new();
        let ghost inner = data@;
        v.push(data);
        let b = OnwedBinaryColumn::new(&v);
        proof {
            b.lemma_packed_wf();
            assert(b.elems() =~= seq![inner]);
        }
        ColumnWrapper::new_from_columndata(ColumnData::BinaryConst(b))
    }

    /// The logical number of rows, whatever the element type.
    pub fn len(&self) -> (r: usize)
        ensures
            r == self.column.len_spec(),
    {
        match &self.column {
            ColumnData::Owned(c) => c.len(),
            ColumnData::Slice(c) => c.data.len(),
            ColumnData::SliceMut(c) => c.data.len(),
            ColumnData::Const(c) => c.len(),
            ColumnData::BinaryOwned(c) => c.len(),
            ColumnData::BinarySlice(c) => c.inner.len(),
            ColumnData::BinarySliceMut(c) => c.inner.len(),
            ColumnData::BinaryConst(c) => c.len(),
        }
    }

    /// Drops all rows of an owned column, keeping its element type; the
    /// bitmap is dropped or emptied alongside.
    pub fn truncate(&mut self) -> (r: Result<(), ErrorDesc>)
        ensures
            match r {
                Ok(_) => {
                    &&& (old(self).column is Owned || old(self).column is BinaryOwned)
                    &&& final(self).column.len_spec() == 0
                    &&& final(self).column.type_of() == old(self).column.type_of()
                    &&& (final(self).column is Owned <==> old(self).column is Owned)
                    &&& (final(self).column is BinaryOwned <==> old(self).column is BinaryOwned)
                    &&& (final(self).bitmap.model() matches Some(b) ==> b.len() == 0)
                    &&& (old(self).bitmap is Owned ==> final(self).bitmap is Owned)
                    &&& final(self).wf()
                },
                Err(e) => *final(self) == *old(self) && e == ErrorDesc::Policy && !(old(
                    self,
                ).column is Owned || old(self).column is BinaryOwned),
            },
    {
        match &mut self.column {
            ColumnData::Owned(c) => {
                c.truncate();
            },
            ColumnData::BinaryOwned(c) => {
                c.truncate();
            },
            _ => {
                return Err(ErrorDesc::Policy);
            },
        }
        match self.bitmap.downcast_vec() {
            Ok(b) => {
                b.truncate(0);
            },
            Err(_) => {
                self.bitmap = ColumnDataF::Missing;
            },
        }
        Ok(())
    }

    /// Reads the single value of a sized constant column.
    pub fn to_const<T: Element>(&self) -> (r: Result<T, ErrorDesc>)
        ensures
            match r {
                Ok(v) => self.column is Const && self.column.sized_model::<T>() is Some
                    && self.column.len_spec() > 0 && v == self.column.sized_model::<
                    T,
                >().unwrap()[0],
                Err(_) => !(self.column is Const && self.column.sized_model::<T>() is Some
                    && self.column.len_spec() > 0),
            },
    {
        if !self.column.is_const() || !self.column.is_sized() {
            return Err(ErrorDesc::Policy);
        }
        proof {
            if self.column.sized_of() is Some {
                T::data_model_tag(&self.column.sized_of().unwrap());
            }
        }
        let v: &Vec<T> = match self.column.downcast_ref::<T>() {
            Ok(v) => v,
            Err(e) => {
                return Err(e);
            },
        };
        if v.len() == 0 {
            return Err(ErrorDesc::Boundary);
        }
        Ok(v[0])
    }

    /// Copies this column's rows into `dst` elementwise through `src_index`
    /// (the sized identity kernel).
    pub fn copy_to<T: Element>(
        &self,
        dst: &mut ColumnWrapper,
        src_index: &ColumnDataIndex,
    ) -> (r: Result<(), ErrorDesc>)
        requires
            crate::ops::wrapper_input_ok(*self, *src_index),
        ensures
            match r {
                Ok(_) => {
                    let src = wrapper_rows_sized::<T>(
                        *self,
                        *src_index,
                        old(dst).column.len_spec(),
                    );
                    let out = map_assign2::<T, T, CopyOp>(src);
                    &&& src.len() == old(dst).column.len_spec()
                    &&& assigned_dest::<T>(*old(dst), *final(dst), out)
                },
                Err(_) => *final(dst) == *old(dst),
            },
            (old(dst).column.sized_model::<T>() is Some && (old(dst).column is Owned || old(
                dst,
            ).column is SliceMut) && self.column.sized_model::<T>() is Some && (self.column
                is Const || crate::ops::wrapper_logical_len(*self, *src_index) == old(
                dst,
            ).column.len_spec()) && !(old(dst).bitmap is Slice) && (old(
                dst,
            ).bitmap.model() matches Some(b) ==> b.len() == old(dst).column.len_spec()))
                ==> r is Ok,
    {
        proof {
            if self.column.sized_of() is Some {
                T::data_model_tag(&self.column.sized_of().unwrap());
            }
        }
        let mut input: Vec<InputTypes> = Vec::new();
        input.push(InputTypes::Ref(self, src_index));
        proof {
            assert(input@[0].wrapper_of() == *self);
            assert(input@[0].index_of() == *src_index);
        }
        assign_2_sized_sized_unroll::<T, T, CopyOp>(dst, input.as_slice(), &CopyOp)
    }
}

/// The resolved rows of a column under an index, for a sized element type.
pub open spec fn wrapper_rows_sized<T: Element>(
    w: ColumnWrapper,
    ix: ColumnDataIndex,
    target: nat,
) -> Seq<(bool, T)> {
    crate::indexedreadcolumn::resolved(
        w.column.sized_model::<T>().unwrap(),
        w.bitmap.model(),
        &ix,
        w.column is Const,
        target,
    )
}

/// The resolved rows of a binary column under an index.
pub open spec fn wrapper_rows_binary(w: ColumnWrapper, ix: ColumnDataIndex, target: nat) -> Seq<
    (bool, Seq<u8>),
> {
    crate::indexedreadcolumn::resolved(
        w.column.binary_model().unwrap(),
        w.bitmap.model(),
        &ix,
        w.column is BinaryConst,
        target,
    )
}

/// The display forms of resolved sized rows.
pub open spec fn display_rows<T: Element>(rows: Seq<(bool, T)>) -> Seq<Seq<u8>> {
    Seq::new(rows.len(), |i: int| T::display_spec(rows[i].1))
}

/// What `as_string` yields, by element type: the display form of every row's
/// value (validity is reported separately, through the bitmap).
pub open spec fn as_string_post(
    w: ColumnWrapper,
    ix: ColumnDataIndex,
    n: nat,
    out: Seq<Seq<u8>>,
) -> bool {
    match w.column.type_of() {
        ItemTypeId::U8 => out == display_rows::<u8>(wrapper_rows_sized::<u8>(w, ix, n)),
        ItemTypeId::U16 => out == display_rows::<u16>(wrapper_rows_sized::<u16>(w, ix, n)),
        ItemTypeId::U32 => out == display_rows::<u32>(wrapper_rows_sized::<u32>(w, ix, n)),
        ItemTypeId::U64 => out == display_rows::<u64>(wrapper_rows_sized::<u64>(w, ix, n)),
        ItemTypeId::USize => out == display_rows::<usize>(wrapper_rows_sized::<usize>(w, ix, n)),
        ItemTypeId::Bool => out == display_rows::<bool>(wrapper_rows_sized::<bool>(w, ix, n)),
        ItemTypeId::Str => out == Seq::new(
            wrapper_rows_binary(w, ix, n).len(),
            |i: int| wrapper_rows_binary(w, ix, n)[i].1,
        ),
    }
}

/// What `hash_in` yields for a sized element type: fresh row hashes when the
/// destination was empty, wrapping addition into it otherwise.
pub open spec fn hash_in_post_sized<T: Element>(
    w: ColumnWrapper,
    ix: ColumnDataIndex,
    old_dst: Seq<u64>,
    new_dst: Seq<u64>,
) -> bool {
    if old_dst.len() == 0 {
        let rows = wrapper_rows_sized::<T>(w, ix, crate::ops::wrapper_logical_len(w, ix));
        new_dst == Seq::new(rows.len(), |i: int| row_hash::<T>(rows[i]))
    } else {
        let rows = wrapper_rows_sized::<T>(w, ix, old_dst.len());
        rows.len() == old_dst.len() && new_dst == Seq::new(
            old_dst.len(),
            |i: int| vstd::wrapping::u64_specs::wrapping_add(old_dst[i], row_hash::<T>(rows[i])),
        )
    }
}

/// As `hash_in_post_sized`, for a binary column.
pub open spec fn hash_in_post_binary(
    w: ColumnWrapper,
    ix: ColumnDataIndex,
    old_dst: Seq<u64>,
    new_dst: Seq<u64>,
) -> bool {
    if old_dst.len() == 0 {
        let rows = wrapper_rows_binary(w, ix, crate::ops::wrapper_logical_len(w, ix));
        new_dst == Seq::new(rows.len(), |i: int| bytes_row_hash(rows[i]))
    } else {
        let rows = wrapper_rows_binary(w, ix, old_dst.len());
        rows.len() == old_dst.len() && new_dst == Seq::new(
            old_dst.len(),
            |i: int| vstd::wrapping::u64_specs::wrapping_add(old_dst[i], bytes_row_hash(rows[i])),
        )
    }
}

/// What `hash_in` yields, by element type.
pub open spec fn hash_in_post(
    w: ColumnWrapper,
    ix: ColumnDataIndex,
    old_dst: Seq<u64>,
    new_dst: Seq<u64>,
) -> bool {
    match w.column.type_of() {
        ItemTypeId::U8 => hash_in_post_sized::<u8>(w, ix, old_dst, new_dst),
        ItemTypeId::U16 => hash_in_post_sized::<u16>(w, ix, old_dst, new_dst),
        ItemTypeId::U32 => hash_in_post_sized::<u32>(w, ix, old_dst, new_dst),
        ItemTypeId::U64 => hash_in_post_sized::<u64>(w, ix, old_dst, new_dst),
        ItemTypeId::USize => hash_in_post_sized::<usize>(w, ix, old_dst, new_dst),
        ItemTypeId::Bool => hash_in_post_sized::<bool>(w, ix, old_dst, new_dst),
        ItemTypeId::Str => hash_in_post_binary(w, ix, old_dst, new_dst),
    }
}

/// Chains a sized column's row hashes into `dst`.
fn hash_in_sized<T: Element>(w: &ColumnWrapper, src_index: &ColumnDataIndex, dst: &mut Vec<u64>)
    -> (r: Result<(), ErrorDesc>)
    requires
        crate::ops::wrapper_input_ok(*w, *src_index),
    ensures
        match r {
            Ok(_) => w.column.sized_model::<T>() is Some && hash_in_post_sized::<T>(
                *w,
                *src_index,
                old(dst)@,
                final(dst)@,
            ),
            Err(_) => final(dst)@ == old(dst)@,
        },
        w.column.sized_model::<T>() is Some && (old(dst)@.len() == 0 || old(dst)@.len()
            == crate::ops::wrapper_logical_len(*w, *src_index) || w.column is Const) ==> r is Ok,
{
    proof {
        if w.column.sized_of() is Some {
            T::data_model_tag(&w.column.sized_of().unwrap());
        }
    }
    let insert_required = dst.len() == 0;
    let target: usize = if insert_required {
        match w.logical_len(src_index) {
            Ok(n) => n,
            Err(e) => {
                return Err(e);
            },
        }
    } else {
        dst.len()
    };
    let src: ReadColumn<T> = match ReadColumn::from_parts(&w.column, &w.bitmap, src_index, target) {
        Ok(s) => s,
        Err(e) => {
            return Err(e);
        },
    };
    let n = src.len();
    let ghost rows = src.items();
    if insert_required {
        let mut i: usize = 0;
        while i < n
            invariant
                i <= n,
                src.wf(),
                src.items() == rows,
                rows.len() == n,
                dst@.len() == i,
                forall|k: int| 0 <= k < i ==> #[trigger] dst@[k] == row_hash::<T>(rows[k]),
            decreases n - i,
        {
            let (b, v) = src.index(i);
            let h = if b {
                T::hash_elem(&v)
            } else {
                u64::MAX
            };
            dst.push(h);
            i = i + 1;
        }
        proof {
            assert(dst@ =~= Seq::new(rows.len(), |i: int| row_hash::<T>(rows[i])));
        }
        Ok(())
    } else {
        if n != dst.len() {
            return Err(ErrorDesc::LengthMismatch);
        }
        let ghost dst0 = dst@;
        let mut i: usize = 0;
        while i < n
            invariant
                i <= n,
                src.wf(),
                src.items() == rows,
                rows.len() == n,
                dst@.len() == n,
                dst0.len() == n,
                forall|k: int|
                    0 <= k < i ==> #[trigger] dst@[k] == vstd::wrapping::u64_specs::wrapping_add(
                        dst0[k],
                        row_hash::<T>(rows[k]),
                    ),
                forall|k: int| i <= k < n ==> #[trigger] dst@[k] == dst0[k],
            decreases n - i,
        {
            let (b, v) = src.index(i);
            let h = if b {
                T::hash_elem(&v)
            } else {
                u64::MAX
            };
            let cur = dst[i];
            dst[i] = cur.wrapping_add(h);
            i = i + 1;
        }
        proof {
            assert(dst@ =~= Seq::new(
                dst0.len(),
                |i: int| vstd::wrapping::u64_specs::wrapping_add(dst0[i], row_hash::<T>(rows[i])),
            ));
        }
        Ok(())
    }
}

/// Chains a binary column's row hashes into `dst`.
fn hash_in_binary(w: &ColumnWrapper, src_index: &ColumnDataIndex, dst: &mut Vec<u64>) -> (r: Result<
    (),
    ErrorDesc,
>)
    requires
        crate::ops::wrapper_input_ok(*w, *src_index),
    ensures
        match r {
            Ok(_) => w.column.binary_model() is Some && hash_in_post_binary(
                *w,
                *src_index,
                old(dst)@,
                final(dst)@,
            ),
            Err(_) => final(dst)@ == old(dst)@,
        },
        w.column.binary_model() is Some && (old(dst)@.len() == 0 || old(dst)@.len()
            == crate::ops::wrapper_logical_len(*w, *src_index) || w.column is BinaryConst)
            ==> r is Ok,
{
    proof {
        assert(crate::ops::wrapper_input_ok(*w, *src_index));
    }
    let insert_required = dst.len() == 0;
    let target: usize = if insert_required {
        match w.logical_len(src_index) {
            Ok(n) => n,
            Err(e) => {
                return Err(e);
            },
        }
    } else {
        dst.len()
    };
    let src: ReadBinaryColumn = match ReadBinaryColumn::from_parts(
        &w.column,
        &w.bitmap,
        src_index,
        target,
    ) {
        Ok(s) => s,
        Err(e) => {
            return Err(e);
        },
    };
    let n = src.len();
    let ghost rows = src.items();
    if insert_required {
        let mut i: usize = 0;
        while i < n
            invariant
                i <= n,
                src.wf(),
                src.items() == rows,
                rows.len() == n,
                dst@.len() == i,
                forall|k: int| 0 <= k < i ==> #[trigger] dst@[k] == bytes_row_hash(rows[k]),
            decreases n - i,
        {
            let (b, v) = src.index(i);
            let h = if b {
                ahash_bytes(HASH_SEED_0, HASH_SEED_1, HASH_SEED_2, HASH_SEED_3, v)
            } else {
                u64::MAX
            };
            dst.push(h);
            i = i + 1;
        }
        proof {
            assert(dst@ =~= Seq::new(rows.len(), |i: int| bytes_row_hash(rows[i])));
        }
        Ok(())
    } else {
        if n != dst.len() {
            return Err(ErrorDesc::LengthMismatch);
        }
        let ghost dst0 = dst@;
        let mut i: usize = 0;
        while i < n
            invariant
                i <= n,
                src.wf(),
                src.items() == rows,
                rows.len() == n,
                dst@.len() == n,
                dst0.len() == n,
                forall|k: int|
                    0 <= k < i ==> #[trigger] dst@[k] == vstd::wrapping::u64_specs::wrapping_add(
                        dst0[k],
                        bytes_row_hash(rows[k]),
                    ),
                forall|k: int| i <= k < n ==> #[trigger] dst@[k] == dst0[k],
            decreases n - i,
        {
            let (b, v) = src.index(i);
            let h = if b {
                ahash_bytes(HASH_SEED_0, HASH_SEED_1, HASH_SEED_2, HASH_SEED_3, v)
            } else {
                u64::MAX
            };
            let cur = dst[i];
            dst[i] = cur.wrapping_add(h);
            i = i + 1;
        }
        proof {
            assert(dst@ =~= Seq::new(
                dst0.len(),
                |i: int| vstd::wrapping::u64_specs::wrapping_add(dst0[i], bytes_row_hash(rows[i])),
            ));
        }
        Ok(())
    }
}

/// Grouping-key equality of two rows: both null, or both valid with equal
/// values.
pub open spec fn rows_key_eq<V>(a: (bool, V), b: (bool, V)) -> bool {
    (!a.0 && !b.0) || (a.0 && b.0 && a.1 == b.1)
}

/// The first position `p` in `[j, i]` whose `(current id, key)` pair equals
/// row `i`'s; `i` itself always matches.
pub open spec fn first_match<V>(prev: Seq<usize>, rows: Seq<(bool, V)>, i: int, j: int) -> int
    decreases i - j,
{
    if j >= i {
        i
    } else if prev[j] == prev[i] && rows_key_eq(rows[j], rows[i]) {
        j
    } else {
        first_match(prev, rows, i, j + 1)
    }
}

/// The dense-grouping ids of resolved rows under current ids `prev`: each row
/// gets the position of the first row with the same `(current id, key)` pair.
pub open spec fn group_ids<V>(prev: Seq<usize>, rows: Seq<(bool, V)>) -> Seq<usize> {
    Seq::new(rows.len(), |i: int| first_match(prev, rows, i, 0) as usize)
}

/// Scanning forward over non-matching positions does not change the first
/// match.
pub proof fn lemma_first_match_skip<V>(prev: Seq<usize>, rows: Seq<(bool, V)>, i: int, j: int, g: int)
    requires
        0 <= j <= g <= i,
        forall|p: int| j <= p < g ==> !(prev[p] == prev[i] && rows_key_eq(rows[p], rows[i])),
    ensures
        first_match(prev, rows, i, j) == first_match(prev, rows, i, g),
    decreases g - j,
{
    if j < g {
        lemma_first_match_skip(prev, rows, i, j + 1, g);
    }
}

/// The first match lies no later than any match.
pub proof fn lemma_first_match_bounds<V>(prev: Seq<usize>, rows: Seq<(bool, V)>, i: int, j: int)
    requires
        0 <= j <= i,
    ensures
        j <= first_match(prev, rows, i, j) <= i,
    decreases i - j,
{
    if j < i && !(prev[j] == prev[i] && rows_key_eq(rows[j], rows[i])) {
        lemma_first_match_bounds(prev, rows, i, j + 1);
    }
}

/// The first match of row `i` lies in `[0, i]`; when it is not `i` itself it
/// is a genuine match, and nothing before it matches.
pub proof fn lemma_first_match_props<V>(prev: Seq<usize>, rows: Seq<(bool, V)>, i: int, j: int)
    requires
        0 <= j <= i,
        forall|p: int| 0 <= p < j ==> !(prev[p] == prev[i] && rows_key_eq(rows[p], rows[i])),
    ensures
        j <= first_match(prev, rows, i, j) <= i,
        first_match(prev, rows, i, j) < i ==> prev[first_match(prev, rows, i, j) as int]
            == prev[i] && rows_key_eq(rows[first_match(prev, rows, i, j) as int], rows[i]),
        forall|p: int|
            0 <= p < first_match(prev, rows, i, j) ==> !(prev[p] == prev[i] && rows_key_eq(
                rows[p],
                rows[i],
            )),
    decreases i - j,
{
    if j < i && !(prev[j] == prev[i] && rows_key_eq(rows[j], rows[i])) {
        lemma_first_match_props(prev, rows, i, j + 1);
    }
}

/// Dense-group ids point at self-pointing first occurrences no later than
/// their own row.
pub proof fn lemma_group_ids_wf<V>(prev: Seq<usize>, rows: Seq<(bool, V)>)
    requires
        rows.len() <= usize::MAX,
    ensures
        forall|i: int|
            0 <= i < rows.len() ==> #[trigger] group_ids(prev, rows)[i] <= i && group_ids(
                prev,
                rows,
            )[group_ids(prev, rows)[i] as int] == group_ids(prev, rows)[i],
{
    let v = group_ids(prev, rows);
    assert forall|i: int| 0 <= i < rows.len() implies #[trigger] v[i] <= i && v[v[i] as int]
        == v[i] by {
        lemma_first_match_props(prev, rows, i, 0);
        let g = first_match(prev, rows, i, 0);
        assert(v[i] == g as usize);
        if g < i {
            lemma_first_match_props(prev, rows, g, 0);
            let g2 = first_match(prev, rows, g, 0);
            if g2 < g {
                assert(prev[g2] == prev[g] && rows_key_eq(rows[g2], rows[g]));
                assert(prev[g2] == prev[i]);
                assert(rows_key_eq(rows[g2], rows[i]));
                assert(false);
            }
            assert(v[g] == g as usize);
        }
    }
}

/// What `group_in` yields for one element type: new ids when the destination
/// was empty (all current ids read as zero), refined ids otherwise; a
/// constant source leaves a non-empty destination unchanged.
pub open spec fn group_in_post_rows<V>(
    is_const: bool,
    rows: Seq<(bool, V)>,
    old_dst: Seq<usize>,
    new_dst: Seq<usize>,
) -> bool {
    if old_dst.len() == 0 {
        new_dst == group_ids(Seq::new(rows.len(), |i: int| 0usize), rows)
    } else if is_const {
        new_dst == old_dst
    } else {
        rows.len() == old_dst.len() && new_dst == group_ids(old_dst, rows)
    }
}

/// What `group_in` yields, by element type.
pub open spec fn group_in_post(
    w: ColumnWrapper,
    ix: ColumnDataIndex,
    old_dst: Seq<usize>,
    new_dst: Seq<usize>,
) -> bool {
    let n = if old_dst.len() == 0 {
        crate::ops::wrapper_logical_len(w, ix)
    } else {
        old_dst.len()
    };
    match w.column.type_of() {
        ItemTypeId::U8 => group_in_post_rows::<u8>(
            w.column is Const,
            wrapper_rows_sized::<u8>(w, ix, n),
            old_dst,
            new_dst,
        ),
        ItemTypeId::U16 => group_in_post_rows::<u16>(
            w.column is Const,
            wrapper_rows_sized::<u16>(w, ix, n),
            old_dst,
            new_dst,
        ),
        ItemTypeId::U32 => group_in_post_rows::<u32>(
            w.column is Const,
            wrapper_rows_sized::<u32>(w, ix, n),
            old_dst,
            new_dst,
        ),
        ItemTypeId::U64 => group_in_post_rows::<u64>(
            w.column is Const,
            wrapper_rows_sized::<u64>(w, ix, n),
            old_dst,
            new_dst,
        ),
        ItemTypeId::USize => group_in_post_rows::<usize>(
            w.column is Const,
            wrapper_rows_sized::<usize>(w, ix, n),
            old_dst,
            new_dst,
        ),
        ItemTypeId::Bool => group_in_post_rows::<bool>(
            w.column is Const,
            wrapper_rows_sized::<bool>(w, ix, n),
            old_dst,
            new_dst,
        ),
        ItemTypeId::Str => group_in_post_rows::<Seq<u8>>(
            w.column is BinaryConst,
            wrapper_rows_binary(w, ix, n),
            old_dst,
            new_dst,
        ),
    }
}

/// Dense-groups a sized column's resolved rows into `dst`.
fn group_in_sized<T: Element>(w: &ColumnWrapper, src_index: &ColumnDataIndex, dst: &mut Vec<usize>)
    -> (r: Result<(), ErrorDesc>)
    requires
        crate::ops::wrapper_input_ok(*w, *src_index),
    ensures
        match r {
            Ok(_) => {
                let n = if old(dst)@.len() == 0 {
                    crate::ops::wrapper_logical_len(*w, *src_index)
                } else {
                    old(dst)@.len()
                };
                &&& w.column.sized_model::<T>() is Some
                &&& group_in_post_rows::<T>(
                    w.column is Const,
                    wrapper_rows_sized::<T>(*w, *src_index, n),
                    old(dst)@,
                    final(dst)@,
                )
            },
            Err(_) => final(dst)@ == old(dst)@,
        },
        w.column.sized_model::<T>() is Some && (old(dst)@.len() == 0 || old(dst)@.len()
            == crate::ops::wrapper_logical_len(*w, *src_index) || w.column is Const) ==> r is Ok,
{
    proof {
        if w.column.sized_of() is Some {
            T::data_model_tag(&w.column.sized_of().unwrap());
        }
    }
    let was_empty = dst.len() == 0;
    let target: usize = if was_empty {
        match w.logical_len(src_index) {
            Ok(n) => n,
            Err(e) => {
                return Err(e);
            },
        }
    } else {
        dst.len()
    };
    let src: ReadColumn<T> = match ReadColumn::from_parts(&w.column, &w.bitmap, src_index, target) {
        Ok(s) => s,
        Err(e) => {
            return Err(e);
        },
    };
    if w.column.is_const() && !was_empty {
        return Ok(());
    }
    let n = src.len();
    if !was_empty && n != dst.len() {
        return Err(ErrorDesc::LengthMismatch);
    }
    let ghost rows = src.items();
    let ghost prev_seq: Seq<usize> = if was_empty {
        Seq::new(rows.len(), |i: int| 0usize)
    } else {
        dst@
    };
    let mut fresh: Vec<usize> = Vec::with_capacity(n);
    let mut i: usize = 0;
    while i < n
        invariant
            i <= n,
            src.wf(),
            src.items() == rows,
            rows.len() == n,
            was_empty ==> prev_seq == Seq::new(rows.len(), |k: int| 0usize),
            !was_empty ==> prev_seq == dst@ && dst@.len() == n,
            fresh@.len() == i,
            forall|k: int|
                0 <= k < i ==> #[trigger] fresh@[k] == first_match(prev_seq, rows, k, 0) as usize,
        decreases n - i,
    {
        let (bi, vi) = src.index(i);
        let pi: usize = if was_empty {
            0
        } else {
            dst[i]
        };
        let mut g: usize = i;
        let mut j: usize = 0;
        while j < i
            invariant
                j <= i,
                i < n,
                src.wf(),
                src.items() == rows,
                rows.len() == n,
                was_empty ==> prev_seq == Seq::new(rows.len(), |k: int| 0usize),
                !was_empty ==> prev_seq == dst@ && dst@.len() == n,
                pi == prev_seq[i as int],
                (bi, vi) == rows[i as int],
                g == i ==> forall|p: int|
                    0 <= p < j ==> !(prev_seq[p] == prev_seq[i as int] && rows_key_eq(
                        rows[p],
                        rows[i as int],
                    )),
                g != i ==> g < j && prev_seq[g as int] == prev_seq[i as int] && rows_key_eq(
                    rows[g as int],
                    rows[i as int],
                ) && (forall|p: int|
                    0 <= p < g ==> !(prev_seq[p] == prev_seq[i as int] && rows_key_eq(
                        rows[p],
                        rows[i as int],
                    ))),
            decreases i - j,
        {
            if g == i {
                let pj: usize = if was_empty {
                    0
                } else {
                    dst[j]
                };
                let (bj, vj) = src.index(j);
                let keys_match: bool = if bi && bj {
                    T::eq_elem(&vj, &vi)
                } else {
                    !bi && !bj
                };
                if pj == pi && keys_match {
                    g = j;
                }
            }
            j = j + 1;
        }
        proof {
            if g == i {
                lemma_first_match_skip(prev_seq, rows, i as int, 0, i as int);
            } else {
                lemma_first_match_skip(prev_seq, rows, i as int, 0, g as int);
            }
            assert(g as int == first_match(prev_seq, rows, i as int, 0));
        }
        fresh.push(g);
        i = i + 1;
    }
    let mut tmp = fresh;
    core::mem::swap(dst, &mut tmp);
    proof {
        assert(dst@ =~= group_ids(prev_seq, rows));
    }
    Ok(())
}

/// Dense-groups a binary column's resolved rows into `dst`.
fn group_in_binary(w: &ColumnWrapper, src_index: &ColumnDataIndex, dst: &mut Vec<usize>) -> (r:
    Result<(), ErrorDesc>)
    requires
        crate::ops::wrapper_input_ok(*w, *src_index),
    ensures
        match r {
            Ok(_) => {
                let n = if old(dst)@.len() == 0 {
                    crate::ops::wrapper_logical_len(*w, *src_index)
                } else {
                    old(dst)@.len()
                };
                &&& w.column.binary_model() is Some
                &&& group_in_post_rows::<Seq<u8>>(
                    w.column is BinaryConst,
                    wrapper_rows_binary(*w, *src_index, n),
                    old(dst)@,
                    final(dst)@,
                )
            },
            Err(_) => final(dst)@ == old(dst)@,
        },
        w.column.binary_model() is Some && (old(dst)@.len() == 0 || old(dst)@.len()
            == crate::ops::wrapper_logical_len(*w, *src_index) || w.column is BinaryConst)
            ==> r is Ok,
{
    proof {
        assert(crate::ops::wrapper_input_ok(*w, *src_index));
    }
    let was_empty = dst.len() == 0;
    let target: usize = if was_empty {
        match w.logical_len(src_index) {
            Ok(n) => n,
            Err(e) => {
                return Err(e);
            },
        }
    } else {
        dst.len()
    };
    let src: ReadBinaryColumn = match ReadBinaryColumn::from_parts(
        &w.column,
        &w.bitmap,
        src_index,
        target,
    ) {
        Ok(s) => s,
        Err(e) => {
            return Err(e);
        },
    };
    if w.column.is_const() && !was_empty {
        return Ok(());
    }
    let n = src.len();
    if !was_empty && n != dst.len() {
        return Err(ErrorDesc::LengthMismatch);
    }
    let ghost rows = src.items();
    let ghost prev_seq: Seq<usize> = if was_empty {
        Seq::new(rows.len(), |i: int| 0usize)
    } else {
        dst@
    };
    let mut fresh: Vec<usize> = Vec::with_capacity(n);
    let mut i: usize = 0;
    while i < n
        invariant
            i <= n,
            src.wf(),
            src.items() == rows,
            rows.len() == n,
            was_empty ==> prev_seq == Seq::new(rows.len(), |k: int| 0usize),
            !was_empty ==> prev_seq == dst@ && dst@.len() == n,
            fresh@.len() == i,
            forall|k: int|
                0 <= k < i ==> #[trigger] fresh@[k] == first_match(prev_seq, rows, k, 0) as usize,
        decreases n - i,
    {
        let (bi, vi) = src.index(i);
        let pi: usize = if was_empty {
            0
        } else {
            dst[i]
        };
        let mut g: usize = i;
        let mut j: usize = 0;
        while j < i
            invariant
                j <= i,
                i < n,
                src.wf(),
                src.items() == rows,
                rows.len() == n,
                was_empty ==> prev_seq == Seq::new(rows.len(), |k: int| 0usize),
                !was_empty ==> prev_seq == dst@ && dst@.len() == n,
                pi == prev_seq[i as int],
                (bi, vi@) == rows[i as int],
                g == i ==> forall|p: int|
                    0 <= p < j ==> !(prev_seq[p] == prev_seq[i as int] && rows_key_eq(
                        rows[p],
                        rows[i as int],
                    )),
                g != i ==> g < j && prev_seq[g as int] == prev_seq[i as int] && rows_key_eq(
                    rows[g as int],
                    rows[i as int],
                ) && (forall|p: int|
                    0 <= p < g ==> !(prev_seq[p] == prev_seq[i as int] && rows_key_eq(
                        rows[p],
                        rows[i as int],
                    ))),
            decreases i - j,
        {
            if g == i {
                let pj: usize = if was_empty {
                    0
                } else {
                    dst[j]
                };
                let (bj, vj) = src.index(j);
                let keys_match: bool = if bi && bj {
                    crate::bytesord::bytes_eq(vj, vi)
                } else {
                    !bi && !bj
                };
                if pj == pi && keys_match {
                    g = j;
                }
            }
            j = j + 1;
        }
        proof {
            if g == i {
                lemma_first_match_skip(prev_seq, rows, i as int, 0, i as int);
            } else {
                lemma_first_match_skip(prev_seq, rows, i as int, 0, g as int);
            }
            assert(g as int == first_match(prev_seq, rows, i as int, 0));
        }
        fresh.push(g);
        i = i + 1;
    }
    let mut tmp = fresh;
    core::mem::swap(dst, &mut tmp);
    proof {
        assert(dst@ =~= group_ids(prev_seq, rows));
    }
    Ok(())
}

/// Renders the resolved rows of a sized column as display byte strings.
fn as_string_sized<T: Element>(w: &ColumnWrapper, src_index: &ColumnDataIndex, target_len: usize)
    -> (r: Result<Vec<Vec<u8>>, ErrorDesc>)
    requires
        crate::ops::wrapper_input_ok(*w, *src_index),
    ensures
        match r {
            Ok(out) => {
                &&& w.column.sized_model::<T>() is Some
                &&& out@.map_values(|v: Vec<u8>| v@) == display_rows::<T>(
                    wrapper_rows_sized::<T>(*w, *src_index, target_len as nat),
                )
            },
            Err(_) => w.column.sized_model::<T>() is None,
        },
        w.column.sized_model::<T>() is Some ==> r is Ok,
{
    proof {
        if w.column.sized_of() is Some {
            T::data_model_tag(&w.column.sized_of().unwrap());
        }
    }
    let src: ReadColumn<T> = match ReadColumn::from_parts(
        &w.column,
        &w.bitmap,
        src_index,
        target_len,
    ) {
        Ok(s) => s,
        Err(e) => {
            return Err(e);
        },
    };
    let n = src.len();
    let ghost rows = src.items();
    let mut out: Vec<Vec<u8>> = Vec::with_capacity(n);
    let mut i: usize = 0;
    while i < n
        invariant
            i <= n,
            src.wf(),
            src.items() == rows,
            rows.len() == n,
            out@.len() == i,
            forall|k: int|
                0 <= k < i ==> #[trigger] out@[k]@ == T::display_spec(rows[k].1),
        decreases n - i,
    {
        let (_, v) = src.index(i);
        out.push(T::to_display(&v));
        i = i + 1;
    }
    proof {
        assert(out@.map_values(|v: Vec<u8>| v@) =~= display_rows::<T>(rows));
    }
    Ok(out)
}

/// Copies the resolved rows of a binary column out as byte strings.
fn as_string_binary(w: &ColumnWrapper, src_index: &ColumnDataIndex, target_len: usize) -> (r:
    Result<Vec<Vec<u8>>, ErrorDesc>)
    requires
        crate::ops::wrapper_input_ok(*w, *src_index),
    ensures
        match r {
            Ok(out) => {
                &&& w.column.binary_model() is Some
                &&& out@.map_values(|v: Vec<u8>| v@) == Seq::new(
                    wrapper_rows_binary(*w, *src_index, target_len as nat).len(),
                    |i: int| wrapper_rows_binary(*w, *src_index, target_len as nat)[i].1,
                )
            },
            Err(_) => w.column.binary_model() is None,
        },
        w.column.binary_model() is Some ==> r is Ok,
{
    proof {
        assert(crate::ops::wrapper_input_ok(*w, *src_index));
    }
    let src: ReadBinaryColumn = match ReadBinaryColumn::from_parts(
        &w.column,
        &w.bitmap,
        src_index,
        target_len,
    ) {
        Ok(s) => s,
        Err(e) => {
            return Err(e);
        },
    };
    let n = src.len();
    let ghost rows = src.items();
    let mut out: Vec<Vec<u8>> = Vec::with_capacity(n);
    let mut i: usize = 0;
    while i < n
        invariant
            i <= n,
            src.wf(),
            src.items() == rows,
            rows.len() == n,
            out@.len() == i,
            forall|k: int| 0 <= k < i ==> #[trigger] out@[k]@ == rows[k].1,
        decreases n - i,
    {
        let (_, v) = src.index(i);
        out.push(vstd::slice::slice_to_vec(v));
        i = i + 1;
    }
    proof {
        assert(out@.map_values(|v: Vec<u8>| v@) =~= Seq::new(rows.len(), |i: int| rows[i].1));
    }
    Ok(out)
}

/// What `validity` yields, by element type: each resolved row's validity bit.
pub open spec fn validity_post(
    w: ColumnWrapper,
    ix: ColumnDataIndex,
    n: nat,
    out: Seq<bool>,
) -> bool {
    match w.column.type_of() {
        ItemTypeId::U8 => out == Seq::new(n, |i: int| wrapper_rows_sized::<u8>(w, ix, n)[i].0),
        ItemTypeId::U16 => out == Seq::new(n, |i: int| wrapper_rows_sized::<u16>(w, ix, n)[i].0),
        ItemTypeId::U32 => out == Seq::new(n, |i: int| wrapper_rows_sized::<u32>(w, ix, n)[i].0),
        ItemTypeId::U64 => out == Seq::new(n, |i: int| wrapper_rows_sized::<u64>(w, ix, n)[i].0),
        ItemTypeId::USize => out == Seq::new(
            n,
            |i: int| wrapper_rows_sized::<usize>(w, ix, n)[i].0,
        ),
        ItemTypeId::Bool => out == Seq::new(n, |i: int| wrapper_rows_sized::<bool>(w, ix, n)[i].0),
        ItemTypeId::Str => out == Seq::new(n, |i: int| wrapper_rows_binary(w, ix, n)[i].0),
    }
}

/// Collects the resolved validity bits of a sized column.
fn validity_sized<T: Element>(w: &ColumnWrapper, src_index: &ColumnDataIndex, target_len: usize)
    -> (r: Result<Vec<bool>, ErrorDesc>)
    requires
        crate::ops::wrapper_input_ok(*w, *src_index),
    ensures
        match r {
            Ok(out) => {
                &&& w.column.sized_model::<T>() is Some
                &&& wrapper_rows_sized::<T>(*w, *src_index, target_len as nat).len()
                    == target_len
                &&& out@ == Seq::new(
                    target_len as nat,
                    |i: int| wrapper_rows_sized::<T>(*w, *src_index, target_len as nat)[i].0,
                )
            },
            Err(_) => true,
        },
        w.column.sized_model::<T>() is Some && (w.column is Const || target_len as nat
            == crate::ops::wrapper_logical_len(*w, *src_index)) ==> r is Ok,
{
    proof {
        if w.column.sized_of() is Some {
            T::data_model_tag(&w.column.sized_of().unwrap());
        }
    }
    let src: ReadColumn<T> = match ReadColumn::from_parts(
        &w.column,
        &w.bitmap,
        src_index,
        target_len,
    ) {
        Ok(s) => s,
        Err(e) => {
            return Err(e);
        },
    };
    if src.len() != target_len {
        return Err(ErrorDesc::LengthMismatch);
    }
    let n = src.len();
    let ghost rows = src.items();
    let mut out: Vec<bool> = Vec::with_capacity(n);
    let mut i: usize = 0;
    while i < n
        invariant
            i <= n,
            src.wf(),
            src.items() == rows,
            rows.len() == n,
            out@.len() == i,
            forall|k: int| 0 <= k < i ==> #[trigger] out@[k] == rows[k].0,
        decreases n - i,
    {
        let (b, _) = src.index(i);
        out.push(b);
        i = i + 1;
    }
    proof {
        assert(out@ =~= Seq::new(rows.len(), |i: int| rows[i].0));
    }
    Ok(out)
}

/// Collects the resolved validity bits of a binary column.
fn validity_binary(w: &ColumnWrapper, src_index: &ColumnDataIndex, target_len: usize) -> (r: Result<
    Vec<bool>,
    ErrorDesc,
>)
    requires
        crate::ops::wrapper_input_ok(*w, *src_index),
    ensures
        match r {
            Ok(out) => {
                &&& w.column.binary_model() is Some
                &&& wrapper_rows_binary(*w, *src_index, target_len as nat).len() == target_len
                &&& out@ == Seq::new(
                    target_len as nat,
                    |i: int| wrapper_rows_binary(*w, *src_index, target_len as nat)[i].0,
                )
            },
            Err(_) => true,
        },
        w.column.binary_model() is Some && (w.column is BinaryConst || target_len as nat
            == crate::ops::wrapper_logical_len(*w, *src_index)) ==> r is Ok,
{
    let src: ReadBinaryColumn = match ReadBinaryColumn::from_parts(
        &w.column,
        &w.bitmap,
        src_index,
        target_len,
    ) {
        Ok(s) => s,
        Err(e) => {
            return Err(e);
        },
    };
    if src.len() != target_len {
        return Err(ErrorDesc::LengthMismatch);
    }
    let n = src.len();
    let ghost rows = src.items();
    let mut out: Vec<bool> = Vec::with_capacity(n);
    let mut i: usize = 0;
    while i < n
        invariant
            i <= n,
            src.wf(),
            src.items() == rows,
            rows.len() == n,
            out@.len() == i,
            forall|k: int| 0 <= k < i ==> #[trigger] out@[k] == rows[k].0,
        decreases n - i,
    {
        let (b, _) = src.index(i);
        out.push(b);
        i = i + 1;
    }
    proof {
        assert(out@ =~= Seq::new(rows.len(), |i: int| rows[i].0));
    }
    Ok(out)
}

impl ColumnWrapper {
    /// Collects every resolved row's validity bit.
    pub fn validity(&self, src_index: &ColumnDataIndex) -> (r: Result<Vec<bool>, ErrorDesc>)
        requires
            crate::ops::wrapper_input_ok(*self, *src_index),
        ensures
            match r {
                Ok(out) => self.column.typed_model_ok() && validity_post(
                    *self,
                    *src_index,
                    crate::ops::wrapper_logical_len(*self, *src_index),
                    out@,
                ),
                Err(_) => true,
            },
            self.column.typed_model_ok() ==> r is Ok,
    {
        let n: usize = match self.logical_len(src_index) {
            Ok(n) => n,
            Err(e) => {
                return Err(e);
            },
        };
        proof {
            if self.column.sized_of() is Some {
                <u8 as Element>::data_model_tag(&self.column.sized_of().unwrap());
                <u16 as Element>::data_model_tag(&self.column.sized_of().unwrap());
                <u32 as Element>::data_model_tag(&self.column.sized_of().unwrap());
                <u64 as Element>::data_model_tag(&self.column.sized_of().unwrap());
                <usize as Element>::data_model_tag(&self.column.sized_of().unwrap());
                <bool as Element>::data_model_tag(&self.column.sized_of().unwrap());
            }
        }
        match self.column.item_type_id() {
            ItemTypeId::U8 => validity_sized::<u8>(self, src_index, n),
            ItemTypeId::U16 => validity_sized::<u16>(self, src_index, n),
            ItemTypeId::U32 => validity_sized::<u32>(self, src_index, n),
            ItemTypeId::U64 => validity_sized::<u64>(self, src_index, n),
            ItemTypeId::USize => validity_sized::<usize>(self, src_index, n),
            ItemTypeId::Bool => validity_sized::<bool>(self, src_index, n),
            ItemTypeId::Str => validity_binary(self, src_index, n),
        }
    }
}

impl ColumnWrapper {
    /// Renders every resolved row's value as a display byte string (nulls are
    /// the caller's concern: the bitmap still marks them).
    pub fn as_string(&self, src_index: &ColumnDataIndex) -> (r: Result<Vec<Vec<u8>>, ErrorDesc>)
        requires
            crate::ops::wrapper_input_ok(*self, *src_index),
        ensures
            match r {
                Ok(out) => self.column.typed_model_ok() && as_string_post(
                    *self,
                    *src_index,
                    crate::ops::wrapper_logical_len(*self, *src_index),
                    out@.map_values(|v: Vec<u8>| v@),
                ),
                Err(_) => true,
            },
            self.column.typed_model_ok() ==> r is Ok,
    {
        let n: usize = match self.logical_len(src_index) {
            Ok(n) => n,
            Err(e) => {
                return Err(e);
            },
        };
        proof {
            if self.column.sized_of() is Some {
                <u8 as Element>::data_model_tag(&self.column.sized_of().unwrap());
                <u16 as Element>::data_model_tag(&self.column.sized_of().unwrap());
                <u32 as Element>::data_model_tag(&self.column.sized_of().unwrap());
                <u64 as Element>::data_model_tag(&self.column.sized_of().unwrap());
                <usize as Element>::data_model_tag(&self.column.sized_of().unwrap());
                <bool as Element>::data_model_tag(&self.column.sized_of().unwrap());
            }
        }
        match self.column.item_type_id() {
            ItemTypeId::U8 => as_string_sized::<u8>(self, src_index, n),
            ItemTypeId::U16 => as_string_sized::<u16>(self, src_index, n),
            ItemTypeId::U32 => as_string_sized::<u32>(self, src_index, n),
            ItemTypeId::U64 => as_string_sized::<u64>(self, src_index, n),
            ItemTypeId::USize => as_string_sized::<usize>(self, src_index, n),
            ItemTypeId::Bool => as_string_sized::<bool>(self, src_index, n),
            ItemTypeId::Str => as_string_binary(self, src_index, n),
        }
    }

    /// Chains this column's row hashes into `dst`: fresh hashes when `dst`
    /// is empty, wrapping addition of the per-row hash otherwise. A null row
    /// contributes `u64::MAX`; a constant contributes its hash to every row.
    pub fn hash_in(&self, src_index: &ColumnDataIndex, dst: &mut Vec<u64>) -> (r: Result<
        (),
        ErrorDesc,
    >)
        requires
            crate::ops::wrapper_input_ok(*self, *src_index),
        ensures
            match r {
                Ok(_) => hash_in_post(*self, *src_index, old(dst)@, final(dst)@),
                Err(_) => final(dst)@ == old(dst)@,
            },
            self.column.typed_model_ok() && (old(dst)@.len() == 0 || old(dst)@.len()
                == crate::ops::wrapper_logical_len(*self, *src_index) || self.column is Const
                || self.column is BinaryConst) ==> r is Ok,
    {
        proof {
            if self.column.sized_of() is Some {
                <u8 as Element>::data_model_tag(&self.column.sized_of().unwrap());
                <u16 as Element>::data_model_tag(&self.column.sized_of().unwrap());
                <u32 as Element>::data_model_tag(&self.column.sized_of().unwrap());
                <u64 as Element>::data_model_tag(&self.column.sized_of().unwrap());
                <usize as Element>::data_model_tag(&self.column.sized_of().unwrap());
                <bool as Element>::data_model_tag(&self.column.sized_of().unwrap());
            }
        }
        match self.column.item_type_id() {
            ItemTypeId::U8 => hash_in_sized::<u8>(self, src_index, dst),
            ItemTypeId::U16 => hash_in_sized::<u16>(self, src_index, dst),
            ItemTypeId::U32 => hash_in_sized::<u32>(self, src_index, dst),
            ItemTypeId::U64 => hash_in_sized::<u64>(self, src_index, dst),
            ItemTypeId::USize => hash_in_sized::<usize>(self, src_index, dst),
            ItemTypeId::Bool => hash_in_sized::<bool>(self, src_index, dst),
            ItemTypeId::Str => hash_in_binary(self, src_index, dst),
        }
    }

    /// Dense-groups this column's resolved rows into `dst`: each row gets the
    /// index of the first earlier row with the same `(current id, key)` pair,
    /// where keys are equal when both rows are null or both are valid with
    /// equal values. A constant source leaves a non-empty `dst` unchanged.
    pub fn group_in(&self, src_index: &ColumnDataIndex, dst: &mut Vec<usize>) -> (r: Result<
        (),
        ErrorDesc,
    >)
        requires
            crate::ops::wrapper_input_ok(*self, *src_index),
        ensures
            match r {
                Ok(_) => group_in_post(*self, *src_index, old(dst)@, final(dst)@),
                Err(_) => final(dst)@ == old(dst)@,
            },
            self.column.typed_model_ok() && (old(dst)@.len() == 0 || old(dst)@.len()
                == crate::ops::wrapper_logical_len(*self, *src_index) || self.column is Const
                || self.column is BinaryConst) ==> r is Ok,
    {
        proof {
            if self.column.sized_of() is Some {
                <u8 as Element>::data_model_tag(&self.column.sized_of().unwrap());
                <u16 as Element>::data_model_tag(&self.column.sized_of().unwrap());
                <u32 as Element>::data_model_tag(&self.column.sized_of().unwrap());
                <u64 as Element>::data_model_tag(&self.column.sized_of().unwrap());
                <usize as Element>::data_model_tag(&self.column.sized_of().unwrap());
                <bool as Element>::data_model_tag(&self.column.sized_of().unwrap());
            }
        }
        match self.column.item_type_id() {
            ItemTypeId::U8 => group_in_sized::<u8>(self, src_index, dst),
            ItemTypeId::U16 => group_in_sized::<u16>(self, src_index, dst),
            ItemTypeId::U32 => group_in_sized::<u32>(self, src_index, dst),
            ItemTypeId::U64 => group_in_sized::<u64>(self, src_index, dst),
            ItemTypeId::USize => group_in_sized::<usize>(self, src_index, dst),
            ItemTypeId::Bool => group_in_sized::<bool>(self, src_index, dst),
            ItemTypeId::Str => group_in_binary(self, src_index, dst),
        }
    }

    /// The number of rows this column yields under `src_index` before any
    /// constant broadcast.
    pub fn logical_len(&self, src_index: &ColumnDataIndex) -> (r: Result<usize, ErrorDesc>)
        ensures
            match r {
                Ok(n) => n == crate::ops::wrapper_logical_len(*self, *src_index),
                Err(_) => false,
            },
    {
        if self.column.is_const() {
            return Ok(1);
        }
        match src_index.len() {
            Some(n) => Ok(n),
            None => Ok(self.len()),
        }
    }
}

} // verus!
