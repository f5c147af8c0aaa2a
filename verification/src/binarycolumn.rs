//! Variable-length (binary) column storage.
//!
//! Elements are byte strings laid out in one byte blob with parallel
//! `start_pos` / `len` tables. `offset` models a left split: after slicing a
//! prefix off, the absolute positions in `start_pos` stay valid while the
//! byte buffer shrinks, so consumers subtract `offset` before indexing the
//! blob.

use vstd::prelude::*;

use crate::errors::ErrorDesc;
use crate::tag::ItemTypeId;

verus! {

/// Sum of the first `n` entries of a length table.
pub open spec fn sum_lens(lens: Seq<usize>, n: int) -> nat
    decreases n,
{
    if n <= 0 {
        0
    } else {
        (sum_lens(lens, n - 1) + lens[n - 1]) as nat
    }
}

/// `sum_lens` grows with its prefix length.
pub proof fn lemma_sum_lens_monotonic(lens: Seq<usize>, i: int, j: int)
    requires
        i <= j,
    ensures
        sum_lens(lens, i) <= sum_lens(lens, j),
    decreases j - i,
{
    if i < j {
        lemma_sum_lens_monotonic(lens, i, j - 1);
    }
}

/// `sum_lens(lens, n)` depends only on the first `n` entries.
pub proof fn lemma_sum_lens_prefix(a: Seq<usize>, b: Seq<usize>, n: int)
    requires
        forall|j: int| 0 <= j < n ==> a[j] == b[j],
    ensures
        sum_lens(a, n) == sum_lens(b, n),
    decreases n,
{
    if n > 0 {
        lemma_sum_lens_prefix(a, b, n - 1);
    }
}

/// `sum_lens` of a shifted table relates to the original.
pub proof fn lemma_sum_lens_shift(a: Seq<usize>, b: Seq<usize>, pos: int, n: int)
    requires
        0 <= pos,
        0 <= n,
        forall|j: int| 0 <= j < n ==> a[j] == b[pos + j],
    ensures
        sum_lens(a, n) + sum_lens(b, pos) == sum_lens(b, pos + n),
    decreases n,
{
    if n > 0 {
        lemma_sum_lens_shift(a, b, pos, n - 1);
    }
}

/// Owned binary column: byte blob plus start/length tables.
#[derive(Debug)]
pub struct OnwedBinaryColumn {
    pub item_type_id: ItemTypeId,
    pub offset: usize,
    pub data: Vec<u8>,
    pub start_pos: Vec<usize>,
    pub len: Vec<usize>,
}

impl OnwedBinaryColumn {
    /// Start of element `i` inside the byte blob.
    pub open spec fn elem_start(&self, i: int) -> int {
        self.start_pos@[i] - self.offset
    }

    /// End of element `i` inside the byte blob.
    pub open spec fn elem_end(&self, i: int) -> int {
        self.start_pos@[i] - self.offset + self.len@[i]
    }

    /// Layout invariant: the tables agree in length and every element's byte
    /// range lies inside the blob.
    pub open spec fn wf(&self) -> bool {
        &&& self.start_pos@.len() == self.len@.len()
        &&& forall|i: int|
            0 <= i < self.start_pos@.len() ==> self.offset <= #[trigger] self.start_pos@[i]
                && self.elem_end(i) <= self.data@.len()
    }

    /// Packed layout: elements sit back to back, starting at `offset`, and the
    /// blob holds exactly their bytes.
    pub open spec fn packed(&self) -> bool {
        &&& self.start_pos@.len() == self.len@.len()
        &&& self.offset + self.data@.len() <= usize::MAX
        &&& forall|i: int|
            0 <= i < self.start_pos@.len() ==> #[trigger] self.start_pos@[i] == self.offset
                + sum_lens(self.len@, i)
        &&& self.data@.len() == sum_lens(self.len@, self.len@.len() as int)
    }

    /// A packed column meets the layout invariant.
    pub proof fn lemma_packed_wf(&self)
        requires
            self.packed(),
        ensures
            self.wf(),
            forall|i: int|
                0 <= i <= self.start_pos@.len() ==> sum_lens(self.len@, i) <= self.data@.len(),
    {
        assert forall|i: int| 0 <= i <= self.start_pos@.len() implies sum_lens(self.len@, i)
            <= self.data@.len() by {
            lemma_sum_lens_monotonic(self.len@, i, self.len@.len() as int);
        }
        assert forall|i: int| 0 <= i < self.start_pos@.len() implies self.offset
            <= #[trigger] self.start_pos@[i] && self.elem_end(i) <= self.data@.len() by {
            lemma_sum_lens_monotonic(self.len@, i + 1, self.len@.len() as int);
        }
    }

    /// The bytes of element `i`.
    pub open spec fn elem(&self, i: int) -> Seq<u8> {
        self.data@.subrange(self.elem_start(i), self.elem_end(i))
    }

    /// The logical contents: one byte string per element.
    pub open spec fn elems(&self) -> Seq<Seq<u8>> {
        Seq::new(self.start_pos@.len(), |i: int| self.elem(i))
    }

    /// The runtime element type tag.
    pub fn item_type_id(&self) -> (t: ItemTypeId)
        ensures
            t == self.item_type_id,
    {
        self.item_type_id
    }

    /// Whether the column holds elements of the type marked by `t`.
    pub fn is(&self, t: ItemTypeId) -> (r: bool)
        ensures
            r == (t == self.item_type_id),
    {
        t == self.item_type_id
    }

    /// The number of elements.
    pub fn len(&self) -> (n: usize)
        ensures
            n == self.len@.len(),
    {
        self.len.len()
    }

    /// Drops all elements and bytes; the element type is kept.
    pub fn truncate(&mut self)
        ensures
            final(self).elems() =~= Seq::<Seq<u8>>::empty(),
            final(self).packed(),
            final(self).item_type_id == old(self).item_type_id,
    {
        self.offset = 0;
        self.data.truncate(0);
        self.start_pos.truncate(0);
        self.len.truncate(0);
    }

    /// Builds a packed binary column of byte strings.
    pub fn new(data: &Vec<Vec<u8>>) -> (r: Self)
        ensures
            r.packed(),
            r.item_type_id == ItemTypeId::Str,
            r.offset == 0,
            r.elems() =~= data@.map_values(|v: Vec<u8>| v@),
    {
        OnwedBinaryColumn::new_with_capacity(data, 0, 0)
    }

    /// As `new`, reserving table and byte capacity up front.
    pub fn new_with_capacity(data: &Vec<Vec<u8>>, _capacity: usize, binarycapacity: usize) -> (r:
        Self)
        ensures
            r.packed(),
            r.item_type_id == ItemTypeId::Str,
            r.offset == 0,
            r.elems() =~= data@.map_values(|v: Vec<u8>| v@),
    {
        let ghost model: Seq<Seq<u8>> = data@.map_values(|v: Vec<u8>| v@);
        let data_len = data.len();
        let mut start_pos: Vec<usize> = Vec::with_capacity(data_len);
        let mut len: Vec<usize> = Vec::with_capacity(data_len);
        let mut datau8: Vec<u8> = Vec::with_capacity(binarycapacity);
        let mut k: usize = 0;
        while k < data_len
            invariant
                k <= data_len,
                data_len == data@.len(),
                model == data@.map_values(|v: Vec<u8>| v@),
                start_pos@.len() == k,
                len@.len() == k,
                datau8@.len() == sum_lens(len@, k as int),
                forall|i: int| 0 <= i < k ==> #[trigger] start_pos@[i] == sum_lens(len@, i),
                forall|i: int| 0 <= i < k ==> #[trigger] len@[i] == model[i].len(),
                forall|i: int|
                    0 <= i < k ==> #[trigger] datau8@.subrange(
                        start_pos@[i] as int,
                        start_pos@[i] + len@[i],
                    ) =~= model[i],
            decreases data_len - k,
        {
            let ghost len_before = len@;
            let ghost before = datau8@;
            let t = &data[k];
            len.push(t.len());
            start_pos.push(datau8.len());
            datau8.extend_from_slice(t.as_slice());
            proof {
                assert forall|i: int| 0 <= i <= k implies sum_lens(len@, i) == sum_lens(
                    len_before,
                    i,
                ) by {
                    lemma_sum_lens_prefix(len@, len_before, i);
                }
                assert forall|i: int| 0 <= i < k + 1 implies #[trigger] datau8@.subrange(
                    start_pos@[i] as int,
                    start_pos@[i] + len@[i],
                ) =~= model[i] by {
                    if i < k {
                        lemma_sum_lens_monotonic(len_before, i + 1, k as int);
                        assert(start_pos@[i] + len@[i] <= before.len());
                        assert(before.subrange(start_pos@[i] as int, start_pos@[i] + len@[i])
                            =~= model[i]);
                        assert(datau8@.subrange(start_pos@[i] as int, start_pos@[i] + len@[i])
                            =~= before.subrange(start_pos@[i] as int, start_pos@[i] + len@[i]));
                    } else {
                        assert(datau8@ == before + model[k as int]);
                        assert(datau8@.subrange(start_pos@[i] as int, start_pos@[i] + len@[i])
                            =~= model[i]);
                    }
                }
            }
            k = k + 1;
        }
        let total_bytes: usize = datau8.len();
        proof {
            assert(datau8@.len() == total_bytes);
        }
        let r = Self { item_type_id: ItemTypeId::Str, offset: 0, data: datau8, start_pos, len };
        proof {
            assert(r.packed());
            r.lemma_packed_wf();
            assert forall|i: int| 0 <= i < r.start_pos@.len() implies #[trigger] r.elems()[i]
                =~= model[i] by {
            }
        }
        r
    }

    /// Fresh storage for `number_of_items` elements and `binary_storage`
    /// bytes, zero-filled, to be overwritten by a bucket copy.
    pub fn new_uninit(number_of_items: usize, binary_storage: usize) -> (r: Self)
        ensures
            r.item_type_id == ItemTypeId::Str,
            r.offset == 0,
            r.start_pos@ =~= Seq::new(number_of_items as nat, |i: int| 0usize),
            r.len@ =~= Seq::new(number_of_items as nat, |i: int| 0usize),
            r.data@.len() == binary_storage,
            r.wf(),
    {
        let data: Vec<u8> = vec_fill_u8(binary_storage);
        let start_pos: Vec<usize> = vec_fill_usize(number_of_items);
        let len: Vec<usize> = vec_fill_usize(number_of_items);
        Self { item_type_id: ItemTypeId::Str, offset: 0, data, start_pos, len }
    }

    /// Checked move of the raw parts out of the column.
    pub fn downcast_binary_owned(self, t: ItemTypeId) -> (r: Result<
        (Vec<u8>, Vec<usize>, Vec<usize>, usize),
        ErrorDesc,
    >)
        ensures
            match r {
                Ok(p) => t == self.item_type_id && p.0 == self.data && p.1 == self.start_pos && p.2
                    == self.len && p.3 == self.offset,
                Err(e) => t != self.item_type_id && e == ErrorDesc::TypeMismatch,
            },
    {
        if t == self.item_type_id {
            Ok((self.data, self.start_pos, self.len, self.offset))
        } else {
            Err(ErrorDesc::TypeMismatch)
        }
    }

    /// Checked borrow of the raw parts.
    pub fn downcast_binary_ref(&self, t: ItemTypeId) -> (r: Result<
        (&Vec<u8>, &Vec<usize>, &Vec<usize>, usize),
        ErrorDesc,
    >)
        ensures
            match r {
                Ok(p) => t == self.item_type_id && p.0 == &self.data && p.1 == &self.start_pos
                    && p.2 == &self.len && p.3 == self.offset,
                Err(e) => t != self.item_type_id && e == ErrorDesc::TypeMismatch,
            },
    {
        if t == self.item_type_id {
            Ok((&self.data, &self.start_pos, &self.len, self.offset))
        } else {
            Err(ErrorDesc::TypeMismatch)
        }
    }

    /// Checked mutable access to the raw parts. The caller is responsible for
    /// keeping the layout invariant; contracts downstream re-establish it.
    pub fn downcast_binary_mut(&mut self, t: ItemTypeId) -> (r: Result<
        (&mut Vec<u8>, &mut Vec<usize>, &mut Vec<usize>, usize),
        ErrorDesc,
    >)
        ensures
            r is Ok <==> t == old(self).item_type_id,
            r is Err ==> *final(self) == *old(self) && (r matches Err(e) && e
                == ErrorDesc::TypeMismatch),
            final(self).item_type_id == old(self).item_type_id,
            final(self).offset == old(self).offset,
            r matches Ok(p) ==> *p.0 == old(self).data && *p.1 == old(self).start_pos && *p.2
                == old(self).len && p.3 == old(self).offset,
            r matches Ok(p) ==> final(self).data == *final(p.0) && final(self).start_pos
                == *final(p.1) && final(self).len == *final(p.2),
    {
        if t == self.item_type_id {
            Ok((&mut self.data, &mut self.start_pos, &mut self.len, self.offset))
        } else {
            Err(ErrorDesc::TypeMismatch)
        }
    }

    /// Moves the raw parts out without a type check (internal plumbing).
    pub fn into_parts(self) -> (r: (Vec<u8>, Vec<usize>, Vec<usize>, usize))
        ensures
            r.0 == self.data,
            r.1 == self.start_pos,
            r.2 == self.len,
            r.3 == self.offset,
    {
        (self.data, self.start_pos, self.len, self.offset)
    }

    /// The column assembled from raw parts and a tag (specification mirror of
    /// the raw-part accessors).
    pub open spec fn from_parts_spec(
        data: Vec<u8>,
        start_pos: Vec<usize>,
        len: Vec<usize>,
        offset: usize,
        t: ItemTypeId,
    ) -> Self {
        OnwedBinaryColumn { item_type_id: t, offset, data, start_pos, len }
    }

    /// Rebuilds a byte-string column from raw parts.
    pub fn from_parts(data: Vec<u8>, start_pos: Vec<usize>, len: Vec<usize>, offset: usize) -> (r:
        Self)
        ensures
            r.data == data,
            r.start_pos == start_pos,
            r.len == len,
            r.offset == offset,
            r.item_type_id == ItemTypeId::Str,
    {
        Self { item_type_id: ItemTypeId::Str, offset, data, start_pos, len }
    }

    /// The two halves of a split at `pos` are packed and carry the prefix and
    /// suffix of the original contents.
    pub proof fn lemma_split_pieces(orig: Self, l: Self, s: Self, pos: int, data_len: int)
        requires
            orig.packed(),
            0 <= pos <= orig.start_pos@.len(),
            data_len == sum_lens(orig.len@, pos),
            l.offset == orig.offset,
            l.start_pos@ == orig.start_pos@.subrange(0, pos),
            l.len@ == orig.len@.subrange(0, pos),
            l.data@ == orig.data@.subrange(0, data_len),
            s.offset == orig.offset + data_len,
            s.start_pos@ == orig.start_pos@.subrange(pos, orig.start_pos@.len() as int),
            s.len@ == orig.len@.subrange(pos, orig.len@.len() as int),
            s.data@ == orig.data@.subrange(data_len, orig.data@.len() as int),
        ensures
            l.packed(),
            s.packed(),
            l.elems() =~= orig.elems().subrange(0, pos),
            s.elems() =~= orig.elems().subrange(pos, orig.elems().len() as int),
    {
        let n = orig.start_pos@.len() as int;
        orig.lemma_packed_wf();
        assert forall|i: int| 0 <= i <= pos implies sum_lens(l.len@, i) == sum_lens(
            orig.len@,
            i,
        ) by {
            lemma_sum_lens_prefix(l.len@, orig.len@, i);
        }
        assert(l.packed());
        assert forall|i: int| 0 <= i <= n - pos implies sum_lens(s.len@, i) + data_len == sum_lens(
            orig.len@,
            pos + i,
        ) by {
            lemma_sum_lens_shift(s.len@, orig.len@, pos, i);
        }
        assert(s.packed());
        assert forall|i: int| 0 <= i < pos implies #[trigger] l.elems()[i] =~= orig.elems()[i] by {
            lemma_sum_lens_monotonic(orig.len@, i + 1, pos);
            assert(l.elem_start(i) == orig.elem_start(i) && l.elem_end(i) == orig.elem_end(i));
            assert(l.elem(i) =~= orig.elem(i));
        }
        assert forall|i: int| 0 <= i < n - pos implies #[trigger] s.elems()[i] =~= orig.elems()[pos
            + i] by {
            assert(s.elem_start(i) == orig.elem_start(pos + i) - data_len && s.elem_end(i)
                == orig.elem_end(pos + i) - data_len);
            assert(s.elem(i) =~= orig.elem(pos + i));
        }
    }

    /// Splits the first `pos` elements off into a new column; the receiver
    /// keeps the suffix. The prefix and suffix together are the original.
    pub fn split_off_left(&mut self, pos: usize) -> (r: Result<Self, ErrorDesc>)
        requires
            old(self).packed(),
        ensures
            match r {
                Ok(l) => {
                    &&& pos <= old(self).len@.len()
                    &&& l.packed()
                    &&& final(self).packed()
                    &&& l.item_type_id == old(self).item_type_id
                    &&& final(self).item_type_id == old(self).item_type_id
                    &&& l.elems() =~= old(self).elems().subrange(0, pos as int)
                    &&& final(self).elems() =~= old(self).elems().subrange(
                        pos as int,
                        old(self).elems().len() as int,
                    )
                    &&& l.elems() + final(self).elems() =~= old(self).elems()
                },
                Err(e) => {
                    &&& pos > old(self).len@.len()
                    &&& e == ErrorDesc::Boundary
                    &&& *final(self) == *old(self)
                },
            },
    {
        if pos > self.start_pos.len() {
            return Err(ErrorDesc::Boundary);
        }
        let ghost orig = *old(self);
        proof {
            orig.lemma_packed_wf();
        }
        let data_len: usize = if pos > 0 {
            self.start_pos[pos - 1] - self.offset + self.len[pos - 1]
        } else {
            0
        };
        proof {
            assert(data_len == sum_lens(orig.len@, pos as int));
            assert(data_len <= orig.data@.len());
        }
        let mut tail_sp = self.start_pos.split_off(pos);
        core::mem::swap(&mut self.start_pos, &mut tail_sp);
        let prefix_sp = tail_sp;
        let mut tail_len = self.len.split_off(pos);
        core::mem::swap(&mut self.len, &mut tail_len);
        let prefix_len = tail_len;
        let mut tail_data = self.data.split_off(data_len);
        core::mem::swap(&mut self.data, &mut tail_data);
        let prefix_data = tail_data;
        let l = Self {
            item_type_id: self.item_type_id,
            offset: self.offset,
            data: prefix_data,
            start_pos: prefix_sp,
            len: prefix_len,
        };
        self.offset = self.offset + data_len;
        proof {
            Self::lemma_split_pieces(orig, l, *self, pos as int, data_len as int);
        }
        Ok(l)
    }
}

/// A binary column that entered as a shared borrowed view.
#[derive(Debug)]
pub struct BinarySlice {
    pub inner: OnwedBinaryColumn,
}

impl BinarySlice {
    /// Captures borrowed binary parts as a read-only view.
    pub fn new(offset: usize, data: Vec<u8>, start_pos: Vec<usize>, len: Vec<usize>) -> (r: Self)
        requires
            ({
                let c = OnwedBinaryColumn {
                    item_type_id: ItemTypeId::Str,
                    offset,
                    data,
                    start_pos,
                    len,
                };
                c.packed()
            }),
        ensures
            r.inner.offset == offset,
            r.inner.data == data,
            r.inner.start_pos == start_pos,
            r.inner.len == len,
            r.inner.item_type_id == ItemTypeId::Str,
            r.inner.packed(),
    {
        Self { inner: OnwedBinaryColumn::from_parts(data, start_pos, len, offset) }
    }

    /// The byte offset that a left split has removed.
    pub fn offset(&self) -> (o: usize)
        ensures
            o == self.inner.offset,
    {
        self.inner.offset
    }

    /// The runtime element type tag.
    pub fn item_type_id(&self) -> (t: ItemTypeId)
        ensures
            t == self.inner.item_type_id,
    {
        self.inner.item_type_id()
    }

    /// Whether the view holds elements of the type marked by `t`.
    pub fn is(&self, t: ItemTypeId) -> (r: bool)
        ensures
            r == (t == self.inner.item_type_id),
    {
        self.inner.is(t)
    }

    /// Checked borrow of the raw parts.
    pub fn downcast_binary_ref(&self, t: ItemTypeId) -> (r: Result<
        (&Vec<u8>, &Vec<usize>, &Vec<usize>, usize),
        ErrorDesc,
    >)
        ensures
            match r {
                Ok(p) => t == self.inner.item_type_id && p.0 == &self.inner.data && p.1
                    == &self.inner.start_pos && p.2 == &self.inner.len && p.3 == self.inner.offset,
                Err(e) => t != self.inner.item_type_id && e == ErrorDesc::TypeMismatch,
            },
    {
        self.inner.downcast_binary_ref(t)
    }

    /// Splits the first `pos` elements off; the receiver keeps the suffix.
    pub fn split_off_left(&mut self, pos: usize) -> (r: Result<Self, ErrorDesc>)
        requires
            old(self).inner.packed(),
        ensures
            match r {
                Ok(l) => {
                    &&& pos <= old(self).inner.len@.len()
                    &&& l.inner.packed()
                    &&& final(self).inner.packed()
                    &&& l.inner.elems() =~= old(self).inner.elems().subrange(0, pos as int)
                    &&& final(self).inner.elems() =~= old(self).inner.elems().subrange(
                        pos as int,
                        old(self).inner.elems().len() as int,
                    )
                    &&& l.inner.elems() + final(self).inner.elems() =~= old(self).inner.elems()
                    &&& l.inner.item_type_id == old(self).inner.item_type_id
                    &&& final(self).inner.item_type_id == old(self).inner.item_type_id
                },
                Err(e) => {
                    &&& pos > old(self).inner.len@.len()
                    &&& e == ErrorDesc::Boundary
                    &&& *final(self) == *old(self)
                },
            },
    {
        match self.inner.split_off_left(pos) {
            Ok(l) => Ok(Self { inner: l }),
            Err(e) => Err(e),
        }
    }
}

/// A binary column that entered as a mutable borrowed view.
#[derive(Debug)]
pub struct BinarySliceMut {
    pub inner: OnwedBinaryColumn,
}

impl BinarySliceMut {
    /// Captures borrowed binary parts as a writable view.
    pub fn new(offset: usize, data: Vec<u8>, start_pos: Vec<usize>, len: Vec<usize>) -> (r: Self)
        requires
            ({
                let c = OnwedBinaryColumn {
                    item_type_id: ItemTypeId::Str,
                    offset,
                    data,
                    start_pos,
                    len,
                };
                c.packed()
            }),
        ensures
            r.inner.offset == offset,
            r.inner.data == data,
            r.inner.start_pos == start_pos,
            r.inner.len == len,
            r.inner.item_type_id == ItemTypeId::Str,
            r.inner.packed(),
    {
        Self { inner: OnwedBinaryColumn::from_parts(data, start_pos, len, offset) }
    }

    /// The byte offset that a left split has removed.
    pub fn offset(&self) -> (o: usize)
        ensures
            o == self.inner.offset,
    {
        self.inner.offset
    }

    /// The runtime element type tag.
    pub fn item_type_id(&self) -> (t: ItemTypeId)
        ensures
            t == self.inner.item_type_id,
    {
        self.inner.item_type_id()
    }

    /// Whether the view holds elements of the type marked by `t`.
    pub fn is(&self, t: ItemTypeId) -> (r: bool)
        ensures
            r == (t == self.inner.item_type_id),
    {
        self.inner.is(t)
    }

    /// Checked borrow of the raw parts.
    pub fn downcast_binary_ref(&self, t: ItemTypeId) -> (r: Result<
        (&Vec<u8>, &Vec<usize>, &Vec<usize>, usize),
        ErrorDesc,
    >)
        ensures
            match r {
                Ok(p) => t == self.inner.item_type_id && p.0 == &self.inner.data && p.1
                    == &self.inner.start_pos && p.2 == &self.inner.len && p.3 == self.inner.offset,
                Err(e) => t != self.inner.item_type_id && e == ErrorDesc::TypeMismatch,
            },
    {
        self.inner.downcast_binary_ref(t)
    }

    /// Checked mutable access to the raw parts.
    pub fn downcast_binary_mut(&mut self, t: ItemTypeId) -> (r: Result<
        (&mut Vec<u8>, &mut Vec<usize>, &mut Vec<usize>, usize),
        ErrorDesc,
    >)
        ensures
            r is Ok <==> t == old(self).inner.item_type_id,
            r is Err ==> *final(self) == *old(self) && (r matches Err(e) && e
                == ErrorDesc::TypeMismatch),
            final(self).inner.item_type_id == old(self).inner.item_type_id,
            final(self).inner.offset == old(self).inner.offset,
            r matches Ok(p) ==> *p.0 == old(self).inner.data && *p.1 == old(self).inner.start_pos
                && *p.2 == old(self).inner.len && p.3 == old(self).inner.offset,
            r matches Ok(p) ==> final(self).inner.data == *final(p.0) && final(self).inner.start_pos
                == *final(p.1) && final(self).inner.len == *final(p.2),
    {
        self.inner.downcast_binary_mut(t)
    }

    /// Splits the first `pos` elements off; the receiver keeps the suffix.
    pub fn split_off_left(&mut self, pos: usize) -> (r: Result<Self, ErrorDesc>)
        requires
            old(self).inner.packed(),
        ensures
            match r {
                Ok(l) => {
                    &&& pos <= old(self).inner.len@.len()
                    &&& l.inner.packed()
                    &&& final(self).inner.packed()
                    &&& l.inner.elems() =~= old(self).inner.elems().subrange(0, pos as int)
                    &&& final(self).inner.elems() =~= old(self).inner.elems().subrange(
                        pos as int,
                        old(self).inner.elems().len() as int,
                    )
                    &&& l.inner.elems() + final(self).inner.elems() =~= old(self).inner.elems()
                    &&& l.inner.item_type_id == old(self).inner.item_type_id
                    &&& final(self).inner.item_type_id == old(self).inner.item_type_id
                },
                Err(e) => {
                    &&& pos > old(self).inner.len@.len()
                    &&& e == ErrorDesc::Boundary
                    &&& *final(self) == *old(self)
                },
            },
    {
        match self.inner.split_off_left(pos) {
            Ok(l) => Ok(Self { inner: l }),
            Err(e) => Err(e),
        }
    }
}

/// A zero-filled byte vector of the given length.
pub fn vec_fill_u8(n: usize) -> (r: Vec<u8>)
    ensures
        r@ =~= Seq::new(n as nat, |i: int| 0u8),
{
    let mut v: Vec<u8> = Vec::with_capacity(n);
    let mut k: usize = 0;
    while k < n
        invariant
            k <= n,
            v@ =~= Seq::new(k as nat, |i: int| 0u8),
        decreases n - k,
    {
        v.push(0);
        k = k + 1;
    }
    v
}

/// A zero-filled index vector of the given length.
pub fn vec_fill_usize(n: usize) -> (r: Vec<usize>)
    ensures
        r@ =~= Seq::new(n as nat, |i: int| 0usize),
{
    let mut v: Vec<usize> = Vec::with_capacity(n);
    let mut k: usize = 0;
    while k < n
        invariant
            k <= n,
            v@ =~= Seq::new(k as nat, |i: int| 0usize),
        decreases n - k,
    {
        v.push(0);
        k = k + 1;
    }
    v
}

} // verus!
