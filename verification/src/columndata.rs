//! The type-erased column storage: a tagged union of the eight storage
//! variants, with checked typed entry points, and the optional auxiliary
//! array `ColumnDataF` used for nullability bitmaps.

use vstd::prelude::*;

use crate::binarycolumn::{BinarySlice, BinarySliceMut, OnwedBinaryColumn};
use crate::errors::ErrorDesc;
use crate::owned::{OwnedColumn, SliceRef, SliceRefMut};
use crate::sized_data::{sized_len, sized_tag, Element, SizedData};
use crate::tag::ItemTypeId;

verus! {

/// One column's storage: sized or binary, owned, borrowed or constant.
#[derive(Debug)]
pub enum ColumnData {
    Owned(OwnedColumn),
    Slice(SliceRef),
    SliceMut(SliceRefMut),
    Const(OwnedColumn),
    BinaryOwned(OnwedBinaryColumn),
    BinarySlice(BinarySlice),
    BinarySliceMut(BinarySliceMut),
    BinaryConst(OnwedBinaryColumn),
}

impl ColumnData {
    /// The sized payload, when the variant is sized.
    pub open spec fn sized_of(&self) -> Option<SizedData> {
        match self {
            ColumnData::Owned(c) => Some(c.data),
            ColumnData::Slice(c) => Some(c.data),
            ColumnData::SliceMut(c) => Some(c.data),
            ColumnData::Const(c) => Some(c.data),
            _ => None,
        }
    }

    /// The binary payload, when the variant is binary.
    pub open spec fn binary_of(&self) -> Option<OnwedBinaryColumn> {
        match self {
            ColumnData::BinaryOwned(c) => Some(*c),
            ColumnData::BinarySlice(c) => Some(c.inner),
            ColumnData::BinarySliceMut(c) => Some(c.inner),
            ColumnData::BinaryConst(c) => Some(*c),

            _ => None,
        }
    }

    /// The runtime element type tag of the storage.
    pub open spec fn type_of(&self) -> ItemTypeId {
        match self.sized_of() {
            Some(d) => sized_tag(&d),
            None => self.binary_of().unwrap().item_type_id,
        }
    }

    /// The typed contents of a sized storage.
    pub open spec fn sized_model<T: Element>(&self) -> Option<Seq<T>> {
        match self.sized_of() {
            Some(d) => T::data_model(&d),
            None => None,
        }
    }

    /// The contents of a binary storage, one byte string per element.
    pub open spec fn binary_model(&self) -> Option<Seq<Seq<u8>>> {
        match self.binary_of() {
            Some(b) => Some(b.elems()),
            None => None,
        }
    }

    /// The logical element count, whatever the variant.
    pub open spec fn len_spec(&self) -> nat {
        match self.sized_of() {
            Some(d) => sized_len(&d),
            None => self.binary_of().unwrap().len@.len(),
        }
    }

    /// The storage's payload matches its runtime tag: a sized tag carries a
    /// sized payload, the binary tag a binary one.
    pub open spec fn typed_model_ok(&self) -> bool {
        match self.type_of() {
            ItemTypeId::Str => self.binary_model() is Some,
            _ => self.sized_of() is Some,
        }
    }

    /// A storage whose payload matches its tag has the typed model its tag
    /// names.
    pub proof fn lemma_typed_model(&self)
        requires
            self.typed_model_ok(),
        ensures
            match self.type_of() {
                ItemTypeId::U8 => self.sized_model::<u8>() is Some,
                ItemTypeId::U16 => self.sized_model::<u16>() is Some,
                ItemTypeId::U32 => self.sized_model::<u32>() is Some,
                ItemTypeId::U64 => self.sized_model::<u64>() is Some,
                ItemTypeId::USize => self.sized_model::<usize>() is Some,
                ItemTypeId::Bool => self.sized_model::<bool>() is Some,
                ItemTypeId::Str => self.binary_model() is Some,
            },
    {
        if self.sized_of() is Some {
            <u8 as Element>::data_model_tag(&self.sized_of().unwrap());
            <u16 as Element>::data_model_tag(&self.sized_of().unwrap());
            <u32 as Element>::data_model_tag(&self.sized_of().unwrap());
            <u64 as Element>::data_model_tag(&self.sized_of().unwrap());
            <usize as Element>::data_model_tag(&self.sized_of().unwrap());
            <bool as Element>::data_model_tag(&self.sized_of().unwrap());
        }
    }

    /// Binary storages keep their layout invariant.
    pub open spec fn data_wf(&self) -> bool {
        match self.binary_of() {
            Some(b) => b.wf(),
            None => true,
        }
    }

    /// The runtime element type tag.
    pub fn item_type_id(&self) -> (t: ItemTypeId)
        ensures
            t == self.type_of(),
    {
        match self {
            ColumnData::Owned(c) => c.item_type_id(),
            ColumnData::SliceMut(c) => c.item_type_id(),
            ColumnData::Slice(c) => c.item_type_id(),
            ColumnData::Const(c) => c.item_type_id(),
            ColumnData::BinaryOwned(c) => c.item_type_id(),
            ColumnData::BinarySliceMut(c) => c.item_type_id(),
            ColumnData::BinarySlice(c) => c.item_type_id(),
            ColumnData::BinaryConst(c) => c.item_type_id(),
        }
    }

    /// Whether the storage is a constant (single element broadcast).
    pub fn is_const(&self) -> (r: bool)
        ensures
            r == (self is Const || self is BinaryConst),
    {
        match self {
            ColumnData::Const(_) => true,
            ColumnData::BinaryConst(_) => true,
            _ => false,
        }
    }

    /// Whether the storage owns its data and may grow or shrink.
    pub fn is_owned(&self) -> (r: bool)
        ensures
            r == (self is Owned || self is BinaryOwned),
    {
        match self {
            ColumnData::Owned(_) => true,
            ColumnData::BinaryOwned(_) => true,
            _ => false,
        }
    }

    /// Whether the storage holds variable-length elements.
    pub fn is_binary(&self) -> (r: bool)
        ensures
            r == (self.binary_of() is Some),
    {
        match self {
            ColumnData::BinaryOwned(_) => true,
            ColumnData::BinarySliceMut(_) => true,
            ColumnData::BinarySlice(_) => true,
            ColumnData::BinaryConst(_) => true,
            _ => false,
        }
    }

    /// Whether the storage holds fixed-width elements.
    pub fn is_sized(&self) -> (r: bool)
        ensures
            r == (self.sized_of() is Some),
    {
        match self {
            ColumnData::Owned(_) => true,
            ColumnData::SliceMut(_) => true,
            ColumnData::Slice(_) => true,
            ColumnData::Const(_) => true,
            _ => false,
        }
    }

    /// Whether the storage holds elements of type `T`.
    pub fn is<T: Element>(&self) -> (r: bool)
        ensures
            r == (self.type_of() == T::tag_spec()),
    {
        let t = T::tag();
        self.item_type_id() == t
    }

    /// Checked move of the element vector out of an owned sized storage.
    pub fn downcast_owned<T: Element>(self) -> (r: Result<Vec<T>, ErrorDesc>)
        ensures
            match r {
                Ok(v) => (self is Owned || self is Const) && self.sized_model::<T>() == Some(v@),
                Err(_) => !((self is Owned || self is Const) && self.sized_model::<T>() is Some),
            },
    {
        proof {
            if self.sized_of() is Some {
                T::data_model_tag(&self.sized_of().unwrap());
            }
        }
        match self {
            ColumnData::Owned(c) => c.downcast_owned::<T>(),
            ColumnData::Const(c) => c.downcast_owned::<T>(),
            _ => Err(ErrorDesc::ShapeMismatch),
        }
    }

    /// Checked borrow of the elements of a sized storage.
    pub fn downcast_ref<T: Element>(&self) -> (r: Result<&Vec<T>, ErrorDesc>)
        ensures
            match r {
                Ok(v) => self.sized_model::<T>() == Some(v@),
                Err(_) => self.sized_model::<T>() is None,
            },
    {
        proof {
            if self.sized_of() is Some {
                T::data_model_tag(&self.sized_of().unwrap());
            }
        }
        match self {
            ColumnData::Owned(c) => c.downcast_ref::<T>(),
            ColumnData::SliceMut(c) => c.downcast_ref::<T>(),
            ColumnData::Slice(c) => c.downcast_ref::<T>(),
            ColumnData::Const(c) => c.downcast_ref::<T>(),
            _ => Err(ErrorDesc::ShapeMismatch),
        }
    }

    /// The number of elements of a sized storage of type `T`.
    pub fn data_len<T: Element>(&self) -> (r: Result<usize, ErrorDesc>)
        ensures
            match r {
                Ok(n) => self.sized_model::<T>() is Some && n == self.len_spec() && n
                    == self.sized_model::<T>().unwrap().len(),
                Err(_) => self.sized_model::<T>() is None,
            },
    {
        proof {
            if self.sized_of() is Some {
                T::data_model_tag(&self.sized_of().unwrap());
            }
        }
        match self.downcast_ref::<T>() {
            Ok(v) => Ok(v.len()),
            Err(e) => Err(e),
        }
    }

    /// Checked move of the raw parts out of an owned binary storage.
    pub fn downcast_binary_owned(self, t: ItemTypeId) -> (r: Result<
        (Vec<u8>, Vec<usize>, Vec<usize>, usize),
        ErrorDesc,
    >)
        ensures
            match r {
                Ok(p) => {
                    &&& (self is BinaryOwned || self is BinaryConst)
                    &&& t == self.type_of()
                    &&& self.binary_of() == Some(
                        OnwedBinaryColumn::from_parts_spec(p.0, p.1, p.2, p.3, t),
                    )
                },
                Err(_) => !((self is BinaryOwned || self is BinaryConst) && t == self.type_of()),
            },
    {
        match self {
            ColumnData::BinaryOwned(c) => c.downcast_binary_owned(t),
            ColumnData::BinaryConst(c) => c.downcast_binary_owned(t),
            _ => Err(ErrorDesc::ShapeMismatch),
        }
    }

    /// Checked borrow of the raw parts of a binary storage.
    pub fn downcast_binary_ref(&self, t: ItemTypeId) -> (r: Result<
        (&Vec<u8>, &Vec<usize>, &Vec<usize>, usize),
        ErrorDesc,
    >)
        ensures
            match r {
                Ok(p) => {
                    &&& self.binary_of() is Some
                    &&& t == self.type_of()
                    &&& self.binary_of() == Some(
                        OnwedBinaryColumn::from_parts_spec(*p.0, *p.1, *p.2, p.3, t),
                    )
                },
                Err(_) => !(self.binary_of() is Some && t == self.type_of()),
            },
    {
        match self {
            ColumnData::BinaryOwned(c) => c.downcast_binary_ref(t),
            ColumnData::BinarySliceMut(c) => c.downcast_binary_ref(t),
            ColumnData::BinarySlice(c) => c.downcast_binary_ref(t),
            ColumnData::BinaryConst(c) => c.downcast_binary_ref(t),
            _ => Err(ErrorDesc::ShapeMismatch),
        }
    }

    /// The byte offset that left splits have removed from a binary storage.
    pub fn get_binary_offset(&self) -> (r: Result<usize, ErrorDesc>)
        ensures
            match r {
                Ok(o) => self.binary_of() is Some && o == self.binary_of().unwrap().offset,
                Err(e) => self.binary_of() is None && e == ErrorDesc::ShapeMismatch,
            },
    {
        match self {
            ColumnData::BinaryOwned(c) => Ok(c.offset),
            ColumnData::BinarySliceMut(c) => Ok(c.inner.offset),
            ColumnData::BinarySlice(c) => Ok(c.inner.offset),
            ColumnData::BinaryConst(c) => Ok(c.offset),
            _ => Err(ErrorDesc::ShapeMismatch),
        }
    }

    /// Promotes an owned binary column of exactly one element to a constant.
    pub fn binary_to_const(self) -> (r: Result<Self, ErrorDesc>)
        ensures
            match r {
                Ok(c) => self is BinaryOwned && self.len_spec() == 1 && c is BinaryConst
                    && c.binary_of() == self.binary_of(),
                Err(e) => !(self is BinaryOwned && self.len_spec() == 1) && e == ErrorDesc::Policy,
            },
    {
        match self {
            ColumnData::BinaryOwned(c) => {
                if c.len() == 1 {
                    Ok(ColumnData::BinaryConst(c))
                } else {
                    Err(ErrorDesc::Policy)
                }
            },
            _ => Err(ErrorDesc::Policy),
        }
    }

    /// Marks freshly written storage as initialized. Writable variants pass
    /// through; read-only ones are rejected.
    pub fn assume_init(self) -> (r: Result<Self, ErrorDesc>)
        ensures
            match r {
                Ok(c) => (self is Owned || self is SliceMut || self is BinaryOwned
                    || self is BinarySliceMut) && c == self,
                Err(e) => (self is Slice || self is Const || self is BinarySlice
                    || self is BinaryConst) && e == ErrorDesc::Policy,
            },
    {
        match self {
            ColumnData::Owned(_) => Ok(self),
            ColumnData::SliceMut(_) => Ok(self),
            ColumnData::BinaryOwned(_) => Ok(self),
            ColumnData::BinarySliceMut(_) => Ok(self),
            _ => Err(ErrorDesc::Policy),
        }
    }
}

/// Four-state optional auxiliary array: used for nullability bitmaps and for
/// dense auxiliary vectors.
#[derive(Debug, PartialEq, Eq)]
pub enum ColumnDataF<T> {
    Owned(Vec<T>),
    Slice(Vec<T>),
    SliceMut(Vec<T>),
    Missing,
}

impl<T> ColumnDataF<T> {
    /// The contents, when present.
    pub open spec fn model(&self) -> Option<Seq<T>> {
        match self {
            ColumnDataF::Owned(v) => Some(v@),
            ColumnDataF::Slice(v) => Some(v@),
            ColumnDataF::SliceMut(v) => Some(v@),
            ColumnDataF::Missing => None,
        }
    }

    /// Whether data is present.
    pub fn is_some(&self) -> (r: bool)
        ensures
            r == (self.model() is Some),
    {
        match self {
            ColumnDataF::Missing => false,
            _ => true,
        }
    }

    /// Whether data is absent.
    pub fn is_empty(&self) -> (r: bool)
        ensures
            r == (self.model() is None),
    {
        match self {
            ColumnDataF::Missing => true,
            _ => false,
        }
    }

    /// The length, when data is present.
    pub fn len(&self) -> (r: Option<usize>)
        ensures
            match r {
                Some(n) => self.model() is Some && n == self.model().unwrap().len(),
                None => self.model() is None,
            },
    {
        match self {
            ColumnDataF::Owned(v) => Some(v.len()),
            ColumnDataF::Slice(v) => Some(v.len()),
            ColumnDataF::SliceMut(v) => Some(v.len()),
            ColumnDataF::Missing => None,
        }
    }

    /// Checked borrow of the contents.
    pub fn downcast_ref(&self) -> (r: Result<&Vec<T>, ErrorDesc>)
        ensures
            match r {
                Ok(v) => self.model() == Some(v@),
                Err(e) => self.model() is None && e == ErrorDesc::ShapeMismatch,
            },
    {
        match self {
            ColumnDataF::Owned(v) => Ok(v),
            ColumnDataF::Slice(v) => Ok(v),
            ColumnDataF::SliceMut(v) => Ok(v),
            ColumnDataF::Missing => Err(ErrorDesc::ShapeMismatch),
        }
    }

    /// Checked mutable borrow of writable contents.
    pub fn downcast_mut(&mut self) -> (r: Result<&mut Vec<T>, ErrorDesc>)
        ensures
            r is Ok <==> (*old(self) is Owned || *old(self) is SliceMut),
            r matches Ok(v) ==> old(self).model() == Some((*v)@) && final(self).model() == Some(
                final(v)@,
            ) && (*final(self) is Owned <==> *old(self) is Owned),
            r is Err ==> *final(self) == *old(self),
    {
        match self {
            ColumnDataF::Owned(v) => Ok(v),
            ColumnDataF::SliceMut(v) => Ok(v),
            ColumnDataF::Slice(_) => Err(ErrorDesc::ShapeMismatch),
            ColumnDataF::Missing => Err(ErrorDesc::ShapeMismatch),
        }
    }

    /// Checked mutable borrow of the owned vector.
    pub fn downcast_vec(&mut self) -> (r: Result<&mut Vec<T>, ErrorDesc>)
        ensures
            r is Ok <==> *old(self) is Owned,
            r matches Ok(v) ==> old(self).model() == Some((*v)@) && final(self).model() == Some(
                final(v)@,
            ) && *final(self) is Owned,
            r is Err ==> *final(self) == *old(self),
    {
        match self {
            ColumnDataF::Owned(v) => Ok(v),
            _ => Err(ErrorDesc::ShapeMismatch),
        }
    }

    /// Wraps an owned vector.
    pub fn new(data: Vec<T>) -> (r: Self)
        ensures
            r == ColumnDataF::Owned(data),
    {
        ColumnDataF::Owned(data)
    }

    /// Whether the contents are owned.
    pub fn is_owned(&self) -> (r: bool)
        ensures
            r == (self is Owned),
    {
        match self {
            ColumnDataF::Owned(_) => true,
            _ => false,
        }
    }

    /// Moves the contents out, leaving absence behind.
    pub fn take(&mut self) -> (r: Self)
        ensures
            r == *old(self),
            *final(self) == ColumnDataF::<T>::Missing,
    {
        let mut tmp = ColumnDataF::Missing;
        core::mem::swap(self, &mut tmp);
        tmp
    }
}

impl<T: Copy> ColumnDataF<T> {
    /// Captures a borrowed slice (read-only).
    pub fn new_from_slice(data: &[T]) -> (r: Self)
        ensures
            r.model() == Some(data@),
            r is Slice,
    {
        ColumnDataF::Slice(vstd::slice::slice_to_vec(data))
    }

    /// Captures a mutable borrowed slice.
    pub fn new_from_slice_mut(data: &mut [T]) -> (r: Self)
        ensures
            r.model() == Some(old(data)@),
            final(data)@ == old(data)@,
            r is SliceMut,
    {
        ColumnDataF::SliceMut(vstd::slice::slice_to_vec(data))
    }
}

} // verus!
