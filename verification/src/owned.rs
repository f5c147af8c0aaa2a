//! Owned sized-column storage and the borrowed-view markers.
//!
//! `SliceRef` / `SliceRefMut` stand for columns that entered the engine as
//! borrowed slices; they hold their own copy of the data, and the variants
//! record how the data entered and what it allows (truncation, downcasting
//! as a vector, writing through).

use vstd::prelude::*;

use crate::errors::ErrorDesc;
use crate::sized_data::{sized_len, sized_tag, Element, SizedData};
use crate::tag::ItemTypeId;

verus! {

/// A vector of `n` zero elements.
pub fn vec_fill<T: Element>(n: usize) -> (r: Vec<T>)
    ensures
        r@ =~= Seq::new(n as nat, |i: int| T::zero_spec()),
{
    let mut v: Vec<T> = Vec::with_capacity(n);
    let mut k: usize = 0;
    while k < n
        invariant
            k <= n,
            v@ =~= Seq::new(k as nat, |i: int| T::zero_spec()),
        decreases n - k,
    {
        v.push(T::zero());
        k = k + 1;
    }
    v
}

/// Owned, growable storage of sized elements.
#[derive(Debug)]
pub struct OwnedColumn {
    pub data: SizedData,
}

impl OwnedColumn {
    /// Builds owned storage from a vector.
    pub fn new<T: Element>(data: Vec<T>) -> (r: Self)
        ensures
            T::data_model(&r.data) == Some(data@),
            sized_tag(&r.data) == T::tag_spec(),
    {
        let d = T::wrap_vec(data);
        proof {
            T::data_model_tag(&d);
        }
        Self { data: d }
    }

    /// Owned storage with `n` zero elements.
    pub fn new_uninit<T: Element>(number_of_items: usize) -> (r: Self)
        ensures
            T::data_model(&r.data) == Some(Seq::new(number_of_items as nat, |i: int| T::zero_spec())),
            sized_tag(&r.data) == T::tag_spec(),
    {
        let v: Vec<T> = vec_fill(number_of_items);
        OwnedColumn::new(v)
    }

    /// The runtime element type tag.
    pub fn item_type_id(&self) -> (t: ItemTypeId)
        ensures
            t == sized_tag(&self.data),
    {
        self.data.tag()
    }

    /// Whether the storage holds elements of type `T`.
    pub fn is<T: Element>(&self) -> (r: bool)
        ensures
            r == (sized_tag(&self.data) == T::tag_spec()),
    {
        let t = T::tag();
        self.data.tag() == t
    }

    /// Checked move of the vector out of the storage.
    pub fn downcast_owned<T: Element>(self) -> (r: Result<Vec<T>, ErrorDesc>)
        ensures
            match r {
                Ok(v) => T::data_model(&self.data) == Some(v@),
                Err(e) => sized_tag(&self.data) != T::tag_spec() && e == ErrorDesc::TypeMismatch,
            },
            r is Ok <==> sized_tag(&self.data) == T::tag_spec(),
    {
        proof {
            T::data_model_tag(&self.data);
        }
        T::take_vec(self.data)
    }

    /// Checked borrow of the vector.
    pub fn downcast_ref<T: Element>(&self) -> (r: Result<&Vec<T>, ErrorDesc>)
        ensures
            match r {
                Ok(v) => T::data_model(&self.data) == Some(v@),
                Err(e) => sized_tag(&self.data) != T::tag_spec() && e == ErrorDesc::TypeMismatch,
            },
            r is Ok <==> sized_tag(&self.data) == T::tag_spec(),
    {
        proof {
            T::data_model_tag(&self.data);
        }
        T::borrow_vec(&self.data)
    }

    /// The number of elements.
    pub fn len(&self) -> (n: usize)
        ensures
            n == sized_len(&self.data),
    {
        self.data.len()
    }

    /// Drops all elements, keeping the element type.
    pub fn truncate(&mut self)
        ensures
            sized_tag(&final(self).data) == sized_tag(&old(self).data),
            sized_len(&final(self).data) == 0,
    {
        self.data.truncate()
    }
}

/// A column that entered as a shared borrowed slice (read-only view).
#[derive(Debug)]
pub struct SliceRef {
    pub data: SizedData,
}

impl SliceRef {
    /// The runtime element type tag.
    pub fn item_type_id(&self) -> (t: ItemTypeId)
        ensures
            t == sized_tag(&self.data),
    {
        self.data.tag()
    }

    /// Captures a borrowed slice as a read-only column view.
    pub fn new<T: Element>(s: &[T]) -> (r: Self)
        ensures
            T::data_model(&r.data) == Some(s@),
            sized_tag(&r.data) == T::tag_spec(),
    {
        let v = vstd::slice::slice_to_vec(s);
        let d = T::wrap_vec(v);
        proof {
            T::data_model_tag(&d);
        }
        Self { data: d }
    }

    /// Whether the view holds elements of type `T`.
    pub fn is<T: Element>(&self) -> (r: bool)
        ensures
            r == (sized_tag(&self.data) == T::tag_spec()),
    {
        let t = T::tag();
        self.data.tag() == t
    }

    /// Checked borrow of the elements.
    pub fn downcast_ref<T: Element>(&self) -> (r: Result<&Vec<T>, ErrorDesc>)
        ensures
            match r {
                Ok(v) => T::data_model(&self.data) == Some(v@),
                Err(e) => sized_tag(&self.data) != T::tag_spec() && e == ErrorDesc::TypeMismatch,
            },
            r is Ok <==> sized_tag(&self.data) == T::tag_spec(),
    {
        proof {
            T::data_model_tag(&self.data);
        }
        T::borrow_vec(&self.data)
    }

    /// Splits the first `pos` elements off into a new view; the receiver keeps
    /// the suffix. The prefix and suffix together are the original.
    pub fn split_off_left<T: Element>(&mut self, pos: usize) -> (r: Result<Self, ErrorDesc>)
        ensures
            match r {
                Ok(l) => {
                    &&& sized_tag(&old(self).data) == T::tag_spec()
                    &&& pos <= sized_len(&old(self).data)
                    &&& T::data_model(&l.data) == Some(
                        T::data_model(&old(self).data).unwrap().subrange(0, pos as int),
                    )
                    &&& T::data_model(&final(self).data) == Some(
                        T::data_model(&old(self).data).unwrap().subrange(
                            pos as int,
                            sized_len(&old(self).data) as int,
                        ),
                    )
                    &&& T::data_model(&l.data).unwrap() + T::data_model(&final(self).data).unwrap()
                        =~= T::data_model(&old(self).data).unwrap()
                },
                Err(e) => {
                    &&& (pos > sized_len(&old(self).data) || sized_tag(&old(self).data)
                        != T::tag_spec())
                    &&& *final(self) == *old(self)
                },
            },
    {
        proof {
            T::data_model_tag(&self.data);
        }
        let t = T::tag();
        if !(self.data.tag() == t) {
            return Err(ErrorDesc::TypeMismatch);
        }
        if pos > self.data.len() {
            return Err(ErrorDesc::Boundary);
        }
        let mut dummy = SizedData::U8(Vec::new());
        core::mem::swap(&mut self.data, &mut dummy);
        let taken = dummy;
        match T::take_vec(taken) {
            Ok(mut v) => {
                let mut tail = v.split_off(pos);
                core::mem::swap(&mut v, &mut tail);
                let prefix = tail;
                self.data = T::wrap_vec(v);
                Ok(Self { data: T::wrap_vec(prefix) })
            },
            Err(e) => {
                // Unreachable: the tag was checked above.
                self.data = T::wrap_vec(Vec::new());
                Err(e)
            },
        }
    }
}

/// A column that entered as a mutable borrowed slice.
#[derive(Debug)]
pub struct SliceRefMut {
    pub data: SizedData,
}

impl SliceRefMut {
    /// The runtime element type tag.
    pub fn item_type_id(&self) -> (t: ItemTypeId)
        ensures
            t == sized_tag(&self.data),
    {
        self.data.tag()
    }

    /// Captures a mutable borrowed slice as a writable column view.
    pub fn new<T: Element>(s: &mut [T]) -> (r: Self)
        ensures
            T::data_model(&r.data) == Some(old(s)@),
            final(s)@ == old(s)@,
            sized_tag(&r.data) == T::tag_spec(),
    {
        let v = vstd::slice::slice_to_vec(s);
        let d = T::wrap_vec(v);
        proof {
            T::data_model_tag(&d);
        }
        Self { data: d }
    }

    /// Whether the view holds elements of type `T`.
    pub fn is<T: Element>(&self) -> (r: bool)
        ensures
            r == (sized_tag(&self.data) == T::tag_spec()),
    {
        let t = T::tag();
        self.data.tag() == t
    }

    /// Checked borrow of the elements.
    pub fn downcast_ref<T: Element>(&self) -> (r: Result<&Vec<T>, ErrorDesc>)
        ensures
            match r {
                Ok(v) => T::data_model(&self.data) == Some(v@),
                Err(e) => sized_tag(&self.data) != T::tag_spec() && e == ErrorDesc::TypeMismatch,
            },
            r is Ok <==> sized_tag(&self.data) == T::tag_spec(),
    {
        proof {
            T::data_model_tag(&self.data);
        }
        T::borrow_vec(&self.data)
    }
}

} // verus!
