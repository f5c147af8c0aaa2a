//! Read views over sized columns.
//!
//! A `(storage, bitmap, index, const-flag)` tuple is lowered once, at kernel
//! entry, into one of seven shapes; the hot loop then reads a monomorphic
//! shape through `index(i)`.

use vstd::prelude::*;

use crate::column::ColumnWrapper;
use crate::columndata::{ColumnData, ColumnDataF};
use crate::errors::ErrorDesc;
use crate::index::ColumnDataIndex;
use crate::ops::InputTypes;
use crate::sized_data::Element;

verus! {

/// The validity bit of storage row `j` under an optional bitmap.
pub open spec fn bit_at(bitmap: Option<Seq<bool>>, j: int) -> bool {
    match bitmap {
        Some(b) => b[j],
        None => true,
    }
}

/// The validity bit a constant column broadcasts.
pub open spec fn const_bit(bitmap: Option<Seq<bool>>, index: &ColumnDataIndex) -> bool {
    if index.option_model() is Some {
        index.option_model().unwrap()[0] is Some
    } else if bitmap is Some {
        bitmap.unwrap()[0]
    } else {
        true
    }
}

/// The logical rows `(valid, value)` that a read of `(vals, bitmap, index)`
/// yields. A constant broadcasts its single value `target_len` times; an
/// index remaps rows at read time; an `Option`-valued index reads absent
/// source rows as null.
pub open spec fn resolved<V>(
    vals: Seq<V>,
    bitmap: Option<Seq<bool>>,
    index: &ColumnDataIndex,
    is_const: bool,
    target_len: nat,
) -> Seq<(bool, V)> {
    if is_const {
        Seq::new(target_len, |i: int| (const_bit(bitmap, index), vals[0]))
    } else if index.plain_model() is Some {
        let ix = index.plain_model().unwrap();
        Seq::new(ix.len(), |i: int| (bit_at(bitmap, ix[i] as int), vals[ix[i] as int]))
    } else if index.option_model() is Some {
        let ix = index.option_model().unwrap();
        Seq::new(
            ix.len(),
            |i: int|
                match ix[i] {
                    Some(j) => (bit_at(bitmap, j as int), vals[j as int]),
                    None => (false, vals[0]),
                },
        )
    } else {
        Seq::new(vals.len(), |i: int| (bit_at(bitmap, i), vals[i]))
    }
}

/// Dense data, all rows valid.
pub struct IRCNoBitmapNoIndex<'a, T> {
    pub data: &'a [T],
}

/// Dense data with a validity bitmap.
pub struct IRCBitmapNoIndex<'a, T> {
    pub data: &'a [T],
    pub bitmap: &'a [bool],
}

/// Indexed data, all rows valid.
pub struct IRCNoBitmapIndex<'a, T> {
    pub data: &'a [T],
    pub index: &'a [usize],
}

/// Indexed data with a validity bitmap (bitmap indexed through the index).
pub struct IRCBitmapIndex<'a, T> {
    pub data: &'a [T],
    pub index: &'a [usize],
    pub bitmap: &'a [bool],
}

/// Option-indexed data, absent rows read as null.
pub struct IRCNoBitmapIndexOption<'a, T> {
    pub data: &'a [T],
    pub index: &'a [Option<usize>],
}

/// Option-indexed data with a validity bitmap.
pub struct IRCBitmapIndexOption<'a, T> {
    pub data: &'a [T],
    pub index: &'a [Option<usize>],
    pub bitmap: &'a [bool],
}

/// A single value broadcast `target_len` times.
pub struct IRCConst<'a, T> {
    pub data: &'a T,
    pub bitmap: bool,
    pub target_len: usize,
}

/// A lowered read view over a sized column.
pub enum ReadColumn<'a, T> {
    BitmapIndex(IRCBitmapIndex<'a, T>),
    BitmapNoIndex(IRCBitmapNoIndex<'a, T>),
    BitmapIndexOption(IRCBitmapIndexOption<'a, T>),
    NoBitmapIndex(IRCNoBitmapIndex<'a, T>),
    NoBitmapNoIndex(IRCNoBitmapNoIndex<'a, T>),
    NoBitmapIndexOption(IRCNoBitmapIndexOption<'a, T>),
    Const(IRCConst<'a, T>),
}

impl<'a, T: Element> ReadColumn<'a, T> {
    /// Shape soundness: bitmaps align with the data and indexed positions lie
    /// inside it.
    pub open spec fn wf(&self) -> bool {
        match self {
            ReadColumn::NoBitmapNoIndex(c) => true,
            ReadColumn::BitmapNoIndex(c) => c.bitmap@.len() == c.data@.len(),
            ReadColumn::NoBitmapIndex(c) => forall|i: int|
                0 <= i < c.index@.len() ==> #[trigger] c.index@[i] < c.data@.len(),
            ReadColumn::BitmapIndex(c) => c.bitmap@.len() == c.data@.len() && forall|i: int|
                0 <= i < c.index@.len() ==> #[trigger] c.index@[i] < c.data@.len(),
            ReadColumn::NoBitmapIndexOption(c) => c.data@.len() > 0 && forall|i: int|
                0 <= i < c.index@.len() ==> ((#[trigger] c.index@[i]) matches Some(j) ==> j
                    < c.data@.len()),
            ReadColumn::BitmapIndexOption(c) => c.bitmap@.len() == c.data@.len() && c.data@.len()
                > 0 && forall|i: int|
                0 <= i < c.index@.len() ==> ((#[trigger] c.index@[i]) matches Some(j) ==> j
                    < c.data@.len()),
            ReadColumn::Const(c) => true,
        }
    }

    /// The number of logical rows.
    pub open spec fn len_spec(&self) -> nat {
        match self {
            ReadColumn::NoBitmapNoIndex(c) => c.data@.len(),
            ReadColumn::BitmapNoIndex(c) => c.data@.len(),
            ReadColumn::NoBitmapIndex(c) => c.index@.len(),
            ReadColumn::BitmapIndex(c) => c.index@.len(),
            ReadColumn::NoBitmapIndexOption(c) => c.index@.len(),
            ReadColumn::BitmapIndexOption(c) => c.index@.len(),
            ReadColumn::Const(c) => c.target_len as nat,
        }
    }

    /// Logical row `i` as a `(valid, value)` pair.
    pub open spec fn item(&self, i: int) -> (bool, T) {
        match self {
            ReadColumn::NoBitmapNoIndex(c) => (true, c.data@[i]),
            ReadColumn::BitmapNoIndex(c) => (c.bitmap@[i], c.data@[i]),
            ReadColumn::NoBitmapIndex(c) => (true, c.data@[c.index@[i] as int]),
            ReadColumn::BitmapIndex(c) => (
                c.bitmap@[c.index@[i] as int],
                c.data@[c.index@[i] as int],
            ),
            ReadColumn::NoBitmapIndexOption(c) => match c.index@[i] {
                Some(j) => (true, c.data@[j as int]),
                None => (false, c.data@[0]),
            },
            ReadColumn::BitmapIndexOption(c) => match c.index@[i] {
                Some(j) => (c.bitmap@[j as int], c.data@[j as int]),
                None => (false, c.data@[0]),
            },
            ReadColumn::Const(c) => (c.bitmap, *c.data),
        }
    }

    /// All logical rows.
    pub open spec fn items(&self) -> Seq<(bool, T)> {
        Seq::new(self.len_spec(), |i: int| self.item(i))
    }

    /// The number of logical rows.
    pub fn len(&self) -> (n: usize)
        ensures
            n == self.len_spec(),
    {
        match self {
            ReadColumn::NoBitmapNoIndex(c) => c.data.len(),
            ReadColumn::BitmapNoIndex(c) => c.data.len(),
            ReadColumn::NoBitmapIndex(c) => c.index.len(),
            ReadColumn::BitmapIndex(c) => c.index.len(),
            ReadColumn::NoBitmapIndexOption(c) => c.index.len(),
            ReadColumn::BitmapIndexOption(c) => c.index.len(),
            ReadColumn::Const(c) => c.target_len,
        }
    }

    /// Reads logical row `i`.
    pub fn index(&self, i: usize) -> (r: (bool, T))
        requires
            self.wf(),
            i < self.len_spec(),
        ensures
            r == self.item(i as int),
    {
        match self {
            ReadColumn::NoBitmapNoIndex(c) => (true, c.data[i]),
            ReadColumn::BitmapNoIndex(c) => (c.bitmap[i], c.data[i]),
            ReadColumn::NoBitmapIndex(c) => (true, c.data[c.index[i]]),
            ReadColumn::BitmapIndex(c) => (c.bitmap[c.index[i]], c.data[c.index[i]]),
            ReadColumn::NoBitmapIndexOption(c) => match c.index[i] {
                Some(j) => (true, c.data[j]),
                None => (false, c.data[0]),
            },
            ReadColumn::BitmapIndexOption(c) => match c.index[i] {
                Some(j) => (c.bitmap[j], c.data[j]),
                None => (false, c.data[0]),
            },
            ReadColumn::Const(c) => (c.bitmap, *c.data),
        }
    }

    /// Stretches a constant view to the output length once it is known.
    pub fn update_len_if_const(&mut self, new_len: usize)
        ensures
            final(self).wf() == old(self).wf(),
            !(*old(self) is Const) ==> *final(self) == *old(self),
            *old(self) is Const ==> final(self).len_spec() == new_len && forall|i: int|
                0 <= i < new_len ==> final(self).item(i) == old(self).item(0),
    {
        match self {
            ReadColumn::Const(c) => {
                c.target_len = new_len;
            },
            _ => {},
        }
    }

    /// Lowers a column, bitmap and index into the matching shape.
    pub fn from_parts(
        data: &'a ColumnData,
        bitmap: &'a ColumnDataF<bool>,
        index: &'a ColumnDataIndex,
        target_len: usize,
    ) -> (r: Result<ReadColumn<'a, T>, ErrorDesc>)
        requires
            data.sized_model::<T>() matches Some(vals) ==> {
                &&& bitmap.model() matches Some(b) ==> b.len() == vals.len()
                &&& index.in_bounds(vals.len())
                &&& !(data is Const) && index.option_model() is Some ==> vals.len() > 0
                &&& data is Const ==> vals.len() > 0 && (bitmap.model() matches Some(b) ==> b.len()
                    > 0) && (index.option_model() matches Some(ix) ==> ix.len() > 0)
            },
        ensures
            match r {
                Ok(rc) => {
                    &&& data.sized_model::<T>() is Some
                    &&& rc.wf()
                    &&& rc.items() =~= resolved(
                        data.sized_model::<T>().unwrap(),
                        bitmap.model(),
                        index,
                        data is Const,
                        target_len as nat,
                    )
                },
                Err(_) => data.sized_model::<T>() is None,
            },
    {
        let is_const = data.is_const();
        let d = match data.downcast_ref::<T>() {
            Ok(v) => v,
            Err(e) => {
                return Err(e);
            },
        };
        if is_const {
            let b: bool = match index.downcast_option_ref() {
                Ok(ix) => ix[0].is_some(),
                Err(_) => match bitmap.downcast_ref() {
                    Ok(bm) => bm[0],
                    Err(_) => true,
                },
            };
            Ok(ReadColumn::Const(IRCConst { data: &d[0], bitmap: b, target_len }))
        } else {
            match bitmap.downcast_ref() {
                Ok(bm) => {
                    match index.downcast_ref() {
                        Ok(ix) => Ok(
                            ReadColumn::BitmapIndex(
                                IRCBitmapIndex {
                                    data: d.as_slice(),
                                    index: ix.as_slice(),
                                    bitmap: bm.as_slice(),
                                },
                            ),
                        ),
                        Err(_) => match index.downcast_option_ref() {
                            Ok(ix) => Ok(
                                ReadColumn::BitmapIndexOption(
                                    IRCBitmapIndexOption {
                                        data: d.as_slice(),
                                        index: ix.as_slice(),
                                        bitmap: bm.as_slice(),
                                    },
                                ),
                            ),
                            Err(_) => Ok(
                                ReadColumn::BitmapNoIndex(
                                    IRCBitmapNoIndex { data: d.as_slice(), bitmap: bm.as_slice() },
                                ),
                            ),
                        },
                    }
                },
                Err(_) => {
                    match index.downcast_ref() {
                        Ok(ix) => Ok(
                            ReadColumn::NoBitmapIndex(
                                IRCNoBitmapIndex { data: d.as_slice(), index: ix.as_slice() },
                            ),
                        ),
                        Err(_) => match index.downcast_option_ref() {
                            Ok(ix) => Ok(
                                ReadColumn::NoBitmapIndexOption(
                                    IRCNoBitmapIndexOption {
                                        data: d.as_slice(),
                                        index: ix.as_slice(),
                                    },
                                ),
                            ),
                            Err(_) => Ok(
                                ReadColumn::NoBitmapNoIndex(
                                    IRCNoBitmapNoIndex { data: d.as_slice() },
                                ),
                            ),
                        },
                    }
                },
            }
        }
    }

    /// Lowers a kernel input into the matching shape.
    pub fn from_input(c: &'a InputTypes<'a>, target_len: usize) -> (r: Result<
        ReadColumn<'a, T>,
        ErrorDesc,
    >)
        requires
            crate::ops::sized_input_ok::<T>(*c),
        ensures
            match r {
                Ok(rc) => {
                    &&& c.wrapper_of().column.sized_model::<T>() is Some
                    &&& rc.wf()
                    &&& rc.items() =~= crate::ops::sized_input_rows::<T>(*c, target_len as nat)
                },
                Err(_) => c.wrapper_of().column.sized_model::<T>() is None,
            },
    {
        let (cw, ci): (&ColumnWrapper, &ColumnDataIndex) = c.parts();
        ReadColumn::from_parts(&cw.column, &cw.bitmap, ci, target_len)
    }
}

} // verus!
