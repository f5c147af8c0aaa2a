//! Read views over binary (variable-length) columns.
//!
//! The seven shapes mirror the sized ones; each logical row reads as a byte
//! string sliced out of the blob through the `start_pos` / `len` tables.

use vstd::prelude::*;

use crate::column::ColumnWrapper;
use crate::columndata::{ColumnData, ColumnDataF};
use crate::errors::ErrorDesc;
use crate::index::ColumnDataIndex;
use crate::indexedreadcolumn::{bit_at, resolved};
use crate::ops::InputTypes;
use crate::tag::ItemTypeId;

verus! {

/// Raw binary parts viewed together: blob, tables and split offset.
pub struct BinParts<'a> {
    pub data: &'a [u8],
    pub start_pos: &'a [usize],
    pub len: &'a [usize],
    pub offset: usize,
}

impl<'a> BinParts<'a> {
    /// The byte string of storage row `j`.
    pub open spec fn elem(&self, j: int) -> Seq<u8> {
        self.data@.subrange(
            self.start_pos@[j] - self.offset,
            self.start_pos@[j] - self.offset + self.len@[j],
        )
    }

    /// All byte strings.
    pub open spec fn elems(&self) -> Seq<Seq<u8>> {
        Seq::new(self.start_pos@.len(), |j: int| self.elem(j))
    }

    /// The layout invariant over the borrowed parts.
    pub open spec fn wf(&self) -> bool {
        &&& self.start_pos@.len() == self.len@.len()
        &&& forall|j: int|
            0 <= j < self.start_pos@.len() ==> self.offset <= #[trigger] self.start_pos@[j]
                && self.start_pos@[j] - self.offset + self.len@[j] <= self.data@.len()
    }

    /// Reads the byte string of storage row `j`.
    pub fn get(&self, j: usize) -> (r: &'a [u8])
        requires
            self.wf(),
            j < self.start_pos@.len(),
        ensures
            r@ == self.elem(j as int),
    {
        let total: usize = self.data.len();
        let s: usize = self.start_pos[j] - self.offset;
        let e: usize = s + self.len[j];
        &self.data[s..e]
    }
}

/// Dense binary data, all rows valid.
pub struct IRCBinaryNoBitmapNoIndex<'a> {
    pub parts: BinParts<'a>,
}

/// Dense binary data with a validity bitmap.
pub struct IRCBinaryBitmapNoIndex<'a> {
    pub parts: BinParts<'a>,
    pub bitmap: &'a [bool],
}

/// Indexed binary data, all rows valid.
pub struct IRCBinaryNoBitmapIndex<'a> {
    pub parts: BinParts<'a>,
    pub index: &'a [usize],
}

/// Indexed binary data with a validity bitmap.
pub struct IRCBinaryBitmapIndex<'a> {
    pub parts: BinParts<'a>,
    pub index: &'a [usize],
    pub bitmap: &'a [bool],
}

/// Option-indexed binary data, absent rows read as null.
pub struct IRCBinaryNoBitmapIndexOption<'a> {
    pub parts: BinParts<'a>,
    pub index: &'a [Option<usize>],
}

/// Option-indexed binary data with a validity bitmap.
pub struct IRCBinaryBitmapIndexOption<'a> {
    pub parts: BinParts<'a>,
    pub index: &'a [Option<usize>],
    pub bitmap: &'a [bool],
}

/// A single byte string broadcast `target_len` times.
pub struct IRCBinaryConst<'a> {
    pub data: &'a [u8],
    pub bitmap: bool,
    pub target_len: usize,
}

/// A lowered read view over a binary column.
pub enum ReadBinaryColumn<'a> {
    BitmapIndex(IRCBinaryBitmapIndex<'a>),
    BitmapNoIndex(IRCBinaryBitmapNoIndex<'a>),
    BitmapIndexOption(IRCBinaryBitmapIndexOption<'a>),
    NoBitmapIndex(IRCBinaryNoBitmapIndex<'a>),
    NoBitmapNoIndex(IRCBinaryNoBitmapNoIndex<'a>),
    NoBitmapIndexOption(IRCBinaryNoBitmapIndexOption<'a>),
    Const(IRCBinaryConst<'a>),
}

impl<'a> ReadBinaryColumn<'a> {
    /// Shape soundness: layout invariant, aligned bitmap, in-bounds index.
    pub open spec fn wf(&self) -> bool {
        match self {
            ReadBinaryColumn::NoBitmapNoIndex(c) => c.parts.wf(),
            ReadBinaryColumn::BitmapNoIndex(c) => c.parts.wf() && c.bitmap@.len()
                == c.parts.start_pos@.len(),
            ReadBinaryColumn::NoBitmapIndex(c) => c.parts.wf() && forall|i: int|
                0 <= i < c.index@.len() ==> #[trigger] c.index@[i] < c.parts.start_pos@.len(),
            ReadBinaryColumn::BitmapIndex(c) => c.parts.wf() && c.bitmap@.len()
                == c.parts.start_pos@.len() && forall|i: int|
                0 <= i < c.index@.len() ==> #[trigger] c.index@[i] < c.parts.start_pos@.len(),
            ReadBinaryColumn::NoBitmapIndexOption(c) => c.parts.wf() && c.parts.start_pos@.len() > 0
                && forall|i: int|
                0 <= i < c.index@.len() ==> ((#[trigger] c.index@[i]) matches Some(j) ==> j
                    < c.parts.start_pos@.len()),
            ReadBinaryColumn::BitmapIndexOption(c) => c.parts.wf() && c.bitmap@.len()
                == c.parts.start_pos@.len() && c.parts.start_pos@.len() > 0 && forall|i: int|
                0 <= i < c.index@.len() ==> ((#[trigger] c.index@[i]) matches Some(j) ==> j
                    < c.parts.start_pos@.len()),
            ReadBinaryColumn::Const(c) => true,
        }
    }

    /// The number of logical rows.
    pub open spec fn len_spec(&self) -> nat {
        match self {
            ReadBinaryColumn::NoBitmapNoIndex(c) => c.parts.start_pos@.len(),
            ReadBinaryColumn::BitmapNoIndex(c) => c.parts.start_pos@.len(),
            ReadBinaryColumn::NoBitmapIndex(c) => c.index@.len(),
            ReadBinaryColumn::BitmapIndex(c) => c.index@.len(),
            ReadBinaryColumn::NoBitmapIndexOption(c) => c.index@.len(),
            ReadBinaryColumn::BitmapIndexOption(c) => c.index@.len(),
            ReadBinaryColumn::Const(c) => c.target_len as nat,
        }
    }

    /// Logical row `i` as a `(valid, bytes)` pair.
    pub open spec fn item(&self, i: int) -> (bool, Seq<u8>) {
        match self {
            ReadBinaryColumn::NoBitmapNoIndex(c) => (true, c.parts.elem(i)),
            ReadBinaryColumn::BitmapNoIndex(c) => (c.bitmap@[i], c.parts.elem(i)),
            ReadBinaryColumn::NoBitmapIndex(c) => (true, c.parts.elem(c.index@[i] as int)),
            ReadBinaryColumn::BitmapIndex(c) => (
                c.bitmap@[c.index@[i] as int],
                c.parts.elem(c.index@[i] as int),
            ),
            ReadBinaryColumn::NoBitmapIndexOption(c) => match c.index@[i] {
                Some(j) => (true, c.parts.elem(j as int)),
                None => (false, c.parts.elem(0)),
            },
            ReadBinaryColumn::BitmapIndexOption(c) => match c.index@[i] {
                Some(j) => (c.bitmap@[j as int], c.parts.elem(j as int)),
                None => (false, c.parts.elem(0)),
            },
            ReadBinaryColumn::Const(c) => (c.bitmap, c.data@),
        }
    }

    /// All logical rows.
    pub open spec fn items(&self) -> Seq<(bool, Seq<u8>)> {
        Seq::new(self.len_spec(), |i: int| self.item(i))
    }

    /// The number of logical rows.
    pub fn len(&self) -> (n: usize)
        ensures
            n == self.len_spec(),
    {
        match self {
            ReadBinaryColumn::NoBitmapNoIndex(c) => c.parts.start_pos.len(),
            ReadBinaryColumn::BitmapNoIndex(c) => c.parts.start_pos.len(),
            ReadBinaryColumn::NoBitmapIndex(c) => c.index.len(),
            ReadBinaryColumn::BitmapIndex(c) => c.index.len(),
            ReadBinaryColumn::NoBitmapIndexOption(c) => c.index.len(),
            ReadBinaryColumn::BitmapIndexOption(c) => c.index.len(),
            ReadBinaryColumn::Const(c) => c.target_len,
        }
    }

    /// Reads logical row `i`.
    pub fn index(&self, i: usize) -> (r: (bool, &'a [u8]))
        requires
            self.wf(),
            i < self.len_spec(),
        ensures
            r.0 == self.item(i as int).0,
            r.1@ == self.item(i as int).1,
    {
        match self {
            ReadBinaryColumn::NoBitmapNoIndex(c) => (true, c.parts.get(i)),
            ReadBinaryColumn::BitmapNoIndex(c) => (c.bitmap[i], c.parts.get(i)),
            ReadBinaryColumn::NoBitmapIndex(c) => (true, c.parts.get(c.index[i])),
            ReadBinaryColumn::BitmapIndex(c) => (c.bitmap[c.index[i]], c.parts.get(c.index[i])),
            ReadBinaryColumn::NoBitmapIndexOption(c) => match c.index[i] {
                Some(j) => (true, c.parts.get(j)),
                None => (false, c.parts.get(0)),
            },
            ReadBinaryColumn::BitmapIndexOption(c) => match c.index[i] {
                Some(j) => (c.bitmap[j], c.parts.get(j)),
                None => (false, c.parts.get(0)),
            },
            ReadBinaryColumn::Const(c) => (c.bitmap, c.data),
        }
    }

    /// Stretches a constant view to the output length once it is known.
    pub fn update_len_if_const(&mut self, new_len: usize)
        ensures
            final(self).wf() == old(self).wf(),
            !(*old(self) is Const) ==> *final(self) == *old(self),
            *old(self) is Const ==> final(self).len_spec() == new_len && forall|i: int|
                0 <= i < new_len ==> final(self).item(i) == old(self).item(0),
    {
        match self {
            ReadBinaryColumn::Const(c) => {
                c.target_len = new_len;
            },
            _ => {},
        }
    }

    /// Lowers a binary column, bitmap and index into the matching shape.
    pub fn from_parts(
        data: &'a ColumnData,
        bitmap: &'a ColumnDataF<bool>,
        index: &'a ColumnDataIndex,
        target_len: usize,
    ) -> (r: Result<ReadBinaryColumn<'a>, ErrorDesc>)
        requires
            data.binary_model() matches Some(vals) ==> {
                &&& data.binary_of().unwrap().wf()
                &&& (bitmap.model() matches Some(b) ==> b.len() == vals.len())
                &&& index.in_bounds(vals.len())
                &&& (!(data is BinaryConst) && index.option_model() is Some ==> vals.len() > 0)
                &&& (data is BinaryConst ==> vals.len() > 0 && (
                bitmap.model() matches Some(b) ==> b.len() > 0) && (
                index.option_model() matches Some(oix) ==> oix.len() > 0))
            },
        ensures
            match r {
                Ok(rc) => {
                    &&& data.binary_model() is Some
                    &&& rc.wf()
                    &&& rc.items() =~~= resolved(
                        data.binary_model().unwrap(),
                        bitmap.model(),
                        index,
                        data is BinaryConst,
                        target_len as nat,
                    )
                },
                Err(_) => data.binary_model() is None,
            },
    {
        let is_const = data.is_const();
        let t = data.item_type_id();
        let p = match data.downcast_binary_ref(t) {
            Ok(p) => p,
            Err(_) => {
                return Err(ErrorDesc::ShapeMismatch);
            },
        };
        let parts = BinParts {
            data: p.0.as_slice(),
            start_pos: p.1.as_slice(),
            len: p.2.as_slice(),
            offset: p.3,
        };
        proof {
            assert(parts.elems() =~~= data.binary_model().unwrap());
        }
        if is_const {
            let b: bool = match index.downcast_option_ref() {
                Ok(ix) => ix[0].is_some(),
                Err(_) => match bitmap.downcast_ref() {
                    Ok(bm) => bm[0],
                    Err(_) => true,
                },
            };
            let d0 = parts.get(0);
            Ok(ReadBinaryColumn::Const(IRCBinaryConst { data: d0, bitmap: b, target_len }))
        } else {
            match bitmap.downcast_ref() {
                Ok(bm) => {
                    match index.downcast_ref() {
                        Ok(ix) => Ok(
                            ReadBinaryColumn::BitmapIndex(
                                IRCBinaryBitmapIndex {
                                    parts,
                                    index: ix.as_slice(),
                                    bitmap: bm.as_slice(),
                                },
                            ),
                        ),
                        Err(_) => match index.downcast_option_ref() {
                            Ok(ix) => Ok(
                                ReadBinaryColumn::BitmapIndexOption(
                                    IRCBinaryBitmapIndexOption {
                                        parts,
                                        index: ix.as_slice(),
                                        bitmap: bm.as_slice(),
                                    },
                                ),
                            ),
                            Err(_) => Ok(
                                ReadBinaryColumn::BitmapNoIndex(
                                    IRCBinaryBitmapNoIndex { parts, bitmap: bm.as_slice() },
                                ),
                            ),
                        },
                    }
                },
                Err(_) => {
                    match index.downcast_ref() {
                        Ok(ix) => Ok(
                            ReadBinaryColumn::NoBitmapIndex(
                                IRCBinaryNoBitmapIndex { parts, index: ix.as_slice() },
                            ),
                        ),
                        Err(_) => match index.downcast_option_ref() {
                            Ok(ix) => Ok(
                                ReadBinaryColumn::NoBitmapIndexOption(
                                    IRCBinaryNoBitmapIndexOption { parts, index: ix.as_slice() },
                                ),
                            ),
                            Err(_) => Ok(
                                ReadBinaryColumn::NoBitmapNoIndex(
                                    IRCBinaryNoBitmapNoIndex { parts },
                                ),
                            ),
                        },
                    }
                },
            }
        }
    }

    /// Lowers a kernel input into the matching shape.
    pub fn from_input(c: &'a InputTypes<'a>, target_len: usize) -> (r: Result<
        ReadBinaryColumn<'a>,
        ErrorDesc,
    >)
        requires
            crate::ops::binary_input_ok(*c),
        ensures
            match r {
                Ok(rc) => {
                    &&& c.wrapper_of().column.binary_model() is Some
                    &&& rc.wf()
                    &&& rc.items() =~~= crate::ops::binary_input_rows(*c, target_len as nat)
                },
                Err(_) => c.wrapper_of().column.binary_model() is None,
            },
    {
        let (cw, ci): (&ColumnWrapper, &ColumnDataIndex) = c.parts();
        ReadBinaryColumn::from_parts(&cw.column, &cw.bitmap, ci, target_len)
    }
}

} // verus!
