//! Taking a writable destination apart and putting it back together.
//!
//! Kernels own their destination for the duration of the loop: the pieces are
//! moved out, written, and restored under the same storage variant, so a
//! failing kernel never commits a partial write.

use vstd::prelude::*;

use crate::column::ColumnWrapper;
use crate::columndata::{ColumnData, ColumnDataF};
use crate::errors::ErrorDesc;
use crate::owned::{OwnedColumn, SliceRefMut};
use crate::sized_data::{Element, SizedData};

verus! {

/// Which writable variant a destination came from.
pub enum DestKind {
    Owned,
    SliceMut,
}

/// Moves the data vector and bitmap out of a writable sized destination.
pub fn take_sized_dest<T: Element>(c1: &mut ColumnWrapper) -> (r: Result<
    (Vec<T>, ColumnDataF<bool>, DestKind),
    ErrorDesc,
>)
    ensures
        match r {
            Ok(p) => {
                &&& old(c1).column.sized_model::<T>() == Some(p.0@)
                &&& p.1 == old(c1).bitmap
                &&& (p.2 is Owned <==> old(c1).column is Owned)
                &&& (p.2 is SliceMut <==> old(c1).column is SliceMut)
                &&& (old(c1).column is Owned || old(c1).column is SliceMut)
            },
            Err(_) => {
                &&& *final(c1) == *old(c1)
                &&& !((old(c1).column is Owned || old(c1).column is SliceMut)
                    && old(c1).column.sized_model::<T>() is Some)
            },
        },
{
    proof {
        if c1.column.sized_of() is Some {
            T::data_model_tag(&c1.column.sized_of().unwrap());
        }
    }
    let kind = match &c1.column {
        ColumnData::Owned(_) => DestKind::Owned,
        ColumnData::SliceMut(_) => DestKind::SliceMut,
        _ => {
            return Err(ErrorDesc::ShapeMismatch);
        },
    };
    let t = T::tag();
    if !(c1.column.item_type_id() == t) {
        return Err(ErrorDesc::TypeMismatch);
    }
    let mut col = ColumnData::Owned(OwnedColumn { data: SizedData::U8(Vec::new()) });
    core::mem::swap(&mut c1.column, &mut col);
    let d: SizedData = match col {
        ColumnData::Owned(c) => c.data,
        ColumnData::SliceMut(c) => c.data,
        _ => SizedData::U8(Vec::new()),
    };
    match T::take_vec(d) {
        Ok(v) => {
            let bm = c1.bitmap.take();
            Ok((v, bm, kind))
        },
        Err(e) => {
            // Unreachable: the tag was checked above.
            proof {
                assert(false);
            }
            Err(e)
        },
    }
}

/// Rebuilds the destination from its pieces under the original variant.
pub fn restore_sized_dest<T: Element>(
    c1: &mut ColumnWrapper,
    v: Vec<T>,
    bm: ColumnDataF<bool>,
    kind: DestKind,
)
    ensures
        final(c1).column.sized_model::<T>() == Some(v@),
        final(c1).bitmap == bm,
        final(c1).column is Owned <==> kind is Owned,
        final(c1).column is SliceMut <==> kind is SliceMut,
{
    let d = T::wrap_vec(v);
    let col = match kind {
        DestKind::Owned => ColumnData::Owned(OwnedColumn { data: d }),
        DestKind::SliceMut => ColumnData::SliceMut(SliceRefMut { data: d }),
    };
    c1.column = col;
    c1.bitmap = bm;
}

} // verus!
