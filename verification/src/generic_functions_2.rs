//! Two-operand kernel combinators: lift a per-element kernel over one source
//! operand into assign, insert or update mode against a sized destination.
//!
//! Every combinator leaves the destination unchanged when it fails; a result
//! is committed only after the whole loop has run.

use vstd::prelude::*;

use crate::column::ColumnWrapper;
use crate::columndata::ColumnDataF;
use crate::dest::{restore_sized_dest, take_sized_dest, DestKind};
use crate::errors::ErrorDesc;
use crate::ftype::{AssignOp2, BinaryAssignOp2, BinaryUpdateOp2, UpdateOp2};
use crate::index::ColumnDataIndex;
use crate::indexedreadbinarycolumn::ReadBinaryColumn;
use crate::indexedreadcolumn::ReadColumn;
use crate::ops::{binary_input_ok, binary_input_rows, sized_input_ok, sized_input_rows, InputTypes};
use crate::sized_data::Element;

verus! {

/// The output rows of a two-operand assign kernel over resolved source rows.
pub open spec fn map_assign2<T1: Element, T2: Element, OP: AssignOp2<T1, T2>>(
    src: Seq<(bool, T2)>,
) -> Seq<(bool, T1)> {
    Seq::new(src.len(), |i: int| OP::apply_spec(src[i].1, src[i].0))
}

/// The output rows of a binary-source assign kernel over resolved rows.
pub open spec fn map_bin_assign2<T1: Element, OP: BinaryAssignOp2<T1>>(
    src: Seq<(bool, Seq<u8>)>,
) -> Seq<(bool, T1)> {
    Seq::new(src.len(), |i: int| OP::apply_spec(src[i].1, src[i].0))
}

/// The destination position written at logical row `i`.
pub open spec fn write_pos(index: Option<Seq<usize>>, i: int) -> int {
    match index {
        Some(ix) => ix[i] as int,
        None => i,
    }
}

/// The destination `(values, bits)` after folding the first `k` source rows
/// of a two-operand update kernel. Without a bitmap the kernel reads every
/// destination row as valid.
pub open spec fn fold_update2<T1: Element, T2: Element, OP: UpdateOp2<T1, T2>>(
    data: Seq<T1>,
    bits: Seq<bool>,
    has_bitmap: bool,
    index: Option<Seq<usize>>,
    src: Seq<(bool, T2)>,
    k: int,
) -> (Seq<T1>, Seq<bool>)
    decreases k,
{
    if k <= 0 {
        (data, bits)
    } else {
        let prev = fold_update2::<T1, T2, OP>(data, bits, has_bitmap, index, src, k - 1);
        let p = write_pos(index, k - 1);
        let tb = if has_bitmap {
            prev.1[p]
        } else {
            true
        };
        let r = OP::update_spec(prev.0[p], tb, src[k - 1].1, src[k - 1].0);
        (prev.0.update(p, r.0), if has_bitmap {
            prev.1.update(p, r.1)
        } else {
            prev.1
        })
    }
}

/// As `fold_update2`, for a binary source.
pub open spec fn fold_bin_update2<T1: Element, OP: BinaryUpdateOp2<T1>>(
    data: Seq<T1>,
    bits: Seq<bool>,
    has_bitmap: bool,
    index: Option<Seq<usize>>,
    src: Seq<(bool, Seq<u8>)>,
    k: int,
) -> (Seq<T1>, Seq<bool>)
    decreases k,
{
    if k <= 0 {
        (data, bits)
    } else {
        let prev = fold_bin_update2::<T1, OP>(data, bits, has_bitmap, index, src, k - 1);
        let p = write_pos(index, k - 1);
        let tb = if has_bitmap {
            prev.1[p]
        } else {
            true
        };
        let r = OP::update_spec(prev.0[p], tb, src[k - 1].1, src[k - 1].0);
        (prev.0.update(p, r.0), if has_bitmap {
            prev.1.update(p, r.1)
        } else {
            prev.1
        })
    }
}

/// The folds keep the destination lengths.
pub proof fn lemma_fold_update2_len<T1: Element, T2: Element, OP: UpdateOp2<T1, T2>>(
    data: Seq<T1>,
    bits: Seq<bool>,
    has_bitmap: bool,
    index: Option<Seq<usize>>,
    src: Seq<(bool, T2)>,
    k: int,
)
    requires
        forall|i: int| 0 <= i < k ==> 0 <= #[trigger] write_pos(index, i) < data.len(),
        has_bitmap ==> bits.len() == data.len(),
    ensures
        fold_update2::<T1, T2, OP>(data, bits, has_bitmap, index, src, k).0.len() == data.len(),
        fold_update2::<T1, T2, OP>(data, bits, has_bitmap, index, src, k).1.len() == bits.len(),
    decreases k,
{
    if k > 0 {
        lemma_fold_update2_len::<T1, T2, OP>(data, bits, has_bitmap, index, src, k - 1);
    }
}

/// The binary fold keeps the destination lengths.
pub proof fn lemma_fold_bin_update2_len<T1: Element, OP: BinaryUpdateOp2<T1>>(
    data: Seq<T1>,
    bits: Seq<bool>,
    has_bitmap: bool,
    index: Option<Seq<usize>>,
    src: Seq<(bool, Seq<u8>)>,
    k: int,
)
    requires
        forall|i: int| 0 <= i < k ==> 0 <= #[trigger] write_pos(index, i) < data.len(),
        has_bitmap ==> bits.len() == data.len(),
    ensures
        fold_bin_update2::<T1, OP>(data, bits, has_bitmap, index, src, k).0.len() == data.len(),
        fold_bin_update2::<T1, OP>(data, bits, has_bitmap, index, src, k).1.len() == bits.len(),
    decreases k,
{
    if k > 0 {
        lemma_fold_bin_update2_len::<T1, OP>(data, bits, has_bitmap, index, src, k - 1);
    }
}

/// The destination after an assign-mode kernel: variant and bitmap presence
/// kept, rows replaced by the kernel output.
pub open spec fn assigned_dest<T1: Element>(
    old_c1: ColumnWrapper,
    new_c1: ColumnWrapper,
    out: Seq<(bool, T1)>,
) -> bool {
    &&& new_c1.column.sized_model::<T1>() == Some(Seq::new(out.len(), |i: int| out[i].1))
    &&& (old_c1.bitmap.model() is Some ==> new_c1.bitmap.model() == Some(
        Seq::new(out.len(), |i: int| out[i].0),
    ))
    &&& (old_c1.bitmap.model() is None ==> new_c1.bitmap is Missing)
    &&& (new_c1.column is Owned <==> old_c1.column is Owned)
    &&& (new_c1.column is SliceMut <==> old_c1.column is SliceMut)
}

/// Which bitmap variant a destination carried.
enum BmKind {
    BmOwned,
    BmSliceMut,
    BmMissing,
}

/// The conditions under which a one-source assign-mode sized write
/// succeeds: matching element types, a source whose logical length
/// broadcasts to the destination's, and a writable destination with an
/// aligned bitmap.
pub open spec fn assign2_ready<T1: Element, T2: Element>(
    old_c1: ColumnWrapper,
    inputs: Seq<InputTypes>,
) -> bool {
    &&& inputs.len() >= 1
    &&& inputs[0].wrapper_of().column.sized_model::<T2>() is Some
    &&& old_c1.column.sized_model::<T1>() is Some
    &&& (old_c1.column is Owned || old_c1.column is SliceMut)
    &&& (inputs[0].wrapper_of().column is Const || crate::generic_functions_3::input_logical_len(
        inputs[0],
    ) == old_c1.column.len_spec())
    &&& !(old_c1.bitmap is Slice)
    &&& (old_c1.bitmap.model() matches Some(b) ==> b.len() == old_c1.column.len_spec())
}

/// The conditions under which an update-mode sized write succeeds: matching
/// element types, a plain (or absent) destination index, a source whose
/// logical length matches the written length, and a writable destination
/// with an aligned bitmap.
pub open spec fn update2_ready<T1: Element, T2: Element>(
    old_c1: ColumnWrapper,
    c1_index: &ColumnDataIndex,
    inputs: Seq<InputTypes>,
) -> bool {
    &&& inputs.len() >= 1
    &&& inputs[0].wrapper_of().column.sized_model::<T2>() is Some
    &&& old_c1.column.sized_model::<T1>() is Some
    &&& (old_c1.column is Owned || old_c1.column is SliceMut)
    &&& (*c1_index is Missing || c1_index.plain_model() is Some)
    &&& (inputs[0].wrapper_of().column is Const || crate::generic_functions_3::input_logical_len(
        inputs[0],
    ) == update_dest_len(old_c1, c1_index))
    &&& !(old_c1.bitmap is Slice)
    &&& (old_c1.bitmap.model() matches Some(b) ==> b.len() == old_c1.column.len_spec())
}

/// Applies a two-operand assign kernel elementwise: each output row is the
/// kernel of the matching source row; a constant source broadcasts to the
/// destination's length.
pub fn assign_2_sized_sized_unroll<T1: Element, T2: Element, OP: AssignOp2<T1, T2>>(
    c1: &mut ColumnWrapper,
    input: &[InputTypes],
    op: &OP,
) -> (r: Result<(), ErrorDesc>)
    requires
        input@.len() >= 1,
        sized_input_ok::<T2>(input@[0]),
    ensures
        match r {
            Ok(_) => {
                let src = sized_input_rows::<T2>(input@[0], old(c1).column.len_spec());
                let out = map_assign2::<T1, T2, OP>(src);
                &&& old(c1).column.sized_model::<T1>() is Some
                &&& (old(c1).column is Owned || old(c1).column is SliceMut)
                &&& src.len() == old(c1).column.len_spec()
                &&& assigned_dest::<T1>(*old(c1), *final(c1), out)
            },
            Err(_) => *final(c1) == *old(c1),
        },
        assign2_ready::<T1, T2>(*old(c1), input@) ==> r is Ok,
{
    let dst_len = match c1.column.data_len::<T1>() {
        Ok(n) => n,
        Err(e) => {
            return Err(e);
        },
    };
    let src: ReadColumn<T2> = match ReadColumn::from_input(&input[0], dst_len) {
        Ok(s) => s,
        Err(e) => {
            return Err(e);
        },
    };
    proof {
        T2::data_model_tag(&input@[0].wrapper_of().column.sized_of().unwrap());
    }
    if src.len() != dst_len {
        return Err(ErrorDesc::LengthMismatch);
    }
    match &c1.bitmap {
        ColumnDataF::Slice(_) => {
            return Err(ErrorDesc::ShapeMismatch);
        },
        _ => {},
    }
    match c1.bitmap.len() {
        Some(bl) => {
            if bl != dst_len {
                return Err(ErrorDesc::LengthMismatch);
            }
        },
        None => {},
    }
    let ghost srcrows = src.items();
    let ghost c1_orig = *c1;
    let (mut data, bm, kind) = match take_sized_dest::<T1>(c1) {
        Ok(p) => p,
        Err(e) => {
            return Err(e);
        },
    };
    proof {
        T1::data_model_tag(&c1_orig.column.sized_of().unwrap());
    }
    let (mut bits, bk): (Vec<bool>, BmKind) = match bm {
        ColumnDataF::Owned(v) => (v, BmKind::BmOwned),
        ColumnDataF::SliceMut(v) => (v, BmKind::BmSliceMut),
        ColumnDataF::Missing => (Vec::new(), BmKind::BmMissing),
        ColumnDataF::Slice(_) => {
            proof {
                assert(false);
            }
            (Vec::new(), BmKind::BmMissing)
        },
    };
    let has_bitmap: bool = match bk {
        BmKind::BmMissing => false,
        _ => true,
    };
    let mut i: usize = 0;
    while i < dst_len
        invariant
            i <= dst_len,
            src.wf(),
            src.items() == srcrows,
            srcrows.len() == dst_len,
            data@.len() == dst_len,
            has_bitmap ==> bits@.len() == dst_len,
            forall|k: int|
                0 <= k < i ==> #[trigger] data@[k] == OP::apply_spec(
                    srcrows[k].1,
                    srcrows[k].0,
                ).1,
            has_bitmap ==> forall|k: int|
                0 <= k < i ==> #[trigger] bits@[k] == OP::apply_spec(
                    srcrows[k].1,
                    srcrows[k].0,
                ).0,
        decreases dst_len - i,
    {
        let (b, v) = src.index(i);
        let (nb, nv) = op.apply(v, b);
        data[i] = nv;
        if has_bitmap {
            bits[i] = nb;
        }
        i = i + 1;
    }
    let new_bm: ColumnDataF<bool> = match bk {
        BmKind::BmOwned => ColumnDataF::Owned(bits),
        BmKind::BmSliceMut => ColumnDataF::SliceMut(bits),
        BmKind::BmMissing => ColumnDataF::Missing,
    };
    restore_sized_dest::<T1>(c1, data, new_bm, kind);
    proof {
        let src_spec = sized_input_rows::<T2>(input@[0], old(c1).column.len_spec());
        let out = map_assign2::<T1, T2, OP>(src_spec);
        assert(final(c1).column.sized_model::<T1>().unwrap() =~= Seq::new(
            out.len(),
            |i: int| out[i].1,
        ));
        if old(c1).bitmap.model() is Some {
            assert(final(c1).bitmap.model().unwrap() =~= Seq::new(out.len(), |i: int| out[i].0));
        }
    }
    Ok(())
}

/// What an update-mode kernel guarantees of its destination.
pub open spec fn update2_post<T1: Element, T2: Element, OP: UpdateOp2<T1, T2>>(
    old_c1: ColumnWrapper,
    c1_index: &ColumnDataIndex,
    inputs: Seq<InputTypes>,
    new_c1: ColumnWrapper,
) -> bool {
    let n = update_dest_len(old_c1, c1_index);
    let src = sized_input_rows::<T2>(inputs[0], n);
    let old_data = old_c1.column.sized_model::<T1>().unwrap();
    let has_bitmap = old_c1.bitmap.model() is Some;
    let old_bits = match old_c1.bitmap.model() {
        Some(b) => b,
        None => Seq::<bool>::empty(),
    };
    let folded = fold_update2::<T1, T2, OP>(
        old_data,
        old_bits,
        has_bitmap,
        c1_index.plain_model(),
        src,
        n as int,
    );
    &&& inputs.len() >= 1
    &&& old_c1.column.sized_model::<T1>() is Some
    &&& (old_c1.column is Owned || old_c1.column is SliceMut)
    &&& src.len() == n
    &&& new_c1.column.sized_model::<T1>() == Some(folded.0)
    &&& (has_bitmap ==> new_c1.bitmap.model() == Some(folded.1))
    &&& (!has_bitmap ==> new_c1.bitmap is Missing)
    &&& (new_c1.column is Owned <==> old_c1.column is Owned)
    &&& (new_c1.column is SliceMut <==> old_c1.column is SliceMut)
}

/// The logical length an update-mode kernel writes: the destination index's
/// length when one is present, else the destination's own length.
pub open spec fn update_dest_len(c1: ColumnWrapper, c1_index: &ColumnDataIndex) -> nat {
    match c1_index.plain_model() {
        Some(ix) => ix.len(),
        None => c1.column.len_spec(),
    }
}

/// Appends a two-operand assign kernel's output to an owned destination: one
/// output row per source row (a constant source contributes one row).
pub fn insert_2_sized_sized_unroll<T1: Element, T2: Element, OP: AssignOp2<T1, T2>>(
    c1: &mut ColumnWrapper,
    input: &[InputTypes],
    bitmap_update_required: &bool,
    op: &OP,
) -> (r: Result<(), ErrorDesc>)
    requires
        input@.len() >= 1,
        sized_input_ok::<T2>(input@[0]),
    ensures
        match r {
            Ok(_) => {
                let src = sized_input_rows::<T2>(input@[0], 1);
                let out = map_assign2::<T1, T2, OP>(src);
                &&& old(c1).column.sized_model::<T1>() is Some
                &&& old(c1).column is Owned
                &&& final(c1).column is Owned
                &&& final(c1).column.sized_model::<T1>() == Some(
                    old(c1).column.sized_model::<T1>().unwrap() + Seq::new(
                        out.len(),
                        |i: int| out[i].1,
                    ),
                )
                &&& (*bitmap_update_required ==> final(c1).bitmap.model() == Some(
                    (match old(c1).bitmap.model() {
                        Some(b) => b,
                        None => Seq::<bool>::empty(),
                    }) + Seq::new(out.len(), |i: int| out[i].0),
                ) && final(c1).bitmap is Owned)
                &&& (!*bitmap_update_required ==> final(c1).bitmap == old(c1).bitmap)
            },
            Err(_) => *final(c1) == *old(c1),
        },
{
    let src: ReadColumn<T2> = match ReadColumn::from_input(&input[0], 1) {
        Ok(s) => s,
        Err(e) => {
            return Err(e);
        },
    };
    let n = src.len();
    if !c1.column.is_owned() || !c1.column.is_sized() {
        return Err(ErrorDesc::ShapeMismatch);
    }
    if *bitmap_update_required {
        match &c1.bitmap {
            ColumnDataF::Slice(_) => {
                return Err(ErrorDesc::ShapeMismatch);
            },
            ColumnDataF::SliceMut(_) => {
                return Err(ErrorDesc::ShapeMismatch);
            },
            _ => {},
        }
    }
    let ghost srcrows = src.items();
    let ghost c1_orig = *c1;
    let (mut data, bm, kind) = match take_sized_dest::<T1>(c1) {
        Ok(p) => p,
        Err(e) => {
            return Err(e);
        },
    };
    proof {
        T1::data_model_tag(&c1_orig.column.sized_of().unwrap());
    }
    let ghost data_orig = data@;
    let (keep_bm, mut bits): (ColumnDataF<bool>, Vec<bool>) = if *bitmap_update_required {
        match bm {
            ColumnDataF::Owned(v) => (ColumnDataF::Missing, v),
            ColumnDataF::Missing => (ColumnDataF::Missing, Vec::new()),
            _ => {
                proof {
                    assert(false);
                }
                (ColumnDataF::Missing, Vec::new())
            },
        }
    } else {
        (bm, Vec::new())
    };
    let ghost bits_orig = bits@;
    let mut i: usize = 0;
    while i < n
        invariant
            i <= n,
            src.wf(),
            src.items() == srcrows,
            srcrows.len() == n,
            data@.len() == data_orig.len() + i,
            bits@.len() == bits_orig.len() + i,
            forall|k: int| 0 <= k < data_orig.len() ==> #[trigger] data@[k] == data_orig[k],
            forall|k: int| 0 <= k < bits_orig.len() ==> #[trigger] bits@[k] == bits_orig[k],
            forall|k: int|
                data_orig.len() <= k < data@.len() ==> #[trigger] data@[k] == OP::apply_spec(
                    srcrows[k - data_orig.len()].1,
                    srcrows[k - data_orig.len()].0,
                ).1,
            forall|k: int|
                bits_orig.len() <= k < bits@.len() ==> #[trigger] bits@[k] == OP::apply_spec(
                    srcrows[k - bits_orig.len()].1,
                    srcrows[k - bits_orig.len()].0,
                ).0,
        decreases n - i,
    {
        let (b, v) = src.index(i);
        let (nb, nv) = op.apply(v, b);
        data.push(nv);
        bits.push(nb);
        i = i + 1;
    }
    let new_bm: ColumnDataF<bool> = if *bitmap_update_required {
        ColumnDataF::Owned(bits)
    } else {
        keep_bm
    };
    restore_sized_dest::<T1>(c1, data, new_bm, kind);
    proof {
        let src_spec = sized_input_rows::<T2>(input@[0], 1);
        let out = map_assign2::<T1, T2, OP>(src_spec);
        assert(final(c1).column.sized_model::<T1>().unwrap() =~= data_orig + Seq::new(
            out.len(),
            |i: int| out[i].1,
        ));
        if *bitmap_update_required {
            assert(final(c1).bitmap.model().unwrap() =~= (match old(c1).bitmap.model() {
                Some(b) => b,
                None => Seq::<bool>::empty(),
            }) + Seq::new(out.len(), |i: int| out[i].0));
        }
    }
    Ok(())
}

/// Folds a two-operand update kernel into the destination, one source row per
/// logical destination row; a destination index routes the writes.
pub fn update_2_sized_sized_unroll<T1: Element, T2: Element, OP: UpdateOp2<T1, T2>>(
    c1: &mut ColumnWrapper,
    c1_index: &ColumnDataIndex,
    input: &[InputTypes],
    op: &OP,
) -> (r: Result<(), ErrorDesc>)
    requires
        input@.len() >= 1,
        sized_input_ok::<T2>(input@[0]),
        c1_index.in_bounds(old(c1).column.len_spec()),
    ensures
        match r {
            Ok(_) => update2_post::<T1, T2, OP>(*old(c1), c1_index, input@, *final(c1)),
            Err(_) => *final(c1) == *old(c1),
        },
        update2_ready::<T1, T2>(*old(c1), c1_index, input@) ==> r is Ok,
{
    let data_len = match c1.column.data_len::<T1>() {
        Ok(n) => n,
        Err(e) => {
            return Err(e);
        },
    };
    let dst_len: usize = match c1_index.len() {
        Some(n) => {
            match c1_index.downcast_ref() {
                Ok(_) => n,
                Err(_) => {
                    return Err(ErrorDesc::ShapeMismatch);
                },
            }
        },
        None => data_len,
    };
    let src: ReadColumn<T2> = match ReadColumn::from_input(&input[0], dst_len) {
        Ok(s) => s,
        Err(e) => {
            return Err(e);
        },
    };
    proof {
        T2::data_model_tag(&input@[0].wrapper_of().column.sized_of().unwrap());
    }
    if src.len() != dst_len {
        return Err(ErrorDesc::LengthMismatch);
    }
    match &c1.bitmap {
        ColumnDataF::Slice(_) => {
            return Err(ErrorDesc::ShapeMismatch);
        },
        _ => {},
    }
    match c1.bitmap.len() {
        Some(bl) => {
            if bl != data_len {
                return Err(ErrorDesc::LengthMismatch);
            }
        },
        None => {},
    }
    let ghost srcrows = src.items();
    let ghost c1_orig = *c1;
    let (mut data, bm, kind) = match take_sized_dest::<T1>(c1) {
        Ok(p) => p,
        Err(e) => {
            return Err(e);
        },
    };
    proof {
        T1::data_model_tag(&c1_orig.column.sized_of().unwrap());
    }
    let ghost data_orig = data@;
    let (mut bits, bk): (Vec<bool>, BmKind) = match bm {
        ColumnDataF::Owned(v) => (v, BmKind::BmOwned),
        ColumnDataF::SliceMut(v) => (v, BmKind::BmSliceMut),
        ColumnDataF::Missing => (Vec::new(), BmKind::BmMissing),
        ColumnDataF::Slice(_) => {
            proof {
                assert(false);
            }
            (Vec::new(), BmKind::BmMissing)
        },
    };
    let has_bitmap: bool = match bk {
        BmKind::BmMissing => false,
        _ => true,
    };
    let ghost bits_orig = bits@;
    let ghost ixm = c1_index.plain_model();
    let ix: Option<&Vec<usize>> = match c1_index.downcast_ref() {
        Ok(v) => Some(v),
        Err(_) => None,
    };
    proof {
        assert forall|k: int| 0 <= k < dst_len implies 0 <= #[trigger] write_pos(ixm, k)
            < data_orig.len() by {
            match ixm {
                Some(ixx) => {
                    assert(ixx[k] < c1_orig.column.len_spec());
                },
                None => {},
            }
        }
    }
    let mut i: usize = 0;
    while i < dst_len
        invariant
            i <= dst_len,
            src.wf(),
            src.items() == srcrows,
            srcrows.len() == dst_len,
            data@.len() == data_orig.len(),
            bits@.len() == bits_orig.len(),
            has_bitmap ==> bits_orig.len() == data_orig.len(),
            match ix {
                Some(v) => ixm == Some(v@) && v@.len() == dst_len,
                None => ixm is None && data_orig.len() == dst_len,
            },
            forall|k: int|
                0 <= k < dst_len ==> 0 <= #[trigger] write_pos(ixm, k) < data_orig.len(),
            (data@, if has_bitmap {
                bits@
            } else {
                bits_orig
            }) == fold_update2::<T1, T2, OP>(
                data_orig,
                bits_orig,
                has_bitmap,
                ixm,
                srcrows,
                i as int,
            ),
            !has_bitmap ==> bits@ == bits_orig,
        decreases dst_len - i,
    {
        let p: usize = match ix {
            Some(v) => v[i],
            None => i,
        };
        proof {
            assert(p == write_pos(ixm, i as int));
        }
        let (b, v) = src.index(i);
        let tb: bool = if has_bitmap {
            bits[p]
        } else {
            true
        };
        let (nt, ntb) = op.update(data[p], tb, v, b);
        data[p] = nt;
        if has_bitmap {
            bits[p] = ntb;
        }
        i = i + 1;
    }
    let new_bm: ColumnDataF<bool> = match bk {
        BmKind::BmOwned => ColumnDataF::Owned(bits),
        BmKind::BmSliceMut => ColumnDataF::SliceMut(bits),
        BmKind::BmMissing => ColumnDataF::Missing,
    };
    restore_sized_dest::<T1>(c1, data, new_bm, kind);
    Ok(())
}

/// Applies a binary-source assign kernel elementwise into a sized destination.
pub fn assign_2_sized_binary_unroll<T1: Element, OP: BinaryAssignOp2<T1>>(
    c1: &mut ColumnWrapper,
    input: &[InputTypes],
    op: &OP,
) -> (r: Result<(), ErrorDesc>)
    requires
        input@.len() >= 1,
        binary_input_ok(input@[0]),
    ensures
        match r {
            Ok(_) => {
                let src = binary_input_rows(input@[0], old(c1).column.len_spec());
                let out = map_bin_assign2::<T1, OP>(src);
                &&& old(c1).column.sized_model::<T1>() is Some
                &&& (old(c1).column is Owned || old(c1).column is SliceMut)
                &&& src.len() == old(c1).column.len_spec()
                &&& assigned_dest::<T1>(*old(c1), *final(c1), out)
            },
            Err(_) => *final(c1) == *old(c1),
        },
{
    let dst_len = match c1.column.data_len::<T1>() {
        Ok(n) => n,
        Err(e) => {
            return Err(e);
        },
    };
    let src: ReadBinaryColumn = match ReadBinaryColumn::from_input(&input[0], dst_len) {
        Ok(s) => s,
        Err(e) => {
            return Err(e);
        },
    };
    if src.len() != dst_len {
        return Err(ErrorDesc::LengthMismatch);
    }
    match &c1.bitmap {
        ColumnDataF::Slice(_) => {
            return Err(ErrorDesc::ShapeMismatch);
        },
        _ => {},
    }
    match c1.bitmap.len() {
        Some(bl) => {
            if bl != dst_len {
                return Err(ErrorDesc::LengthMismatch);
            }
        },
        None => {},
    }
    let ghost srcrows = src.items();
    let ghost c1_orig = *c1;
    let (mut data, bm, kind) = match take_sized_dest::<T1>(c1) {
        Ok(p) => p,
        Err(e) => {
            return Err(e);
        },
    };
    proof {
        T1::data_model_tag(&c1_orig.column.sized_of().unwrap());
    }
    let (mut bits, bk): (Vec<bool>, BmKind) = match bm {
        ColumnDataF::Owned(v) => (v, BmKind::BmOwned),
        ColumnDataF::SliceMut(v) => (v, BmKind::BmSliceMut),
        ColumnDataF::Missing => (Vec::new(), BmKind::BmMissing),
        ColumnDataF::Slice(_) => {
            proof {
                assert(false);
            }
            (Vec::new(), BmKind::BmMissing)
        },
    };
    let has_bitmap: bool = match bk {
        BmKind::BmMissing => false,
        _ => true,
    };
    let mut i: usize = 0;
    while i < dst_len
        invariant
            i <= dst_len,
            src.wf(),
            src.items() == srcrows,
            srcrows.len() == dst_len,
            data@.len() == dst_len,
            has_bitmap ==> bits@.len() == dst_len,
            forall|k: int|
                0 <= k < i ==> #[trigger] data@[k] == OP::apply_spec(
                    srcrows[k].1,
                    srcrows[k].0,
                ).1,
            has_bitmap ==> forall|k: int|
                0 <= k < i ==> #[trigger] bits@[k] == OP::apply_spec(
                    srcrows[k].1,
                    srcrows[k].0,
                ).0,
        decreases dst_len - i,
    {
        let (b, v) = src.index(i);
        let (nb, nv) = op.apply(v, b);
        data[i] = nv;
        if has_bitmap {
            bits[i] = nb;
        }
        i = i + 1;
    }
    let new_bm: ColumnDataF<bool> = match bk {
        BmKind::BmOwned => ColumnDataF::Owned(bits),
        BmKind::BmSliceMut => ColumnDataF::SliceMut(bits),
        BmKind::BmMissing => ColumnDataF::Missing,
    };
    restore_sized_dest::<T1>(c1, data, new_bm, kind);
    proof {
        let src_spec = binary_input_rows(input@[0], old(c1).column.len_spec());
        let out = map_bin_assign2::<T1, OP>(src_spec);
        assert(final(c1).column.sized_model::<T1>().unwrap() =~= Seq::new(
            out.len(),
            |i: int| out[i].1,
        ));
        if old(c1).bitmap.model() is Some {
            assert(final(c1).bitmap.model().unwrap() =~= Seq::new(out.len(), |i: int| out[i].0));
        }
    }
    Ok(())
}

/// Appends a binary-source assign kernel's output to an owned destination.
pub fn insert_2_sized_binary_unroll<T1: Element, OP: BinaryAssignOp2<T1>>(
    c1: &mut ColumnWrapper,
    input: &[InputTypes],
    bitmap_update_required: &bool,
    op: &OP,
) -> (r: Result<(), ErrorDesc>)
    requires
        input@.len() >= 1,
        binary_input_ok(input@[0]),
    ensures
        match r {
            Ok(_) => {
                let src = binary_input_rows(input@[0], 1);
                let out = map_bin_assign2::<T1, OP>(src);
                &&& old(c1).column.sized_model::<T1>() is Some
                &&& old(c1).column is Owned
                &&& final(c1).column is Owned
                &&& final(c1).column.sized_model::<T1>() == Some(
                    old(c1).column.sized_model::<T1>().unwrap() + Seq::new(
                        out.len(),
                        |i: int| out[i].1,
                    ),
                )
                &&& (*bitmap_update_required ==> final(c1).bitmap.model() == Some(
                    (match old(c1).bitmap.model() {
                        Some(b) => b,
                        None => Seq::<bool>::empty(),
                    }) + Seq::new(out.len(), |i: int| out[i].0),
                ) && final(c1).bitmap is Owned)
                &&& (!*bitmap_update_required ==> final(c1).bitmap == old(c1).bitmap)
            },
            Err(_) => *final(c1) == *old(c1),
        },
{
    let src: ReadBinaryColumn = match ReadBinaryColumn::from_input(&input[0], 1) {
        Ok(s) => s,
        Err(e) => {
            return Err(e);
        },
    };
    let n = src.len();
    if !c1.column.is_owned() || !c1.column.is_sized() {
        return Err(ErrorDesc::ShapeMismatch);
    }
    if *bitmap_update_required {
        match &c1.bitmap {
            ColumnDataF::Slice(_) => {
                return Err(ErrorDesc::ShapeMismatch);
            },
            ColumnDataF::SliceMut(_) => {
                return Err(ErrorDesc::ShapeMismatch);
            },
            _ => {},
        }
    }
    let ghost srcrows = src.items();
    let ghost c1_orig = *c1;
    let (mut data, bm, kind) = match take_sized_dest::<T1>(c1) {
        Ok(p) => p,
        Err(e) => {
            return Err(e);
        },
    };
    proof {
        T1::data_model_tag(&c1_orig.column.sized_of().unwrap());
    }
    let ghost data_orig = data@;
    let (keep_bm, mut bits): (ColumnDataF<bool>, Vec<bool>) = if *bitmap_update_required {
        match bm {
            ColumnDataF::Owned(v) => (ColumnDataF::Missing, v),
            ColumnDataF::Missing => (ColumnDataF::Missing, Vec::new()),
            _ => {
                proof {
                    assert(false);
                }
                (ColumnDataF::Missing, Vec::new())
            },
        }
    } else {
        (bm, Vec::new())
    };
    let ghost bits_orig = bits@;
    let mut i: usize = 0;
    while i < n
        invariant
            i <= n,
            src.wf(),
            src.items() == srcrows,
            srcrows.len() == n,
            data@.len() == data_orig.len() + i,
            bits@.len() == bits_orig.len() + i,
            forall|k: int| 0 <= k < data_orig.len() ==> #[trigger] data@[k] == data_orig[k],
            forall|k: int| 0 <= k < bits_orig.len() ==> #[trigger] bits@[k] == bits_orig[k],
            forall|k: int|
                data_orig.len() <= k < data@.len() ==> #[trigger] data@[k] == OP::apply_spec(
                    srcrows[k - data_orig.len()].1,
                    srcrows[k - data_orig.len()].0,
                ).1,
            forall|k: int|
                bits_orig.len() <= k < bits@.len() ==> #[trigger] bits@[k] == OP::apply_spec(
                    srcrows[k - bits_orig.len()].1,
                    srcrows[k - bits_orig.len()].0,
                ).0,
        decreases n - i,
    {
        let (b, v) = src.index(i);
        let (nb, nv) = op.apply(v, b);
        data.push(nv);
        bits.push(nb);
        i = i + 1;
    }
    let new_bm: ColumnDataF<bool> = if *bitmap_update_required {
        ColumnDataF::Owned(bits)
    } else {
        keep_bm
    };
    restore_sized_dest::<T1>(c1, data, new_bm, kind);
    proof {
        let src_spec = binary_input_rows(input@[0], 1);
        let out = map_bin_assign2::<T1, OP>(src_spec);
        assert(final(c1).column.sized_model::<T1>().unwrap() =~= data_orig + Seq::new(
            out.len(),
            |i: int| out[i].1,
        ));
        if *bitmap_update_required {
            assert(final(c1).bitmap.model().unwrap() =~= (match old(c1).bitmap.model() {
                Some(b) => b,
                None => Seq::<bool>::empty(),
            }) + Seq::new(out.len(), |i: int| out[i].0));
        }
    }
    Ok(())
}

/// Folds a binary-source update kernel into the destination.
pub fn update_2_sized_binary_unroll<T1: Element, OP: BinaryUpdateOp2<T1>>(
    c1: &mut ColumnWrapper,
    c1_index: &ColumnDataIndex,
    input: &[InputTypes],
    op: &OP,
) -> (r: Result<(), ErrorDesc>)
    requires
        input@.len() >= 1,
        binary_input_ok(input@[0]),
        c1_index.in_bounds(old(c1).column.len_spec()),
    ensures
        match r {
            Ok(_) => {
                let n = update_dest_len(*old(c1), c1_index);
                let src = binary_input_rows(input@[0], n);
                let old_data = old(c1).column.sized_model::<T1>().unwrap();
                let has_bitmap = old(c1).bitmap.model() is Some;
                let old_bits = match old(c1).bitmap.model() {
                    Some(b) => b,
                    None => Seq::<bool>::empty(),
                };
                let folded = fold_bin_update2::<T1, OP>(
                    old_data,
                    old_bits,
                    has_bitmap,
                    c1_index.plain_model(),
                    src,
                    n as int,
                );
                &&& old(c1).column.sized_model::<T1>() is Some
                &&& (old(c1).column is Owned || old(c1).column is SliceMut)
                &&& src.len() == n
                &&& final(c1).column.sized_model::<T1>() == Some(folded.0)
                &&& (has_bitmap ==> final(c1).bitmap.model() == Some(folded.1))
                &&& (!has_bitmap ==> final(c1).bitmap is Missing)
                &&& (final(c1).column is Owned <==> old(c1).column is Owned)
                &&& (final(c1).column is SliceMut <==> old(c1).column is SliceMut)
            },
            Err(_) => *final(c1) == *old(c1),
        },
{
    let data_len = match c1.column.data_len::<T1>() {
        Ok(n) => n,
        Err(e) => {
            return Err(e);
        },
    };
    let dst_len: usize = match c1_index.len() {
        Some(n) => {
            match c1_index.downcast_ref() {
                Ok(_) => n,
                Err(_) => {
                    return Err(ErrorDesc::ShapeMismatch);
                },
            }
        },
        None => data_len,
    };
    let src: ReadBinaryColumn = match ReadBinaryColumn::from_input(&input[0], dst_len) {
        Ok(s) => s,
        Err(e) => {
            return Err(e);
        },
    };
    if src.len() != dst_len {
        return Err(ErrorDesc::LengthMismatch);
    }
    match &c1.bitmap {
        ColumnDataF::Slice(_) => {
            return Err(ErrorDesc::ShapeMismatch);
        },
        _ => {},
    }
    match c1.bitmap.len() {
        Some(bl) => {
            if bl != data_len {
                return Err(ErrorDesc::LengthMismatch);
            }
        },
        None => {},
    }
    let ghost srcrows = src.items();
    let ghost c1_orig = *c1;
    let (mut data, bm, kind) = match take_sized_dest::<T1>(c1) {
        Ok(p) => p,
        Err(e) => {
            return Err(e);
        },
    };
    proof {
        T1::data_model_tag(&c1_orig.column.sized_of().unwrap());
    }
    let ghost data_orig = data@;
    let (mut bits, bk): (Vec<bool>, BmKind) = match bm {
        ColumnDataF::Owned(v) => (v, BmKind::BmOwned),
        ColumnDataF::SliceMut(v) => (v, BmKind::BmSliceMut),
        ColumnDataF::Missing => (Vec::new(), BmKind::BmMissing),
        ColumnDataF::Slice(_) => {
            proof {
                assert(false);
            }
            (Vec::new(), BmKind::BmMissing)
        },
    };
    let has_bitmap: bool = match bk {
        BmKind::BmMissing => false,
        _ => true,
    };
    let ghost bits_orig = bits@;
    let ghost ixm = c1_index.plain_model();
    let ix: Option<&Vec<usize>> = match c1_index.downcast_ref() {
        Ok(v) => Some(v),
        Err(_) => None,
    };
    proof {
        assert forall|k: int| 0 <= k < dst_len implies 0 <= #[trigger] write_pos(ixm, k)
            < data_orig.len() by {
            match ixm {
                Some(ixx) => {
                    assert(ixx[k] < c1_orig.column.len_spec());
                },
                None => {},
            }
        }
    }
    let mut i: usize = 0;
    while i < dst_len
        invariant
            i <= dst_len,
            src.wf(),
            src.items() == srcrows,
            srcrows.len() == dst_len,
            data@.len() == data_orig.len(),
            bits@.len() == bits_orig.len(),
            has_bitmap ==> bits_orig.len() == data_orig.len(),
            match ix {
                Some(v) => ixm == Some(v@) && v@.len() == dst_len,
                None => ixm is None && data_orig.len() == dst_len,
            },
            forall|k: int|
                0 <= k < dst_len ==> 0 <= #[trigger] write_pos(ixm, k) < data_orig.len(),
            (data@, if has_bitmap {
                bits@
            } else {
                bits_orig
            }) == fold_bin_update2::<T1, OP>(
                data_orig,
                bits_orig,
                has_bitmap,
                ixm,
                srcrows,
                i as int,
            ),
            !has_bitmap ==> bits@ == bits_orig,
        decreases dst_len - i,
    {
        let p: usize = match ix {
            Some(v) => v[i],
            None => i,
        };
        proof {
            assert(p == write_pos(ixm, i as int));
        }
        let (b, v) = src.index(i);
        let tb: bool = if has_bitmap {
            bits[p]
        } else {
            true
        };
        let (nt, ntb) = op.update(data[p], tb, v, b);
        data[p] = nt;
        if has_bitmap {
            bits[p] = ntb;
        }
        i = i + 1;
    }
    let new_bm: ColumnDataF<bool> = match bk {
        BmKind::BmOwned => ColumnDataF::Owned(bits),
        BmKind::BmSliceMut => ColumnDataF::SliceMut(bits),
        BmKind::BmMissing => ColumnDataF::Missing,
    };
    restore_sized_dest::<T1>(c1, data, new_bm, kind);
    Ok(())
}

} // verus!
