//! Three-operand kernel combinators: lift a per-element kernel over two
//! source operands into assign or insert mode against a sized destination.
//!
//! Constant operands stretch to the longest non-constant operand's length;
//! if the destination is empty and owned, insert semantics apply.

use vstd::prelude::*;

use crate::column::ColumnWrapper;
use crate::columndata::ColumnDataF;
use crate::dest::{restore_sized_dest, take_sized_dest};
use crate::errors::ErrorDesc;
use crate::ftype::{AssignOp3, BinaryAssignOp3};
use crate::indexedreadbinarycolumn::ReadBinaryColumn;
use crate::indexedreadcolumn::ReadColumn;
use crate::ops::{binary_input_ok, binary_input_rows, sized_input_ok, sized_input_rows, InputTypes};
use crate::sized_data::Element;

verus! {

/// The number of logical rows an operand yields before broadcast.
pub open spec fn input_logical_len(c: InputTypes) -> nat {
    crate::ops::wrapper_logical_len(c.wrapper_of(), c.index_of())
}

/// The broadcast length of two operands: the longer one wins, constants
/// stretch.
pub open spec fn broadcast3_len(a: InputTypes, b: InputTypes) -> nat {
    if input_logical_len(a) >= input_logical_len(b) {
        input_logical_len(a)
    } else {
        input_logical_len(b)
    }
}

/// The output rows of a three-operand assign kernel over resolved rows.
pub open spec fn map_assign3<T1: Element, T2: Element, T3: Element, OP: AssignOp3<T1, T2, T3>>(
    src2: Seq<(bool, T2)>,
    src3: Seq<(bool, T3)>,
) -> Seq<(bool, T1)> {
    Seq::new(src2.len(), |i: int| OP::apply_spec(src2[i].1, src2[i].0, src3[i].1, src3[i].0))
}

/// The output rows of a binary three-operand assign kernel.
pub open spec fn map_bin_assign3<T1: Element, OP: BinaryAssignOp3<T1>>(
    src2: Seq<(bool, Seq<u8>)>,
    src3: Seq<(bool, Seq<u8>)>,
) -> Seq<(bool, T1)> {
    Seq::new(src2.len(), |i: int| OP::apply_spec(src2[i].1, src2[i].0, src3[i].1, src3[i].0))
}

/// Whether a value-producing write inserts into the destination (empty and
/// owned, with no leftover bitmap) rather than assigning over it.
pub open spec fn set3_inserts(c1: ColumnWrapper) -> bool {
    &&& c1.column.len_spec() == 0
    &&& (c1.column is Owned || c1.column is BinaryOwned)
    &&& (c1.bitmap.model() matches Some(b) ==> b.len() == 0)
}

/// The conditions under which an assign-mode sized write succeeds: matching
/// element types, operands whose logical lengths broadcast to the
/// destination's, and a writable destination with an aligned bitmap.
pub open spec fn assign3_ready<T1: Element, T2: Element, T3: Element>(
    old_c1: ColumnWrapper,
    inputs: Seq<InputTypes>,
) -> bool {
    &&& inputs.len() >= 2
    &&& inputs[0].wrapper_of().column.sized_model::<T2>() is Some
    &&& inputs[1].wrapper_of().column.sized_model::<T3>() is Some
    &&& old_c1.column.sized_model::<T1>() is Some
    &&& (old_c1.column is Owned || old_c1.column is SliceMut)
    &&& (inputs[0].wrapper_of().column is Const || input_logical_len(inputs[0])
        == old_c1.column.len_spec())
    &&& (inputs[1].wrapper_of().column is Const || input_logical_len(inputs[1])
        == old_c1.column.len_spec())
    &&& !(old_c1.bitmap is Slice)
    &&& (old_c1.bitmap.model() matches Some(b) ==> b.len() == old_c1.column.len_spec())
}

/// The conditions under which an insert-mode sized write succeeds: matching
/// element types, operands whose logical lengths broadcast together, and an
/// owned sized destination with a writable bitmap when one must be written.
pub open spec fn insert3_ready<T1: Element, T2: Element, T3: Element>(
    old_c1: ColumnWrapper,
    inputs: Seq<InputTypes>,
    bru: bool,
) -> bool {
    &&& inputs.len() >= 2
    &&& inputs[0].wrapper_of().column.sized_model::<T2>() is Some
    &&& inputs[1].wrapper_of().column.sized_model::<T3>() is Some
    &&& old_c1.column.sized_model::<T1>() is Some
    &&& old_c1.column is Owned
    &&& (inputs[0].wrapper_of().column is Const || input_logical_len(inputs[0])
        == broadcast3_len(inputs[0], inputs[1]))
    &&& (inputs[1].wrapper_of().column is Const || input_logical_len(inputs[1])
        == broadcast3_len(inputs[0], inputs[1]))
    &&& (bru ==> !(old_c1.bitmap is Slice) && !(old_c1.bitmap is SliceMut))
}

/// The conditions under which a value-producing sized write succeeds, in
/// whichever mode the destination selects.
pub open spec fn set3_ready<T1: Element, T2: Element, T3: Element>(
    old_c1: ColumnWrapper,
    inputs: Seq<InputTypes>,
    bru: bool,
) -> bool {
    &&& old_c1.column.sized_model::<T1>() is Some
    &&& if set3_inserts(old_c1) {
        insert3_ready::<T1, T2, T3>(old_c1, inputs, bru)
    } else {
        assign3_ready::<T1, T2, T3>(old_c1, inputs)
    }
}

/// As `assign3_ready`, for two binary sources.
pub open spec fn assign3_bin_ready<T1: Element>(
    old_c1: ColumnWrapper,
    inputs: Seq<InputTypes>,
) -> bool {
    &&& inputs.len() >= 2
    &&& inputs[0].wrapper_of().column.binary_model() is Some
    &&& inputs[1].wrapper_of().column.binary_model() is Some
    &&& old_c1.column.sized_model::<T1>() is Some
    &&& (old_c1.column is Owned || old_c1.column is SliceMut)
    &&& (inputs[0].wrapper_of().column is BinaryConst || input_logical_len(inputs[0])
        == old_c1.column.len_spec())
    &&& (inputs[1].wrapper_of().column is BinaryConst || input_logical_len(inputs[1])
        == old_c1.column.len_spec())
    &&& !(old_c1.bitmap is Slice)
    &&& (old_c1.bitmap.model() matches Some(b) ==> b.len() == old_c1.column.len_spec())
}

/// As `insert3_ready`, for two binary sources.
pub open spec fn insert3_bin_ready<T1: Element>(
    old_c1: ColumnWrapper,
    inputs: Seq<InputTypes>,
    bru: bool,
) -> bool {
    &&& inputs.len() >= 2
    &&& inputs[0].wrapper_of().column.binary_model() is Some
    &&& inputs[1].wrapper_of().column.binary_model() is Some
    &&& old_c1.column.sized_model::<T1>() is Some
    &&& old_c1.column is Owned
    &&& (inputs[0].wrapper_of().column is BinaryConst || input_logical_len(inputs[0])
        == broadcast3_len(inputs[0], inputs[1]))
    &&& (inputs[1].wrapper_of().column is BinaryConst || input_logical_len(inputs[1])
        == broadcast3_len(inputs[0], inputs[1]))
    &&& (bru ==> !(old_c1.bitmap is Slice) && !(old_c1.bitmap is SliceMut))
}

/// As `set3_ready`, for two binary sources.
pub open spec fn set3_bin_ready<T1: Element>(
    old_c1: ColumnWrapper,
    inputs: Seq<InputTypes>,
    bru: bool,
) -> bool {
    &&& old_c1.column.sized_model::<T1>() is Some
    &&& if set3_inserts(old_c1) {
        insert3_bin_ready::<T1>(old_c1, inputs, bru)
    } else {
        assign3_bin_ready::<T1>(old_c1, inputs)
    }
}

/// What a value-producing sized write guarantees: insert semantics into an
/// empty owned destination, assign semantics otherwise.
pub open spec fn set3_post<T1: Element, T2: Element, T3: Element, OP: AssignOp3<T1, T2, T3>>(
    old_c1: ColumnWrapper,
    inputs: Seq<InputTypes>,
    new_c1: ColumnWrapper,
    bitmap_update_required: bool,
) -> bool {
    &&& inputs.len() >= 2
    &&& old_c1.column.sized_model::<T1>() is Some
    &&& (set3_inserts(old_c1) ==> {
        let n = broadcast3_len(inputs[0], inputs[1]);
        let src2 = sized_input_rows::<T2>(inputs[0], n);
        let src3 = sized_input_rows::<T3>(inputs[1], n);
        let out = map_assign3::<T1, T2, T3, OP>(src2, src3);
        &&& src2.len() == n
        &&& src3.len() == n
        &&& new_c1.column is Owned
        &&& new_c1.column.sized_model::<T1>() == Some(Seq::new(out.len(), |i: int| out[i].1))
        &&& (bitmap_update_required ==> new_c1.bitmap.model() == Some(
            Seq::new(out.len(), |i: int| out[i].0),
        ))
        &&& (!bitmap_update_required ==> new_c1.bitmap == old_c1.bitmap)
    })
    &&& (!set3_inserts(old_c1) ==> {
        let n = old_c1.column.len_spec();
        let src2 = sized_input_rows::<T2>(inputs[0], n);
        let src3 = sized_input_rows::<T3>(inputs[1], n);
        let out = map_assign3::<T1, T2, T3, OP>(src2, src3);
        &&& src2.len() == n
        &&& src3.len() == n
        &&& crate::generic_functions_2::assigned_dest::<T1>(old_c1, new_c1, out)
    })
}

/// As `set3_post`, for two binary sources.
pub open spec fn set3_bin_post<T1: Element, OP: BinaryAssignOp3<T1>>(
    old_c1: ColumnWrapper,
    inputs: Seq<InputTypes>,
    new_c1: ColumnWrapper,
    bitmap_update_required: bool,
) -> bool {
    &&& inputs.len() >= 2
    &&& old_c1.column.sized_model::<T1>() is Some
    &&& (set3_inserts(old_c1) ==> {
        let n = broadcast3_len(inputs[0], inputs[1]);
        let src2 = binary_input_rows(inputs[0], n);
        let src3 = binary_input_rows(inputs[1], n);
        let out = map_bin_assign3::<T1, OP>(src2, src3);
        &&& src2.len() == n
        &&& src3.len() == n
        &&& new_c1.column is Owned
        &&& new_c1.column.sized_model::<T1>() == Some(Seq::new(out.len(), |i: int| out[i].1))
        &&& (bitmap_update_required ==> new_c1.bitmap.model() == Some(
            Seq::new(out.len(), |i: int| out[i].0),
        ))
        &&& (!bitmap_update_required ==> new_c1.bitmap == old_c1.bitmap)
    })
    &&& (!set3_inserts(old_c1) ==> {
        let n = old_c1.column.len_spec();
        let src2 = binary_input_rows(inputs[0], n);
        let src3 = binary_input_rows(inputs[1], n);
        let out = map_bin_assign3::<T1, OP>(src2, src3);
        &&& src2.len() == n
        &&& src3.len() == n
        &&& crate::generic_functions_2::assigned_dest::<T1>(old_c1, new_c1, out)
    })
}

/// Which bitmap variant a destination carried.
enum BmKind3 {
    BmOwned,
    BmSliceMut,
    BmMissing,
}

/// Which bitmap variant a binary-source destination carried.
enum BmKindB3 {
    BmOwned,
    BmSliceMut,
    BmMissing,
}

/// Applies a three-operand assign kernel elementwise over two sized sources
/// into a sized destination of matching length.
pub fn assign_3_sized_sized_sized_unroll<
    T1: Element,
    T2: Element,
    T3: Element,
    OP: AssignOp3<T1, T2, T3>,
>(
    c1: &mut ColumnWrapper,
    input: &[InputTypes],
    op: &OP,
) -> (r: Result<(), ErrorDesc>)
    requires
        input@.len() >= 2,
        sized_input_ok::<T2>(input@[0]),
        sized_input_ok::<T3>(input@[1]),
    ensures
        match r {
            Ok(_) => {
                let n = old(c1).column.len_spec();
                let src2 = sized_input_rows::<T2>(input@[0], n);
                let src3 = sized_input_rows::<T3>(input@[1], n);
                let out = map_assign3::<T1, T2, T3, OP>(src2, src3);
                &&& old(c1).column.sized_model::<T1>() is Some
                &&& (old(c1).column is Owned || old(c1).column is SliceMut)
                &&& src2.len() == n
                &&& src3.len() == n
                &&& crate::generic_functions_2::assigned_dest::<T1>(*old(c1), *final(c1), out)
            },
            Err(_) => *final(c1) == *old(c1),
        },
        assign3_ready::<T1, T2, T3>(*old(c1), input@) ==> r is Ok,
{
    let dst_len = match c1.column.data_len::<T1>() {
        Ok(n) => n,
        Err(e) => {
            return Err(e);
        },
    };
    let src2: ReadColumn<T2> = match ReadColumn::from_input(&input[0], dst_len) {
        Ok(s) => s,
        Err(e) => {
            return Err(e);
        },
    };
    let src3: ReadColumn<T3> = match ReadColumn::from_input(&input[1], dst_len) {
        Ok(s) => s,
        Err(e) => {
            return Err(e);
        },
    };
    proof {
        T2::data_model_tag(&input@[0].wrapper_of().column.sized_of().unwrap());
        T3::data_model_tag(&input@[1].wrapper_of().column.sized_of().unwrap());
    }
    if src2.len() != dst_len || src3.len() != dst_len {
        return Err(ErrorDesc::LengthMismatch);
    }
    match &c1.bitmap {
        ColumnDataF::Slice(_) => {
            return Err(ErrorDesc::ShapeMismatch);
        },
        _ => {},
    }
    match c1.bitmap.len() {
        Some(bl) => {
            if bl != dst_len {
                return Err(ErrorDesc::LengthMismatch);
            }
        },
        None => {},
    }
    let ghost src2rows = src2.items();
    let ghost src3rows = src3.items();
    let ghost c1_orig = *c1;
    let (mut data, bm, kind) = match take_sized_dest::<T1>(c1) {
        Ok(p) => p,
        Err(e) => {
            return Err(e);
        },
    };
    proof {
        T1::data_model_tag(&c1_orig.column.sized_of().unwrap());
    }
    let (mut bits, bk): (Vec<bool>, BmKind3) = match bm {
        ColumnDataF::Owned(v) => (v, BmKind3::BmOwned),
        ColumnDataF::SliceMut(v) => (v, BmKind3::BmSliceMut),
        ColumnDataF::Missing => (Vec::new(), BmKind3::BmMissing),
        ColumnDataF::Slice(_) => {
            proof {
                assert(false);
            }
            (Vec::new(), BmKind3::BmMissing)
        },
    };
    let has_bitmap: bool = match bk {
        BmKind3::BmMissing => false,
        _ => true,
    };
    let mut i: usize = 0;
    while i < dst_len
        invariant
            i <= dst_len,
            src2.wf(),
            src3.wf(),
            src2.items() == src2rows,
            src3.items() == src3rows,
            src2rows.len() == dst_len,
            src3rows.len() == dst_len,
            data@.len() == dst_len,
            has_bitmap ==> bits@.len() == dst_len,
            forall|k: int|
                0 <= k < i ==> #[trigger] data@[k] == OP::apply_spec(
                    src2rows[k].1,
                    src2rows[k].0,
                    src3rows[k].1,
                    src3rows[k].0,
                ).1,
            has_bitmap ==> forall|k: int|
                0 <= k < i ==> #[trigger] bits@[k] == OP::apply_spec(
                    src2rows[k].1,
                    src2rows[k].0,
                    src3rows[k].1,
                    src3rows[k].0,
                ).0,
        decreases dst_len - i,
    {
        let (b2, v2) = src2.index(i);
        let (b3, v3) = src3.index(i);
        let (nb, nv) = op.apply(v2, b2, v3, b3);
        data[i] = nv;
        if has_bitmap {
            bits[i] = nb;
        }
        i = i + 1;
    }
    let new_bm: ColumnDataF<bool> = match bk {
        BmKind3::BmOwned => ColumnDataF::Owned(bits),
        BmKind3::BmSliceMut => ColumnDataF::SliceMut(bits),
        BmKind3::BmMissing => ColumnDataF::Missing,
    };
    restore_sized_dest::<T1>(c1, data, new_bm, kind);
    proof {
        let n = old(c1).column.len_spec();
        let src2_spec = sized_input_rows::<T2>(input@[0], n);
        let src3_spec = sized_input_rows::<T3>(input@[1], n);
        let out = map_assign3::<T1, T2, T3, OP>(src2_spec, src3_spec);
        assert(final(c1).column.sized_model::<T1>().unwrap() =~= Seq::new(
            out.len(),
            |i: int| out[i].1,
        ));
        if old(c1).bitmap.model() is Some {
            assert(final(c1).bitmap.model().unwrap() =~= Seq::new(out.len(), |i: int| out[i].0));
        }
    }
    Ok(())
}

/// Appends a three-operand assign kernel's output to an owned destination,
/// one row per broadcast source row.
pub fn insert_3_sized_sized_sized_unroll<
    T1: Element,
    T2: Element,
    T3: Element,
    OP: AssignOp3<T1, T2, T3>,
>(
    c1: &mut ColumnWrapper,
    input: &[InputTypes],
    bitmap_update_required: &bool,
    op: &OP,
) -> (r: Result<(), ErrorDesc>)
    requires
        input@.len() >= 2,
        sized_input_ok::<T2>(input@[0]),
        sized_input_ok::<T3>(input@[1]),
    ensures
        match r {
            Ok(_) => {
                let n = broadcast3_len(input@[0], input@[1]);
                let src2 = sized_input_rows::<T2>(input@[0], n);
                let src3 = sized_input_rows::<T3>(input@[1], n);
                let out = map_assign3::<T1, T2, T3, OP>(src2, src3);
                &&& old(c1).column.sized_model::<T1>() is Some
                &&& old(c1).column is Owned
                &&& final(c1).column is Owned
                &&& src2.len() == n
                &&& src3.len() == n
                &&& final(c1).column.sized_model::<T1>() == Some(
                    old(c1).column.sized_model::<T1>().unwrap() + Seq::new(
                        out.len(),
                        |i: int| out[i].1,
                    ),
                )
                &&& (*bitmap_update_required ==> final(c1).bitmap.model() == Some(
                    (match old(c1).bitmap.model() {
                        Some(b) => b,
                        None => Seq::<bool>::empty(),
                    }) + Seq::new(out.len(), |i: int| out[i].0),
                ) && final(c1).bitmap is Owned)
                &&& (!*bitmap_update_required ==> final(c1).bitmap == old(c1).bitmap)
            },
            Err(_) => *final(c1) == *old(c1),
        },
        insert3_ready::<T1, T2, T3>(*old(c1), input@, *bitmap_update_required) ==> r is Ok,
{
    let probe2: ReadColumn<T2> = match ReadColumn::from_input(&input[0], 1) {
        Ok(s) => s,
        Err(e) => {
            return Err(e);
        },
    };
    let probe3: ReadColumn<T3> = match ReadColumn::from_input(&input[1], 1) {
        Ok(s) => s,
        Err(e) => {
            return Err(e);
        },
    };
    let l2 = probe2.len();
    let l3 = probe3.len();
    let n: usize = if l2 >= l3 {
        l2
    } else {
        l3
    };
    proof {
        T2::data_model_tag(&input@[0].wrapper_of().column.sized_of().unwrap());
        T3::data_model_tag(&input@[1].wrapper_of().column.sized_of().unwrap());
        assert(l2 == sized_input_rows::<T2>(input@[0], 1).len());
        assert(l2 == input_logical_len(input@[0]));
        assert(l3 == sized_input_rows::<T3>(input@[1], 1).len());
        assert(l3 == input_logical_len(input@[1]));
        assert(n == broadcast3_len(input@[0], input@[1]));
    }
    let src2: ReadColumn<T2> = match ReadColumn::from_input(&input[0], n) {
        Ok(s) => s,
        Err(e) => {
            return Err(e);
        },
    };
    let src3: ReadColumn<T3> = match ReadColumn::from_input(&input[1], n) {
        Ok(s) => s,
        Err(e) => {
            return Err(e);
        },
    };
    if src2.len() != n || src3.len() != n {
        return Err(ErrorDesc::LengthMismatch);
    }
    if !c1.column.is_owned() || !c1.column.is_sized() {
        return Err(ErrorDesc::ShapeMismatch);
    }
    if *bitmap_update_required {
        match &c1.bitmap {
            ColumnDataF::Slice(_) => {
                return Err(ErrorDesc::ShapeMismatch);
            },
            ColumnDataF::SliceMut(_) => {
                return Err(ErrorDesc::ShapeMismatch);
            },
            _ => {},
        }
    }
    let ghost src2rows = src2.items();
    let ghost src3rows = src3.items();
    let ghost c1_orig = *c1;
    let (mut data, bm, kind) = match take_sized_dest::<T1>(c1) {
        Ok(p) => p,
        Err(e) => {
            return Err(e);
        },
    };
    proof {
        T1::data_model_tag(&c1_orig.column.sized_of().unwrap());
    }
    let ghost data_orig = data@;
    let (keep_bm, mut bits): (ColumnDataF<bool>, Vec<bool>) = if *bitmap_update_required {
        match bm {
            ColumnDataF::Owned(v) => (ColumnDataF::Missing, v),
            ColumnDataF::Missing => (ColumnDataF::Missing, Vec::new()),
            _ => {
                proof {
                    assert(false);
                }
                (ColumnDataF::Missing, Vec::new())
            },
        }
    } else {
        (bm, Vec::new())
    };
    let ghost bits_orig = bits@;
    let mut i: usize = 0;
    while i < n
        invariant
            i <= n,
            src2.wf(),
            src3.wf(),
            src2.items() == src2rows,
            src3.items() == src3rows,
            src2rows.len() == n,
            src3rows.len() == n,
            data@.len() == data_orig.len() + i,
            bits@.len() == bits_orig.len() + i,
            forall|k: int| 0 <= k < data_orig.len() ==> #[trigger] data@[k] == data_orig[k],
            forall|k: int| 0 <= k < bits_orig.len() ==> #[trigger] bits@[k] == bits_orig[k],
            forall|k: int|
                data_orig.len() <= k < data@.len() ==> #[trigger] data@[k] == OP::apply_spec(
                    src2rows[k - data_orig.len()].1,
                    src2rows[k - data_orig.len()].0,
                    src3rows[k - data_orig.len()].1,
                    src3rows[k - data_orig.len()].0,
                ).1,
            forall|k: int|
                bits_orig.len() <= k < bits@.len() ==> #[trigger] bits@[k] == OP::apply_spec(
                    src2rows[k - bits_orig.len()].1,
                    src2rows[k - bits_orig.len()].0,
                    src3rows[k - bits_orig.len()].1,
                    src3rows[k - bits_orig.len()].0,
                ).0,
        decreases n - i,
    {
        let (b2, v2) = src2.index(i);
        let (b3, v3) = src3.index(i);
        let (nb, nv) = op.apply(v2, b2, v3, b3);
        data.push(nv);
        bits.push(nb);
        i = i + 1;
    }
    let new_bm: ColumnDataF<bool> = if *bitmap_update_required {
        ColumnDataF::Owned(bits)
    } else {
        keep_bm
    };
    restore_sized_dest::<T1>(c1, data, new_bm, kind);
    proof {
        let nn = broadcast3_len(input@[0], input@[1]);
        let src2_spec = sized_input_rows::<T2>(input@[0], nn);
        let src3_spec = sized_input_rows::<T3>(input@[1], nn);
        let out = map_assign3::<T1, T2, T3, OP>(src2_spec, src3_spec);
        assert(final(c1).column.sized_model::<T1>().unwrap() =~= data_orig + Seq::new(
            out.len(),
            |i: int| out[i].1,
        ));
        if *bitmap_update_required {
            assert(final(c1).bitmap.model().unwrap() =~= (match old(c1).bitmap.model() {
                Some(b) => b,
                None => Seq::<bool>::empty(),
            }) + Seq::new(out.len(), |i: int| out[i].0));
        }
    }
    Ok(())
}

/// Assigns into a non-empty destination, or inserts into an empty owned one:
/// the write mode the dispatch layer uses for value-producing operations.
pub fn set_3_sized_sized_sized_unroll<
    T1: Element,
    T2: Element,
    T3: Element,
    OP: AssignOp3<T1, T2, T3>,
>(
    c1: &mut ColumnWrapper,
    input: &[InputTypes],
    bitmap_update_required: &bool,
    op: &OP,
) -> (r: Result<(), ErrorDesc>)
    requires
        input@.len() >= 2,
        sized_input_ok::<T2>(input@[0]),
        sized_input_ok::<T3>(input@[1]),
    ensures
        r is Ok ==> set3_post::<T1, T2, T3, OP>(
            *old(c1),
            input@,
            *final(c1),
            *bitmap_update_required,
        ),
        r is Err ==> *final(c1) == *old(c1),
        set3_ready::<T1, T2, T3>(*old(c1), input@, *bitmap_update_required) ==> r is Ok,
{
    let dst_len = match c1.column.data_len::<T1>() {
        Ok(n) => n,
        Err(e) => {
            return Err(e);
        },
    };
    let bitmap_empty: bool = match c1.bitmap.len() {
        Some(k) => k == 0,
        None => true,
    };
    if dst_len == 0 && c1.column.is_owned() && bitmap_empty {
        match insert_3_sized_sized_sized_unroll::<T1, T2, T3, OP>(
            c1,
            input,
            bitmap_update_required,
            op,
        ) {
            Ok(_) => {
                proof {
                    assert(old(c1).column.sized_model::<T1>().unwrap() =~= Seq::<T1>::empty());
                    let nn = broadcast3_len(input@[0], input@[1]);
                    let src2_spec = sized_input_rows::<T2>(input@[0], nn);
                    let src3_spec = sized_input_rows::<T3>(input@[1], nn);
                    let out = map_assign3::<T1, T2, T3, OP>(src2_spec, src3_spec);
                    assert(old(c1).column.sized_model::<T1>().unwrap() + Seq::new(
                        out.len(),
                        |i: int| out[i].1,
                    ) =~= Seq::new(out.len(), |i: int| out[i].1));
                    if *bitmap_update_required {
                        assert((match old(c1).bitmap.model() {
                            Some(b) => b,
                            None => Seq::<bool>::empty(),
                        }) + Seq::new(out.len(), |i: int| out[i].0) =~= Seq::new(
                            out.len(),
                            |i: int| out[i].0,
                        ));
                    }
                }
                Ok(())
            },
            Err(e) => Err(e),
        }
    } else {
        assign_3_sized_sized_sized_unroll::<T1, T2, T3, OP>(c1, input, op)
    }
}

/// Applies a three-operand assign kernel elementwise over two binary sources
/// into a sized destination of matching length.
pub fn assign_3_sized_binary_binary_unroll<T1: Element, OP: BinaryAssignOp3<T1>>(
    c1: &mut ColumnWrapper,
    input: &[InputTypes],
    op: &OP,
) -> (r: Result<(), ErrorDesc>)
    requires
        input@.len() >= 2,
        binary_input_ok(input@[0]),
        binary_input_ok(input@[1]),
    ensures
        match r {
            Ok(_) => {
                let n = old(c1).column.len_spec();
                let src2 = binary_input_rows(input@[0], n);
                let src3 = binary_input_rows(input@[1], n);
                let out = map_bin_assign3::<T1, OP>(src2, src3);
                &&& old(c1).column.sized_model::<T1>() is Some
                &&& (old(c1).column is Owned || old(c1).column is SliceMut)
                &&& src2.len() == n
                &&& src3.len() == n
                &&& crate::generic_functions_2::assigned_dest::<T1>(*old(c1), *final(c1), out)
            },
            Err(_) => *final(c1) == *old(c1),
        },
        assign3_bin_ready::<T1>(*old(c1), input@) ==> r is Ok,
{
    let dst_len = match c1.column.data_len::<T1>() {
        Ok(n) => n,
        Err(e) => {
            return Err(e);
        },
    };
    let src2: ReadBinaryColumn = match ReadBinaryColumn::from_input(&input[0], dst_len) {
        Ok(s) => s,
        Err(e) => {
            return Err(e);
        },
    };
    let src3: ReadBinaryColumn = match ReadBinaryColumn::from_input(&input[1], dst_len) {
        Ok(s) => s,
        Err(e) => {
            return Err(e);
        },
    };
    if src2.len() != dst_len || src3.len() != dst_len {
        return Err(ErrorDesc::LengthMismatch);
    }
    match &c1.bitmap {
        ColumnDataF::Slice(_) => {
            return Err(ErrorDesc::ShapeMismatch);
        },
        _ => {},
    }
    match c1.bitmap.len() {
        Some(bl) => {
            if bl != dst_len {
                return Err(ErrorDesc::LengthMismatch);
            }
        },
        None => {},
    }
    let ghost src2rows = src2.items();
    let ghost src3rows = src3.items();
    let ghost c1_orig = *c1;
    let (mut data, bm, kind) = match take_sized_dest::<T1>(c1) {
        Ok(p) => p,
        Err(e) => {
            return Err(e);
        },
    };
    proof {
        T1::data_model_tag(&c1_orig.column.sized_of().unwrap());
    }
    let (mut bits, bk): (Vec<bool>, BmKindB3) = match bm {
        ColumnDataF::Owned(v) => (v, BmKindB3::BmOwned),
        ColumnDataF::SliceMut(v) => (v, BmKindB3::BmSliceMut),
        ColumnDataF::Missing => (Vec::new(), BmKindB3::BmMissing),
        ColumnDataF::Slice(_) => {
            proof {
                assert(false);
            }
            (Vec::new(), BmKindB3::BmMissing)
        },
    };
    let has_bitmap: bool = match bk {
        BmKindB3::BmMissing => false,
        _ => true,
    };
    let mut i: usize = 0;
    while i < dst_len
        invariant
            i <= dst_len,
            src2.wf(),
            src3.wf(),
            src2.items() == src2rows,
            src3.items() == src3rows,
            src2rows.len() == dst_len,
            src3rows.len() == dst_len,
            data@.len() == dst_len,
            has_bitmap ==> bits@.len() == dst_len,
            forall|k: int|
                0 <= k < i ==> #[trigger] data@[k] == OP::apply_spec(
                    src2rows[k].1,
                    src2rows[k].0,
                    src3rows[k].1,
                    src3rows[k].0,
                ).1,
            has_bitmap ==> forall|k: int|
                0 <= k < i ==> #[trigger] bits@[k] == OP::apply_spec(
                    src2rows[k].1,
                    src2rows[k].0,
                    src3rows[k].1,
                    src3rows[k].0,
                ).0,
        decreases dst_len - i,
    {
        let (b2, v2) = src2.index(i);
        let (b3, v3) = src3.index(i);
        let (nb, nv) = op.apply(v2, b2, v3, b3);
        data[i] = nv;
        if has_bitmap {
            bits[i] = nb;
        }
        i = i + 1;
    }
    let new_bm: ColumnDataF<bool> = match bk {
        BmKindB3::BmOwned => ColumnDataF::Owned(bits),
        BmKindB3::BmSliceMut => ColumnDataF::SliceMut(bits),
        BmKindB3::BmMissing => ColumnDataF::Missing,
    };
    restore_sized_dest::<T1>(c1, data, new_bm, kind);
    proof {
        let n = old(c1).column.len_spec();
        let src2_spec = binary_input_rows(input@[0], n);
        let src3_spec = binary_input_rows(input@[1], n);
        let out = map_bin_assign3::<T1, OP>(src2_spec, src3_spec);
        assert(final(c1).column.sized_model::<T1>().unwrap() =~= Seq::new(
            out.len(),
            |i: int| out[i].1,
        ));
        if old(c1).bitmap.model() is Some {
            assert(final(c1).bitmap.model().unwrap() =~= Seq::new(out.len(), |i: int| out[i].0));
        }
    }
    Ok(())
}

/// Appends a three-operand assign kernel's output to an owned destination,
/// one row per broadcast source row.
pub fn insert_3_sized_binary_binary_unroll<T1: Element, OP: BinaryAssignOp3<T1>>(
    c1: &mut ColumnWrapper,
    input: &[InputTypes],
    bitmap_update_required: &bool,
    op: &OP,
) -> (r: Result<(), ErrorDesc>)
    requires
        input@.len() >= 2,
        binary_input_ok(input@[0]),
        binary_input_ok(input@[1]),
    ensures
        match r {
            Ok(_) => {
                let n = broadcast3_len(input@[0], input@[1]);
                let src2 = binary_input_rows(input@[0], n);
                let src3 = binary_input_rows(input@[1], n);
                let out = map_bin_assign3::<T1, OP>(src2, src3);
                &&& old(c1).column.sized_model::<T1>() is Some
                &&& old(c1).column is Owned
                &&& final(c1).column is Owned
                &&& src2.len() == n
                &&& src3.len() == n
                &&& final(c1).column.sized_model::<T1>() == Some(
                    old(c1).column.sized_model::<T1>().unwrap() + Seq::new(
                        out.len(),
                        |i: int| out[i].1,
                    ),
                )
                &&& (*bitmap_update_required ==> final(c1).bitmap.model() == Some(
                    (match old(c1).bitmap.model() {
                        Some(b) => b,
                        None => Seq::<bool>::empty(),
                    }) + Seq::new(out.len(), |i: int| out[i].0),
                ) && final(c1).bitmap is Owned)
                &&& (!*bitmap_update_required ==> final(c1).bitmap == old(c1).bitmap)
            },
            Err(_) => *final(c1) == *old(c1),
        },
        insert3_bin_ready::<T1>(*old(c1), input@, *bitmap_update_required) ==> r is Ok,
{
    let probe2: ReadBinaryColumn = match ReadBinaryColumn::from_input(&input[0], 1) {
        Ok(s) => s,
        Err(e) => {
            return Err(e);
        },
    };
    let probe3: ReadBinaryColumn = match ReadBinaryColumn::from_input(&input[1], 1) {
        Ok(s) => s,
        Err(e) => {
            return Err(e);
        },
    };
    let l2 = probe2.len();
    let l3 = probe3.len();
    let n: usize = if l2 >= l3 {
        l2
    } else {
        l3
    };
    proof {
        assert(l2 == binary_input_rows(input@[0], 1).len());
        assert(l2 == input_logical_len(input@[0]));
        assert(l3 == binary_input_rows(input@[1], 1).len());
        assert(l3 == input_logical_len(input@[1]));
        assert(n == broadcast3_len(input@[0], input@[1]));
    }
    let src2: ReadBinaryColumn = match ReadBinaryColumn::from_input(&input[0], n) {
        Ok(s) => s,
        Err(e) => {
            return Err(e);
        },
    };
    let src3: ReadBinaryColumn = match ReadBinaryColumn::from_input(&input[1], n) {
        Ok(s) => s,
        Err(e) => {
            return Err(e);
        },
    };
    if src2.len() != n || src3.len() != n {
        return Err(ErrorDesc::LengthMismatch);
    }
    if !c1.column.is_owned() || !c1.column.is_sized() {
        return Err(ErrorDesc::ShapeMismatch);
    }
    if *bitmap_update_required {
        match &c1.bitmap {
            ColumnDataF::Slice(_) => {
                return Err(ErrorDesc::ShapeMismatch);
            },
            ColumnDataF::SliceMut(_) => {
                return Err(ErrorDesc::ShapeMismatch);
            },
            _ => {},
        }
    }
    let ghost src2rows = src2.items();
    let ghost src3rows = src3.items();
    let ghost c1_orig = *c1;
    let (mut data, bm, kind) = match take_sized_dest::<T1>(c1) {
        Ok(p) => p,
        Err(e) => {
            return Err(e);
        },
    };
    proof {
        T1::data_model_tag(&c1_orig.column.sized_of().unwrap());
    }
    let ghost data_orig = data@;
    let (keep_bm, mut bits): (ColumnDataF<bool>, Vec<bool>) = if *bitmap_update_required {
        match bm {
            ColumnDataF::Owned(v) => (ColumnDataF::Missing, v),
            ColumnDataF::Missing => (ColumnDataF::Missing, Vec::new()),
            _ => {
                proof {
                    assert(false);
                }
                (ColumnDataF::Missing, Vec::new())
            },
        }
    } else {
        (bm, Vec::new())
    };
    let ghost bits_orig = bits@;
    let mut i: usize = 0;
    while i < n
        invariant
            i <= n,
            src2.wf(),
            src3.wf(),
            src2.items() == src2rows,
            src3.items() == src3rows,
            src2rows.len() == n,
            src3rows.len() == n,
            data@.len() == data_orig.len() + i,
            bits@.len() == bits_orig.len() + i,
            forall|k: int| 0 <= k < data_orig.len() ==> #[trigger] data@[k] == data_orig[k],
            forall|k: int| 0 <= k < bits_orig.len() ==> #[trigger] bits@[k] == bits_orig[k],
            forall|k: int|
                data_orig.len() <= k < data@.len() ==> #[trigger] data@[k] == OP::apply_spec(
                    src2rows[k - data_orig.len()].1,
                    src2rows[k - data_orig.len()].0,
                    src3rows[k - data_orig.len()].1,
                    src3rows[k - data_orig.len()].0,
                ).1,
            forall|k: int|
                bits_orig.len() <= k < bits@.len() ==> #[trigger] bits@[k] == OP::apply_spec(
                    src2rows[k - bits_orig.len()].1,
                    src2rows[k - bits_orig.len()].0,
                    src3rows[k - bits_orig.len()].1,
                    src3rows[k - bits_orig.len()].0,
                ).0,
        decreases n - i,
    {
        let (b2, v2) = src2.index(i);
        let (b3, v3) = src3.index(i);
        let (nb, nv) = op.apply(v2, b2, v3, b3);
        data.push(nv);
        bits.push(nb);
        i = i + 1;
    }
    let new_bm: ColumnDataF<bool> = if *bitmap_update_required {
        ColumnDataF::Owned(bits)
    } else {
        keep_bm
    };
    restore_sized_dest::<T1>(c1, data, new_bm, kind);
    proof {
        let nn = broadcast3_len(input@[0], input@[1]);
        let src2_spec = binary_input_rows(input@[0], nn);
        let src3_spec = binary_input_rows(input@[1], nn);
        let out = map_bin_assign3::<T1, OP>(src2_spec, src3_spec);
        assert(final(c1).column.sized_model::<T1>().unwrap() =~= data_orig + Seq::new(
            out.len(),
            |i: int| out[i].1,
        ));
        if *bitmap_update_required {
            assert(final(c1).bitmap.model().unwrap() =~= (match old(c1).bitmap.model() {
                Some(b) => b,
                None => Seq::<bool>::empty(),
            }) + Seq::new(out.len(), |i: int| out[i].0));
        }
    }
    Ok(())
}

/// Assigns into a non-empty destination, or inserts into an empty owned one:
/// the write mode the dispatch layer uses for value-producing operations.
pub fn set_3_sized_binary_binary_unroll<T1: Element, OP: BinaryAssignOp3<T1>>(
    c1: &mut ColumnWrapper,
    input: &[InputTypes],
    bitmap_update_required: &bool,
    op: &OP,
) -> (r: Result<(), ErrorDesc>)
    requires
        input@.len() >= 2,
        binary_input_ok(input@[0]),
        binary_input_ok(input@[1]),
    ensures
        r is Ok ==> set3_bin_post::<T1, OP>(*old(c1), input@, *final(c1), *bitmap_update_required),
        r is Err ==> *final(c1) == *old(c1),
        set3_bin_ready::<T1>(*old(c1), input@, *bitmap_update_required) ==> r is Ok,
{
    let dst_len = match c1.column.data_len::<T1>() {
        Ok(n) => n,
        Err(e) => {
            return Err(e);
        },
    };
    let bitmap_empty: bool = match c1.bitmap.len() {
        Some(k) => k == 0,
        None => true,
    };
    if dst_len == 0 && c1.column.is_owned() && bitmap_empty {
        match insert_3_sized_binary_binary_unroll::<T1, OP>(
            c1,
            input,
            bitmap_update_required,
            op,
        ) {
            Ok(_) => {
                proof {
                    assert(old(c1).column.sized_model::<T1>().unwrap() =~= Seq::<T1>::empty());
                    let nn = broadcast3_len(input@[0], input@[1]);
                    let src2_spec = binary_input_rows(input@[0], nn);
                    let src3_spec = binary_input_rows(input@[1], nn);
                    let out = map_bin_assign3::<T1, OP>(src2_spec, src3_spec);
                    assert(old(c1).column.sized_model::<T1>().unwrap() + Seq::new(
                        out.len(),
                        |i: int| out[i].1,
                    ) =~= Seq::new(out.len(), |i: int| out[i].1));
                    if *bitmap_update_required {
                        assert((match old(c1).bitmap.model() {
                            Some(b) => b,
                            None => Seq::<bool>::empty(),
                        }) + Seq::new(out.len(), |i: int| out[i].0) =~= Seq::new(
                            out.len(),
                            |i: int| out[i].0,
                        ));
                    }
                }
                Ok(())
            },
            Err(e) => Err(e),
        }
    } else {
        assign_3_sized_binary_binary_unroll::<T1, OP>(c1, input, op)
    }
}

} // verus!
