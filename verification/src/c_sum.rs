//! The `SUM` kernels: per-group aggregation of a value column under a
//! dense group-id vector, producing one output row per group.
//! A null source row adds zero; the output carries no bitmap.

use vstd::prelude::*;

use crate::column::ColumnWrapper;
use crate::columndata::{ColumnData, ColumnDataF};
use crate::errors::ErrorDesc;
use crate::index::ColumnDataIndex;
use crate::indexedreadcolumn::ReadColumn;
use crate::ops::{sized_input_ok, sized_input_rows, InputTypes, OpDictionary, Operation};
use crate::owned::{vec_fill, OwnedColumn};
use crate::signature::{OpName, Signature};
use crate::sized_data::Element;
use crate::tag::ItemTypeId;

verus! {

/// The per-group sums after folding the first `k` rows: a null row adds zero.
pub open spec fn sum_groups_u32(
    src: Seq<(bool, u32)>,
    gids: Seq<usize>,
    acc: Seq<u32>,
    k: int,
) -> Seq<u32>
    decreases k,
{
    if k <= 0 {
        acc
    } else {
        let prev = sum_groups_u32(src, gids, acc, k - 1);
        let g = gids[k - 1] as int;
        prev.update(
            g,
            vstd::wrapping::u32_specs::wrapping_add(
                prev[g],
                if src[k - 1].0 {
                    src[k - 1].1
                } else {
                    0
                },
            ),
        )
    }
}

/// The fold keeps the accumulator length.
pub proof fn lemma_sum_groups_u32_len(
    src: Seq<(bool, u32)>,
    gids: Seq<usize>,
    acc: Seq<u32>,
    k: int,
)
    requires
        forall|i: int| 0 <= i < k ==> #[trigger] gids[i] < acc.len(),
    ensures
        sum_groups_u32(src, gids, acc, k).len() == acc.len(),
    decreases k,
{
    if k > 0 {
        lemma_sum_groups_u32_len(src, gids, acc, k - 1);
    }
}

/// What the `sum` kernel guarantees of its destination, over u32 values.
pub open spec fn sum_post_u32(inputs: Seq<InputTypes>, new_c1: ColumnWrapper) -> bool {
                let gids = inputs[1].wrapper_of().column.sized_model::<usize>().unwrap();
                let g_count = inputs[2].wrapper_of().column.sized_model::<usize>().unwrap()[0];
                let src = sized_input_rows::<u32>(inputs[0], gids.len());
                &&& inputs.len() >= 3
                &&& inputs[1].wrapper_of().column.sized_model::<usize>() is Some
                &&& inputs[2].wrapper_of().column.sized_model::<usize>() is Some
                &&& src.len() == gids.len()
                &&& forall|i: int| 0 <= i < gids.len() ==> #[trigger] gids[i] < g_count
                &&& new_c1.column is Owned
                &&& new_c1.bitmap is Missing
                &&& new_c1.column.sized_model::<u32>() == Some(
                    sum_groups_u32(
                        src,
                        gids,
                        Seq::new(g_count as nat, |i: int| 0 as u32),
                        gids.len() as int,
                    ),
                )
    }

/// `SUM` of a u32 column per group: wrapping addition, nulls add zero, and
/// every group starts at zero (an all-null group sums to zero, with no
/// bitmap on the output).
pub fn sum_u32(
    c1: &mut ColumnWrapper,
    c1_index: &ColumnDataIndex,
    input: &[InputTypes],
) -> (r: Result<(), ErrorDesc>)
    requires
        sized_input_ok::<u32>(input@[0]),
    ensures
        match r {
            Ok(_) => sum_post_u32(input@, *final(c1)),
            Err(_) => *final(c1) == *old(c1),
        },
        crate::ops::agg_ready::<u32>(c1_index, input@) ==> r is Ok,
{
    if input.len() < 3 {
        return Err(ErrorDesc::Lookup);
    }
    if !c1_index.is_missing() {
        return Err(ErrorDesc::ShapeMismatch);
    }
    let (c3, c3i) = input[1].parts();
    if !c3i.is_missing() || c3.bitmap().is_some() || c3.column().is_const() {
        return Err(ErrorDesc::ShapeMismatch);
    }
    let gids: &Vec<usize> = match c3.column().downcast_ref::<usize>() {
        Ok(v) => v,
        Err(e) => {
            return Err(e);
        },
    };
    let (c4, c4i) = input[2].parts();
    if !c4i.is_missing() || !c4.column().is_const() {
        return Err(ErrorDesc::ShapeMismatch);
    }
    let gcv: &Vec<usize> = match c4.column().downcast_ref::<usize>() {
        Ok(v) => v,
        Err(e) => {
            return Err(e);
        },
    };
    if gcv.len() == 0 {
        return Err(ErrorDesc::ShapeMismatch);
    }
    let g_count: usize = gcv[0];
    let n = gids.len();
    let mut i: usize = 0;
    #[verifier::loop_isolation(false)]
    while i < n
        invariant
            i <= n,
            forall|k: int| 0 <= k < i ==> #[trigger] gids@[k] < g_count,
        decreases n - i,
    {
        if gids[i] >= g_count {
            proof {
                if crate::ops::agg_ready::<u32>(c1_index, input@) {
                    assert(gids@ == input@[1].wrapper_of().column.sized_model::<
                    usize>().unwrap());
                    assert(gcv@ == input@[2].wrapper_of().column.sized_model::<
                    usize>().unwrap());
                    assert(g_count == gcv@[0]);
                    assert(gids@[i as int] < gcv@[0]);
                    assert(false);
                }
            }
            return Err(ErrorDesc::Boundary);
        }
        i = i + 1;
    }
    let src: ReadColumn<u32> = match ReadColumn::from_input(&input[0], n) {
        Ok(s) => s,
        Err(e) => {
            return Err(e);
        },
    };
    proof {
        <u32 as Element>::data_model_tag(&input@[0].wrapper_of().column.sized_of().unwrap());
        <u64 as Element>::data_model_tag(&input@[0].wrapper_of().column.sized_of().unwrap());
    }
    if src.len() != n {
        return Err(ErrorDesc::LengthMismatch);
    }
    let ghost srcrows = src.items();
    let mut acc: Vec<u32> = vec_fill::<u32>(g_count);
    let ghost acc0 = acc@;
    let mut k: usize = 0;
    while k < n
        invariant
            k <= n,
            src.wf(),
            src.items() == srcrows,
            srcrows.len() == n,
            n == gids@.len(),
            acc@.len() == g_count,
            forall|j: int| 0 <= j < n ==> #[trigger] gids@[j] < g_count,
            acc@ == sum_groups_u32(srcrows, gids@, acc0, k as int),
        decreases n - k,
    {
        let g = gids[k];
        let (b, v) = src.index(k);
        let addend: u32 = if b {
            v
        } else {
            0
        };
        acc[g] = acc[g].wrapping_add(addend);
        k = k + 1;
    }
    c1.column = ColumnData::Owned(OwnedColumn::new::<u32>(acc));
    c1.bitmap = ColumnDataF::Missing;
    Ok(())
}

/// The per-group sums after folding the first `k` rows: a null row adds zero.
pub open spec fn sum_groups_u64(
    src: Seq<(bool, u64)>,
    gids: Seq<usize>,
    acc: Seq<u64>,
    k: int,
) -> Seq<u64>
    decreases k,
{
    if k <= 0 {
        acc
    } else {
        let prev = sum_groups_u64(src, gids, acc, k - 1);
        let g = gids[k - 1] as int;
        prev.update(
            g,
            vstd::wrapping::u64_specs::wrapping_add(
                prev[g],
                if src[k - 1].0 {
                    src[k - 1].1
                } else {
                    0
                },
            ),
        )
    }
}

/// The fold keeps the accumulator length.
pub proof fn lemma_sum_groups_u64_len(
    src: Seq<(bool, u64)>,
    gids: Seq<usize>,
    acc: Seq<u64>,
    k: int,
)
    requires
        forall|i: int| 0 <= i < k ==> #[trigger] gids[i] < acc.len(),
    ensures
        sum_groups_u64(src, gids, acc, k).len() == acc.len(),
    decreases k,
{
    if k > 0 {
        lemma_sum_groups_u64_len(src, gids, acc, k - 1);
    }
}

/// What the `sum` kernel guarantees of its destination, over u64 values.
pub open spec fn sum_post_u64(inputs: Seq<InputTypes>, new_c1: ColumnWrapper) -> bool {
                let gids = inputs[1].wrapper_of().column.sized_model::<usize>().unwrap();
                let g_count = inputs[2].wrapper_of().column.sized_model::<usize>().unwrap()[0];
                let src = sized_input_rows::<u64>(inputs[0], gids.len());
                &&& inputs.len() >= 3
                &&& inputs[1].wrapper_of().column.sized_model::<usize>() is Some
                &&& inputs[2].wrapper_of().column.sized_model::<usize>() is Some
                &&& src.len() == gids.len()
                &&& forall|i: int| 0 <= i < gids.len() ==> #[trigger] gids[i] < g_count
                &&& new_c1.column is Owned
                &&& new_c1.bitmap is Missing
                &&& new_c1.column.sized_model::<u64>() == Some(
                    sum_groups_u64(
                        src,
                        gids,
                        Seq::new(g_count as nat, |i: int| 0 as u64),
                        gids.len() as int,
                    ),
                )
    }

/// `SUM` of a u64 column per group: wrapping addition, nulls add zero, and
/// every group starts at zero (an all-null group sums to zero, with no
/// bitmap on the output).
pub fn sum_u64(
    c1: &mut ColumnWrapper,
    c1_index: &ColumnDataIndex,
    input: &[InputTypes],
) -> (r: Result<(), ErrorDesc>)
    requires
        sized_input_ok::<u64>(input@[0]),
    ensures
        match r {
            Ok(_) => sum_post_u64(input@, *final(c1)),
            Err(_) => *final(c1) == *old(c1),
        },
        crate::ops::agg_ready::<u64>(c1_index, input@) ==> r is Ok,
{
    if input.len() < 3 {
        return Err(ErrorDesc::Lookup);
    }
    if !c1_index.is_missing() {
        return Err(ErrorDesc::ShapeMismatch);
    }
    let (c3, c3i) = input[1].parts();
    if !c3i.is_missing() || c3.bitmap().is_some() || c3.column().is_const() {
        return Err(ErrorDesc::ShapeMismatch);
    }
    let gids: &Vec<usize> = match c3.column().downcast_ref::<usize>() {
        Ok(v) => v,
        Err(e) => {
            return Err(e);
        },
    };
    let (c4, c4i) = input[2].parts();
    if !c4i.is_missing() || !c4.column().is_const() {
        return Err(ErrorDesc::ShapeMismatch);
    }
    let gcv: &Vec<usize> = match c4.column().downcast_ref::<usize>() {
        Ok(v) => v,
        Err(e) => {
            return Err(e);
        },
    };
    if gcv.len() == 0 {
        return Err(ErrorDesc::ShapeMismatch);
    }
    let g_count: usize = gcv[0];
    let n = gids.len();
    let mut i: usize = 0;
    #[verifier::loop_isolation(false)]
    while i < n
        invariant
            i <= n,
            forall|k: int| 0 <= k < i ==> #[trigger] gids@[k] < g_count,
        decreases n - i,
    {
        if gids[i] >= g_count {
            proof {
                if crate::ops::agg_ready::<u64>(c1_index, input@) {
                    assert(gids@ == input@[1].wrapper_of().column.sized_model::<
                    usize>().unwrap());
                    assert(gcv@ == input@[2].wrapper_of().column.sized_model::<
                    usize>().unwrap());
                    assert(g_count == gcv@[0]);
                    assert(gids@[i as int] < gcv@[0]);
                    assert(false);
                }
            }
            return Err(ErrorDesc::Boundary);
        }
        i = i + 1;
    }
    let src: ReadColumn<u64> = match ReadColumn::from_input(&input[0], n) {
        Ok(s) => s,
        Err(e) => {
            return Err(e);
        },
    };
    proof {
        <u32 as Element>::data_model_tag(&input@[0].wrapper_of().column.sized_of().unwrap());
        <u64 as Element>::data_model_tag(&input@[0].wrapper_of().column.sized_of().unwrap());
    }
    if src.len() != n {
        return Err(ErrorDesc::LengthMismatch);
    }
    let ghost srcrows = src.items();
    let mut acc: Vec<u64> = vec_fill::<u64>(g_count);
    let ghost acc0 = acc@;
    let mut k: usize = 0;
    while k < n
        invariant
            k <= n,
            src.wf(),
            src.items() == srcrows,
            srcrows.len() == n,
            n == gids@.len(),
            acc@.len() == g_count,
            forall|j: int| 0 <= j < n ==> #[trigger] gids@[j] < g_count,
            acc@ == sum_groups_u64(srcrows, gids@, acc0, k as int),
        decreases n - k,
    {
        let g = gids[k];
        let (b, v) = src.index(k);
        let addend: u64 = if b {
            v
        } else {
            0
        };
        acc[g] = acc[g].wrapping_add(addend);
        k = k + 1;
    }
    c1.column = ColumnData::Owned(OwnedColumn::new::<u64>(acc));
    c1.bitmap = ColumnDataF::Missing;
    Ok(())
}

/// Registers the `SUM` signatures.
pub fn load_op_dict(dict: &mut OpDictionary)
    ensures
        final(dict)@.len() == old(dict)@.len() + 2,
        forall|i: int| 0 <= i < old(dict)@.len() ==> #[trigger] final(dict)@[i] == old(dict)@[i],
        forall|i: int|
            old(dict)@.len() <= i < final(dict)@.len() ==> (#[trigger] final(dict)@[i]).0.op_name
                == OpName::Sum && !final(dict)@[i].1.is_assign_op,
{
    let mut s = Signature::new_op(OpName::Sum);
    s.add_input::<u32>();
    dict.push(
        (
            s,
            Operation {
                output_type_id: ItemTypeId::U32,
                is_assign_op: false,
                associated_assign_op: None,
                associated_input_switch_op: None,
            },
        ),
    );
    let mut s = Signature::new_op(OpName::Sum);
    s.add_input::<u64>();
    dict.push(
        (
            s,
            Operation {
                output_type_id: ItemTypeId::U64,
                is_assign_op: false,
                associated_assign_op: None,
                associated_input_switch_op: None,
            },
        ),
    );
}

} // verus!
