//! The `+=` kernels: elementwise wrapping addition in place, under the
//! AND of the operand bitmaps. A null destination row keeps the zero value.

use vstd::prelude::*;

use crate::column::ColumnWrapper;
use crate::errors::ErrorDesc;
use crate::ftype::UpdateOp2;
use crate::generic_functions_2::{update2_post, update_2_sized_sized_unroll};
use crate::index::ColumnDataIndex;
use crate::ops::{sized_input_ok, InputTypes, OpDictionary, Operation};
use crate::signature::{OpName, Signature};
use crate::tag::ItemTypeId;

verus! {

/// Wrapping `+=` over u32 rows.
pub struct AddAssignU32;

impl UpdateOp2<u32, u32> for AddAssignU32 {
    open spec fn update_spec(t: u32, tb: bool, v: u32, b: bool) -> (u32, bool) {
        (
            if tb {
                vstd::wrapping::u32_specs::wrapping_add(t, v)
            } else {
                0
            },
            tb && b,
        )
    }

    fn update(&self, t: u32, tb: bool, v: u32, b: bool) -> (u32, bool) {
        (
            if tb {
                t.wrapping_add(v)
            } else {
                0
            },
            tb && b,
        )
    }
}
/// Wrapping `+=` over u64 rows.
pub struct AddAssignU64;

impl UpdateOp2<u64, u64> for AddAssignU64 {
    open spec fn update_spec(t: u64, tb: bool, v: u64, b: bool) -> (u64, bool) {
        (
            if tb {
                vstd::wrapping::u64_specs::wrapping_add(t, v)
            } else {
                0
            },
            tb && b,
        )
    }

    fn update(&self, t: u64, tb: bool, v: u64, b: bool) -> (u64, bool) {
        (
            if tb {
                t.wrapping_add(v)
            } else {
                0
            },
            tb && b,
        )
    }
}

/// `+=` over u32 columns.
pub fn addassign_u32(
    c1: &mut ColumnWrapper,
    c1_index: &ColumnDataIndex,
    input: &[InputTypes],
) -> (r: Result<(), ErrorDesc>)
    requires
        input@.len() >= 1,
        sized_input_ok::<u32>(input@[0]),
        c1_index.in_bounds(old(c1).column.len_spec()),
    ensures
        match r {
            Ok(_) => update2_post::<u32, u32, AddAssignU32>(
                *old(c1),
                c1_index,
                input@,
                *final(c1),
            ),
            Err(_) => *final(c1) == *old(c1),
        },
        crate::generic_functions_2::update2_ready::<u32, u32>(*old(c1), c1_index, input@)
            ==> r is Ok,
{
    update_2_sized_sized_unroll::<u32, u32, AddAssignU32>(c1, c1_index, input, &AddAssignU32)
}

/// `+=` over u64 columns.
pub fn addassign_u64(
    c1: &mut ColumnWrapper,
    c1_index: &ColumnDataIndex,
    input: &[InputTypes],
) -> (r: Result<(), ErrorDesc>)
    requires
        input@.len() >= 1,
        sized_input_ok::<u64>(input@[0]),
        c1_index.in_bounds(old(c1).column.len_spec()),
    ensures
        match r {
            Ok(_) => update2_post::<u64, u64, AddAssignU64>(
                *old(c1),
                c1_index,
                input@,
                *final(c1),
            ),
            Err(_) => *final(c1) == *old(c1),
        },
        crate::generic_functions_2::update2_ready::<u64, u64>(*old(c1), c1_index, input@)
            ==> r is Ok,
{
    update_2_sized_sized_unroll::<u64, u64, AddAssignU64>(c1, c1_index, input, &AddAssignU64)
}

/// Registers the `+=` signatures.
pub fn load_op_dict(dict: &mut OpDictionary)
    ensures
        final(dict)@.len() == old(dict)@.len() + 2,
        forall|i: int| 0 <= i < old(dict)@.len() ==> #[trigger] final(dict)@[i] == old(dict)@[i],
        forall|i: int|
            old(dict)@.len() <= i < final(dict)@.len() ==> (#[trigger] final(dict)@[i]).0.op_name
                == OpName::AddAssign && final(dict)@[i].1.is_assign_op,
{
    let mut s = Signature::new_op(OpName::AddAssign);
    s.add_input::<u32>();
    s.add_input::<u32>();
    dict.push(
        (
            s,
            Operation {
                output_type_id: ItemTypeId::U32,
                is_assign_op: true,
                associated_assign_op: None,
                associated_input_switch_op: Some(OpName::AddAssign),
            },
        ),
    );
    let mut s = Signature::new_op(OpName::AddAssign);
    s.add_input::<u64>();
    s.add_input::<u64>();
    dict.push(
        (
            s,
            Operation {
                output_type_id: ItemTypeId::U64,
                is_assign_op: true,
                associated_assign_op: None,
                associated_input_switch_op: Some(OpName::AddAssign),
            },
        ),
    );
}

} // verus!
