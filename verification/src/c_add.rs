//! The `+` kernels: elementwise wrapping addition producing a new column,
//! with the output bitmap the AND of the operand bitmaps.

use vstd::prelude::*;

use crate::column::ColumnWrapper;
use crate::errors::ErrorDesc;
use crate::ftype::AssignOp3;
use crate::generic_functions_3::{set3_post, set_3_sized_sized_sized_unroll};
use crate::index::ColumnDataIndex;
use crate::ops::{sized_input_ok, InputTypes, OpDictionary, Operation};
use crate::signature::{OpName, Signature};
use crate::tag::ItemTypeId;

verus! {

/// Wrapping `+` over u32 rows.
pub struct AddU32;

impl AssignOp3<u32, u32, u32> for AddU32 {
    open spec fn apply_spec(v2: u32, b2: bool, v3: u32, b3: bool) -> (bool, u32) {
        (b2 && b3, vstd::wrapping::u32_specs::wrapping_add(v2, v3))
    }

    fn apply(&self, v2: u32, b2: bool, v3: u32, b3: bool) -> (bool, u32) {
        (b2 && b3, v2.wrapping_add(v3))
    }
}

/// Wrapping `+` over u64 rows.
pub struct AddU64;

impl AssignOp3<u64, u64, u64> for AddU64 {
    open spec fn apply_spec(v2: u64, b2: bool, v3: u64, b3: bool) -> (bool, u64) {
        (b2 && b3, vstd::wrapping::u64_specs::wrapping_add(v2, v3))
    }

    fn apply(&self, v2: u64, b2: bool, v3: u64, b3: bool) -> (bool, u64) {
        (b2 && b3, v2.wrapping_add(v3))
    }
}

/// `+` over two u32 operands, written into or appended to `c1`.
pub fn add_u32(
    c1: &mut ColumnWrapper,
    _c1_index: &ColumnDataIndex,
    input: &[InputTypes],
) -> (r: Result<(), ErrorDesc>)
    requires
        input@.len() >= 2,
        sized_input_ok::<u32>(input@[0]),
        sized_input_ok::<u32>(input@[1]),
    ensures
        r is Ok ==> set3_post::<u32, u32, u32, AddU32>(
            *old(c1),
            input@,
            *final(c1),
            input@[0].wrapper_of().bitmap.model() is Some || input@[1].wrapper_of().bitmap.model()
                is Some,
        ),
        r is Err ==> *final(c1) == *old(c1),
        crate::generic_functions_3::set3_ready::<u32, u32, u32>(
            *old(c1),
            input@,
            input@[0].wrapper_of().bitmap.model() is Some || input@[1].wrapper_of().bitmap.model()
                is Some,
        ) ==> r is Ok,
{
    let (c2, _) = input[0].parts();
    let (c3, _) = input[1].parts();
    let bitmap_update_required = c2.bitmap().is_some() || c3.bitmap().is_some();
    set_3_sized_sized_sized_unroll::<u32, u32, u32, AddU32>(
        c1,
        input,
        &bitmap_update_required,
        &AddU32,
    )
}

/// `+` over two u64 operands, written into or appended to `c1`.
pub fn add_u64(
    c1: &mut ColumnWrapper,
    _c1_index: &ColumnDataIndex,
    input: &[InputTypes],
) -> (r: Result<(), ErrorDesc>)
    requires
        input@.len() >= 2,
        sized_input_ok::<u64>(input@[0]),
        sized_input_ok::<u64>(input@[1]),
    ensures
        r is Ok ==> set3_post::<u64, u64, u64, AddU64>(
            *old(c1),
            input@,
            *final(c1),
            input@[0].wrapper_of().bitmap.model() is Some || input@[1].wrapper_of().bitmap.model()
                is Some,
        ),
        r is Err ==> *final(c1) == *old(c1),
        crate::generic_functions_3::set3_ready::<u64, u64, u64>(
            *old(c1),
            input@,
            input@[0].wrapper_of().bitmap.model() is Some || input@[1].wrapper_of().bitmap.model()
                is Some,
        ) ==> r is Ok,
{
    let (c2, _) = input[0].parts();
    let (c3, _) = input[1].parts();
    let bitmap_update_required = c2.bitmap().is_some() || c3.bitmap().is_some();
    set_3_sized_sized_sized_unroll::<u64, u64, u64, AddU64>(
        c1,
        input,
        &bitmap_update_required,
        &AddU64,
    )
}

/// Registers the `+` signatures.
pub fn load_op_dict(dict: &mut OpDictionary)
    ensures
        final(dict)@.len() == old(dict)@.len() + 2,
        forall|i: int| 0 <= i < old(dict)@.len() ==> #[trigger] final(dict)@[i] == old(dict)@[i],
        forall|i: int|
            old(dict)@.len() <= i < final(dict)@.len() ==> (#[trigger] final(dict)@[i]).0.op_name
                == OpName::Add && !final(dict)@[i].1.is_assign_op,
{
    let mut s = Signature::new_op(OpName::Add);
    s.add_input::<u32>();
    s.add_input::<u32>();
    dict.push(
        (
            s,
            Operation {
                output_type_id: ItemTypeId::U32,
                is_assign_op: false,
                associated_assign_op: Some(OpName::AddAssign),
                associated_input_switch_op: Some(OpName::Add),
            },
        ),
    );
    let mut s = Signature::new_op(OpName::Add);
    s.add_input::<u64>();
    s.add_input::<u64>();
    dict.push(
        (
            s,
            Operation {
                output_type_id: ItemTypeId::U64,
                is_assign_op: false,
                associated_assign_op: Some(OpName::AddAssign),
                associated_input_switch_op: Some(OpName::Add),
            },
        ),
    );
}

} // verus!
