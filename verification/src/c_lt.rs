//! The `<` kernels: elementwise comparison producing a boolean column,
//! with the output bitmap the AND of the operand bitmaps.

use vstd::prelude::*;

use crate::bytesord::{bytes_eq, bytes_lt, lex_lt};
use crate::column::ColumnWrapper;
use crate::errors::ErrorDesc;
use crate::ftype::{AssignOp3, BinaryAssignOp3};
use crate::generic_functions_3::{
    set3_bin_post, set3_post, set_3_sized_binary_binary_unroll, set_3_sized_sized_sized_unroll,
};
use crate::index::ColumnDataIndex;
use crate::ops::{binary_input_ok, sized_input_ok, InputTypes, OpDictionary, Operation};
use crate::signature::{OpName, Signature};
use crate::tag::ItemTypeId;

verus! {

/// `<` over u32 rows.
pub struct LtU32;

impl AssignOp3<bool, u32, u32> for LtU32 {
    open spec fn apply_spec(v2: u32, b2: bool, v3: u32, b3: bool) -> (bool, bool) {
        (b2 && b3, v2 < v3)
    }

    fn apply(&self, v2: u32, b2: bool, v3: u32, b3: bool) -> (bool, bool) {
        (b2 && b3, v2 < v3)
    }
}

/// `<` over u64 rows.
pub struct LtU64;

impl AssignOp3<bool, u64, u64> for LtU64 {
    open spec fn apply_spec(v2: u64, b2: bool, v3: u64, b3: bool) -> (bool, bool) {
        (b2 && b3, v2 < v3)
    }

    fn apply(&self, v2: u64, b2: bool, v3: u64, b3: bool) -> (bool, bool) {
        (b2 && b3, v2 < v3)
    }
}

/// `<` over byte-string rows, in lexicographic order.
pub struct LtBinary;

impl BinaryAssignOp3<bool> for LtBinary {
    open spec fn apply_spec(v2: Seq<u8>, b2: bool, v3: Seq<u8>, b3: bool) -> (bool, bool) {
        (b2 && b3, lex_lt(v2, v3))
    }

    fn apply(&self, v2: &[u8], b2: bool, v3: &[u8], b3: bool) -> (bool, bool) {
        (b2 && b3, bytes_lt(v2, v3))
    }
}

/// `<` over two u32 operands, written into or appended to `c1`.
pub fn lt_u32(
    c1: &mut ColumnWrapper,
    _c1_index: &ColumnDataIndex,
    input: &[InputTypes],
) -> (r: Result<(), ErrorDesc>)
    requires
        input@.len() >= 2,
        sized_input_ok::<u32>(input@[0]),
        sized_input_ok::<u32>(input@[1]),
    ensures
        r is Ok ==> set3_post::<bool, u32, u32, LtU32>(
            *old(c1),
            input@,
            *final(c1),
            input@[0].wrapper_of().bitmap.model() is Some || input@[1].wrapper_of().bitmap.model()
                is Some,
        ),
        r is Err ==> *final(c1) == *old(c1),
        crate::generic_functions_3::set3_ready::<bool, u32, u32>(
            *old(c1),
            input@,
            input@[0].wrapper_of().bitmap.model() is Some || input@[1].wrapper_of().bitmap.model()
                is Some,
        ) ==> r is Ok,
{
    let (c2, _) = input[0].parts();
    let (c3, _) = input[1].parts();
    let bitmap_update_required = c2.bitmap().is_some() || c3.bitmap().is_some();
    set_3_sized_sized_sized_unroll::<bool, u32, u32, LtU32>(
        c1,
        input,
        &bitmap_update_required,
        &LtU32,
    )
}

/// `<` over two u64 operands, written into or appended to `c1`.
pub fn lt_u64(
    c1: &mut ColumnWrapper,
    _c1_index: &ColumnDataIndex,
    input: &[InputTypes],
) -> (r: Result<(), ErrorDesc>)
    requires
        input@.len() >= 2,
        sized_input_ok::<u64>(input@[0]),
        sized_input_ok::<u64>(input@[1]),
    ensures
        r is Ok ==> set3_post::<bool, u64, u64, LtU64>(
            *old(c1),
            input@,
            *final(c1),
            input@[0].wrapper_of().bitmap.model() is Some || input@[1].wrapper_of().bitmap.model()
                is Some,
        ),
        r is Err ==> *final(c1) == *old(c1),
        crate::generic_functions_3::set3_ready::<bool, u64, u64>(
            *old(c1),
            input@,
            input@[0].wrapper_of().bitmap.model() is Some || input@[1].wrapper_of().bitmap.model()
                is Some,
        ) ==> r is Ok,
{
    let (c2, _) = input[0].parts();
    let (c3, _) = input[1].parts();
    let bitmap_update_required = c2.bitmap().is_some() || c3.bitmap().is_some();
    set_3_sized_sized_sized_unroll::<bool, u64, u64, LtU64>(
        c1,
        input,
        &bitmap_update_required,
        &LtU64,
    )
}

/// `<` over two byte-string operands, written into or appended to `c1`.
pub fn lt_binary(
    c1: &mut ColumnWrapper,
    _c1_index: &ColumnDataIndex,
    input: &[InputTypes],
) -> (r: Result<(), ErrorDesc>)
    requires
        input@.len() >= 2,
        binary_input_ok(input@[0]),
        binary_input_ok(input@[1]),
    ensures
        r is Ok ==> set3_bin_post::<bool, LtBinary>(
            *old(c1),
            input@,
            *final(c1),
            input@[0].wrapper_of().bitmap.model() is Some || input@[1].wrapper_of().bitmap.model()
                is Some,
        ),
        r is Err ==> *final(c1) == *old(c1),
        crate::generic_functions_3::set3_bin_ready::<bool>(
            *old(c1),
            input@,
            input@[0].wrapper_of().bitmap.model() is Some || input@[1].wrapper_of().bitmap.model()
                is Some,
        ) ==> r is Ok,
{
    let (c2, _) = input[0].parts();
    let (c3, _) = input[1].parts();
    let bitmap_update_required = c2.bitmap().is_some() || c3.bitmap().is_some();
    set_3_sized_binary_binary_unroll::<bool, LtBinary>(
        c1,
        input,
        &bitmap_update_required,
        &LtBinary,
    )
}

/// Registers the `<` signatures.
pub fn load_op_dict(dict: &mut OpDictionary)
    ensures
        final(dict)@.len() == old(dict)@.len() + 3,
        forall|i: int| 0 <= i < old(dict)@.len() ==> #[trigger] final(dict)@[i] == old(dict)@[i],
        forall|i: int|
            old(dict)@.len() <= i < final(dict)@.len() ==> (#[trigger] final(dict)@[i]).0.op_name
                == OpName::Lt && !final(dict)@[i].1.is_assign_op
                && final(dict)@[i].1.output_type_id == ItemTypeId::Bool,
{
    let mut s = Signature::new_op(OpName::Lt);
    s.add_input::<u32>();
    s.add_input::<u32>();
    dict.push(
        (
            s,
            Operation {
                output_type_id: ItemTypeId::Bool,
                is_assign_op: false,
                associated_assign_op: None,
                associated_input_switch_op: Some(OpName::Gt),
            },
        ),
    );
    let mut s = Signature::new_op(OpName::Lt);
    s.add_input::<u64>();
    s.add_input::<u64>();
    dict.push(
        (
            s,
            Operation {
                output_type_id: ItemTypeId::Bool,
                is_assign_op: false,
                associated_assign_op: None,
                associated_input_switch_op: Some(OpName::Gt),
            },
        ),
    );
    let mut s = Signature::new_op(OpName::Lt);
    s.add_input_tag(ItemTypeId::Str);
    s.add_input_tag(ItemTypeId::Str);
    dict.push(
        (
            s,
            Operation {
                output_type_id: ItemTypeId::Bool,
                is_assign_op: false,
                associated_assign_op: None,
                associated_input_switch_op: Some(OpName::Gt),
            },
        ),
    );
}

} // verus!
