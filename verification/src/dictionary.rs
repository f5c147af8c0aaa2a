//! The operation registry, and name-driven kernel dispatch.
//!
//! The registry pairs `(name, operand types)` signatures with metadata; the
//! dispatcher routes a call to the concrete kernel for its operand types.

use vstd::prelude::*;

use crate::c_add;
use crate::c_addassign;
use crate::c_count;
use crate::c_eq;
use crate::c_gt;
use crate::c_gteq;
use crate::c_lt;
use crate::c_lteq;
use crate::c_max;
use crate::c_sum;
use crate::column::ColumnWrapper;
use crate::errors::ErrorDesc;
use crate::generic_functions_2::update2_post;
use crate::generic_functions_3::{set3_bin_post, set3_post};
use crate::index::ColumnDataIndex;
use crate::ops::{input_ok, InputTypes, OpDictionary, Operation};
use crate::signature::{OpName, Signature};
use crate::tag::ItemTypeId;

verus! {

/// Whether an operation writes its first operand in place.
pub open spec fn is_assign_spec(name: OpName) -> bool {
    name == OpName::AddAssign
}

/// The registry: per-type service dispatch happens on runtime tags, operation
/// dispatch on `(name, operand types)` signatures.
pub struct Dictionary {
    /// The registered operation signatures with their metadata.
    pub op: OpDictionary,
    /// Whether each operation name is an in-place (assign) operation.
    pub op_is_assign: Vec<(OpName, bool)>,
}

impl Dictionary {
    /// Wires the registry with the default operation set.
    pub fn new() -> (r: Self)
        ensures
            forall|i: int|
                0 <= i < r.op_is_assign@.len() ==> (#[trigger] r.op_is_assign@[i]).1
                    == is_assign_spec(r.op_is_assign@[i].0),
            forall|i: int|
                0 <= i < r.op@.len() ==> (#[trigger] r.op@[i]).1.is_assign_op == is_assign_spec(
                    r.op@[i].0.op_name,
                ),
    {
        let mut op: OpDictionary = Vec::new();
        c_addassign::load_op_dict(&mut op);
        c_add::load_op_dict(&mut op);
        c_eq::load_op_dict(&mut op);
        c_gt::load_op_dict(&mut op);
        c_gteq::load_op_dict(&mut op);
        c_lt::load_op_dict(&mut op);
        c_lteq::load_op_dict(&mut op);
        c_sum::load_op_dict(&mut op);
        c_max::load_op_dict(&mut op);
        c_count::load_op_dict(&mut op);
        let mut op_is_assign: Vec<(OpName, bool)> = Vec::new();
        op_is_assign.push((OpName::AddAssign, true));
        op_is_assign.push((OpName::Add, false));
        op_is_assign.push((OpName::Eq, false));
        op_is_assign.push((OpName::Gt, false));
        op_is_assign.push((OpName::GtEq, false));
        op_is_assign.push((OpName::Lt, false));
        op_is_assign.push((OpName::LtEq, false));
        op_is_assign.push((OpName::Sum, false));
        op_is_assign.push((OpName::Max, false));
        op_is_assign.push((OpName::Count, false));
        Self { op, op_is_assign }
    }

    /// Whether the named operation writes its first operand in place.
    pub fn is_assign(&self, name: OpName) -> (r: bool)
        ensures
            r == is_assign_spec(name),
    {
        match name {
            OpName::AddAssign => true,
            _ => false,
        }
    }

    /// Looks a signature up in the registry.
    pub fn get(&self, sig: &Signature) -> (r: Option<Operation>)
        ensures
            r matches Some(op) ==> exists|i: int|
                0 <= i < self.op@.len() && (#[trigger] self.op@[i]).0.op_name == sig.op_name
                    && self.op@[i].0.input@ == sig.input@ && self.op@[i].1 == op,
            r is None ==> forall|i: int|
                0 <= i < self.op@.len() ==> !((#[trigger] self.op@[i]).0.op_name == sig.op_name
                    && self.op@[i].0.input@ == sig.input@),
    {
        let n = self.op.len();
        let mut i: usize = 0;
        while i < n
            invariant
                i <= n,
                n == self.op@.len(),
                forall|j: int|
                    0 <= j < i ==> !((#[trigger] self.op@[j]).0.op_name == sig.op_name
                        && self.op@[j].0.input@ == sig.input@),
            decreases n - i,
        {
            if self.op[i].0.same(sig) {
                return Some(self.op[i].1);
            }
            i = i + 1;
        }
        None
    }
}

/// What an operation dispatch guarantees of its destination, by operation
/// name and operand element types.
pub open spec fn op_post(
    name: OpName,
    old_c1: ColumnWrapper,
    c1_index: &ColumnDataIndex,
    inputs: Seq<InputTypes>,
    new_c1: ColumnWrapper,
) -> bool {
    let bru = inputs.len() >= 2 && (inputs[0].wrapper_of().bitmap.model() is Some
        || inputs[1].wrapper_of().bitmap.model() is Some);
    match name {
        OpName::AddAssign => match old_c1.column.type_of() {
            ItemTypeId::U32 => update2_post::<u32, u32, c_addassign::AddAssignU32>(
                old_c1,
                c1_index,
                inputs,
                new_c1,
            ),
            ItemTypeId::U64 => update2_post::<u64, u64, c_addassign::AddAssignU64>(
                old_c1,
                c1_index,
                inputs,
                new_c1,
            ),
            _ => false,
        },
        OpName::Add => match inputs[0].wrapper_of().column.type_of() {
            ItemTypeId::U32 => set3_post::<u32, u32, u32, c_add::AddU32>(
                old_c1,
                inputs,
                new_c1,
                bru,
            ),
            ItemTypeId::U64 => set3_post::<u64, u64, u64, c_add::AddU64>(
                old_c1,
                inputs,
                new_c1,
                bru,
            ),
            _ => false,
        },
        OpName::Eq => match inputs[0].wrapper_of().column.type_of() {
            ItemTypeId::U32 => set3_post::<bool, u32, u32, c_eq::EqU32>(
                old_c1,
                inputs,
                new_c1,
                bru,
            ),
            ItemTypeId::U64 => set3_post::<bool, u64, u64, c_eq::EqU64>(
                old_c1,
                inputs,
                new_c1,
                bru,
            ),
            ItemTypeId::Str => set3_bin_post::<bool, c_eq::EqBinary>(old_c1, inputs, new_c1, bru),
            _ => false,
        },
        OpName::Lt => match inputs[0].wrapper_of().column.type_of() {
            ItemTypeId::U32 => set3_post::<bool, u32, u32, c_lt::LtU32>(
                old_c1,
                inputs,
                new_c1,
                bru,
            ),
            ItemTypeId::U64 => set3_post::<bool, u64, u64, c_lt::LtU64>(
                old_c1,
                inputs,
                new_c1,
                bru,
            ),
            ItemTypeId::Str => set3_bin_post::<bool, c_lt::LtBinary>(old_c1, inputs, new_c1, bru),
            _ => false,
        },
        OpName::LtEq => match inputs[0].wrapper_of().column.type_of() {
            ItemTypeId::U32 => set3_post::<bool, u32, u32, c_lteq::LtEqU32>(
                old_c1,
                inputs,
                new_c1,
                bru,
            ),
            ItemTypeId::U64 => set3_post::<bool, u64, u64, c_lteq::LtEqU64>(
                old_c1,
                inputs,
                new_c1,
                bru,
            ),
            ItemTypeId::Str => set3_bin_post::<bool, c_lteq::LtEqBinary>(
                old_c1,
                inputs,
                new_c1,
                bru,
            ),
            _ => false,
        },
        OpName::Gt => match inputs[0].wrapper_of().column.type_of() {
            ItemTypeId::U32 => set3_post::<bool, u32, u32, c_gt::GtU32>(
                old_c1,
                inputs,
                new_c1,
                bru,
            ),
            ItemTypeId::U64 => set3_post::<bool, u64, u64, c_gt::GtU64>(
                old_c1,
                inputs,
                new_c1,
                bru,
            ),
            ItemTypeId::Str => set3_bin_post::<bool, c_gt::GtBinary>(old_c1, inputs, new_c1, bru),
            _ => false,
        },
        OpName::GtEq => match inputs[0].wrapper_of().column.type_of() {
            ItemTypeId::U32 => set3_post::<bool, u32, u32, c_gteq::GtEqU32>(
                old_c1,
                inputs,
                new_c1,
                bru,
            ),
            ItemTypeId::U64 => set3_post::<bool, u64, u64, c_gteq::GtEqU64>(
                old_c1,
                inputs,
                new_c1,
                bru,
            ),
            ItemTypeId::Str => set3_bin_post::<bool, c_gteq::GtEqBinary>(
                old_c1,
                inputs,
                new_c1,
                bru,
            ),
            _ => false,
        },
        OpName::Sum => match inputs[0].wrapper_of().column.type_of() {
            ItemTypeId::U32 => c_sum::sum_post_u32(inputs, new_c1),
            ItemTypeId::U64 => c_sum::sum_post_u64(inputs, new_c1),
            _ => false,
        },
        OpName::Max => match inputs[0].wrapper_of().column.type_of() {
            ItemTypeId::U32 => c_max::max_post_u32(inputs, new_c1),
            ItemTypeId::U64 => c_max::max_post_u64(inputs, new_c1),
            _ => false,
        },
        OpName::Count => match inputs[0].wrapper_of().column.type_of() {
            ItemTypeId::U32 => c_count::count_post_u32(inputs, new_c1),
            ItemTypeId::U64 => c_count::count_post_u64(inputs, new_c1),
            _ => false,
        },
        OpName::Service => false,
    }
}

/// The conditions under which the dispatch succeeds, by operation name and
/// operand element types: the kernel for the operands' types exists and its
/// own success conditions hold.
pub open spec fn op_ready(
    name: OpName,
    old_c1: ColumnWrapper,
    c1_index: &ColumnDataIndex,
    inputs: Seq<InputTypes>,
) -> bool {
    let bru = inputs.len() >= 2 && (inputs[0].wrapper_of().bitmap.model() is Some
        || inputs[1].wrapper_of().bitmap.model() is Some);
    match name {
        OpName::AddAssign => match old_c1.column.type_of() {
            ItemTypeId::U32 => crate::generic_functions_2::update2_ready::<u32, u32>(
                old_c1,
                c1_index,
                inputs,
            ),
            ItemTypeId::U64 => crate::generic_functions_2::update2_ready::<u64, u64>(
                old_c1,
                c1_index,
                inputs,
            ),
            _ => false,
        },
        OpName::Add => inputs.len() >= 2 && match inputs[0].wrapper_of().column.type_of() {
            ItemTypeId::U32 => crate::generic_functions_3::set3_ready::<u32, u32, u32>(
                old_c1,
                inputs,
                bru,
            ),
            ItemTypeId::U64 => crate::generic_functions_3::set3_ready::<u64, u64, u64>(
                old_c1,
                inputs,
                bru,
            ),
            _ => false,
        },
        OpName::Eq => cmp_ready(old_c1, inputs, bru),
        OpName::Lt => cmp_ready(old_c1, inputs, bru),
        OpName::LtEq => cmp_ready(old_c1, inputs, bru),
        OpName::Gt => cmp_ready(old_c1, inputs, bru),
        OpName::GtEq => cmp_ready(old_c1, inputs, bru),
        OpName::Sum => inputs.len() >= 1 && match inputs[0].wrapper_of().column.type_of() {
            ItemTypeId::U32 => crate::ops::agg_ready::<u32>(c1_index, inputs),
            ItemTypeId::U64 => crate::ops::agg_ready::<u64>(c1_index, inputs),
            _ => false,
        },
        OpName::Max => inputs.len() >= 1 && match inputs[0].wrapper_of().column.type_of() {
            ItemTypeId::U32 => crate::ops::agg_ready::<u32>(c1_index, inputs),
            ItemTypeId::U64 => crate::ops::agg_ready::<u64>(c1_index, inputs),
            _ => false,
        },
        OpName::Count => inputs.len() >= 1 && match inputs[0].wrapper_of().column.type_of() {
            ItemTypeId::U32 => crate::ops::agg_ready::<u32>(c1_index, inputs),
            ItemTypeId::U64 => crate::ops::agg_ready::<u64>(c1_index, inputs),
            _ => false,
        },
        OpName::Service => false,
    }
}

/// The success conditions shared by the comparison kernels: boolean output,
/// matching operand types.
pub open spec fn cmp_ready(old_c1: ColumnWrapper, inputs: Seq<InputTypes>, bru: bool) -> bool {
    inputs.len() >= 2 && match inputs[0].wrapper_of().column.type_of() {
        ItemTypeId::U32 => crate::generic_functions_3::set3_ready::<bool, u32, u32>(
            old_c1,
            inputs,
            bru,
        ),
        ItemTypeId::U64 => crate::generic_functions_3::set3_ready::<bool, u64, u64>(
            old_c1,
            inputs,
            bru,
        ),
        ItemTypeId::Str => crate::generic_functions_3::set3_bin_ready::<bool>(
            old_c1,
            inputs,
            bru,
        ),
        _ => false,
    }
}

/// The dispatch success conditions read the operands only through their
/// columns and indexes: two operand lists that agree on those are ready
/// alike.
pub proof fn lemma_op_ready_congruent<'a, 'b>(
    name: OpName,
    old_c1: ColumnWrapper,
    ix: &ColumnDataIndex,
    a: Seq<InputTypes<'a>>,
    b: Seq<InputTypes<'b>>,
)
    requires
        a.len() == b.len(),
        forall|j: int|
            #![trigger a[j], b[j]]
            0 <= j < a.len() ==> a[j].wrapper_of() == b[j].wrapper_of() && a[j].index_of()
                == b[j].index_of(),
        op_ready(name, old_c1, ix, a),
    ensures
        op_ready(name, old_c1, ix, b),
{
    if a.len() >= 1 {
        assert(a[0].wrapper_of() == b[0].wrapper_of() && a[0].index_of() == b[0].index_of());
    }
    if a.len() >= 2 {
        assert(a[1].wrapper_of() == b[1].wrapper_of() && a[1].index_of() == b[1].index_of());
    }
    if a.len() >= 3 {
        assert(a[2].wrapper_of() == b[2].wrapper_of() && a[2].index_of() == b[2].index_of());
    }
}

/// The dispatch guarantee reads its operands only through their columns and
/// indexes: two operand lists that agree on those carry it alike.
pub proof fn lemma_op_post_congruent<'a, 'b>(
    name: OpName,
    old_c1: ColumnWrapper,
    ix: &ColumnDataIndex,
    a: Seq<InputTypes<'a>>,
    b: Seq<InputTypes<'b>>,
    new_c1: ColumnWrapper,
)
    requires
        a.len() == b.len(),
        forall|j: int|
            #![trigger a[j], b[j]]
            0 <= j < a.len() ==> a[j].wrapper_of() == b[j].wrapper_of() && a[j].index_of()
                == b[j].index_of(),
        op_post(name, old_c1, ix, a, new_c1),
    ensures
        op_post(name, old_c1, ix, b, new_c1),
{
    if a.len() >= 1 {
        assert(a[0].wrapper_of() == b[0].wrapper_of() && a[0].index_of() == b[0].index_of());
    }
    if a.len() >= 2 {
        assert(a[1].wrapper_of() == b[1].wrapper_of() && a[1].index_of() == b[1].index_of());
    }
    if a.len() >= 3 {
        assert(a[2].wrapper_of() == b[2].wrapper_of() && a[2].index_of() == b[2].index_of());
    }
}

impl ColumnWrapper {
    /// Runs the named operation against this column as the destination,
    /// dispatching on the operand element types; a name or type with no
    /// kernel yields a lookup error.
    pub fn op(
        &mut self,
        dict: &Dictionary,
        name: OpName,
        c1_index: &ColumnDataIndex,
        input: &[InputTypes],
    ) -> (r: Result<(), ErrorDesc>)
        requires
            forall|i: int| 0 <= i < input@.len() ==> input_ok(#[trigger] input@[i]),
            c1_index.in_bounds(old(self).column.len_spec()),
        ensures
            match r {
                Ok(_) => op_post(name, *old(self), c1_index, input@, *final(self)),
                Err(_) => *final(self) == *old(self),
            },
            op_ready(name, *old(self), c1_index, input@) ==> r is Ok,
    {
        let assign = dict.is_assign(name);
        if input.len() < 1 {
            return Err(ErrorDesc::Lookup);
        }
        proof {
            crate::ops::lemma_input_ok_sized::<u32>(input@[0]);
            crate::ops::lemma_input_ok_sized::<u64>(input@[0]);
            crate::ops::lemma_input_ok_sized::<usize>(input@[0]);
            crate::ops::lemma_input_ok_binary(input@[0]);
            if input@.len() >= 2 {
                crate::ops::lemma_input_ok_sized::<u32>(input@[1]);
                crate::ops::lemma_input_ok_sized::<u64>(input@[1]);
                crate::ops::lemma_input_ok_binary(input@[1]);
            }
        }
        let t: ItemTypeId = if assign {
            self.column.item_type_id()
        } else {
            let (c2, _) = input[0].parts();
            c2.column().item_type_id()
        };
        match name {
            OpName::AddAssign => match t {
                ItemTypeId::U32 => c_addassign::addassign_u32(self, c1_index, input),
                ItemTypeId::U64 => c_addassign::addassign_u64(self, c1_index, input),
                _ => Err(ErrorDesc::Lookup),
            },
            OpName::Add => {
                if input.len() < 2 {
                    return Err(ErrorDesc::Lookup);
                }
                match t {
                    ItemTypeId::U32 => c_add::add_u32(self, c1_index, input),
                    ItemTypeId::U64 => c_add::add_u64(self, c1_index, input),
                    _ => Err(ErrorDesc::Lookup),
                }
            },
            OpName::Eq => {
                if input.len() < 2 {
                    return Err(ErrorDesc::Lookup);
                }
                match t {
                    ItemTypeId::U32 => c_eq::eq_u32(self, c1_index, input),
                    ItemTypeId::U64 => c_eq::eq_u64(self, c1_index, input),
                    ItemTypeId::Str => c_eq::eq_binary(self, c1_index, input),
                    _ => Err(ErrorDesc::Lookup),
                }
            },
            OpName::Lt => {
                if input.len() < 2 {
                    return Err(ErrorDesc::Lookup);
                }
                match t {
                    ItemTypeId::U32 => c_lt::lt_u32(self, c1_index, input),
                    ItemTypeId::U64 => c_lt::lt_u64(self, c1_index, input),
                    ItemTypeId::Str => c_lt::lt_binary(self, c1_index, input),
                    _ => Err(ErrorDesc::Lookup),
                }
            },
            OpName::LtEq => {
                if input.len() < 2 {
                    return Err(ErrorDesc::Lookup);
                }
                match t {
                    ItemTypeId::U32 => c_lteq::lteq_u32(self, c1_index, input),
                    ItemTypeId::U64 => c_lteq::lteq_u64(self, c1_index, input),
                    ItemTypeId::Str => c_lteq::lteq_binary(self, c1_index, input),
                    _ => Err(ErrorDesc::Lookup),
                }
            },
            OpName::Gt => {
                if input.len() < 2 {
                    return Err(ErrorDesc::Lookup);
                }
                match t {
                    ItemTypeId::U32 => c_gt::gt_u32(self, c1_index, input),
                    ItemTypeId::U64 => c_gt::gt_u64(self, c1_index, input),
                    ItemTypeId::Str => c_gt::gt_binary(self, c1_index, input),
                    _ => Err(ErrorDesc::Lookup),
                }
            },
            OpName::GtEq => {
                if input.len() < 2 {
                    return Err(ErrorDesc::Lookup);
                }
                match t {
                    ItemTypeId::U32 => c_gteq::gteq_u32(self, c1_index, input),
                    ItemTypeId::U64 => c_gteq::gteq_u64(self, c1_index, input),
                    ItemTypeId::Str => c_gteq::gteq_binary(self, c1_index, input),
                    _ => Err(ErrorDesc::Lookup),
                }
            },
            OpName::Sum => match t {
                ItemTypeId::U32 => c_sum::sum_u32(self, c1_index, input),
                ItemTypeId::U64 => c_sum::sum_u64(self, c1_index, input),
                _ => Err(ErrorDesc::Lookup),
            },
            OpName::Max => match t {
                ItemTypeId::U32 => c_max::max_u32(self, c1_index, input),
                ItemTypeId::U64 => c_max::max_u64(self, c1_index, input),
                _ => Err(ErrorDesc::Lookup),
            },
            OpName::Count => match t {
                ItemTypeId::U32 => c_count::count_u32(self, c1_index, input),
                ItemTypeId::U64 => c_count::count_u64(self, c1_index, input),
                _ => Err(ErrorDesc::Lookup),
            },
            OpName::Service => Err(ErrorDesc::Lookup),
        }
    }
}

} // verus!
