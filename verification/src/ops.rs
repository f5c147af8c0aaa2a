//! Kernel operands: a kernel input is either a borrowed `(column, index)`
//! pair or an owned intermediate produced by expression evaluation.

use vstd::prelude::*;

use crate::column::ColumnWrapper;
use crate::index::ColumnDataIndex;
use crate::signature::{OpName, Signature};
use crate::sized_data::Element;
use crate::tag::ItemTypeId;

verus! {

/// Registry metadata of one operation signature.
#[derive(Clone, Copy, Debug)]
pub struct Operation {
    /// The element type of the output column.
    pub output_type_id: ItemTypeId,
    /// Whether the operation writes its first operand in place.
    pub is_assign_op: bool,
    /// The in-place form of this operation, when one exists.
    pub associated_assign_op: Option<OpName>,
    /// The operation that computes the same result with swapped operands.
    pub associated_input_switch_op: Option<OpName>,
}

/// The operation registry: signatures paired with their metadata.
pub type OpDictionary = Vec<(Signature, Operation)>;

/// The conditions a sized operand must meet so that a read view over it is
/// sound: aligned bitmap, in-bounds index, and non-empty tables wherever a
/// constant or `Option`-indexed read touches position 0.
pub open spec fn sized_input_ok<T: Element>(c: InputTypes) -> bool {
    let w = c.wrapper_of();
    let ix = c.index_of();
    w.column.sized_model::<T>() matches Some(vals) ==> {
        &&& (w.bitmap.model() matches Some(b) ==> b.len() == vals.len())
        &&& ix.in_bounds(vals.len())
        &&& (!(w.column is Const) && ix.option_model() is Some ==> vals.len() > 0)
        &&& (w.column is Const ==> vals.len() > 0 && (
        w.bitmap.model() matches Some(b) ==> b.len() > 0) && (
        ix.option_model() matches Some(oix) ==> oix.len() > 0))
    }
}

/// The same conditions for a binary operand, plus the byte-layout invariant.
pub open spec fn binary_input_ok(c: InputTypes) -> bool {
    let w = c.wrapper_of();
    let ix = c.index_of();
    w.column.binary_model() matches Some(vals) ==> {
        &&& w.column.binary_of().unwrap().wf()
        &&& (w.bitmap.model() matches Some(b) ==> b.len() == vals.len())
        &&& ix.in_bounds(vals.len())
        &&& (!(w.column is BinaryConst) && ix.option_model() is Some ==> vals.len() > 0)
        &&& (w.column is BinaryConst ==> vals.len() > 0 && (
        w.bitmap.model() matches Some(b) ==> b.len() > 0) && (
        ix.option_model() matches Some(oix) ==> oix.len() > 0))
    }
}

/// The logical rows an operand resolves to, at a given broadcast length.
pub open spec fn sized_input_rows<T: Element>(c: InputTypes, target_len: nat) -> Seq<(bool, T)> {
    crate::indexedreadcolumn::resolved(
        c.wrapper_of().column.sized_model::<T>().unwrap(),
        c.wrapper_of().bitmap.model(),
        &c.index_of(),
        c.wrapper_of().column is Const,
        target_len,
    )
}

/// The logical rows a binary operand resolves to, at a given broadcast length.
pub open spec fn binary_input_rows(c: InputTypes, target_len: nat) -> Seq<(bool, Seq<u8>)> {
    crate::indexedreadcolumn::resolved(
        c.wrapper_of().column.binary_model().unwrap(),
        c.wrapper_of().bitmap.model(),
        &c.index_of(),
        c.wrapper_of().column is BinaryConst,
        target_len,
    )
}

/// Type-independent operand soundness over a column and its index:
/// well-formed column, in-bounds index, and the shape guards constants and
/// `Option`-indexed reads need.
pub open spec fn wrapper_input_ok(w: ColumnWrapper, ix: ColumnDataIndex) -> bool {
    &&& w.wf()
    &&& ix.in_bounds(w.column.len_spec())
    &&& (!(w.column is Const || w.column is BinaryConst) && ix.option_model() is Some
        ==> w.column.len_spec() > 0)
    &&& ((w.column is Const || w.column is BinaryConst) ==> w.column.len_spec() > 0 && (
    w.bitmap.model() matches Some(b) ==> b.len() > 0) && (ix.option_model() matches Some(oix)
        ==> oix.len() > 0))
}

/// The number of logical rows a column yields under an index, before any
/// constant broadcast.
pub open spec fn wrapper_logical_len(w: ColumnWrapper, ix: ColumnDataIndex) -> nat {
    if w.column is Const || w.column is BinaryConst {
        1
    } else if ix.plain_model() is Some {
        ix.plain_model().unwrap().len()
    } else if ix.option_model() is Some {
        ix.option_model().unwrap().len()
    } else {
        w.column.len_spec()
    }
}

/// Type-independent operand soundness.
pub open spec fn input_ok(c: InputTypes) -> bool {
    wrapper_input_ok(c.wrapper_of(), c.index_of())
}

/// A sound operand meets the typed conditions for any sized element type.
pub proof fn lemma_input_ok_sized<T: Element>(c: InputTypes)
    requires
        input_ok(c),
    ensures
        sized_input_ok::<T>(c),
{
    if c.wrapper_of().column.sized_model::<T>() is Some {
        T::data_model_tag(&c.wrapper_of().column.sized_of().unwrap());
    }
}

/// A sound operand meets the typed conditions for binary reads.
pub proof fn lemma_input_ok_binary(c: InputTypes)
    requires
        input_ok(c),
    ensures
        binary_input_ok(c),
{
}

/// The conditions under which a grouped aggregate succeeds: three operands
/// — the typed values (broadcast to the rows), the dense group ids (plain,
/// unindexed, without bitmap, in range of the count), and the constant group
/// count — and no destination index.
pub open spec fn agg_ready<T: Element>(c1_index: &ColumnDataIndex, inputs: Seq<InputTypes>) -> bool {
    let gids = inputs[1].wrapper_of().column.sized_model::<usize>().unwrap();
    let gc = inputs[2].wrapper_of().column.sized_model::<usize>().unwrap();
    &&& inputs.len() >= 3
    &&& *c1_index is Missing
    &&& inputs[0].wrapper_of().column.sized_model::<T>() is Some
    &&& (inputs[0].wrapper_of().column is Const || wrapper_logical_len(
        inputs[0].wrapper_of(),
        inputs[0].index_of(),
    ) == gids.len())
    &&& inputs[1].index_of() is Missing
    &&& inputs[1].wrapper_of().bitmap.model() is None
    &&& !(inputs[1].wrapper_of().column is Const)
    &&& inputs[1].wrapper_of().column.sized_model::<usize>() is Some
    &&& inputs[2].index_of() is Missing
    &&& inputs[2].wrapper_of().column is Const
    &&& inputs[2].wrapper_of().column.sized_model::<usize>() is Some
    &&& gc.len() > 0
    &&& forall|k: int| 0 <= k < gids.len() ==> #[trigger] gids[k] < gc[0]
}

/// One operand handed to a kernel.
pub enum InputTypes<'a> {
    Ref(&'a ColumnWrapper, &'a ColumnDataIndex),
    Owned(ColumnWrapper, ColumnDataIndex),
}

impl<'a> InputTypes<'a> {
    /// The operand's column.
    pub open spec fn wrapper_of(&self) -> ColumnWrapper {
        match self {
            InputTypes::Ref(c, _) => **c,
            InputTypes::Owned(c, _) => *c,
        }
    }

    /// The operand's row index.
    pub open spec fn index_of(&self) -> ColumnDataIndex {
        match self {
            InputTypes::Ref(_, i) => **i,
            InputTypes::Owned(_, i) => *i,
        }
    }

    /// Borrows the column and index.
    pub fn parts(&self) -> (r: (&ColumnWrapper, &ColumnDataIndex))
        ensures
            *r.0 == self.wrapper_of(),
            *r.1 == self.index_of(),
    {
        match self {
            InputTypes::Ref(c, i) => (*c, *i),
            InputTypes::Owned(c, i) => (c, i),
        }
    }
}

} // verus!
