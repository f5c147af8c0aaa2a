//! Operation signatures: the dispatch key of the registry is the operation
//! name together with the ordered operand element types.

use vstd::prelude::*;

use crate::sized_data::Element;
use crate::tag::ItemTypeId;

verus! {

/// The name of an operation the registry knows.
#[derive(Clone, Copy, Debug, PartialEq, Eq, Structural)]
pub enum OpName {
    Add,
    AddAssign,
    Eq,
    Lt,
    LtEq,
    Gt,
    GtEq,
    Sum,
    Max,
    Count,
    /// The internal empty-op family used for per-type service functions.
    Service,
}

/// A dispatch key: operation name plus ordered operand type tags.
#[derive(Debug)]
pub struct Signature {
    pub op_name: OpName,
    pub input: Vec<ItemTypeId>,
}

impl Signature {
    /// Builds a signature from a name and operand types.
    pub fn new(op: OpName, input: Vec<ItemTypeId>) -> (r: Self)
        ensures
            r.op_name == op,
            r.input == input,
    {
        Self { op_name: op, input }
    }

    /// Builds a signature with no operand types yet.
    pub fn new_op(op: OpName) -> (r: Self)
        ensures
            r.op_name == op,
            r.input@ =~= Seq::<ItemTypeId>::empty(),
    {
        Self { op_name: op, input: Vec::new() }
    }

    /// Moves the operand types out.
    pub fn to_input(self) -> (r: Vec<ItemTypeId>)
        ensures
            r == self.input,
    {
        self.input
    }

    /// Appends the type tag of `T` to the operand types.
    pub fn add_input<T: Element>(&mut self)
        ensures
            final(self).op_name == old(self).op_name,
            final(self).input@ == old(self).input@.push(T::tag_spec()),
    {
        let t = T::tag();
        self.input.push(t);
    }

    /// Appends a type tag to the operand types.
    pub fn add_input_tag(&mut self, t: ItemTypeId)
        ensures
            final(self).op_name == old(self).op_name,
            final(self).input@ == old(self).input@.push(t),
    {
        self.input.push(t);
    }

    /// The number of operand types.
    pub fn input_len(&self) -> (n: usize)
        ensures
            n == self.input@.len(),
    {
        self.input.len()
    }

    /// The operation name.
    pub fn op_name(&self) -> (r: OpName)
        ensures
            r == self.op_name,
    {
        self.op_name
    }

    /// Whether two signatures name the same operation over the same types.
    pub fn same(&self, other: &Signature) -> (r: bool)
        ensures
            r == (self.op_name == other.op_name && self.input@ == other.input@),
    {
        if !(self.op_name == other.op_name) {
            return false;
        }
        if self.input.len() != other.input.len() {
            proof {
                assert(self.input@.len() != other.input@.len());
            }
            return false;
        }
        let n = self.input.len();
        let mut i: usize = 0;
        while i < n
            invariant
                i <= n,
                n == self.input@.len(),
                n == other.input@.len(),
                forall|j: int| 0 <= j < i ==> self.input@[j] == other.input@[j],
            decreases n - i,
        {
            if !(self.input[i] == other.input[i]) {
                return false;
            }
            i = i + 1;
        }
        proof {
            assert(self.input@ =~= other.input@);
        }
        true
    }
}

} // verus!
