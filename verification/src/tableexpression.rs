//! Expression trees over table columns, and their evaluation into new
//! columns: operands are column references, borrowed constants or
//! sub-expressions, with an optional `partition_by` list that routes
//! aggregates through dense group ids.

use vstd::prelude::*;

use crate::column::ColumnWrapper;
use crate::column_buffer::ColumnBuffer;
use crate::columnop::group_in_post;
use crate::dictionary::Dictionary;
use crate::errors::ErrorDesc;
use crate::index::ColumnDataIndex;
use crate::ops::{wrapper_input_ok, InputTypes};
use crate::signature::{OpName, Signature};
use crate::table::{densify, Table};

verus! {

/// One operand of an expression.
pub enum ExpressionInput {
    /// A reference to table column `k`.
    Column(usize),
    /// An owned single-element constant column.
    Const(ColumnWrapper),
    /// A sub-expression evaluated to an owned intermediate.
    Expr(TableExpression),
}

/// An expression: an operation over operands, with an optional partition-by
/// list feeding aggregates.
pub struct TableExpression {
    pub op: OpName,
    pub input: Vec<ExpressionInput>,
    pub partition_by: Vec<ExpressionInput>,
}

/// The number of sub-expression operands among the first `k`.
pub open spec fn exprs_before(inp: Seq<ExpressionInput>, k: int) -> int
    decreases k,
{
    if k <= 0 {
        0
    } else {
        exprs_before(inp, k - 1) + if inp[k - 1] is Expr {
            1int
        } else {
            0int
        }
    }
}

/// Counted sub-expressions grow with the prefix, by at most one per operand.
pub proof fn lemma_exprs_before_mono(inp: Seq<ExpressionInput>, i: int, j: int)
    requires
        0 <= i <= j,
    ensures
        exprs_before(inp, i) <= exprs_before(inp, j),
        exprs_before(inp, j) <= exprs_before(inp, i) + (j - i),
    decreases j - i,
{
    if i < j {
        lemma_exprs_before_mono(inp, i, j - 1);
    }
}

/// The column ids of the partition-by operands (all of which must be plain
/// column references).
pub open spec fn pb_ids(e: TableExpression) -> Seq<usize> {
    Seq::new(
        e.partition_by@.len(),
        |j: int|
            match e.partition_by@[j] {
                ExpressionInput::Column(c) => c,
                _ => 0usize,
            },
    )
}

/// Whether an operand references column `id`, directly or inside a
/// sub-expression.
pub open spec fn operand_refs(inp: ExpressionInput, id: usize) -> bool
    decreases inp,
{
    match inp {
        ExpressionInput::Column(c) => c == id,
        ExpressionInput::Const(_) => false,
        ExpressionInput::Expr(e) => refs_column(e, id),
    }
}

/// Whether any operand of the tree (inputs or partition-by) references
/// column `id`.
pub open spec fn refs_column(e: TableExpression, id: usize) -> bool
    decreases e,
{
    (exists|j: int| 0 <= j < e.input@.len() && operand_refs(#[trigger] e.input@[j], id)) || (
    exists|j: int| 0 <= j < e.partition_by@.len() && operand_refs(#[trigger] e.partition_by@[j], id))
}

/// Whether an operand references column `id` among expression inputs
/// (partition-by lists are not rewritten by constant expansion).
pub open spec fn operand_refs_in(inp: ExpressionInput, id: usize) -> bool
    decreases inp,
{
    match inp {
        ExpressionInput::Column(c) => c == id,
        ExpressionInput::Const(_) => false,
        ExpressionInput::Expr(e) => input_refs(e, id),
    }
}

/// Whether any input operand of the tree references column `id`.
pub open spec fn input_refs(e: TableExpression, id: usize) -> bool
    decreases e,
{
    exists|j: int| 0 <= j < e.input@.len() && operand_refs_in(#[trigger] e.input@[j], id)
}

/// Pointwise structural equality of operands: rebuilt operand vectors keep
/// their elements.
pub open spec fn operand_tree_equal(a: ExpressionInput, b: ExpressionInput) -> bool
    decreases a,
{
    match a {
        ExpressionInput::Column(c) => b == ExpressionInput::Column(c),
        ExpressionInput::Const(cw) => b == ExpressionInput::Const(cw),
        ExpressionInput::Expr(e) => b matches ExpressionInput::Expr(e2) && tree_equal(e, e2),
    }
}

/// Pointwise structural equality of expression trees.
pub open spec fn tree_equal(a: TableExpression, b: TableExpression) -> bool
    decreases a,
{
    &&& b.op == a.op
    &&& b.input@.len() == a.input@.len()
    &&& b.partition_by@.len() == a.partition_by@.len()
    &&& forall|j: int|
        0 <= j < a.input@.len() ==> operand_tree_equal(#[trigger] a.input@[j], b.input@[j])
    &&& forall|j: int|
        0 <= j < a.partition_by@.len() ==> operand_tree_equal(
            #[trigger] a.partition_by@[j],
            b.partition_by@[j],
        )
}

/// Structural operand equality is reflexive.
proof fn lemma_operand_tree_equal_refl(x: ExpressionInput)
    ensures
        operand_tree_equal(x, x),
    decreases x,
{
    match x {
        ExpressionInput::Expr(e) => lemma_tree_equal_refl(e),
        _ => {},
    }
}

/// Structural tree equality is reflexive.
proof fn lemma_tree_equal_refl(e: TableExpression)
    ensures
        tree_equal(e, e),
    decreases e,
{
    assert forall|j: int| 0 <= j < e.input@.len() implies operand_tree_equal(
        #[trigger] e.input@[j],
        e.input@[j],
    ) by {
        lemma_operand_tree_equal_refl(e.input@[j]);
    }
    assert forall|j: int| 0 <= j < e.partition_by@.len() implies operand_tree_equal(
        #[trigger] e.partition_by@[j],
        e.partition_by@[j],
    ) by {
        lemma_operand_tree_equal_refl(e.partition_by@[j]);
    }
}

/// Whether `e` applies `op` to exactly the listed columns, with no
/// partition-by list: the node shape that expansion substitutes.
pub open spec fn is_cols_expr(e: TableExpression, op: OpName, ids: Seq<usize>) -> bool {
    &&& e.op == op
    &&& e.partition_by@.len() == 0
    &&& e.input@.len() == ids.len()
    &&& forall|j: int|
        0 <= j < ids.len() ==> #[trigger] e.input@[j] == ExpressionInput::Column(ids[j])
}

/// One operand after expansion: a matching column reference became the fresh
/// sub-expression, or a sub-expression was rewritten inside.
pub open spec fn operand_expanded(
    x: ExpressionInput,
    y: ExpressionInput,
    id: usize,
    op: OpName,
    ids: Seq<usize>,
) -> bool
    decreases x,
{
    match x {
        ExpressionInput::Column(c) => c == id && (y matches ExpressionInput::Expr(e2)
            && is_cols_expr(e2, op, ids)),
        ExpressionInput::Const(_) => false,
        ExpressionInput::Expr(e) => y matches ExpressionInput::Expr(e2) && expand_rel(
            e,
            e2,
            id,
            op,
            ids,
        ),
    }
}

/// How an expanded tree relates to the original: the first operand that
/// references the column — scanning the inputs, then the partition-by list,
/// depth-first within each — was replaced by a fresh sub-expression applying
/// `op` to the listed columns; every other operand is unchanged.
pub open spec fn expand_rel(
    a: TableExpression,
    b: TableExpression,
    id: usize,
    op: OpName,
    ids: Seq<usize>,
) -> bool
    decreases a,
{
    &&& b.op == a.op
    &&& b.input@.len() == a.input@.len()
    &&& b.partition_by@.len() == a.partition_by@.len()
    &&& if exists|j: int| 0 <= j < a.input@.len() && operand_refs(#[trigger] a.input@[j], id) {
        exists|k: int|
            #![auto]
            {
                &&& 0 <= k < a.input@.len()
                &&& forall|j: int|
                    0 <= j < k ==> !operand_refs(#[trigger] a.input@[j], id)
                        && operand_tree_equal(a.input@[j], b.input@[j])
                &&& operand_expanded(a.input@[k], b.input@[k], id, op, ids)
                &&& forall|j: int|
                    k < j < a.input@.len() ==> #[trigger] b.input@[j] == a.input@[j]
                &&& forall|j: int|
                    0 <= j < a.partition_by@.len() ==> #[trigger] b.partition_by@[j]
                        == a.partition_by@[j]
            }
    } else {
        &&& forall|j: int|
            0 <= j < a.input@.len() ==> !operand_refs(#[trigger] a.input@[j], id)
                && operand_tree_equal(a.input@[j], b.input@[j])
        &&& exists|k: int|
            #![auto]
            {
                &&& 0 <= k < a.partition_by@.len()
                &&& forall|j: int|
                    0 <= j < k ==> !operand_refs(#[trigger] a.partition_by@[j], id)
                        && operand_tree_equal(a.partition_by@[j], b.partition_by@[j])
                &&& operand_expanded(a.partition_by@[k], b.partition_by@[k], id, op, ids)
                &&& forall|j: int|
                    k < j < a.partition_by@.len() ==> #[trigger] b.partition_by@[j]
                        == a.partition_by@[j]
            }
    }
}

/// One operand after constant expansion: a matching column reference became
/// the given constant, or a sub-expression was rewritten inside.
pub open spec fn operand_const_expanded(
    x: ExpressionInput,
    y: ExpressionInput,
    id: usize,
    c: ColumnWrapper,
) -> bool
    decreases x,
{
    match x {
        ExpressionInput::Column(cc) => cc == id && y == ExpressionInput::Const(c),
        ExpressionInput::Const(_) => false,
        ExpressionInput::Expr(e) => y matches ExpressionInput::Expr(e2) && const_expand_rel(
            e,
            e2,
            id,
            c,
        ),
    }
}

/// How a constant-expanded tree relates to the original: the first input
/// operand that references the column, depth-first, was replaced by the
/// given constant; every other operand is unchanged (partition-by lists are
/// not rewritten).
pub open spec fn const_expand_rel(
    a: TableExpression,
    b: TableExpression,
    id: usize,
    c: ColumnWrapper,
) -> bool
    decreases a,
{
    &&& b.op == a.op
    &&& b.input@.len() == a.input@.len()
    &&& b.partition_by@ == a.partition_by@
    &&& exists|k: int|
        #![auto]
        {
            &&& 0 <= k < a.input@.len()
            &&& forall|j: int|
                0 <= j < k ==> !operand_refs_in(#[trigger] a.input@[j], id)
                    && operand_tree_equal(a.input@[j], b.input@[j])
            &&& operand_const_expanded(a.input@[k], b.input@[k], id, c)
            &&& forall|j: int|
                k < j < a.input@.len() ==> #[trigger] b.input@[j] == a.input@[j]
        }
}

/// The ghost operand pairs, as kernel operands.
pub open spec fn operands_as_inputs(ops: Seq<(ColumnWrapper, ColumnDataIndex)>) -> Seq<
    InputTypes<'static>,
> {
    Seq::new(ops.len(), |j: int| InputTypes::Owned(ops[j].0, ops[j].1))
}

/// What one resolved operand of an expression is in partition `p`: the
/// referenced table column with its applied index, the expression's own
/// constant, or a sub-expression's evaluated output with its index.
pub open spec fn operand_post(
    inp: ExpressionInput,
    t: &Table,
    p: int,
    w: ColumnWrapper,
    ix: ColumnDataIndex,
) -> bool
    decreases inp,
{
    match inp {
        ExpressionInput::Column(c) => c < t.columns@.len() && w == t.columns@[c as int]@[p] && ix
            == t.index_of(c as int, p),
        ExpressionInput::Const(cw) => w == cw && ix is Missing,
        ExpressionInput::Expr(e) => eval_post(e, t, p, w, ix),
    }
}

/// What `eval` guarantees of its output: resolved operands exist, one per
/// expression operand — plus, under partitioning, the dense group-id column
/// and the group count — such that the named kernel's dispatch guarantee
/// links them to the output, written into an empty owned destination taken
/// from the pool. Without partitioning the returned index is absent; with
/// it, the returned index is the densified group-id chain over the
/// partition-by columns.
pub open spec fn eval_post(
    e: TableExpression,
    t: &Table,
    p: int,
    out: ColumnWrapper,
    out_ix: ColumnDataIndex,
) -> bool
    decreases e,
{
    exists|ops: Seq<(ColumnWrapper, ColumnDataIndex)>, dst0: ColumnWrapper|
        #![auto]
        {
            &&& ops.len() == e.input@.len() + (if e.partition_by@.len() > 0 {
                2int
            } else {
                0int
            })
            &&& (forall|j: int|
                0 <= j < e.input@.len() ==> operand_post(
                    e.input@[j],
                    t,
                    p,
                    (#[trigger] ops[j]).0,
                    ops[j].1,
                ))
            &&& (e.partition_by@.len() == 0 ==> out_ix is Missing)
            &&& (e.partition_by@.len() > 0 ==> {
                let gi = e.input@.len() as int;
                &&& (t.partition_sizes@[p] > 0 ==> forall|j: int|
                    0 <= j < e.partition_by@.len() ==> (#[trigger] e.partition_by@[j]) is Column)
                &&& out_ix.plain_model() is Some
                &&& ops[gi].0.column.sized_model::<usize>() == Some(
                    out_ix.plain_model().unwrap(),
                )
                &&& ops[gi].1 is Missing
                &&& ops[gi + 1].1 is Missing
                &&& exists|g: usize|
                    (ops[gi + 1].0.column.sized_model::<usize>() matches Some(gs) && gs.len() > 0
                        && gs[0] == g) && crate::table::groups_post(
                        t,
                        pb_ids(e),
                        p,
                        out_ix.plain_model().unwrap(),
                        g,
                    )
            })
            &&& crate::generic_functions_3::set3_inserts(dst0)
            &&& crate::dictionary::op_post(
                e.op,
                dst0,
                &ColumnDataIndex::Missing,
                operands_as_inputs(ops),
                out,
            )
        }
}

impl TableExpression {
    /// An expression applying `op` to the listed columns.
    pub fn new(op: OpName, col_ids: &[usize]) -> (r: Self)
        ensures
            r.op == op,
            r.input@.len() == col_ids@.len(),
            r.partition_by@.len() == 0,
            is_cols_expr(r, op, col_ids@),
    {
        let mut input: Vec<ExpressionInput> = Vec::new();
        let mut i: usize = 0;
        while i < col_ids.len()
            invariant
                i <= col_ids@.len(),
                input@.len() == i,
                forall|j: int|
                    0 <= j < i ==> #[trigger] input@[j] == ExpressionInput::Column(col_ids@[j]),
            decreases col_ids@.len() - i,
        {
            input.push(ExpressionInput::Column(col_ids[i]));
            i = i + 1;
        }
        Self { op, input, partition_by: Vec::new() }
    }

    /// Replaces the first operand referencing column `old_col_id` (anywhere
    /// in the tree) by a sub-expression applying `new_op` to `new_col_ids`.
    pub fn expand_node(&mut self, old_col_id: usize, new_op: OpName, new_col_ids: &[usize]) -> (r:
        Result<(), ErrorDesc>)
        ensures
            final(self).op == old(self).op,
            final(self).input@.len() == old(self).input@.len(),
            final(self).partition_by@.len() == old(self).partition_by@.len(),
            r is Ok <==> refs_column(*old(self), old_col_id),
            r is Ok ==> expand_rel(*old(self), *final(self), old_col_id, new_op, new_col_ids@),
            r is Err ==> tree_equal(*old(self), *final(self)),
    {
        let mut tmp = TableExpression {
            op: OpName::Service,
            input: Vec::new(),
            partition_by: Vec::new(),
        };
        core::mem::swap(self, &mut tmp);
        let (ne, found) = expand_node_inner(tmp, old_col_id, new_op, new_col_ids);
        let mut ne2 = ne;
        core::mem::swap(self, &mut ne2);
        if found {
            Ok(())
        } else {
            Err(ErrorDesc::Lookup)
        }
    }

    /// Replaces the first operand referencing column `old_col_id` in the
    /// input list by the given constant column (taken out of the option on
    /// success; handed back when no reference matched).
    pub fn expand_node_as_const(
        &mut self,
        old_col_id: usize,
        new_const_val: &mut Option<ColumnWrapper>,
    ) -> (r: Result<(), ErrorDesc>)
        ensures
            final(self).op == old(self).op,
            final(self).input@.len() == old(self).input@.len(),
            final(self).partition_by@ == old(self).partition_by@,
            r is Ok <==> (*old(new_const_val)) is Some && input_refs(*old(self), old_col_id),
            r is Ok ==> (*final(new_const_val)) is None,
            (*old(new_const_val)) matches Some(c0) ==> {
                &&& (r is Ok ==> const_expand_rel(*old(self), *final(self), old_col_id, c0))
                &&& (r is Err ==> tree_equal(*old(self), *final(self)) && *final(new_const_val)
                    == *old(new_const_val))
            },
    {
        let c = match new_const_val.take() {
            Some(c) => c,
            None => {
                return Err(ErrorDesc::Policy);
            },
        };
        let mut tmp = TableExpression {
            op: OpName::Service,
            input: Vec::new(),
            partition_by: Vec::new(),
        };
        core::mem::swap(self, &mut tmp);
        let (ne, leftover) = expand_const_inner(tmp, old_col_id, c);
        let mut ne2 = ne;
        core::mem::swap(self, &mut ne2);
        match leftover {
            Some(c2) => {
                *new_const_val = Some(c2);
                Err(ErrorDesc::Lookup)
            },
            None => Ok(()),
        }
    }

    /// Evaluates the expression for one partition of the table: operands are
    /// resolved, sub-expressions evaluated to intermediates, partition-by
    /// operands grouped into a dense id vector, and the kernel invoked into a
    /// pooled output column. Yields the owned output and its dense index (the
    /// group-id vector when partitioning was applied, else no index).
    pub fn eval(
        &self,
        dict: &Dictionary,
        buffer: &mut ColumnBuffer,
        t: &Table,
        p: usize,
    ) -> (r: Result<(ColumnWrapper, ColumnDataIndex), ErrorDesc>)
        requires
            t.wf(),
            p < t.partition_sizes@.len(),
            old(buffer).wf(),
        ensures
            final(buffer).wf(),
            crate::dictionary::is_assign_spec(self.op) ==> r is Err,
            match r {
                Ok(out) => {
                    &&& wrapper_input_ok(out.0, out.1)
                    &&& (out.0.column is Owned || out.0.column is BinaryOwned)
                    &&& eval_post(*self, t, p as int, out.0, out.1)
                },
                Err(_) => true,
            },
        decreases *self,
    {
        if dict.is_assign(self.op) {
            return Err(ErrorDesc::Policy);
        }
        let missing = ColumnDataIndex::Missing;
        let rows_p = t.partition_sizes[p];
        // Evaluate sub-expressions first, so the operand list can borrow
        // their results.
        let mut owned_inputs: Vec<(ColumnWrapper, ColumnDataIndex)> = Vec::new();
        let mut i: usize = 0;
        let n = self.input.len();
        #[verifier::loop_isolation(false)]
        while i < n
            invariant
                i <= n,
                buffer.wf(),
                owned_inputs@.len() == exprs_before(self.input@, i as int),
                forall|k: int|
                    0 <= k < owned_inputs@.len() ==> wrapper_input_ok(
                        (#[trigger] owned_inputs@[k]).0,
                        owned_inputs@[k].1,
                    ),
                forall|j: int|
                    0 <= j < i ==> ((#[trigger] self.input@[j]) matches ExpressionInput::Expr(se)
                        ==> eval_post(
                        se,
                        t,
                        p as int,
                        owned_inputs@[exprs_before(self.input@, j)].0,
                        owned_inputs@[exprs_before(self.input@, j)].1,
                    )),
            decreases n - i,
        {
            proof {
                lemma_exprs_before_mono(self.input@, 0, i as int);
            }
            match &self.input[i] {
                ExpressionInput::Expr(e) => {
                    let sub = match e.eval(dict, buffer, t, p) {
                        Ok(s) => s,
                        Err(err) => {
                            return Err(err);
                        },
                    };
                    let ghost prev_oi = owned_inputs@;
                    owned_inputs.push(sub);
                    proof {
                        assert(owned_inputs@ == prev_oi.push(sub));
                        assert(owned_inputs@[exprs_before(self.input@, i as int)] == sub);
                        assert forall|j: int|
                            0 <= j < i + 1 implies ((#[trigger] self.input@[j]) matches
                        ExpressionInput::Expr(se) ==> eval_post(
                            se,
                            t,
                            p as int,
                            owned_inputs@[exprs_before(self.input@, j)].0,
                            owned_inputs@[exprs_before(self.input@, j)].1,
                        )) by {
                            if j < i {
                                if self.input@[j] is Expr {
                                    lemma_exprs_before_mono(self.input@, 0, j);
                                    lemma_exprs_before_mono(self.input@, j + 1, i as int);
                                    assert(exprs_before(self.input@, j) < prev_oi.len());
                                    assert(owned_inputs@[exprs_before(self.input@, j)]
                                        == prev_oi[exprs_before(self.input@, j)]);
                                }
                            } else {
                                assert(self.input@[j] == ExpressionInput::Expr(*e));
                            }
                        }
                    }
                },
                _ => {},
            }
            i = i + 1;
        }
        // Grouping for partition-by operands.
        let mut part_ix: ColumnDataIndex = ColumnDataIndex::Missing;
        let mut g_count: usize = 0;
        let has_partition = self.partition_by.len() > 0;
        if has_partition {
            let mut gids: Vec<usize> = crate::binarycolumn::vec_fill_usize(rows_p);
            if rows_p > 0 {
                let m = self.partition_by.len();
                let mut j: usize = 0;
                #[verifier::loop_isolation(false)]
                while j < m
                    invariant
                        j <= m,
                        buffer.wf(),
                        gids@.len() == rows_p,
                        forall|k: int|
                            0 <= k < gids@.len() ==> #[trigger] gids@[k] <= k && gids@[gids@[
                            k] as int] == gids@[k],
                        forall|jj: int|
                            0 <= jj < j ==> (#[trigger] self.partition_by@[jj]) is Column,
                        forall|fin: Seq<usize>|
                            crate::table::group_chain_rel(
                                t,
                                pb_ids(*self),
                                p as int,
                                j as int,
                                gids@,
                                fin,
                            ) ==> #[trigger] crate::table::group_chain_rel(
                                t,
                                pb_ids(*self),
                                p as int,
                                0,
                                crate::table::zeros(rows_p as nat),
                                fin,
                            ),
                    decreases m - j,
                {
                    let cid: usize = match &self.partition_by[j] {
                        ExpressionInput::Column(c) => *c,
                        _ => {
                            return Err(ErrorDesc::Policy);
                        },
                    };
                    if cid >= t.columns.len() {
                        return Err(ErrorDesc::Boundary);
                    }
                    let w = &t.columns[cid][p];
                    let ghost pre = gids@;
                    proof {
                        assert(crate::ops::wrapper_input_ok(
                            t.columns@[cid as int]@[p as int],
                            t.index_of(cid as int, p as int),
                        ));
                    }
                    let rr = match t.columnindexmap[cid] {
                        Some(ss) => {
                            proof {
                                assert(t.columnindexmap@[cid as int] == Some(ss));
                                assert(t.index_of(cid as int, p as int) == t.indexes@[
                                ss as int]@[p as int]);
                            }
                            w.group_in(&t.indexes[ss][p], &mut gids)
                        },
                        None => {
                            proof {
                                assert(t.index_of(cid as int, p as int)
                                    == ColumnDataIndex::Missing);
                            }
                            w.group_in(&missing, &mut gids)
                        },
                    };
                    match rr {
                        Ok(_) => {},
                        Err(e) => {
                            return Err(e);
                        },
                    }
                    let glen = gids.len();
                    proof {
                        assert(gids@.len() == glen);
                        assert(group_in_post(
                            t.columns@[cid as int]@[p as int],
                            t.index_of(cid as int, p as int),
                            pre,
                            gids@,
                        ));
                        crate::table::lemma_eval_group_step(
                            t.columns@[cid as int]@[p as int],
                            t.index_of(cid as int, p as int),
                            pre,
                            gids@,
                        );
                    }
                    if gids.len() != rows_p {
                        return Err(ErrorDesc::LengthMismatch);
                    }
                    proof {
                        assert(pb_ids(*self)[j as int] == cid);
                        assert forall|fin: Seq<usize>|
                            crate::table::group_chain_rel(
                                t,
                                pb_ids(*self),
                                p as int,
                                j + 1,
                                gids@,
                                fin,
                            ) implies #[trigger] crate::table::group_chain_rel(
                            t,
                            pb_ids(*self),
                            p as int,
                            0,
                            crate::table::zeros(rows_p as nat),
                            fin,
                        ) by {
                            assert(crate::table::group_chain_rel(
                                t,
                                pb_ids(*self),
                                p as int,
                                j as int,
                                pre,
                                fin,
                            ));
                        }
                    }
                    j = j + 1;
                }
            }
            let ghost raw = gids@;
            g_count = densify(&mut gids);
            proof {
                if rows_p > 0 {
                    assert(crate::table::group_chain_rel(
                        t,
                        pb_ids(*self),
                        p as int,
                        self.partition_by@.len() as int,
                        raw,
                        raw,
                    ));
                    assert(crate::table::group_chain_rel(
                        t,
                        pb_ids(*self),
                        p as int,
                        0,
                        crate::table::zeros(rows_p as nat),
                        raw,
                    ));
                    assert(gids@ =~= Seq::new(
                        raw.len(),
                        |i: int| (crate::table::count_firsts(raw, raw[i] as int) as usize),
                    ));
                    assert(crate::table::groups_post(t, pb_ids(*self), p as int, gids@, g_count));
                } else {
                    assert(crate::table::groups_post(t, pb_ids(*self), p as int, gids@, g_count));
                }
            }
            part_ix = ColumnDataIndex::Owned(gids);
        }
        // Resolve the operand types and look the signature up.
        let mut sig = Signature::new_op(self.op);
        let mut i2: usize = 0;
        let mut sub_at: usize = 0;
        while i2 < n
            invariant
                i2 <= n,
                n == self.input@.len(),
                sub_at <= owned_inputs@.len(),
                buffer.wf(),
                t.wf(),
                p < t.partition_sizes@.len(),
            decreases n - i2,
        {
            match &self.input[i2] {
                ExpressionInput::Column(c) => {
                    if *c >= t.columns.len() || t.partition_sizes.len() == 0 {
                        return Err(ErrorDesc::Boundary);
                    }
                    sig.add_input_tag(t.columns[*c][p].column.item_type_id());
                },
                ExpressionInput::Const(c) => {
                    sig.add_input_tag(c.column.item_type_id());
                },
                ExpressionInput::Expr(_) => {
                    if sub_at >= owned_inputs.len() {
                        return Err(ErrorDesc::Lookup);
                    }
                    sig.add_input_tag(owned_inputs[sub_at].0.column.item_type_id());
                    sub_at = sub_at + 1;
                },
            }
            i2 = i2 + 1;
        }
        let op_meta = match dict.get(&sig) {
            Some(m) => m,
            None => {
                return Err(ErrorDesc::Lookup);
            },
        };
        let mut out = buffer.pop(op_meta.output_type_id);
        // Build the operand list (borrows into the table and intermediates).
        let gids_col: ColumnWrapper;
        let gcount_col: ColumnWrapper;
        let mut inputs: Vec<InputTypes> = Vec::new();
        let mut i3: usize = 0;
        let mut sub_at3: usize = 0;
        #[verifier::loop_isolation(false)]
        while i3 < n
            invariant
                i3 <= n,
                sub_at3 == exprs_before(self.input@, i3 as int),
                sub_at3 <= owned_inputs@.len(),
                buffer.wf(),
                missing == ColumnDataIndex::Missing,
                inputs@.len() == i3,
                forall|k: int|
                    0 <= k < owned_inputs@.len() ==> wrapper_input_ok(
                        (#[trigger] owned_inputs@[k]).0,
                        owned_inputs@[k].1,
                    ),
                forall|k: int|
                    0 <= k < inputs@.len() ==> crate::ops::input_ok(#[trigger] inputs@[k]),
                forall|k: int|
                    0 <= k < i3 ==> operand_post(
                        self.input@[k],
                        t,
                        p as int,
                        (#[trigger] inputs@[k]).wrapper_of(),
                        inputs@[k].index_of(),
                    ),
            decreases n - i3,
        {
            proof {
                lemma_exprs_before_mono(self.input@, 0, i3 as int);
            }
            match &self.input[i3] {
                ExpressionInput::Column(c) => {
                    if *c >= t.columns.len() {
                        return Err(ErrorDesc::Boundary);
                    }
                    let cid = *c;
                    match t.columnindexmap[cid] {
                        Some(ss) => {
                            proof {
                                assert(t.columnindexmap@[cid as int] == Some(ss));
                                assert(t.index_of(cid as int, p as int) == t.indexes@[
                                ss as int]@[p as int]);
                            }
                            let inp = InputTypes::Ref(&t.columns[cid][p], &t.indexes[ss][p]);
                            proof {
                                assert(crate::ops::wrapper_input_ok(
                                    t.columns@[cid as int]@[p as int],
                                    t.index_of(cid as int, p as int),
                                ));
                                assert(crate::ops::input_ok(inp));
                            }
                            inputs.push(inp);
                        },
                        None => {
                            proof {
                                assert(t.index_of(cid as int, p as int)
                                    == ColumnDataIndex::Missing);
                                assert(crate::ops::wrapper_input_ok(
                                    t.columns@[cid as int]@[p as int],
                                    t.index_of(cid as int, p as int),
                                ));
                            }
                            let inp = InputTypes::Ref(&t.columns[cid][p], &missing);
                            proof {
                                assert(crate::ops::input_ok(inp));
                            }
                            inputs.push(inp);
                        },
                    }
                },
                ExpressionInput::Const(c) => {
                    if !constant_ok(c) {
                        return Err(ErrorDesc::Policy);
                    }
                    let inp = InputTypes::Ref(c, &missing);
                    proof {
                        assert(crate::ops::input_ok(inp));
                    }
                    inputs.push(inp);
                },
                ExpressionInput::Expr(_) => {
                    if sub_at3 >= owned_inputs.len() {
                        return Err(ErrorDesc::Lookup);
                    }
                    let pair = &owned_inputs[sub_at3];
                    let inp = InputTypes::Ref(&pair.0, &pair.1);
                    proof {
                        assert(crate::ops::input_ok(inp));
                        assert(operand_post(
                            self.input@[i3 as int],
                            t,
                            p as int,
                            inp.wrapper_of(),
                            inp.index_of(),
                        ));
                    }
                    inputs.push(inp);
                    sub_at3 = sub_at3 + 1;
                },
            }
            i3 = i3 + 1;
        }
        if has_partition {
            let gids_copy: Vec<usize> = match &part_ix {
                ColumnDataIndex::Owned(v) => crate::tabletotable::clone_index_vec(v),
                _ => Vec::new(),
            };
            gids_col = ColumnWrapper::new_from_vec::<usize>(gids_copy);
            gcount_col = ColumnWrapper::new_const::<usize>(g_count);
            let inp_g = InputTypes::Ref(&gids_col, &missing);
            proof {
                assert(crate::ops::input_ok(inp_g));
                assert(inp_g.wrapper_of().column.sized_model::<usize>()
                    == part_ix.plain_model());
            }
            inputs.push(inp_g);
            let inp_c = InputTypes::Ref(&gcount_col, &missing);
            proof {
                assert(crate::ops::input_ok(inp_c));
            }
            inputs.push(inp_c);
        }
        let ghost dst0v = out;
        let rr = out.op(dict, self.op, &missing, inputs.as_slice());
        let ghost inputs_g = inputs@;
        // Return evaluated intermediates to the pool.
        let mut k: usize = 0;
        let total_owned = owned_inputs.len();
        while k < total_owned
            invariant
                k <= total_owned,
                buffer.wf(),
            decreases total_owned - k,
        {
            match owned_inputs.pop() {
                Some(pair) => {
                    buffer.push(pair.0);
                },
                None => {},
            }
            k = k + 1;
        }
        match rr {
            Ok(_) => {},
            Err(e) => {
                return Err(e);
            },
        }
        if !(out.column.is_owned()) {
            return Err(ErrorDesc::ShapeMismatch);
        }
        proof {
            let ops0 = Seq::new(
                inputs_g.len(),
                |j: int| ((inputs_g[j]).wrapper_of(), (inputs_g[j]).index_of()),
            );
            assert(crate::dictionary::op_post(
                self.op,
                dst0v,
                &missing,
                inputs_g,
                out,
            ));
            assert forall|j: int|
                #![trigger inputs_g[j], operands_as_inputs(ops0)[j]]
                0 <= j < inputs_g.len() implies inputs_g[j].wrapper_of()
                == operands_as_inputs(ops0)[j].wrapper_of() && inputs_g[j].index_of()
                == operands_as_inputs(ops0)[j].index_of() by {
                assert(operands_as_inputs(ops0)[j] == InputTypes::Owned(ops0[j].0, ops0[j].1));
            }
            crate::dictionary::lemma_op_post_congruent(
                self.op,
                dst0v,
                &missing,
                inputs_g,
                operands_as_inputs(ops0),
                out,
            );
            assert forall|j: int|
                0 <= j < self.input@.len() implies operand_post(
                self.input@[j],
                t,
                p as int,
                (#[trigger] ops0[j]).0,
                ops0[j].1,
            ) by {
                assert(ops0[j].0 == inputs_g[j].wrapper_of());
            }
            assert(inputs_g.len() == self.input@.len() + (if has_partition {
                2int
            } else {
                0int
            }));
            if has_partition {
                let gi = self.input@.len() as int;
                assert(ops0[gi].0.column.sized_model::<usize>() == part_ix.plain_model());
                assert(part_ix.plain_model() is Some);
                assert(ops0[gi].1 is Missing);
                assert(ops0[gi + 1].1 is Missing);
                assert(ops0[gi + 1].0.column.sized_model::<usize>() matches Some(gs) && gs.len()
                    > 0 && gs[0] == g_count);
                assert(crate::table::groups_post(
                    t,
                    pb_ids(*self),
                    p as int,
                    part_ix.plain_model().unwrap(),
                    g_count,
                ));
            } else {
                assert(part_ix is Missing);
            }
            assert(crate::generic_functions_3::set3_inserts(dst0v));
            assert(eval_post(*self, t, p as int, out, part_ix));
        }
        match validate_output(&out, &part_ix) {
            Ok(_) => Ok((out, part_ix)),
            Err(e) => Err(e),
        }
    }
}

/// One index slot's partition after row filtering: only the surviving rows'
/// entries remain, in order; an absent index becomes the owned list of the
/// surviving positions.
pub open spec fn index_compacted(
    old_ix: ColumnDataIndex,
    new_ix: ColumnDataIndex,
    keep: Seq<bool>,
    bm: Option<Seq<bool>>,
) -> bool {
    let k = keep.len() as int;
    &&& (old_ix.plain_model() matches Some(ix) ==> new_ix.plain_model() == Some(
        crate::helpers::survivors(ix, keep, bm, k),
    ))
    &&& (old_ix.option_model() matches Some(ix) ==> new_ix.option_model() == Some(
        crate::helpers::survivors(ix, keep, bm, k),
    ))
    &&& (old_ix is Missing ==> new_ix.plain_model() == Some(
        crate::helpers::surviving_positions(keep, bm, k),
    ) && new_ix is Owned)
}

/// Whether some column reads positionally, so that filtering must install a
/// fresh index.
pub open spec fn needs_fresh(t: Table) -> bool {
    exists|c: int| 0 <= c < t.columnindexmap@.len() && (#[trigger] t.columnindexmap@[c]) is None
}

/// How a filtered table relates to the original, given the per-partition
/// predicate rows `keeps` and their bitmaps `bms` (a row survives where its
/// predicate value is true and, under a bitmap, valid): column storages and
/// their bitmaps stay untouched, every index slot is compacted to the
/// surviving rows, positionally read columns are pointed at one fresh index
/// of the surviving positions, and the row counts shrink to the survivor
/// counts.
pub open spec fn filter_applied(
    orig: Table,
    now: Table,
    keeps: Seq<Seq<bool>>,
    bms: Seq<Option<Seq<bool>>>,
) -> bool {
    let np = orig.partition_sizes@.len() as int;
    let fresh_slot = orig.indexes@.len() as int;
    &&& keeps.len() == np
    &&& bms.len() == np
    &&& forall|p: int|
        0 <= p < np ==> (#[trigger] keeps[p]).len() == orig.partition_sizes@[p] && (
        bms[p] matches Some(b) ==> b.len() == orig.partition_sizes@[p])
    &&& now.columns == orig.columns
    &&& now.columns_nullable == orig.columns_nullable
    &&& now.partition_sizes@.len() == np
    &&& forall|p: int|
        0 <= p < np ==> #[trigger] now.partition_sizes@[p]
            == crate::helpers::surviving_positions(
            keeps[p],
            bms[p],
            orig.partition_sizes@[p] as int,
        ).len()
    &&& now.table_rows == crate::helpers::sum_prefix(now.partition_sizes@, np)
    &&& now.indexes@.len() == orig.indexes@.len() + (if needs_fresh(orig) {
        1int
    } else {
        0int
    })
    &&& forall|s: int|
        0 <= s < now.indexes@.len() ==> (#[trigger] now.indexes@[s])@.len() == np
    &&& forall|s: int, p: int|
        0 <= s < orig.indexes@.len() && 0 <= p < np ==> index_compacted(
            orig.indexes@[s]@[p],
            #[trigger] now.indexes@[s]@[p],
            keeps[p],
            bms[p],
        )
    &&& (needs_fresh(orig) ==> forall|p: int|
        0 <= p < np ==> index_compacted(
            ColumnDataIndex::Missing,
            #[trigger] now.indexes@[fresh_slot]@[p],
            keeps[p],
            bms[p],
        ))
    &&& now.columnindexmap@.len() == orig.columnindexmap@.len()
    &&& forall|c: int|
        0 <= c < orig.columnindexmap@.len() ==> (if orig.columnindexmap@[c] is Some {
            (#[trigger] now.columnindexmap@[c]) == orig.columnindexmap@[c]
        } else {
            now.columnindexmap@[c] matches Some(s) && s as int == orig.indexes@.len() as int
        })
}

/// How a filtered table relates to its filter expression: the per-partition
/// predicate columns are evaluation outputs of the expression on the
/// original table, and their value rows and bitmaps are exactly the keep
/// sets the compaction was applied under.
pub open spec fn filter_by(
    e: TableExpression,
    orig: Table,
    now: Table,
    preds: Seq<ColumnWrapper>,
) -> bool {
    &&& preds.len() == orig.partition_sizes@.len()
    &&& forall|p: int|
        0 <= p < preds.len() ==> eval_outputs(e, &orig, p, #[trigger] preds[p])
    &&& filter_applied(
        orig,
        now,
        Seq::new(preds.len(), |p: int| preds[p].column.sized_model::<bool>().unwrap()),
        Seq::new(preds.len(), |p: int| preds[p].bitmap.model()),
    )
}

/// An index whose models only hold positions below the bound is in bounds.
proof fn lemma_in_bounds_from_models(ix: ColumnDataIndex, bound: nat)
    requires
        ix.plain_model() matches Some(v) ==> forall|i: int|
            0 <= i < v.len() ==> #[trigger] v[i] < bound,
        ix.option_model() matches Some(v) ==> forall|i: int|
            0 <= i < v.len() ==> ((#[trigger] v[i]) matches Some(q) ==> q < bound),
    ensures
        ix.in_bounds(bound),
{
    match ix {
        ColumnDataIndex::Missing => {},
        ColumnDataIndex::Owned(v) => {
            assert forall|i: int| 0 <= i < v@.len() implies #[trigger] v@[i] < bound by {
                assert(ix.plain_model().unwrap()[i] == v@[i]);
            }
        },
        ColumnDataIndex::Slice(v) => {
            assert forall|i: int| 0 <= i < v@.len() implies #[trigger] v@[i] < bound by {
                assert(ix.plain_model().unwrap()[i] == v@[i]);
            }
        },
        ColumnDataIndex::SliceMut(v) => {
            assert forall|i: int| 0 <= i < v@.len() implies #[trigger] v@[i] < bound by {
                assert(ix.plain_model().unwrap()[i] == v@[i]);
            }
        },
        ColumnDataIndex::OwnedOption(v) => {
            assert forall|i: int|
                0 <= i < v@.len() implies ((#[trigger] v@[i]) matches Some(q) ==> q < bound) by {
                assert(ix.option_model().unwrap()[i] == v@[i]);
            }
        },
        ColumnDataIndex::SliceOption(v) => {
            assert forall|i: int|
                0 <= i < v@.len() implies ((#[trigger] v@[i]) matches Some(q) ==> q < bound) by {
                assert(ix.option_model().unwrap()[i] == v@[i]);
            }
        },
    }
}

/// Filtering keeps a table without broadcast-constant columns well-formed:
/// compacted indexes stay in bounds and the logical lengths shrink with the
/// partition sizes.
proof fn lemma_filter_wf(
    orig: Table,
    now: Table,
    keeps: Seq<Seq<bool>>,
    bms: Seq<Option<Seq<bool>>>,
)
    requires
        orig.wf(),
        filter_applied(orig, now, keeps, bms),
        forall|c: int, p: int|
            0 <= c < orig.columns@.len() && 0 <= p < orig.partition_sizes@.len() ==> !((
            #[trigger] orig.columns@[c]@[p]).column is Const) && !(orig.columns@[c]@[p].column
                is BinaryConst),
    ensures
        now.wf(),
{
    let np = orig.partition_sizes@.len() as int;
    let fresh_slot = orig.indexes@.len() as int;
    assert forall|c: int, p: int|
        0 <= c < now.columns@.len() && 0 <= p < np implies crate::ops::wrapper_input_ok(
        #[trigger] now.columns@[c]@[p],
        now.index_of(c, p),
    ) && crate::ops::wrapper_logical_len(now.columns@[c]@[p], now.index_of(c, p))
        == now.partition_sizes@[p] by {
        let w = orig.columns@[c]@[p];
        let keep = keeps[p];
        let bm = bms[p];
        let k = keep.len() as int;
        assert(crate::ops::wrapper_input_ok(w, orig.index_of(c, p)));
        assert(crate::ops::wrapper_logical_len(w, orig.index_of(c, p))
            == orig.partition_sizes@[p]);
        crate::helpers::lemma_survivors_count::<usize>(
            match orig.index_of(c, p).plain_model() {
                Some(v) => v,
                None => Seq::empty(),
            },
            keep,
            bm,
            k,
        );
        crate::helpers::lemma_surviving_positions_bound(keep, bm, k);
        match orig.columnindexmap@[c] {
            Some(s) => {
                let old_ix = orig.indexes@[s as int]@[p];
                let new_ix = now.indexes@[s as int]@[p];
                assert(index_compacted(old_ix, new_ix, keep, bm));
                assert(now.index_of(c, p) == new_ix);
                if old_ix.plain_model() is Some {
                    let ov = old_ix.plain_model().unwrap();
                    crate::helpers::lemma_survivors_member::<usize>(ov, keep, bm, k);
                    crate::helpers::lemma_survivors_count::<usize>(ov, keep, bm, k);
                    assert forall|i: int|
                        0 <= i < new_ix.plain_model().unwrap().len()
                            implies #[trigger] new_ix.plain_model().unwrap()[i]
                            < w.column.len_spec() by {
                        let srv = crate::helpers::survivors(ov, keep, bm, k);
                        assert(crate::helpers::appears_in(srv[i], ov, k));
                        let j = choose|j: int| 0 <= j < k && srv[i] == ov[j];
                    }
                    lemma_in_bounds_from_models(new_ix, w.column.len_spec());
                } else if old_ix.option_model() is Some {
                    let ov = old_ix.option_model().unwrap();
                    crate::helpers::lemma_survivors_member::<Option<usize>>(ov, keep, bm, k);
                    crate::helpers::lemma_survivors_count::<Option<usize>>(ov, keep, bm, k);
                    assert forall|i: int|
                        0 <= i < new_ix.option_model().unwrap().len() implies ((
                        #[trigger] new_ix.option_model().unwrap()[i]) matches Some(q) ==> q
                            < w.column.len_spec()) by {
                        let srv = crate::helpers::survivors(ov, keep, bm, k);
                        assert(crate::helpers::appears_in(srv[i], ov, k));
                        let j = choose|j: int| 0 <= j < k && srv[i] == ov[j];
                    }
                    lemma_in_bounds_from_models(new_ix, w.column.len_spec());
                } else {
                    assert(old_ix is Missing);
                    assert(new_ix.plain_model() == Some(
                        crate::helpers::surviving_positions(keep, bm, k),
                    ));
                    assert(w.column.len_spec() == orig.partition_sizes@[p]);
                    lemma_in_bounds_from_models(new_ix, w.column.len_spec());
                }
            },
            None => {
                let new_ix = now.indexes@[fresh_slot]@[p];
                assert(needs_fresh(orig));
                assert(index_compacted(ColumnDataIndex::Missing, new_ix, keep, bm));
                assert(now.columnindexmap@[c] matches Some(s) && s as int == fresh_slot);
                assert(now.index_of(c, p) == new_ix);
                assert(orig.index_of(c, p) == ColumnDataIndex::Missing);
                assert(w.column.len_spec() == orig.partition_sizes@[p]);
                lemma_in_bounds_from_models(new_ix, w.column.len_spec());
            },
        }
    }
    assert forall|c: int|
        0 <= c < now.columnindexmap@.len() implies ((#[trigger] now.columnindexmap@[c]) matches
        Some(s) ==> s < now.indexes@.len()) by {
        if orig.columnindexmap@[c] is None {
            assert(needs_fresh(orig));
        }
    }
    assert forall|c: int, p: int|
        0 <= c < now.columns@.len() && 0 <= p < np implies (now.columns_nullable@[c] <==> (
    #[trigger] now.columns@[c]@[p]).bitmap.model() is Some) by {
        assert(orig.columns_nullable@[c] <==> orig.columns@[c]@[p].bitmap.model() is Some);
    }
}

/// Whether a column is an output of evaluating the expression in partition
/// `p` under some returned index.
pub open spec fn eval_outputs(e: TableExpression, t: &Table, p: int, col: ColumnWrapper) -> bool {
    exists|ix: ColumnDataIndex| eval_post(e, t, p, col, ix)
}

impl Table {
    /// Evaluates the expression per partition and appends the result as a new
    /// column; a dense group-id index produced by partitioning is installed
    /// alongside and the new column pointed at it.
    pub fn add_expression_as_new_column(
        &mut self,
        dict: &Dictionary,
        expr: &TableExpression,
    ) -> (r: Result<(), ErrorDesc>)
        requires
            old(self).wf(),
        ensures
            r is Ok ==> {
                &&& final(self).columns@.len() == old(self).columns@.len() + 1
                &&& forall|ci: int|
                    0 <= ci < old(self).columns@.len() ==> #[trigger] final(self).columns@[ci]
                        == old(self).columns@[ci]
                &&& final(self).partition_sizes == old(self).partition_sizes
                &&& final(self).table_rows == old(self).table_rows
                &&& final(self).columns_nullable@ == old(self).columns_nullable@.push(true)
                &&& final(self).columns@.last()@.len() == old(self).partition_sizes@.len()
                &&& final(self).columnindexmap@.len() == old(self).columnindexmap@.len() + 1
                &&& forall|ci: int|
                    0 <= ci < old(self).columnindexmap@.len()
                        ==> #[trigger] final(self).columnindexmap@[ci] == old(
                        self,
                    ).columnindexmap@[ci]
                &&& (final(self).columnindexmap@.last() matches Some(s) ==> {
                    &&& final(self).indexes@.len() == old(self).indexes@.len() + 1
                    &&& s as int == old(self).indexes@.len()
                    &&& forall|p: int|
                        0 <= p < old(self).partition_sizes@.len() ==> eval_post(
                            *expr,
                            old(self),
                            p,
                            #[trigger] final(self).columns@.last()@[p],
                            final(self).indexes@[old(self).indexes@.len() as int]@[p],
                        )
                })
                &&& (final(self).columnindexmap@.last() is None ==> final(self).indexes == old(
                    self,
                ).indexes && forall|p: int|
                    0 <= p < old(self).partition_sizes@.len() ==> eval_post(
                        *expr,
                        old(self),
                        p,
                        #[trigger] final(self).columns@.last()@[p],
                        ColumnDataIndex::Missing,
                    ))
            },
    {
        let np = self.partition_sizes.len();
        let mut buffer = ColumnBuffer::new();
        let mut cols: Vec<ColumnWrapper> = Vec::new();
        let mut ixs: Vec<ColumnDataIndex> = Vec::new();
        let mut any_index = false;
        let mut p: usize = 0;
        while p < np
            invariant
                p <= np,
                self.wf(),
                buffer.wf(),
                *self == *old(self),
                np == self.partition_sizes@.len(),
                cols@.len() == p,
                ixs@.len() == p,
                any_index == exists|q: int| 0 <= q < p && !((#[trigger] ixs@[q]) is Missing),
                forall|q: int|
                    0 <= q < p ==> eval_post(*expr, self, q, #[trigger] cols@[q], ixs@[q]),
            decreases np - p,
        {
            let (col, ix) = match expr.eval(dict, &mut buffer, self, p) {
                Ok(o) => o,
                Err(e) => {
                    return Err(e);
                },
            };
            let ghost colg = col;
            let ghost ixg = ix;
            let ghost prev_cols = cols@;
            let ghost prev_ixs = ixs@;
            if ix.is_some() {
                any_index = true;
            }
            proof {
                assert(eval_post(*expr, self, p as int, colg, ixg));
            }
            cols.push(col);
            ixs.push(ix);
            proof {
                assert(cols@ == prev_cols.push(colg));
                assert(ixs@ == prev_ixs.push(ixg));
                if !(ixg is Missing) {
                    assert(!((ixs@[p as int]) is Missing));
                } else {
                    if any_index {
                        let q0 = choose|q: int| 0 <= q < p && !((prev_ixs[q]) is Missing);
                        assert(!((ixs@[q0]) is Missing));
                    } else {
                        assert forall|q: int| 0 <= q < p + 1 implies ((#[trigger] ixs@[q])
                            is Missing) by {
                            if q < p {
                                assert(ixs@[q] == prev_ixs[q]);
                            } else {
                                assert(ixs@[q] == ixg);
                            }
                        }
                    }
                }
                assert forall|q: int| 0 <= q < p + 1 implies eval_post(
                    *expr,
                    self,
                    q,
                    #[trigger] cols@[q],
                    ixs@[q],
                ) by {
                    if q < p {
                        assert(cols@[q] == prev_cols[q] && ixs@[q] == prev_ixs[q]);
                    } else {
                        assert(cols@[q] == colg && ixs@[q] == ixg);
                    }
                }
            }
            p = p + 1;
        }
        self.columns.push(cols);
        self.columns_nullable.push(true);
        if any_index {
            self.indexes.push(ixs);
            let slot = self.indexes.len() - 1;
            self.columnindexmap.push(Some(slot));
        } else {
            self.columnindexmap.push(None);
        }
        Ok(())
    }

    /// Evaluates a boolean predicate expression and keeps only the rows where
    /// it is true and valid: every index slot is compacted in place, columns
    /// without an index get a fresh index of the surviving positions, and the
    /// row counts shrink to the survivor counts. Broadcast-constant columns
    /// cannot carry a compacted row index and are rejected.
    pub fn filter(&mut self, dict: &Dictionary, expr: &TableExpression) -> (r: Result<
        (),
        ErrorDesc,
    >)
        requires
            old(self).wf(),
        ensures
            final(self).columns == old(self).columns,
            final(self).columns_nullable == old(self).columns_nullable,
            match r {
                Ok(_) => {
                    &&& final(self).wf()
                    &&& exists|preds: Seq<ColumnWrapper>|
                        filter_by(*expr, *old(self), *final(self), preds)
                },
                Err(_) => true,
            },
    {
        let np = self.partition_sizes.len();
        let mut buffer = ColumnBuffer::new();
        let mut preds: Vec<ColumnWrapper> = Vec::new();
        let mut p: usize = 0;
        while p < np
            invariant
                p <= np,
                self.wf(),
                buffer.wf(),
                *self == *old(self),
                np == self.partition_sizes@.len(),
                preds@.len() == p,
                forall|q: int|
                    0 <= q < p ==> eval_outputs(*expr, self, q, #[trigger] preds@[q]),
                forall|q: int|
                    0 <= q < p ==> (#[trigger] preds@[q]).column.sized_model::<bool>() is Some
                        && preds@[q].column.sized_model::<bool>().unwrap().len()
                        == self.partition_sizes@[q] && (preds@[q].bitmap.model() matches Some(b)
                        ==> b.len() == self.partition_sizes@[q]),
            decreases np - p,
        {
            let (col, ix0) = match expr.eval(dict, &mut buffer, self, p) {
                Ok(o) => o,
                Err(e) => {
                    return Err(e);
                },
            };
            proof {
                assert(eval_post(*expr, self, p as int, col, ix0));
            }
            let _ix = ix0;
            let n_ok: bool = {
                let good_type = match col.column.downcast_ref::<bool>() {
                    Ok(v) => v.len() == self.partition_sizes[p],
                    Err(_) => false,
                };
                let good_bitmap = match col.bitmap.len() {
                    Some(k) => k == self.partition_sizes[p],
                    None => true,
                };
                good_type && good_bitmap
            };
            if !n_ok {
                return Err(ErrorDesc::ShapeMismatch);
            }
            let ghost colg = col;
            let ghost prev_preds = preds@;
            proof {
                if col.column.sized_of() is Some {
                    <bool as crate::sized_data::Element>::data_model_tag(
                        &col.column.sized_of().unwrap(),
                    );
                }
            }
            preds.push(col);
            proof {
                assert(preds@ == prev_preds.push(colg));
                assert forall|q: int| 0 <= q < p + 1 implies eval_outputs(
                    *expr,
                    self,
                    q,
                    #[trigger] preds@[q],
                ) by {
                    if q < p {
                        assert(preds@[q] == prev_preds[q]);
                    } else {
                        assert(preds@[q] == colg);
                        assert(eval_post(*expr, self, q, preds@[q], ix0));
                    }
                }
            }
            p = p + 1;
        }
        let ghost orig = *old(self);
        let ghost keeps: Seq<Seq<bool>> = Seq::new(
            np as nat,
            |q: int| preds@[q].column.sized_model::<bool>().unwrap(),
        );
        let ghost bms: Seq<Option<Seq<bool>>> = Seq::new(
            np as nat,
            |q: int| preds@[q].bitmap.model(),
        );
        // A broadcast constant cannot carry a compacted row index: reject it
        // before anything is mutated.
        let ncols = self.columns.len();
        let mut c0: usize = 0;
        #[verifier::loop_isolation(false)]
        while c0 < ncols
            invariant
                c0 <= ncols,
                *self == orig,
                orig.wf(),
                ncols == self.columns@.len(),
                np == self.partition_sizes@.len(),
                forall|cc: int, q: int|
                    0 <= cc < c0 && 0 <= q < np ==> !((#[trigger] self.columns@[cc]@[q]).column
                        is Const) && !(self.columns@[cc]@[q].column is BinaryConst),
            decreases ncols - c0,
        {
            let mut q: usize = 0;
            #[verifier::loop_isolation(false)]
            while q < np
                invariant
                    q <= np,
                    c0 < ncols,
                    *self == orig,
                    orig.wf(),
                    ncols == self.columns@.len(),
                    np == self.partition_sizes@.len(),
                    forall|qq: int|
                        0 <= qq < q ==> !((#[trigger] self.columns@[c0 as int]@[qq]).column
                            is Const) && !(self.columns@[c0 as int]@[qq].column is BinaryConst),
                decreases np - q,
            {
                if self.columns[c0][q].column.is_const() {
                    return Err(ErrorDesc::ShapeMismatch);
                }
                q = q + 1;
            }
            c0 = c0 + 1;
        }
        proof {
            assert(forall|cc: int, q: int|
                0 <= cc < orig.columns@.len() && 0 <= q < np ==> !((
                #[trigger] orig.columns@[cc]@[q]).column is Const) && !(
                orig.columns@[cc]@[q].column is BinaryConst));
        }
        // Which columns read positionally (and so need a fresh index).
        let mut without_index: Vec<usize> = Vec::new();
        let mut c: usize = 0;
        #[verifier::loop_isolation(false)]
        while c < ncols
            invariant
                c <= ncols,
                *self == orig,
                ncols == self.columnindexmap@.len(),
                forall|j: int|
                    0 <= j < without_index@.len() ==> #[trigger] without_index@[j]
                        < self.columnindexmap@.len() && self.columnindexmap@[without_index@[
                    j] as int] is None,
                forall|cc: int|
                    0 <= cc < c && self.columnindexmap@[cc] is None ==> exists|j: int|
                        0 <= j < without_index@.len() && #[trigger] without_index@[j] == cc,
            decreases ncols - c,
        {
            let ghost prevw = without_index@;
            let is_none = match self.columnindexmap[c] {
                Some(_) => false,
                None => true,
            };
            if is_none {
                without_index.push(c);
            }
            proof {
                assert forall|cc: int|
                    0 <= cc <= c && self.columnindexmap@[cc] is None implies exists|j: int|
                        0 <= j < without_index@.len() && #[trigger] without_index@[j] == cc by {
                    if cc == c {
                        assert(without_index@[prevw.len() as int] == cc);
                    } else {
                        let j0 = choose|j: int|
                            0 <= j < prevw.len() && #[trigger] prevw[j] == cc;
                        assert(without_index@[j0] == cc);
                    }
                }
            }
            c = c + 1;
        }
        let need_fresh = without_index.len() > 0 && ncols > 0;
        proof {
            assert(ncols == self.columns@.len() && self.columns@.len()
                == self.columnindexmap@.len());
            if need_fresh {
                assert(orig.columnindexmap@[without_index@[0] as int] is None);
                assert(needs_fresh(orig));
            } else {
                assert forall|cc: int|
                    0 <= cc < orig.columnindexmap@.len() implies !((
                #[trigger] orig.columnindexmap@[cc]) is None) by {}
                assert(!needs_fresh(orig));
            }
        }
        // Compact every index slot, per partition, and compute the new sizes.
        let mut new_sizes: Vec<usize> = Vec::new();
        let mut fresh: Vec<ColumnDataIndex> = Vec::new();
        let mut p2: usize = 0;
        #[verifier::loop_isolation(false)]
        while p2 < np
            invariant
                p2 <= np,
                np == self.partition_sizes@.len(),
                preds@.len() == np,
                new_sizes@.len() == p2,
                fresh@.len() == p2,
                self.columns == orig.columns,
                self.columns_nullable == orig.columns_nullable,
                self.table_rows == orig.table_rows,
                self.partition_sizes == orig.partition_sizes,
                self.columnindexmap == orig.columnindexmap,
                self.indexes@.len() == orig.indexes@.len(),
                forall|j: int|
                    0 <= j < without_index@.len() ==> #[trigger] without_index@[j]
                        < self.columnindexmap@.len(),
                forall|s: int|
                    0 <= s < self.indexes@.len() ==> (#[trigger] self.indexes@[s])@.len() == np,
                forall|s: int, q: int|
                    #![trigger self.indexes@[s]@[q]]
                    0 <= s < orig.indexes@.len() && p2 <= q < np ==> self.indexes@[s]@[q]
                        == orig.indexes@[s]@[q],
                forall|s: int, q: int|
                    #![trigger self.indexes@[s]@[q]]
                    0 <= s < orig.indexes@.len() && 0 <= q < p2 ==> index_compacted(
                        orig.indexes@[s]@[q],
                        self.indexes@[s]@[q],
                        keeps[q],
                        bms[q],
                    ),
                forall|q: int|
                    0 <= q < p2 ==> #[trigger] new_sizes@[q]
                        == crate::helpers::surviving_positions(
                        keeps[q],
                        bms[q],
                        orig.partition_sizes@[q] as int,
                    ).len(),
                forall|q: int|
                    0 <= q < p2 ==> index_compacted(
                        ColumnDataIndex::Missing,
                        #[trigger] fresh@[q],
                        keeps[q],
                        bms[q],
                    ),
                forall|q: int|
                    0 <= q < np ==> (#[trigger] preds@[q]).column.sized_model::<bool>() is Some
                        && preds@[q].column.sized_model::<bool>().unwrap().len()
                        == self.partition_sizes@[q] && (preds@[q].bitmap.model() matches Some(b)
                        ==> b.len() == self.partition_sizes@[q]),
            decreases np - p2,
        {
            let keep_col = &preds[p2];
            let keep: &Vec<bool> = match keep_col.column.downcast_ref::<bool>() {
                Ok(v) => v,
                Err(e) => {
                    return Err(e);
                },
            };
            proof {
                assert(keep@ == keeps[p2 as int]);
                assert(keep_col.bitmap.model() == bms[p2 as int]);
            }
            let mut survivors_here: usize = 0;
            let ns = self.indexes.len();
            let mut s: usize = 0;
            #[verifier::loop_isolation(false)]
            while s < ns
                invariant
                    s <= ns,
                    p2 < np,
                    np == self.partition_sizes@.len(),
                    ns == self.indexes@.len(),
                    keep@.len() == self.partition_sizes@[p2 as int],
                    keep@ == keeps[p2 as int],
                    keep_col == &preds@[p2 as int],
                    keep_col.bitmap.model() == bms[p2 as int],
                    preds@.len() == np,
                    self.columns == orig.columns,
                    self.columns_nullable == orig.columns_nullable,
                    self.table_rows == orig.table_rows,
                    self.partition_sizes == orig.partition_sizes,
                    self.columnindexmap == orig.columnindexmap,
                    self.indexes@.len() == orig.indexes@.len(),
                    forall|j: int|
                        0 <= j < without_index@.len() ==> #[trigger] without_index@[j]
                            < self.columnindexmap@.len(),
                    keep_col.bitmap.model() matches Some(b) ==> b.len() == keep@.len(),
                    forall|ss: int|
                        0 <= ss < self.indexes@.len() ==> (#[trigger] self.indexes@[ss])@.len()
                            == np,
                    forall|ss: int, q: int|
                        #![trigger self.indexes@[ss]@[q]]
                        0 <= ss < orig.indexes@.len() && p2 < q < np ==> self.indexes@[ss]@[q]
                            == orig.indexes@[ss]@[q],
                    forall|ss: int|
                        s <= ss < ns ==> #[trigger] self.indexes@[ss]@[p2 as int]
                            == orig.indexes@[ss]@[p2 as int],
                    forall|ss: int|
                        0 <= ss < s ==> index_compacted(
                            orig.indexes@[ss]@[p2 as int],
                            #[trigger] self.indexes@[ss]@[p2 as int],
                            keeps[p2 as int],
                            bms[p2 as int],
                        ),
                    forall|ss: int, q: int|
                        #![trigger self.indexes@[ss]@[q]]
                        0 <= ss < orig.indexes@.len() && 0 <= q < p2 ==> index_compacted(
                            orig.indexes@[ss]@[q],
                            self.indexes@[ss]@[q],
                            keeps[q],
                            bms[q],
                        ),
                decreases ns - s,
            {
                let lok: bool = match self.indexes[s][p2].len() {
                    Some(k) => k == keep.len(),
                    None => true,
                };
                if !lok {
                    return Err(ErrorDesc::LengthMismatch);
                }
                let rr = crate::helpers::filter(
                    &mut self.indexes[s][p2],
                    keep.as_slice(),
                    &keep_col.bitmap,
                    &None,
                );
                let cnt = match rr {
                    Ok(cnt) => cnt,
                    Err(e) => {
                        return Err(e);
                    },
                };
                survivors_here = cnt;
                s = s + 1;
            }
            // Fresh index for index-less columns: the surviving positions.
            let mut fresh_ix = ColumnDataIndex::Missing;
            let cnt2 = match crate::helpers::filter(
                &mut fresh_ix,
                keep.as_slice(),
                &keep_col.bitmap,
                &None,
            ) {
                Ok(cnt) => cnt,
                Err(e) => {
                    return Err(e);
                },
            };
            survivors_here = cnt2;
            proof {
                crate::helpers::lemma_surviving_positions_bound(
                    keeps[p2 as int],
                    bms[p2 as int],
                    keep@.len() as int,
                );
                assert(cnt2 == crate::helpers::surviving_positions(
                    keeps[p2 as int],
                    bms[p2 as int],
                    orig.partition_sizes@[p2 as int] as int,
                ).len());
                assert(index_compacted(
                    ColumnDataIndex::Missing,
                    fresh_ix,
                    keeps[p2 as int],
                    bms[p2 as int],
                ));
            }
            fresh.push(fresh_ix);
            new_sizes.push(survivors_here);
            p2 = p2 + 1;
        }
        if need_fresh {
            self.indexes.push(fresh);
            let slot = self.indexes.len() - 1;
            let mut k: usize = 0;
            let nw = without_index.len();
            #[verifier::loop_isolation(false)]
            while k < nw
                invariant
                    k <= nw,
                    nw == without_index@.len(),
                    nw > 0,
                    slot == orig.indexes@.len(),
                    self.columns == orig.columns,
                    self.columns_nullable == orig.columns_nullable,
                    self.table_rows == orig.table_rows,
                    self.partition_sizes == orig.partition_sizes,
                    self.indexes@.len() == orig.indexes@.len() + 1,
                    np == self.partition_sizes@.len(),
                    forall|s: int|
                        0 <= s < self.indexes@.len() ==> (#[trigger] self.indexes@[s])@.len()
                            == np,
                    forall|s: int, q: int|
                        #![trigger self.indexes@[s]@[q]]
                        0 <= s < orig.indexes@.len() && 0 <= q < np ==> index_compacted(
                            orig.indexes@[s]@[q],
                            self.indexes@[s]@[q],
                            keeps[q],
                            bms[q],
                        ),
                    forall|q: int|
                        0 <= q < np ==> index_compacted(
                            ColumnDataIndex::Missing,
                            #[trigger] self.indexes@[slot as int]@[q],
                            keeps[q],
                            bms[q],
                        ),
                    self.columnindexmap@.len() == orig.columnindexmap@.len(),
                    forall|j: int|
                        0 <= j < nw ==> #[trigger] without_index@[j] < self.columnindexmap@.len()
                            && orig.columnindexmap@[without_index@[j] as int] is None,
                    forall|cc: int|
                        0 <= cc < orig.columnindexmap@.len() && orig.columnindexmap@[cc] is None
                            ==> exists|j: int|
                            0 <= j < nw && #[trigger] without_index@[j] == cc,
                    forall|cc: int|
                        0 <= cc < self.columnindexmap@.len()
                            ==> #[trigger] self.columnindexmap@[cc] == if (exists|j: int|
                            0 <= j < k && without_index@[j] == cc) {
                            Some(slot)
                        } else {
                            orig.columnindexmap@[cc]
                        },
                decreases nw - k,
            {
                let cid = without_index[k];
                self.columnindexmap[cid] = Some(slot);
                k = k + 1;
            }
            proof {
                assert forall|cc: int|
                    0 <= cc < orig.columnindexmap@.len() implies (
                if orig.columnindexmap@[cc] is Some {
                    (#[trigger] self.columnindexmap@[cc]) == orig.columnindexmap@[cc]
                } else {
                    self.columnindexmap@[cc] matches Some(s) && s as int == orig.indexes@.len() as int
                }) by {
                    if orig.columnindexmap@[cc] is Some {
                        if exists|j: int| 0 <= j < nw && without_index@[j] == cc {
                            let j = choose|j: int| 0 <= j < nw && without_index@[j] == cc;
                            assert(orig.columnindexmap@[without_index@[j] as int] is None);
                        }
                    }
                }
            }
        }
        let total = match crate::helpers::sum_of(&new_sizes) {
            Some(t) => t,
            None => {
                return Err(ErrorDesc::LengthMismatch);
            },
        };
        self.partition_sizes = new_sizes;
        self.table_rows = total;
        proof {
            if !need_fresh {
                assert(!needs_fresh(orig));
            }
            assert(filter_applied(orig, *self, keeps, bms));
            lemma_filter_wf(orig, *self, keeps, bms);
            assert(keeps =~= Seq::new(
                preds@.len(),
                |p: int| preds@[p].column.sized_model::<bool>().unwrap(),
            ));
            assert(bms =~= Seq::new(preds@.len(), |p: int| preds@[p].bitmap.model()));
            assert(filter_by(*expr, orig, *self, preds@));
        }
        Ok(())
    }
}

/// A constant operand must hold exactly one row (its tables are read at
/// position zero when broadcast).
fn constant_ok(c: &ColumnWrapper) -> (r: bool)
    ensures
        r == wrapper_input_ok(*c, ColumnDataIndex::Missing),
{
    let len_ok = c.len() > 0;
    let bm_ok = match c.bitmap.len() {
        Some(k) => k == c.len(),
        None => true,
    };
    let bm_pos = match c.bitmap.len() {
        Some(k) => k > 0,
        None => true,
    };
    let wf_ok = match &c.column {
        crate::columndata::ColumnData::BinaryOwned(b) => binary_wf_exec(b),
        crate::columndata::ColumnData::BinaryConst(b) => binary_wf_exec(b),
        crate::columndata::ColumnData::BinarySlice(b) => binary_wf_exec(&b.inner),
        crate::columndata::ColumnData::BinarySliceMut(b) => binary_wf_exec(&b.inner),
        _ => true,
    };
    let is_const = c.column.is_const();
    wf_ok && bm_ok && (!is_const || (len_ok && bm_pos))
}

/// Checks the binary layout invariant at run time.
fn binary_wf_exec(b: &crate::binarycolumn::OnwedBinaryColumn) -> (r: bool)
    ensures
        r == b.wf(),
{
    if b.start_pos.len() != b.len.len() {
        return false;
    }
    let n = b.start_pos.len();
    let total = b.data.len();
    let mut i: usize = 0;
    while i < n
        invariant
            i <= n,
            n == b.start_pos@.len(),
            n == b.len@.len(),
            total == b.data@.len(),
            forall|j: int|
                0 <= j < i ==> b.offset <= #[trigger] b.start_pos@[j] && b.elem_end(j)
                    <= b.data@.len(),
        decreases n - i,
    {
        let s = b.start_pos[i];
        if s < b.offset {
            return false;
        }
        let rel = s - b.offset;
        if rel > total || b.len[i] > total - rel {
            return false;
        }
        i = i + 1;
    }
    true
}

/// The evaluated output must read soundly under its own index.
fn validate_output(out: &ColumnWrapper, ix: &ColumnDataIndex) -> (r: Result<(), ErrorDesc>)
    ensures
        r is Ok ==> wrapper_input_ok(*out, *ix),
{
    let wf_ok = match &out.column {
        crate::columndata::ColumnData::BinaryOwned(b) => binary_wf_exec(b),
        crate::columndata::ColumnData::BinaryConst(b) => binary_wf_exec(b),
        crate::columndata::ColumnData::BinarySlice(b) => binary_wf_exec(&b.inner),
        crate::columndata::ColumnData::BinarySliceMut(b) => binary_wf_exec(&b.inner),
        _ => true,
    };
    if !wf_ok {
        return Err(ErrorDesc::ShapeMismatch);
    }
    let bm_ok = match out.bitmap.len() {
        Some(k) => k == out.len(),
        None => true,
    };
    if !bm_ok {
        return Err(ErrorDesc::LengthMismatch);
    }
    if !crate::table::index_in_bounds_exec(ix, out.len()) {
        return Err(ErrorDesc::Boundary);
    }
    let shape_ok: bool = {
        let is_const = out.column.is_const();
        let opt = match ix {
            ColumnDataIndex::OwnedOption(_) => true,
            ColumnDataIndex::SliceOption(_) => true,
            _ => false,
        };
        let bm_pos = match out.bitmap.len() {
            Some(k) => k > 0,
            None => true,
        };
        if is_const {
            out.len() > 0 && bm_pos && !opt
        } else {
            !opt || out.len() > 0
        }
    };
    if !shape_ok {
        return Err(ErrorDesc::ShapeMismatch);
    }
    Ok(())
}

/// Rewrites the first matching column reference in the tree into a
/// sub-expression; reports whether one was found.
fn expand_node_inner(
    ex: TableExpression,
    old_col_id: usize,
    new_op: OpName,
    new_col_ids: &[usize],
) -> (r: (TableExpression, bool))
    ensures
        r.0.op == ex.op,
        r.0.input@.len() == ex.input@.len(),
        r.0.partition_by@.len() == ex.partition_by@.len(),
        r.1 == refs_column(ex, old_col_id),
        r.1 ==> expand_rel(ex, r.0, old_col_id, new_op, new_col_ids@),
        !r.1 ==> tree_equal(ex, r.0),
    decreases ex,
{
    let TableExpression { op, mut input, mut partition_by } = ex;
    let ghost orig_in = input@;
    let ghost orig_pb = partition_by@;
    let mut new_input: Vec<ExpressionInput> = Vec::new();
    let mut found = false;
    let ghost mut kf: int = 0;
    let mut n = input.len();
    let ghost total = input@.len() as int;
    #[verifier::loop_isolation(false)]
    while n > 0
        invariant
            n == input@.len(),
            n <= total,
            input@ =~= orig_in.subrange(total - n, total),
            new_input@.len() == total - n,
            found == exists|j: int|
                0 <= j < total - n && operand_refs(#[trigger] orig_in[j], old_col_id),
            !found ==> forall|j: int|
                0 <= j < total - n ==> operand_tree_equal(
                    #[trigger] orig_in[j],
                    new_input@[j],
                ),
            found ==> 0 <= kf < total - n && (forall|j: int|
                0 <= j < kf ==> !operand_refs(#[trigger] orig_in[j], old_col_id)
                    && operand_tree_equal(orig_in[j], new_input@[j])) && operand_expanded(
                orig_in[kf],
                new_input@[kf],
                old_col_id,
                new_op,
                new_col_ids@,
            ) && (forall|j: int|
                kf < j < total - n ==> #[trigger] new_input@[j] == orig_in[j]),
            forall|k: int| 0 <= k < input@.len() ==> decreases_to!(ex => input@[k]),
        decreases n,
    {
        let ghost k0 = total - n;
        let ghost found_pre = found;
        let ghost prev_new = new_input@;
        let x = input.remove(0);
        proof {
            assert(x == orig_in[k0]);
            assert(input@ =~= orig_in.subrange(k0 + 1, total));
        }
        n = n - 1;
        if found {
            new_input.push(x);
        } else {
            match x {
                ExpressionInput::Column(c) => {
                    if c == old_col_id {
                        new_input.push(
                            ExpressionInput::Expr(TableExpression::new(new_op, new_col_ids)),
                        );
                        found = true;
                        proof {
                            kf = k0;
                            assert(operand_expanded(
                                orig_in[k0],
                                new_input@[k0],
                                old_col_id,
                                new_op,
                                new_col_ids@,
                            ));
                        }
                    } else {
                        new_input.push(ExpressionInput::Column(c));
                        proof {
                            assert(operand_tree_equal(orig_in[k0], new_input@[k0]));
                        }
                    }
                },
                ExpressionInput::Expr(e) => {
                    let ghost eg = e;
                    let (e2, did) = expand_node_inner(e, old_col_id, new_op, new_col_ids);
                    found = did;
                    new_input.push(ExpressionInput::Expr(e2));
                    proof {
                        assert(orig_in[k0] == ExpressionInput::Expr(eg));
                        if did {
                            kf = k0;
                            assert(operand_expanded(
                                orig_in[k0],
                                new_input@[k0],
                                old_col_id,
                                new_op,
                                new_col_ids@,
                            ));
                        } else {
                            assert(operand_tree_equal(orig_in[k0], new_input@[k0]));
                        }
                    }
                },
                other => {
                    new_input.push(other);
                    proof {
                        assert(new_input@[k0] == orig_in[k0]);
                        assert(operand_tree_equal(orig_in[k0], new_input@[k0]));
                    }
                },
            }
        }
        proof {
            assert(new_input@.len() == k0 + 1);
            assert(forall|j: int| 0 <= j < k0 ==> #[trigger] new_input@[j] == prev_new[j]);
            assert forall|j: int|
                0 <= j < k0 + 1 && #[trigger] operand_refs(orig_in[j], old_col_id) implies found by {
                if j < k0 {
                    assert(found_pre);
                }
            }
            if found && !found_pre {
                assert(operand_refs(orig_in[k0], old_col_id));
            }
            if found_pre {
                assert(new_input@[k0] == orig_in[k0]);
            }
        }
    }
    let ghost found_inputs = found;
    let ghost kf_in = kf;
    let ghost mut kf2: int = 0;
    proof {
        assert(found_inputs == exists|j: int|
            0 <= j < orig_in.len() && operand_refs(#[trigger] orig_in[j], old_col_id));
    }
    let ghost new_in_final = new_input@;
    let mut new_pb: Vec<ExpressionInput> = Vec::new();
    let mut m = partition_by.len();
    let ghost total_pb = partition_by@.len() as int;
    #[verifier::loop_isolation(false)]
    while m > 0
        invariant
            m == partition_by@.len(),
            m <= total_pb,
            new_input@ == new_in_final,
            partition_by@ =~= orig_pb.subrange(total_pb - m, total_pb),
            new_pb@.len() == total_pb - m,
            found == (found_inputs || exists|j: int|
                0 <= j < total_pb - m && operand_refs(#[trigger] orig_pb[j], old_col_id)),
            found_inputs ==> forall|j: int|
                0 <= j < total_pb - m ==> #[trigger] new_pb@[j] == orig_pb[j],
            !found_inputs && !found ==> forall|j: int|
                0 <= j < total_pb - m ==> operand_tree_equal(#[trigger] orig_pb[j], new_pb@[j]),
            !found_inputs && found ==> 0 <= kf2 < total_pb - m && (forall|j: int|
                0 <= j < kf2 ==> !operand_refs(#[trigger] orig_pb[j], old_col_id)
                    && operand_tree_equal(orig_pb[j], new_pb@[j])) && operand_expanded(
                orig_pb[kf2],
                new_pb@[kf2],
                old_col_id,
                new_op,
                new_col_ids@,
            ) && (forall|j: int|
                kf2 < j < total_pb - m ==> #[trigger] new_pb@[j] == orig_pb[j]),
            forall|k: int| 0 <= k < partition_by@.len() ==> decreases_to!(ex => partition_by@[k]),
        decreases m,
    {
        let ghost k0 = total_pb - m;
        let ghost found_pre = found;
        let ghost prev_pb = new_pb@;
        let x = partition_by.remove(0);
        proof {
            assert(x == orig_pb[k0]);
            assert(partition_by@ =~= orig_pb.subrange(k0 + 1, total_pb));
        }
        m = m - 1;
        if found {
            new_pb.push(x);
        } else {
            match x {
                ExpressionInput::Column(c) => {
                    if c == old_col_id {
                        new_pb.push(
                            ExpressionInput::Expr(TableExpression::new(new_op, new_col_ids)),
                        );
                        found = true;
                        proof {
                            kf2 = k0;
                            assert(operand_expanded(
                                orig_pb[k0],
                                new_pb@[k0],
                                old_col_id,
                                new_op,
                                new_col_ids@,
                            ));
                        }
                    } else {
                        new_pb.push(ExpressionInput::Column(c));
                        proof {
                            assert(operand_tree_equal(orig_pb[k0], new_pb@[k0]));
                        }
                    }
                },
                ExpressionInput::Expr(e) => {
                    let ghost eg = e;
                    let (e2, did) = expand_node_inner(e, old_col_id, new_op, new_col_ids);
                    found = did;
                    new_pb.push(ExpressionInput::Expr(e2));
                    proof {
                        assert(orig_pb[k0] == ExpressionInput::Expr(eg));
                        if did {
                            kf2 = k0;
                            assert(operand_expanded(
                                orig_pb[k0],
                                new_pb@[k0],
                                old_col_id,
                                new_op,
                                new_col_ids@,
                            ));
                        } else {
                            assert(operand_tree_equal(orig_pb[k0], new_pb@[k0]));
                        }
                    }
                },
                other => {
                    new_pb.push(other);
                    proof {
                        assert(new_pb@[k0] == orig_pb[k0]);
                        assert(operand_tree_equal(orig_pb[k0], new_pb@[k0]));
                    }
                },
            }
        }
        proof {
            assert(new_pb@.len() == k0 + 1);
            assert(forall|j: int| 0 <= j < k0 ==> #[trigger] new_pb@[j] == prev_pb[j]);
            assert forall|j: int|
                0 <= j < k0 + 1 && #[trigger] operand_refs(orig_pb[j], old_col_id) implies found by {
                if j < k0 {
                    assert(found_pre);
                }
            }
            if found && !found_pre {
                assert(operand_refs(orig_pb[k0], old_col_id));
            }
            if found_pre {
                assert(new_pb@[k0] == orig_pb[k0]);
            }
        }
    }
    let res = TableExpression { op, input: new_input, partition_by: new_pb };
    proof {
        assert(found == refs_column(ex, old_col_id));
        assert(res.input@ == new_in_final);
        assert(ex.input@ == orig_in);
        assert(ex.partition_by@ == orig_pb);
        assert(ex.op == op);
        assert(res.partition_by@ == new_pb@);
        assert(res.input@.len() == orig_in.len());
        assert(res.partition_by@.len() == orig_pb.len());
        assert(found_inputs == exists|j: int|
            0 <= j < ex.input@.len() && operand_refs(#[trigger] ex.input@[j], old_col_id));
        if found {
            if found_inputs {
                assert(0 <= kf_in < orig_in.len());
                assert(forall|j: int|
                    0 <= j < kf_in ==> !operand_refs(#[trigger] orig_in[j], old_col_id)
                        && operand_tree_equal(orig_in[j], new_in_final[j]));
                assert(forall|j: int|
                    kf_in < j < orig_in.len() ==> #[trigger] new_in_final[j] == orig_in[j]);
                assert(forall|j: int|
                    0 <= j < orig_pb.len() ==> #[trigger] new_pb@[j] == orig_pb[j]);
                assert(operand_expanded(
                    ex.input@[kf_in],
                    res.input@[kf_in],
                    old_col_id,
                    new_op,
                    new_col_ids@,
                ));
                assert(expand_rel(ex, res, old_col_id, new_op, new_col_ids@));
            } else {
                assert(operand_expanded(
                    ex.partition_by@[kf2],
                    res.partition_by@[kf2],
                    old_col_id,
                    new_op,
                    new_col_ids@,
                ));
                assert(expand_rel(ex, res, old_col_id, new_op, new_col_ids@));
            }
        } else {
            assert(tree_equal(ex, res));
        }
    }
    (res, found)
}

/// Rewrites the first matching column reference in the tree into the given
/// constant; yields the constant back when no reference matched.
fn expand_const_inner(ex: TableExpression, old_col_id: usize, c: ColumnWrapper) -> (r: (
    TableExpression,
    Option<ColumnWrapper>,
))
    ensures
        r.0.op == ex.op,
        r.0.input@.len() == ex.input@.len(),
        r.0.partition_by@ == ex.partition_by@,
        r.1 is None <==> input_refs(ex, old_col_id),
        r.1 is None ==> const_expand_rel(ex, r.0, old_col_id, c),
        r.1 matches Some(c2) ==> c2 == c && tree_equal(ex, r.0),
    decreases ex,
{
    let TableExpression { op, mut input, partition_by } = ex;
    let ghost orig_in = input@;
    let mut new_input: Vec<ExpressionInput> = Vec::new();
    let mut leftover: Option<ColumnWrapper> = Some(c);
    let ghost mut kc: int = 0;
    let mut n = input.len();
    let ghost total = input@.len() as int;
    #[verifier::loop_isolation(false)]
    while n > 0
        invariant
            n == input@.len(),
            n <= total,
            input@ =~= orig_in.subrange(total - n, total),
            new_input@.len() == total - n,
            leftover is None <==> exists|j: int|
                0 <= j < total - n && operand_refs_in(#[trigger] orig_in[j], old_col_id),
            leftover is Some ==> leftover == Some(c) && forall|j: int|
                0 <= j < total - n ==> operand_tree_equal(#[trigger] orig_in[j], new_input@[j]),
            leftover is None ==> 0 <= kc < total - n && (forall|j: int|
                0 <= j < kc ==> !operand_refs_in(#[trigger] orig_in[j], old_col_id)
                    && operand_tree_equal(orig_in[j], new_input@[j])) && operand_const_expanded(
                orig_in[kc],
                new_input@[kc],
                old_col_id,
                c,
            ) && (forall|j: int|
                kc < j < total - n ==> #[trigger] new_input@[j] == orig_in[j]),
            forall|k: int| 0 <= k < input@.len() ==> decreases_to!(ex => input@[k]),
        decreases n,
    {
        let ghost k0 = total - n;
        let ghost left_pre = leftover is Some;
        let ghost prev_new = new_input@;
        let x = input.remove(0);
        proof {
            assert(x == orig_in[k0]);
            assert(input@ =~= orig_in.subrange(k0 + 1, total));
        }
        n = n - 1;
        match leftover.take() {
            None => {
                new_input.push(x);
                proof {
                    assert(new_input@[k0] == orig_in[k0]);
                }
            },
            Some(cc) => {
                match x {
                    ExpressionInput::Column(col) => {
                        if col == old_col_id {
                            new_input.push(ExpressionInput::Const(cc));
                            proof {
                                kc = k0;
                                assert(operand_const_expanded(
                                    orig_in[k0],
                                    new_input@[k0],
                                    old_col_id,
                                    c,
                                ));
                            }
                        } else {
                            new_input.push(ExpressionInput::Column(col));
                            leftover = Some(cc);
                            proof {
                                assert(operand_tree_equal(orig_in[k0], new_input@[k0]));
                            }
                        }
                    },
                    ExpressionInput::Expr(e) => {
                        let ghost eg = e;
                        let (e2, rest) = expand_const_inner(e, old_col_id, cc);
                        leftover = rest;
                        new_input.push(ExpressionInput::Expr(e2));
                        proof {
                            assert(orig_in[k0] == ExpressionInput::Expr(eg));
                            if leftover is None {
                                kc = k0;
                                assert(operand_const_expanded(
                                    orig_in[k0],
                                    new_input@[k0],
                                    old_col_id,
                                    c,
                                ));
                            } else {
                                assert(operand_tree_equal(orig_in[k0], new_input@[k0]));
                            }
                        }
                    },
                    other => {
                        new_input.push(other);
                        leftover = Some(cc);
                        proof {
                            assert(new_input@[k0] == orig_in[k0]);
                            assert(operand_tree_equal(orig_in[k0], new_input@[k0]));
                        }
                    },
                }
            },
        }
        proof {
            assert(new_input@.len() == k0 + 1);
            assert(forall|j: int| 0 <= j < k0 ==> #[trigger] new_input@[j] == prev_new[j]);
            if !left_pre {
                assert(new_input@[k0] == orig_in[k0]);
                if orig_in[k0] is Expr {
                    lemma_operand_tree_equal_refl(orig_in[k0]);
                }
            }
        }
        proof {
            if leftover is None {
                if left_pre {
                    assert(operand_refs_in(orig_in[k0], old_col_id));
                }
            } else {
                assert forall|j: int|
                    0 <= j < k0 + 1 implies !operand_refs_in(#[trigger] orig_in[j], old_col_id) by {
                    if j < k0 {
                        assert(!(leftover is None));
                    }
                }
            }
        }
    }
    let res = TableExpression { op, input: new_input, partition_by };
    proof {
        assert((leftover is None) == input_refs(ex, old_col_id));
        assert(ex.input@ == orig_in);
        assert(res.partition_by@ == ex.partition_by@);
        if leftover is None {
            assert(operand_const_expanded(
                ex.input@[kc],
                res.input@[kc],
                old_col_id,
                c,
            ));
            assert(const_expand_rel(ex, res, old_col_id, c));
        } else {
            assert forall|j: int| 0 <= j < ex.partition_by@.len() implies operand_tree_equal(
                #[trigger] ex.partition_by@[j],
                res.partition_by@[j],
            ) by {
                lemma_operand_tree_equal_refl(ex.partition_by@[j]);
            }
            assert(tree_equal(ex, res));
        }
    }
    (res, leftover)
}

} // verus!
