//! What holds of every lowering.

use vstd::prelude::*;
use crate::ast::{Block, Expr, ExprNode, Stmt, StmtNode};
use crate::ir::{OpOf, OpView, OperandOf, PlaceOf, ValueOf, VarView};
use crate::ir::lowering::{
    Counters, Slot, block_supported, expr_supported, lower_block, lower_expr, no_vars,
    resolve_op, resolve_ops, resolve_slot, resolve_vars, stmt_supported, stmts_supported, store,
    temp_handle,
};
use crate::ir::scope::{
    holds_temps, lemma_block_scoped, lemma_expr_scoped, lemma_ops_settled, lemma_slot_settled,
    op_within,
};
use crate::ir::temps::{
    extends, intern_temps, lemma_first_index_extends, lemma_intern_temps,
    lemma_temp_text_injective, temp_text,
};
use crate::session::{first_index, lemma_first_index};

verus! {

/// Two streams are the same up to the names of the temporaries: there is
/// one stream over slots that reads as `first` in the table `first_names`
/// and as `second` in the table `second_names`.
pub open spec fn same_up_to_temporaries(
    first: Seq<OpView>,
    first_names: Seq<Seq<char>>,
    second: Seq<OpView>,
    second_names: Seq<Seq<char>>,
) -> bool {
    exists|shape: Seq<OpOf<Slot>>|
        first == resolve_ops(shape, first_names) && second == resolve_ops(shape, second_names)
}

/// A readable value without the name of its variable.
pub open spec fn operand_outline(o: OperandOf<VarView>) -> OperandOf<()> {
    match o {
        OperandOf::Variable(_) => OperandOf::Variable(()),
        OperandOf::Constant(lit) => OperandOf::Constant(lit),
    }
}

/// An operation without the names of its variables: what kind of
/// operation it is, its operator, its constants and its label.
pub open spec fn outline(op: OpView) -> OpOf<()> {
    match op {
        OpOf::Assign(place, value) => OpOf::Assign(
            match place {
                PlaceOf::Var(_) => PlaceOf::Var(()),
                PlaceOf::Deref(_) => PlaceOf::Deref(()),
            },
            match value {
                ValueOf::BinOp(op, a, b) => ValueOf::BinOp(
                    op,
                    operand_outline(a),
                    operand_outline(b),
                ),
                ValueOf::Direct(a) => ValueOf::Direct(operand_outline(a)),
            },
        ),
        OpOf::Goto(label, vars) => OpOf::Goto(label, vars.map(|v: VarView| ())),
        OpOf::CondGoto(cond, label, vars) => OpOf::CondGoto(
            operand_outline(cond),
            label,
            vars.map(|v: VarView| ()),
        ),
        OpOf::Label(label, vars) => OpOf::Label(label, vars.map(|v: VarView| ())),
    }
}

/// The outlines of the operations of a stream.
pub open spec fn outlines(ops: Seq<OpView>) -> Seq<OpOf<()>> {
    ops.map_values(|op: OpView| outline(op))
}

/// The outline of an operation does not depend on the table that names
/// its temporaries.
pub proof fn lemma_outline(op: OpOf<Slot>, first: Seq<Seq<char>>, second: Seq<Seq<char>>)
    ensures
        outline(resolve_op(op, first)) == outline(resolve_op(op, second)),
{
    match op {
        OpOf::Assign(_, _) => {},
        OpOf::Goto(_, vars) => lemma_outline_vars(vars, first, second),
        OpOf::CondGoto(_, _, vars) => lemma_outline_vars(vars, first, second),
        OpOf::Label(_, vars) => lemma_outline_vars(vars, first, second),
    }
}

/// As `lemma_outline`, for the annotation of a jump or label.
pub proof fn lemma_outline_vars(vars: Set<Slot>, first: Seq<Seq<char>>, second: Seq<Seq<char>>)
    ensures
        resolve_vars(vars, first).map(|v: VarView| ()) == resolve_vars(vars, second).map(
            |v: VarView| (),
        ),
{
    let a = resolve_vars(vars, first).map(|v: VarView| ());
    let b = resolve_vars(vars, second).map(|v: VarView| ());
    assert forall|u: ()| a.contains(u) == b.contains(u) by {
        if a.contains(u) {
            let v = choose|v: VarView| resolve_vars(vars, first).contains(v);
            let s = choose|s: Slot| vars.contains(s) && resolve_slot(s, first) == v;
            assert(resolve_vars(vars, second).contains(resolve_slot(s, second)));
        }
        if b.contains(u) {
            let v = choose|v: VarView| resolve_vars(vars, second).contains(v);
            let s = choose|s: Slot| vars.contains(s) && resolve_slot(s, second) == v;
            assert(resolve_vars(vars, first).contains(resolve_slot(s, first)));
        }
    }
    assert(a =~= b);
}

/// The outlines of a stream do not depend on the table that names its
/// temporaries.
pub proof fn lemma_outlines(ops: Seq<OpOf<Slot>>, first: Seq<Seq<char>>, second: Seq<Seq<char>>)
    ensures
        outlines(resolve_ops(ops, first)) == outlines(resolve_ops(ops, second)),
{
    assert forall|i: int| 0 <= i < ops.len() implies outlines(resolve_ops(ops, first))[i]
        == outlines(resolve_ops(ops, second))[i] by {
        lemma_outline(ops[i], first, second);
        assert(resolve_ops(ops, first)[i] == resolve_op(ops[i], first));
        assert(resolve_ops(ops, second)[i] == resolve_op(ops[i], second));
    }
    assert(outlines(resolve_ops(ops, first)) =~= outlines(resolve_ops(ops, second)));
}

/// Lowering is determined by the tree and the counters. Two engines with
/// equal counters, whatever their interners hold, lower an expression to
/// streams that are the same up to the names of the temporaries: one
/// stream over slots reads as both, and so the two have the same
/// operations, operators, constants and labels at the same places. They
/// leave the same counters, and their results stand for the same slot.
pub proof fn law_determinism(e: Expr, c: Counters, first: Seq<Seq<char>>, second: Seq<Seq<char>>)
    ensures
        ({
            let low = lower_expr(e, c);
            let first_names = intern_temps(first, c.temps, low.next.temps);
            let second_names = intern_temps(second, c.temps, low.next.temps);
            &&& same_up_to_temporaries(
                resolve_ops(low.ops, first_names),
                first_names,
                resolve_ops(low.ops, second_names),
                second_names,
            )
            &&& outlines(resolve_ops(low.ops, first_names)) == outlines(
                resolve_ops(low.ops, second_names),
            )
        }),
{
    let low = lower_expr(e, c);
    let first_names = intern_temps(first, c.temps, low.next.temps);
    let second_names = intern_temps(second, c.temps, low.next.temps);
    lemma_outlines(low.ops, first_names, second_names);
    assert(resolve_ops(low.ops, first_names) == resolve_ops(low.ops, first_names)
        && resolve_ops(low.ops, second_names) == resolve_ops(low.ops, second_names));
}

/// As `law_determinism`, for a block.
pub proof fn law_block_determinism(
    b: Block,
    c: Counters,
    first: Seq<Seq<char>>,
    second: Seq<Seq<char>>,
)
    ensures
        ({
            let low = lower_block(b, c);
            let first_names = intern_temps(first, c.temps, low.next.temps);
            let second_names = intern_temps(second, c.temps, low.next.temps);
            &&& same_up_to_temporaries(
                resolve_ops(low.ops, first_names),
                first_names,
                resolve_ops(low.ops, second_names),
                second_names,
            )
            &&& outlines(resolve_ops(low.ops, first_names)) == outlines(
                resolve_ops(low.ops, second_names),
            )
        }),
{
    let low = lower_block(b, c);
    let first_names = intern_temps(first, c.temps, low.next.temps);
    let second_names = intern_temps(second, c.temps, low.next.temps);
    lemma_outlines(low.ops, first_names, second_names);
    assert(resolve_ops(low.ops, first_names) == resolve_ops(low.ops, first_names)
        && resolve_ops(low.ops, second_names) == resolve_ops(low.ops, second_names));
}

/// A table that holds the names of a run of temporaries is left as it is
/// when that run is interned.
pub proof fn lemma_intern_temps_again(table: Seq<Seq<char>>, from: nat, to: nat)
    requires
        holds_temps(table, from, to),
    ensures
        intern_temps(table, from, to) == table,
    decreases to,
{
    if to > from {
        lemma_intern_temps_again(table, from, (to - 1) as nat);
        assert(first_index(table, temp_text((to - 1) as nat)) < table.len());
    }
}

/// Lowering the same expression a second time, with the counters set back
/// and the interner as the first lowering left it, or grown since, adds
/// nothing to the interner and gives the same operations and the same
/// result as the first time.
pub proof fn law_lowering_again(e: Expr, c: Counters, start: Seq<Seq<char>>, later: Seq<Seq<char>>)
    requires
        extends(later, intern_temps(start, c.temps, lower_expr(e, c).next.temps)),
    ensures
        ({
            let low = lower_expr(e, c);
            let first_names = intern_temps(start, c.temps, low.next.temps);
            let second_names = intern_temps(later, c.temps, low.next.temps);
            &&& second_names == later
            &&& resolve_ops(low.ops, second_names) == resolve_ops(low.ops, first_names)
            &&& resolve_slot(low.result, second_names) == resolve_slot(low.result, first_names)
        }),
{
    let low = lower_expr(e, c);
    let first_names = intern_temps(start, c.temps, low.next.temps);
    lemma_expr_scoped(e, c);
    lemma_intern_temps(start, c.temps, low.next.temps);
    assert forall|n: nat| c.temps <= n < low.next.temps implies first_index(
        later,
        #[trigger] temp_text(n),
    ) < later.len() by {
        lemma_first_index_extends(later, first_names, temp_text(n));
    }
    lemma_intern_temps_again(later, c.temps, low.next.temps);
    lemma_ops_settled(low.ops, c.temps, low.next.temps, first_names, later);
    lemma_slot_settled(low.result, c.temps, low.next.temps, first_names, later);
}

/// As `law_lowering_again`, for a block.
pub proof fn law_block_lowering_again(
    b: Block,
    c: Counters,
    start: Seq<Seq<char>>,
    later: Seq<Seq<char>>,
)
    requires
        extends(later, intern_temps(start, c.temps, lower_block(b, c).next.temps)),
    ensures
        ({
            let low = lower_block(b, c);
            let first_names = intern_temps(start, c.temps, low.next.temps);
            let second_names = intern_temps(later, c.temps, low.next.temps);
            &&& second_names == later
            &&& resolve_ops(low.ops, second_names) == resolve_ops(low.ops, first_names)
            &&& resolve_slot(low.result, second_names) == resolve_slot(low.result, first_names)
        }),
{
    let low = lower_block(b, c);
    let first_names = intern_temps(start, c.temps, low.next.temps);
    lemma_block_scoped(b, c);
    lemma_intern_temps(start, c.temps, low.next.temps);
    assert forall|n: nat| c.temps <= n < low.next.temps implies first_index(
        later,
        #[trigger] temp_text(n),
    ) < later.len() by {
        lemma_first_index_extends(later, first_names, temp_text(n));
    }
    lemma_intern_temps_again(later, c.temps, low.next.temps);
    lemma_ops_settled(low.ops, c.temps, low.next.temps, first_names, later);
    lemma_slot_settled(low.result, c.temps, low.next.temps, first_names, later);
}

/// Operands are evaluated from left to right: the operations of a binary
/// operation are those of its left operand, then those of its right
/// operand, then one assignment of the operation on the two results to a
/// fresh temporary, which is the result.
pub proof fn law_left_operand_first(e: Expr, c: Counters, names: Seq<Seq<char>>)
    requires
        e.val is BinOpExpr,
    ensures
        ({
            let left = lower_expr(*e.val->BinOpExpr_1, c);
            let right = lower_expr(*e.val->BinOpExpr_2, left.next);
            let last = OpOf::Assign(
                PlaceOf::Var(Slot::Temp(right.next.temps)),
                ValueOf::BinOp(
                    e.val->BinOpExpr_0.val,
                    OperandOf::Variable(left.result),
                    OperandOf::Variable(right.result),
                ),
            );
            &&& lower_expr(e, c).ops == left.ops + right.ops + seq![last]
            &&& lower_expr(e, c).result == Slot::Temp(right.next.temps)
            &&& lower_expr(e, c).next == right.next.after_temp()
            &&& resolve_ops(lower_expr(e, c).ops, names) == resolve_ops(left.ops, names)
                + resolve_ops(right.ops, names) + seq![resolve_op(last, names)]
        }),
{
    let left = lower_expr(*e.val->BinOpExpr_1, c);
    let right = lower_expr(*e.val->BinOpExpr_2, left.next);
    assert(resolve_ops(lower_expr(e, c).ops, names) =~= resolve_ops(left.ops, names) + resolve_ops(
        right.ops,
        names,
    ) + seq![resolve_op(lower_expr(e, c).ops.last(), names)]);
}

/// A literal lowers to one assignment of the constant to a fresh
/// temporary, which is the result.
pub proof fn law_literal(e: Expr, c: Counters)
    requires
        e.val is LitExpr,
    ensures
        lower_expr(e, c).ops == seq![
            store(Slot::Temp(c.temps), OperandOf::Constant(e.val->LitExpr_0.val@)),
        ],
        lower_expr(e, c).result == Slot::Temp(c.temps),
        lower_expr(e, c).next == c.after_temp(),
{
}

/// The shape of a loop. Three labels are taken first: begin, body and end.
/// The stream starts with the begin label, then tests the condition; the
/// jump to the body on a true condition is followed at once by the jump to
/// the end; the body starts at its label and ends with the jump back to
/// begin, which stands just before the end label. The result is a fresh
/// temporary that nothing assigns.
pub proof fn law_while_shape(e: Expr, c: Counters)
    requires
        e.val is WhileExpr,
    ensures
        ({
            let cond = lower_expr(*e.val->WhileExpr_0, c.after_labels(3));
            let body = lower_block(*e.val->WhileExpr_1, cond.next);
            let ops = lower_expr(e, c).ops;
            let n = cond.ops.len() as int;
            let m = body.ops.len() as int;
            &&& ops.len() == n + m + 6
            &&& ops[0] == OpOf::Label(c.labels, no_vars())
            &&& ops.subrange(1, n + 1) == cond.ops
            &&& ops[n + 1] == OpOf::CondGoto(
                OperandOf::Variable(cond.result),
                c.labels + 1,
                no_vars(),
            )
            &&& ops[n + 2] == OpOf::Goto(c.labels + 2, no_vars())
            &&& ops[n + 3] == OpOf::Label(c.labels + 1, no_vars())
            &&& ops.subrange(n + 4, n + 4 + m) == body.ops
            &&& ops[n + m + 4] == OpOf::Goto(c.labels, no_vars())
            &&& ops[n + m + 5] == OpOf::Label(c.labels + 2, no_vars())
            &&& lower_expr(e, c).result == Slot::Temp(body.next.temps)
            &&& lower_expr(e, c).next == body.next.after_temp()
        }),
{
    let cond = lower_expr(*e.val->WhileExpr_0, c.after_labels(3));
    let body = lower_block(*e.val->WhileExpr_1, cond.next);
    let ops = lower_expr(e, c).ops;
    let n = cond.ops.len() as int;
    let m = body.ops.len() as int;
    assert(ops.subrange(1, n + 1) =~= cond.ops);
    assert(ops.subrange(n + 4, n + 4 + m) =~= body.ops);
}

/// Both branches of a conditional are laid out, whatever the condition is.
/// After the operations of the condition comes the jump to the true label
/// on a true condition; then the operations of the false branch and the
/// assignment of its value to the result; then the true label, the
/// operations of the true branch and the assignment of its value to the
/// same result.
pub proof fn law_if_lays_out_both_branches(e: Expr, c: Counters)
    requires
        e.val is IfExpr,
    ensures
        ({
            let cond = lower_expr(*e.val->IfExpr_0, c);
            let on_true = lower_block(*e.val->IfExpr_1, cond.next);
            let on_false = lower_block(*e.val->IfExpr_2, on_true.next);
            let ops = lower_expr(e, c).ops;
            let result = Slot::Temp(on_false.next.temps);
            let label = on_false.next.labels;
            let k = cond.ops.len() as int;
            let f = on_false.ops.len() as int;
            let t = on_true.ops.len() as int;
            &&& ops.len() == k + f + t + 4
            &&& ops.subrange(0, k) == cond.ops
            &&& ops[k] == OpOf::CondGoto(OperandOf::Variable(cond.result), label, no_vars())
            &&& ops.subrange(k + 1, k + 1 + f) == on_false.ops
            &&& ops[k + 1 + f] == store(result, OperandOf::Variable(on_false.result))
            &&& ops[k + 2 + f] == OpOf::Label(label, no_vars())
            &&& ops.subrange(k + 3 + f, k + 3 + f + t) == on_true.ops
            &&& ops[k + 3 + f + t] == store(result, OperandOf::Variable(on_true.result))
            &&& lower_expr(e, c).result == result
            &&& lower_expr(e, c).next == on_false.next.after_temp().after_labels(1)
        }),
{
    let cond = lower_expr(*e.val->IfExpr_0, c);
    let on_true = lower_block(*e.val->IfExpr_1, cond.next);
    let on_false = lower_block(*e.val->IfExpr_2, on_true.next);
    let ops = lower_expr(e, c).ops;
    let k = cond.ops.len() as int;
    let f = on_false.ops.len() as int;
    let t = on_true.ops.len() as int;
    assert(ops.subrange(0, k) =~= cond.ops);
    assert(ops.subrange(k + 1, k + 1 + f) =~= on_false.ops);
    assert(ops.subrange(k + 3 + f, k + 3 + f + t) =~= on_true.ops);
}

/// Whether lowering comes to a binding while it lowers the expression.
pub open spec fn expr_reaches_let(e: Expr) -> bool
    decreases e,
{
    match e.val {
        ExprNode::GroupExpr(inner) => expr_reaches_let(*inner),
        ExprNode::BinOpExpr(_, left, right) => expr_reaches_let(*left) || expr_reaches_let(*right),
        ExprNode::AssignExpr(target, value) => expr_reaches_let(*value) || match target.val {
            ExprNode::UnOpExpr(_, pointer) => expr_reaches_let(*pointer),
            _ => false,
        },
        ExprNode::BlockExpr(block) => block_reaches_let(*block),
        ExprNode::IfExpr(cond, on_true, on_false) => expr_reaches_let(*cond) || block_reaches_let(
            *on_true,
        ) || block_reaches_let(*on_false),
        ExprNode::WhileExpr(cond, body) => expr_reaches_let(*cond) || block_reaches_let(*body),
        _ => false,
    }
}

/// Whether the statement is a binding, or lowering comes to one inside it.
pub open spec fn stmt_reaches_let(s: Stmt) -> bool
    decreases s,
{
    match s.val {
        StmtNode::LetStmt(_, _) => true,
        StmtNode::ExprStmt(e) => expr_reaches_let(e),
        StmtNode::SemiStmt(e) => expr_reaches_let(e),
    }
}

/// Whether lowering comes to a binding in one of the statements.
pub open spec fn stmts_reach_let(stmts: Seq<Stmt>) -> bool
    decreases stmts,
{
    if stmts.len() == 0 {
        false
    } else {
        stmts_reach_let(stmts.drop_last()) || stmt_reaches_let(stmts.last())
    }
}

/// Whether lowering comes to a binding while it lowers the block.
pub open spec fn block_reaches_let(b: Block) -> bool
    decreases b,
{
    stmts_reach_let(b.stmts@) || match b.expr {
        Some(e) => expr_reaches_let(e),
        None => false,
    }
}

/// A binding is never lowered: a statement that is a binding, or that
/// holds one where lowering comes to it, is not accepted.
pub proof fn law_let_is_refused(s: Stmt)
    requires
        stmt_reaches_let(s),
    ensures
        !stmt_supported(s),
    decreases s,
{
    match s.val {
        StmtNode::LetStmt(_, _) => {},
        StmtNode::ExprStmt(e) => law_let_is_refused_in_expr(e),
        StmtNode::SemiStmt(e) => law_let_is_refused_in_expr(e),
    }
}

/// As `law_let_is_refused`, for an expression.
pub proof fn law_let_is_refused_in_expr(e: Expr)
    requires
        expr_reaches_let(e),
    ensures
        !expr_supported(e),
    decreases e,
{
    match e.val {
        ExprNode::GroupExpr(inner) => law_let_is_refused_in_expr(*inner),
        ExprNode::BinOpExpr(_, left, right) => {
            if expr_reaches_let(*left) {
                law_let_is_refused_in_expr(*left);
            } else {
                law_let_is_refused_in_expr(*right);
            }
        },
        ExprNode::AssignExpr(target, value) => {
            if expr_reaches_let(*value) {
                law_let_is_refused_in_expr(*value);
            } else {
                match target.val {
                    ExprNode::UnOpExpr(_, pointer) => law_let_is_refused_in_expr(*pointer),
                    _ => {},
                }
            }
        },
        ExprNode::BlockExpr(block) => law_let_is_refused_in_block(*block),
        ExprNode::IfExpr(cond, on_true, on_false) => {
            if expr_reaches_let(*cond) {
                law_let_is_refused_in_expr(*cond);
            } else if block_reaches_let(*on_true) {
                law_let_is_refused_in_block(*on_true);
            } else {
                law_let_is_refused_in_block(*on_false);
            }
        },
        ExprNode::WhileExpr(cond, body) => {
            if expr_reaches_let(*cond) {
                law_let_is_refused_in_expr(*cond);
            } else {
                law_let_is_refused_in_block(*body);
            }
        },
        _ => {},
    }
}

/// As `law_let_is_refused`, for a sequence of statements.
pub proof fn law_let_is_refused_in_stmts(stmts: Seq<Stmt>)
    requires
        stmts_reach_let(stmts),
    ensures
        !stmts_supported(stmts),
    decreases stmts,
{
    if stmts.len() > 0 {
        if stmts_reach_let(stmts.drop_last()) {
            law_let_is_refused_in_stmts(stmts.drop_last());
        } else {
            law_let_is_refused(stmts.last());
        }
    }
}

/// As `law_let_is_refused`, for a block.
pub proof fn law_let_is_refused_in_block(b: Block)
    requires
        block_reaches_let(b),
    ensures
        !block_supported(b),
    decreases b,
{
    if stmts_reach_let(b.stmts@) {
        law_let_is_refused_in_stmts(b.stmts@);
    } else {
        match b.expr {
            Some(e) => law_let_is_refused_in_expr(e),
            None => {},
        }
    }
}

/// Temporaries with different numbers have different names: in the table
/// that a lowering leaves, no two temporaries that it took share a handle.
pub proof fn law_temporaries_differ(table: Seq<Seq<char>>, from: nat, to: nat, a: nat, b: nat)
    requires
        from <= a < to,
        from <= b < to,
        a != b,
    ensures
        temp_handle(intern_temps(table, from, to), a) != temp_handle(
            intern_temps(table, from, to),
            b,
        ),
{
    let after = intern_temps(table, from, to);
    lemma_intern_temps(table, from, to);
    lemma_first_index(after, temp_text(a));
    lemma_first_index(after, temp_text(b));
    if temp_handle(after, a) == temp_handle(after, b) {
        lemma_temp_text_injective(a, b);
    }
}

/// Lowering leaves every generation unset and every annotation of a jump
/// or label empty.
pub proof fn law_no_generation_no_annotation(e: Expr, c: Counters, names: Seq<Seq<char>>, i: int)
    requires
        0 <= i < lower_expr(e, c).ops.len(),
    ensures
        resolve_slot(lower_expr(e, c).result, names).generation is None,
        match resolve_ops(lower_expr(e, c).ops, names)[i] {
            OpOf::Assign(place, value) => {
                &&& match place {
                    PlaceOf::Var(v) => v.generation is None,
                    PlaceOf::Deref(v) => v.generation is None,
                }
                &&& match value {
                    ValueOf::BinOp(_, a, b) => {
                        &&& a matches OperandOf::Variable(v) ==> v.generation is None
                        &&& b matches OperandOf::Variable(v) ==> v.generation is None
                    },
                    ValueOf::Direct(a) => a matches OperandOf::Variable(v) ==> v.generation is None,
                }
            },
            OpOf::Goto(_, vars) => vars.is_empty(),
            OpOf::CondGoto(cond, _, vars) => {
                &&& vars.is_empty()
                &&& cond matches OperandOf::Variable(v) ==> v.generation is None
            },
            OpOf::Label(_, vars) => vars.is_empty(),
        },
{
    lemma_expr_scoped(e, c);
    let op = lower_expr(e, c).ops[i];
    assert(op_within(op, c.temps, lower_expr(e, c).next.temps));
    assert(resolve_ops(lower_expr(e, c).ops, names)[i] == resolve_op(op, names));
    assert(resolve_vars(Set::<Slot>::empty(), names) =~= Set::empty());
}

} // verus!
