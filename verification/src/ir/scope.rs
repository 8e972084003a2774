//! Which temporaries a lowering mentions, and why the names of those
//! temporaries do not change when the interner grows afterwards.

use vstd::prelude::*;
use crate::ast::{Block, Expr, ExprNode, Stmt, StmtNode};
use crate::ir::{Op, OpOf, OperandOf, PlaceOf, ValueOf, ops_view};
use crate::ir::lowering::{
    Counters, Slot, lower_block, lower_expr, lower_stmt, lower_stmts, referenced_name,
    resolve_op, resolve_operand, resolve_ops, resolve_slot, resolve_vars, stmt_supported,
    stmts_supported,
};
use crate::ir::temps::{extends, intern_temps, lemma_first_index_extends, lemma_intern_temps, temp_text};
use crate::session::first_index;

verus! {

/// A temporary in the slot has a number from `lo` up to, but without, `hi`.
pub open spec fn slot_within(s: Slot, lo: nat, hi: nat) -> bool {
    match s {
        Slot::Named(_) => true,
        Slot::Temp(n) => lo <= n < hi,
    }
}

/// `slot_within` of the slot of a place.
pub open spec fn place_within(p: PlaceOf<Slot>, lo: nat, hi: nat) -> bool {
    match p {
        PlaceOf::Var(s) => slot_within(s, lo, hi),
        PlaceOf::Deref(s) => slot_within(s, lo, hi),
    }
}

/// `slot_within` of the slot of a readable value; a constant has none.
pub open spec fn operand_within(o: OperandOf<Slot>, lo: nat, hi: nat) -> bool {
    match o {
        OperandOf::Variable(s) => slot_within(s, lo, hi),
        OperandOf::Constant(_) => true,
    }
}

/// `slot_within` of every slot of a right-hand side.
pub open spec fn value_within(v: ValueOf<Slot>, lo: nat, hi: nat) -> bool {
    match v {
        ValueOf::BinOp(_, a, b) => operand_within(a, lo, hi) && operand_within(b, lo, hi),
        ValueOf::Direct(a) => operand_within(a, lo, hi),
    }
}

/// Every temporary of the operation has a number from `lo` up to, but
/// without, `hi`, and the annotation of a jump or label is empty.
pub open spec fn op_within(op: OpOf<Slot>, lo: nat, hi: nat) -> bool {
    match op {
        OpOf::Assign(place, value) => place_within(place, lo, hi) && value_within(value, lo, hi),
        OpOf::Goto(_, vars) => vars == Set::<Slot>::empty(),
        OpOf::CondGoto(cond, _, vars) => operand_within(cond, lo, hi) && vars == Set::<
            Slot,
        >::empty(),
        OpOf::Label(_, vars) => vars == Set::<Slot>::empty(),
    }
}

/// `op_within` of every operation of the stream.
pub open spec fn ops_within(ops: Seq<OpOf<Slot>>, lo: nat, hi: nat) -> bool {
    forall|i: int| 0 <= i < ops.len() ==> op_within(#[trigger] ops[i], lo, hi)
}

/// The table holds the name of every temporary from `lo` up to, but
/// without, `hi`.
pub open spec fn holds_temps(table: Seq<Seq<char>>, lo: nat, hi: nat) -> bool {
    forall|n: nat| lo <= n < hi ==> first_index(table, #[trigger] temp_text(n)) < table.len()
}

/// What holds of a range of temporaries holds of every wider range.
pub proof fn lemma_within_widen(ops: Seq<OpOf<Slot>>, lo: nat, hi: nat, lo2: nat, hi2: nat)
    requires
        ops_within(ops, lo, hi),
        lo2 <= lo,
        hi <= hi2,
    ensures
        ops_within(ops, lo2, hi2),
{
    assert forall|i: int| 0 <= i < ops.len() implies op_within(#[trigger] ops[i], lo2, hi2) by {
        assert(op_within(ops[i], lo, hi));
    }
}

/// What holds of two streams holds of the two, one after the other.
pub proof fn lemma_within_concat(a: Seq<OpOf<Slot>>, b: Seq<OpOf<Slot>>, lo: nat, hi: nat)
    requires
        ops_within(a, lo, hi),
        ops_within(b, lo, hi),
    ensures
        ops_within(a + b, lo, hi),
{
    assert forall|i: int| 0 <= i < (a + b).len() implies op_within(#[trigger] (a + b)[i], lo, hi) by {
        if i < a.len() {
            assert(op_within(a[i], lo, hi));
        } else {
            assert(op_within(b[i - a.len()], lo, hi));
        }
    }
}

/// The temporaries of a lowered expression are those that it took from the
/// counter, and no counter goes down.
pub proof fn lemma_expr_scoped(e: Expr, c: Counters)
    ensures
        c.temps <= lower_expr(e, c).next.temps,
        c.labels <= lower_expr(e, c).next.labels,
        ops_within(lower_expr(e, c).ops, c.temps, lower_expr(e, c).next.temps),
        slot_within(lower_expr(e, c).result, c.temps, lower_expr(e, c).next.temps),
    decreases e,
{
    let out = lower_expr(e, c);
    let hi = out.next.temps;
    match e.val {
        ExprNode::GroupExpr(inner) => {
            lemma_expr_scoped(*inner, c);
        },
        ExprNode::BinOpExpr(op, left, right) => {
            let l = lower_expr(*left, c);
            let r = lower_expr(*right, l.next);
            lemma_expr_scoped(*left, c);
            lemma_expr_scoped(*right, l.next);
            lemma_within_widen(l.ops, c.temps, l.next.temps, c.temps, hi);
            lemma_within_widen(r.ops, l.next.temps, r.next.temps, c.temps, hi);
            lemma_within_concat(l.ops, r.ops, c.temps, hi);
            lemma_within_concat(l.ops + r.ops, out.ops.subrange(out.ops.len() - 1, out.ops.len() as int), c.temps, hi);
            assert(out.ops =~= (l.ops + r.ops) + out.ops.subrange(out.ops.len() - 1, out.ops.len() as int));
        },
        ExprNode::AssignExpr(target, value) => {
            let v = lower_expr(*value, c);
            lemma_expr_scoped(*value, c);
            match target.val {
                ExprNode::UnOpExpr(_, pointer) => {
                    let p = lower_expr(*pointer, v.next);
                    lemma_expr_scoped(*pointer, v.next);
                    lemma_within_widen(v.ops, c.temps, v.next.temps, c.temps, hi);
                    lemma_within_widen(p.ops, v.next.temps, p.next.temps, c.temps, hi);
                    lemma_within_concat(p.ops, v.ops, c.temps, hi);
                    let last = out.ops.subrange(out.ops.len() - 1, out.ops.len() as int);
                    lemma_within_concat(p.ops + v.ops, last, c.temps, hi);
                    assert(out.ops =~= (p.ops + v.ops) + last);
                },
                _ => {
                    if referenced_name(*target) is Some {
                        let last = out.ops.subrange(out.ops.len() - 1, out.ops.len() as int);
                        lemma_within_concat(v.ops, last, c.temps, hi);
                        assert(out.ops =~= v.ops + last);
                    }
                },
            }
        },
        ExprNode::BlockExpr(block) => {
            lemma_block_scoped(*block, c);
        },
        ExprNode::IfExpr(cond, on_true, on_false) => {
            let k = lower_expr(*cond, c);
            let t = lower_block(*on_true, k.next);
            let f = lower_block(*on_false, t.next);
            lemma_expr_scoped(*cond, c);
            lemma_block_scoped(*on_true, k.next);
            lemma_block_scoped(*on_false, t.next);
            lemma_within_widen(k.ops, c.temps, k.next.temps, c.temps, hi);
            lemma_within_widen(t.ops, k.next.temps, t.next.temps, c.temps, hi);
            lemma_within_widen(f.ops, t.next.temps, f.next.temps, c.temps, hi);
            assert forall|i: int| 0 <= i < out.ops.len() implies op_within(
                #[trigger] out.ops[i],
                c.temps,
                hi,
            ) by {
                let a = k.ops.len();
                let b = a + 1 + f.ops.len();
                if i < a {
                    assert(out.ops[i] == k.ops[i]);
                } else if a < i < b {
                    assert(out.ops[i] == f.ops[i - a - 1]);
                } else if b + 2 <= i < b + 2 + t.ops.len() {
                    assert(out.ops[i] == t.ops[i - b - 2]);
                }
            }
        },
        ExprNode::WhileExpr(cond, body) => {
            let k = lower_expr(*cond, c.after_labels(3));
            let b = lower_block(*body, k.next);
            lemma_expr_scoped(*cond, c.after_labels(3));
            lemma_block_scoped(*body, k.next);
            lemma_within_widen(k.ops, c.temps, k.next.temps, c.temps, hi);
            lemma_within_widen(b.ops, k.next.temps, b.next.temps, c.temps, hi);
            assert forall|i: int| 0 <= i < out.ops.len() implies op_within(
                #[trigger] out.ops[i],
                c.temps,
                hi,
            ) by {
                let a = 1 + k.ops.len();
                if 1 <= i < a {
                    assert(out.ops[i] == k.ops[i - 1]);
                } else if a + 3 <= i < a + 3 + b.ops.len() {
                    assert(out.ops[i] == b.ops[i - a - 3]);
                }
            }
        },
        _ => {},
    }
}

/// As `lemma_expr_scoped`, for a statement.
pub proof fn lemma_stmt_scoped(s: Stmt, c: Counters)
    ensures
        c.temps <= lower_stmt(s, c).next.temps,
        c.labels <= lower_stmt(s, c).next.labels,
        ops_within(lower_stmt(s, c).ops, c.temps, lower_stmt(s, c).next.temps),
        slot_within(lower_stmt(s, c).result, c.temps, lower_stmt(s, c).next.temps),
    decreases s,
{
    match s.val {
        StmtNode::LetStmt(_, _) => {},
        StmtNode::ExprStmt(e) => {
            lemma_expr_scoped(e, c);
        },
        StmtNode::SemiStmt(e) => {
            lemma_expr_scoped(e, c);
        },
    }
}

/// As `lemma_expr_scoped`, for a sequence of statements.
pub proof fn lemma_stmts_scoped(stmts: Seq<Stmt>, c: Counters)
    ensures
        c.temps <= lower_stmts(stmts, c).1.temps,
        c.labels <= lower_stmts(stmts, c).1.labels,
        ops_within(lower_stmts(stmts, c).0, c.temps, lower_stmts(stmts, c).1.temps),
    decreases stmts,
{
    if stmts.len() > 0 {
        let (ops, mid) = lower_stmts(stmts.drop_last(), c);
        let last = lower_stmt(stmts.last(), mid);
        lemma_stmts_scoped(stmts.drop_last(), c);
        lemma_stmt_scoped(stmts.last(), mid);
        lemma_within_widen(ops, c.temps, mid.temps, c.temps, last.next.temps);
        lemma_within_widen(last.ops, mid.temps, last.next.temps, c.temps, last.next.temps);
        lemma_within_concat(ops, last.ops, c.temps, last.next.temps);
    }
}

/// As `lemma_expr_scoped`, for a block.
pub proof fn lemma_block_scoped(b: Block, c: Counters)
    ensures
        c.temps <= lower_block(b, c).next.temps,
        c.labels <= lower_block(b, c).next.labels,
        ops_within(lower_block(b, c).ops, c.temps, lower_block(b, c).next.temps),
        slot_within(lower_block(b, c).result, c.temps, lower_block(b, c).next.temps),
    decreases b,
{
    let (ops, mid) = lower_stmts(b.stmts@, c);
    lemma_stmts_scoped(b.stmts@, c);
    match b.expr {
        Some(e) => {
            let tail = lower_expr(e, mid);
            lemma_expr_scoped(e, mid);
            lemma_within_widen(ops, c.temps, mid.temps, c.temps, tail.next.temps);
            lemma_within_widen(tail.ops, mid.temps, tail.next.temps, c.temps, tail.next.temps);
            lemma_within_concat(ops, tail.ops, c.temps, tail.next.temps);
        },
        None => {
            lemma_within_widen(ops, c.temps, mid.temps, c.temps, mid.temps + 1);
        },
    }
}

/// A slot whose temporary the smaller table holds stands for the same
/// variable in the longer table.
pub proof fn lemma_slot_settled(s: Slot, lo: nat, hi: nat, small: Seq<Seq<char>>, big: Seq<Seq<char>>)
    requires
        slot_within(s, lo, hi),
        holds_temps(small, lo, hi),
        extends(big, small),
    ensures
        resolve_slot(s, big) == resolve_slot(s, small),
{
    match s {
        Slot::Named(_) => {},
        Slot::Temp(n) => {
            lemma_first_index_extends(big, small, temp_text(n));
        },
    }
}

/// A stream whose temporaries the smaller table holds stands for the same
/// operations in the longer table.
pub proof fn lemma_ops_settled(
    ops: Seq<OpOf<Slot>>,
    lo: nat,
    hi: nat,
    small: Seq<Seq<char>>,
    big: Seq<Seq<char>>,
)
    requires
        ops_within(ops, lo, hi),
        holds_temps(small, lo, hi),
        extends(big, small),
    ensures
        resolve_ops(ops, big) == resolve_ops(ops, small),
{
    assert forall|i: int| 0 <= i < ops.len() implies resolve_op(#[trigger] ops[i], big)
        == resolve_op(ops[i], small) by {
        assert(op_within(ops[i], lo, hi));
        assert(resolve_vars(Set::<Slot>::empty(), big) =~= resolve_vars(
            Set::<Slot>::empty(),
            small,
        ));
        match ops[i] {
            OpOf::Assign(place, value) => {
                match place {
                    PlaceOf::Var(s) => lemma_slot_settled(s, lo, hi, small, big),
                    PlaceOf::Deref(s) => lemma_slot_settled(s, lo, hi, small, big),
                }
                match value {
                    ValueOf::BinOp(_, a, b) => {
                        lemma_operand_settled(a, lo, hi, small, big);
                        lemma_operand_settled(b, lo, hi, small, big);
                    },
                    ValueOf::Direct(a) => lemma_operand_settled(a, lo, hi, small, big),
                }
            },
            OpOf::Goto(_, _) => {},
            OpOf::CondGoto(cond, _, _) => lemma_operand_settled(cond, lo, hi, small, big),
            OpOf::Label(_, _) => {},
        }
    }
    assert(resolve_ops(ops, big) =~= resolve_ops(ops, small));
}

/// As `lemma_slot_settled`, for a readable value.
pub proof fn lemma_operand_settled(
    o: OperandOf<Slot>,
    lo: nat,
    hi: nat,
    small: Seq<Seq<char>>,
    big: Seq<Seq<char>>,
)
    requires
        operand_within(o, lo, hi),
        holds_temps(small, lo, hi),
        extends(big, small),
    ensures
        resolve_operand(o, big) == resolve_operand(o, small),
{
    match o {
        OperandOf::Variable(s) => lemma_slot_settled(s, lo, hi, small, big),
        OperandOf::Constant(_) => {},
    }
}

/// Two streams that read as two lowerings read, one after the other, as the
/// two lowerings one after the other.
pub proof fn lemma_views_concat(
    first: Seq<Op>,
    second: Seq<Op>,
    a: Seq<OpOf<Slot>>,
    b: Seq<OpOf<Slot>>,
    table: Seq<Seq<char>>,
)
    requires
        ops_view(first) == resolve_ops(a, table),
        ops_view(second) == resolve_ops(b, table),
    ensures
        ops_view(first + second) == resolve_ops(a + b, table),
{
    assert(ops_view(first).len() == first.len());
    assert(ops_view(second).len() == second.len());
    assert(resolve_ops(a, table).len() == a.len());
    assert(resolve_ops(b, table).len() == b.len());
    assert forall|i: int| 0 <= i < first.len() + second.len() implies ops_view(first + second)[i]
        == resolve_ops(a + b, table)[i] by {
        let j = i - first.len();
        assert(ops_view(first + second)[i] == (first + second)[i]@);
        assert(resolve_ops(a + b, table)[i] == resolve_op((a + b)[i], table));
        if i < first.len() {
            assert(ops_view(first)[i] == first[i]@);
            assert(resolve_ops(a, table)[i] == resolve_op(a[i], table));
        } else {
            assert(ops_view(second)[j] == second[j]@);
            assert(resolve_ops(b, table)[j] == resolve_op(b[j], table));
        }
    }
    assert(ops_view(first + second) =~= resolve_ops(a + b, table));
}

/// A stream that reads as a lowering, and one more operation.
pub proof fn lemma_views_push(
    first: Seq<Op>,
    op: Op,
    a: Seq<OpOf<Slot>>,
    b: OpOf<Slot>,
    table: Seq<Seq<char>>,
)
    requires
        ops_view(first) == resolve_ops(a, table),
        op@ == resolve_op(b, table),
    ensures
        ops_view(first.push(op)) == resolve_ops(a.push(b), table),
{
    assert(ops_view(first).len() == first.len());
    assert(resolve_ops(a, table).len() == a.len());
    assert forall|i: int| 0 <= i < first.len() + 1 implies ops_view(first.push(op))[i]
        == resolve_ops(a.push(b), table)[i] by {
        assert(ops_view(first.push(op))[i] == first.push(op)[i]@);
        assert(resolve_ops(a.push(b), table)[i] == resolve_op(a.push(b)[i], table));
        if i < first.len() {
            assert(ops_view(first)[i] == first[i]@);
            assert(resolve_ops(a, table)[i] == resolve_op(a[i], table));
        }
    }
    assert(ops_view(first.push(op)) =~= resolve_ops(a.push(b), table));
}

/// The stream of no operation reads as the lowering of no operation.
pub proof fn lemma_views_empty(table: Seq<Seq<char>>)
    ensures
        ops_view(Seq::<Op>::empty()) == resolve_ops(Seq::<OpOf<Slot>>::empty(), table),
{
    assert(ops_view(Seq::<Op>::empty()) =~= resolve_ops(Seq::<OpOf<Slot>>::empty(), table));
}

/// The operations and the result of a lowered expression read the same in
/// the table that the lowering left and in every longer table.
pub proof fn lemma_expr_settled(e: Expr, c: Counters, start: Seq<Seq<char>>, end: Seq<Seq<char>>)
    requires
        extends(end, intern_temps(start, c.temps, lower_expr(e, c).next.temps)),
    ensures
        resolve_ops(lower_expr(e, c).ops, end) == resolve_ops(
            lower_expr(e, c).ops,
            intern_temps(start, c.temps, lower_expr(e, c).next.temps),
        ),
        resolve_slot(lower_expr(e, c).result, end) == resolve_slot(
            lower_expr(e, c).result,
            intern_temps(start, c.temps, lower_expr(e, c).next.temps),
        ),
{
    let out = lower_expr(e, c);
    let mid = intern_temps(start, c.temps, out.next.temps);
    lemma_expr_scoped(e, c);
    lemma_intern_temps(start, c.temps, out.next.temps);
    lemma_ops_settled(out.ops, c.temps, out.next.temps, mid, end);
    lemma_slot_settled(out.result, c.temps, out.next.temps, mid, end);
}

/// As `lemma_expr_settled`, for a block.
pub proof fn lemma_block_settled(b: Block, c: Counters, start: Seq<Seq<char>>, end: Seq<Seq<char>>)
    requires
        extends(end, intern_temps(start, c.temps, lower_block(b, c).next.temps)),
    ensures
        resolve_ops(lower_block(b, c).ops, end) == resolve_ops(
            lower_block(b, c).ops,
            intern_temps(start, c.temps, lower_block(b, c).next.temps),
        ),
        resolve_slot(lower_block(b, c).result, end) == resolve_slot(
            lower_block(b, c).result,
            intern_temps(start, c.temps, lower_block(b, c).next.temps),
        ),
{
    let out = lower_block(b, c);
    let mid = intern_temps(start, c.temps, out.next.temps);
    lemma_block_scoped(b, c);
    lemma_intern_temps(start, c.temps, out.next.temps);
    lemma_ops_settled(out.ops, c.temps, out.next.temps, mid, end);
    lemma_slot_settled(out.result, c.temps, out.next.temps, mid, end);
}

/// As `lemma_expr_settled`, for a sequence of statements.
pub proof fn lemma_stmts_settled(
    stmts: Seq<Stmt>,
    c: Counters,
    start: Seq<Seq<char>>,
    end: Seq<Seq<char>>,
)
    requires
        extends(end, intern_temps(start, c.temps, lower_stmts(stmts, c).1.temps)),
    ensures
        resolve_ops(lower_stmts(stmts, c).0, end) == resolve_ops(
            lower_stmts(stmts, c).0,
            intern_temps(start, c.temps, lower_stmts(stmts, c).1.temps),
        ),
{
    let (ops, next) = lower_stmts(stmts, c);
    let mid = intern_temps(start, c.temps, next.temps);
    lemma_stmts_scoped(stmts, c);
    lemma_intern_temps(start, c.temps, next.temps);
    lemma_ops_settled(ops, c.temps, next.temps, mid, end);
}

/// Lowering one statement more: the operations of the statements before
/// it, then its own.
pub proof fn lemma_stmts_step(stmts: Seq<Stmt>, c: Counters, i: int)
    requires
        0 <= i < stmts.len(),
    ensures
        lower_stmts(stmts.take(i + 1), c) == (
            lower_stmts(stmts.take(i), c).0 + lower_stmt(
                stmts[i],
                lower_stmts(stmts.take(i), c).1,
            ).ops,
            lower_stmt(stmts[i], lower_stmts(stmts.take(i), c).1).next,
        ),
        stmts_supported(stmts.take(i + 1)) == (stmts_supported(stmts.take(i)) && stmt_supported(
            stmts[i],
        )),
{
    assert(stmts.take(i + 1).drop_last() =~= stmts.take(i));
    assert(stmts.take(i + 1).last() == stmts[i]);
}

/// The first statements of a sequence take no more from the counters than
/// the whole sequence, and are accepted where the whole sequence is.
pub proof fn lemma_stmts_take(stmts: Seq<Stmt>, c: Counters, i: int)
    requires
        0 <= i <= stmts.len(),
    ensures
        lower_stmts(stmts.take(i), c).1.temps <= lower_stmts(stmts, c).1.temps,
        lower_stmts(stmts.take(i), c).1.labels <= lower_stmts(stmts, c).1.labels,
        stmts_supported(stmts) ==> stmts_supported(stmts.take(i)),
    decreases stmts.len(),
{
    if i < stmts.len() {
        lemma_stmts_take(stmts.drop_last(), c, i);
        assert(stmts.drop_last().take(i) =~= stmts.take(i));
        lemma_stmt_scoped(stmts.last(), lower_stmts(stmts.drop_last(), c).1);
    } else {
        assert(stmts.take(i) =~= stmts);
    }
}

} // verus!
