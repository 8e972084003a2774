//! Labels and jumps of a lowered stream: every label that a lowering takes
//! is defined once, and every jump goes to one of them.

use vstd::prelude::*;
use crate::ast::{Block, Expr, ExprNode, Stmt, StmtNode};
use crate::ir::OpOf;
use crate::ir::lowering::{
    Counters, Slot, lower_block, lower_expr, lower_stmt, lower_stmts, referenced_name,
    resolve_op, resolve_ops,
};
use crate::ir::scope::{lemma_block_scoped, lemma_expr_scoped, lemma_stmt_scoped, lemma_stmts_scoped};

verus! {

/// 1 if the operation is the label `label`, else 0.
pub open spec fn defines<V>(op: OpOf<V>, label: nat) -> nat {
    match op {
        OpOf::Label(l, _) => if l == label {
            1
        } else {
            0
        },
        _ => 0,
    }
}

/// How many operations of the stream are the label `label`.
pub open spec fn definitions<V>(ops: Seq<OpOf<V>>, label: nat) -> nat
    decreases ops.len(),
{
    if ops.len() == 0 {
        0
    } else {
        definitions(ops.drop_last(), label) + defines(ops.last(), label)
    }
}

/// The operation, if it is a jump, goes to a label from `lo` up to, but
/// without, `hi`.
pub open spec fn jump_within<V>(op: OpOf<V>, lo: nat, hi: nat) -> bool {
    match op {
        OpOf::Goto(l, _) => lo <= l < hi,
        OpOf::CondGoto(_, l, _) => lo <= l < hi,
        _ => true,
    }
}

/// `jump_within` of every operation of the stream.
pub open spec fn jumps_within<V>(ops: Seq<OpOf<V>>, lo: nat, hi: nat) -> bool {
    forall|i: int| 0 <= i < ops.len() ==> jump_within(#[trigger] ops[i], lo, hi)
}

/// 1 if `label` is from `lo` up to, but without, `hi`, else 0.
pub open spec fn one_if_within(label: nat, lo: nat, hi: nat) -> nat {
    if lo <= label < hi {
        1
    } else {
        0
    }
}

/// The definitions in two streams, one after the other, add up.
pub proof fn lemma_definitions_concat<V>(a: Seq<OpOf<V>>, b: Seq<OpOf<V>>, label: nat)
    ensures
        definitions(a + b, label) == definitions(a, label) + definitions(b, label),
    decreases b.len(),
{
    if b.len() == 0 {
        assert(a + b =~= a);
    } else {
        lemma_definitions_concat(a, b.drop_last(), label);
        assert((a + b).drop_last() =~= a + b.drop_last());
    }
}

/// The definitions in a stream and one more operation.
pub proof fn lemma_definitions_push<V>(a: Seq<OpOf<V>>, op: OpOf<V>, label: nat)
    ensures
        definitions(a.push(op), label) == definitions(a, label) + defines(op, label),
{
    assert(a.push(op).drop_last() =~= a);
}

/// Jumps that stay within a range of labels in two streams stay within it
/// in the two, one after the other.
pub proof fn lemma_jumps_concat<V>(a: Seq<OpOf<V>>, b: Seq<OpOf<V>>, lo: nat, hi: nat)
    requires
        jumps_within(a, lo, hi),
        jumps_within(b, lo, hi),
    ensures
        jumps_within(a + b, lo, hi),
{
    assert forall|i: int| 0 <= i < (a + b).len() implies jump_within(
        #[trigger] (a + b)[i],
        lo,
        hi,
    ) by {
        if i < a.len() {
            assert(jump_within(a[i], lo, hi));
        } else {
            assert(jump_within(b[i - a.len()], lo, hi));
        }
    }
}

/// As `lemma_jumps_concat`, for a stream and one more operation.
pub proof fn lemma_jumps_push<V>(a: Seq<OpOf<V>>, op: OpOf<V>, lo: nat, hi: nat)
    requires
        jumps_within(a, lo, hi),
        jump_within(op, lo, hi),
    ensures
        jumps_within(a.push(op), lo, hi),
{
    assert forall|i: int| 0 <= i < a.push(op).len() implies jump_within(
        #[trigger] a.push(op)[i],
        lo,
        hi,
    ) by {
        if i < a.len() {
            assert(jump_within(a[i], lo, hi));
        }
    }
}

/// Jumps that stay within a range of labels stay within every wider range.
pub proof fn lemma_jumps_widen<V>(a: Seq<OpOf<V>>, lo: nat, hi: nat, lo2: nat, hi2: nat)
    requires
        jumps_within(a, lo, hi),
        lo2 <= lo,
        hi <= hi2,
    ensures
        jumps_within(a, lo2, hi2),
{
    assert forall|i: int| 0 <= i < a.len() implies jump_within(#[trigger] a[i], lo2, hi2) by {
        assert(jump_within(a[i], lo, hi));
    }
}

/// Every label that the lowering of an expression takes from the counter
/// is defined by one operation of the stream, no other label is defined,
/// and every jump of the stream goes to one of these labels.
pub proof fn law_expr_labels(e: Expr, c: Counters, label: nat)
    ensures
        definitions(lower_expr(e, c).ops, label) == one_if_within(
            label,
            c.labels,
            lower_expr(e, c).next.labels,
        ),
        jumps_within(lower_expr(e, c).ops, c.labels, lower_expr(e, c).next.labels),
    decreases e,
{
    let out = lower_expr(e, c);
    let lo = c.labels;
    let hi = out.next.labels;
    lemma_expr_scoped(e, c);
    match e.val {
        ExprNode::LitExpr(_) => {
            lemma_definitions_push(Seq::empty(), out.ops[0], label);
            assert(out.ops =~= Seq::empty().push(out.ops[0]));
        },
        ExprNode::GroupExpr(inner) => {
            law_expr_labels(*inner, c, label);
        },
        ExprNode::BinOpExpr(_, left, right) => {
            let l = lower_expr(*left, c);
            let r = lower_expr(*right, l.next);
            law_expr_labels(*left, c, label);
            law_expr_labels(*right, l.next, label);
            lemma_expr_scoped(*left, c);
            lemma_expr_scoped(*right, l.next);
            let last = out.ops.last();
            assert(out.ops =~= (l.ops + r.ops).push(last));
            lemma_definitions_concat(l.ops, r.ops, label);
            lemma_definitions_push(l.ops + r.ops, last, label);
            lemma_jumps_widen(l.ops, lo, l.next.labels, lo, hi);
            lemma_jumps_widen(r.ops, l.next.labels, r.next.labels, lo, hi);
            lemma_jumps_concat(l.ops, r.ops, lo, hi);
            lemma_jumps_push(l.ops + r.ops, last, lo, hi);
        },
        ExprNode::AssignExpr(target, value) => {
            let v = lower_expr(*value, c);
            law_expr_labels(*value, c, label);
            lemma_expr_scoped(*value, c);
            match target.val {
                ExprNode::UnOpExpr(_, pointer) => {
                    let p = lower_expr(*pointer, v.next);
                    law_expr_labels(*pointer, v.next, label);
                    lemma_expr_scoped(*pointer, v.next);
                    let last = out.ops.last();
                    assert(out.ops =~= (p.ops + v.ops).push(last));
                    lemma_definitions_concat(p.ops, v.ops, label);
                    lemma_definitions_push(p.ops + v.ops, last, label);
                    lemma_jumps_widen(v.ops, lo, v.next.labels, lo, hi);
                    lemma_jumps_widen(p.ops, v.next.labels, p.next.labels, lo, hi);
                    lemma_jumps_concat(p.ops, v.ops, lo, hi);
                    lemma_jumps_push(p.ops + v.ops, last, lo, hi);
                },
                _ => {
                    if referenced_name(*target) is Some {
                        let last = out.ops.last();
                        assert(out.ops =~= v.ops.push(last));
                        lemma_definitions_push(v.ops, last, label);
                        lemma_jumps_push(v.ops, last, lo, hi);
                    }
                },
            }
        },
        ExprNode::BlockExpr(block) => {
            law_block_labels(*block, c, label);
        },
        ExprNode::IfExpr(cond, on_true, on_false) => {
            let k = lower_expr(*cond, c);
            let t = lower_block(*on_true, k.next);
            let f = lower_block(*on_false, t.next);
            law_expr_labels(*cond, c, label);
            law_block_labels(*on_true, k.next, label);
            law_block_labels(*on_false, t.next, label);
            lemma_expr_scoped(*cond, c);
            lemma_block_scoped(*on_true, k.next);
            lemma_block_scoped(*on_false, t.next);
            let n = k.ops.len() as int;
            let m = f.ops.len() as int;
            let s1 = k.ops.push(out.ops[n]);
            let s2 = s1 + f.ops;
            let s3 = s2.push(out.ops[n + 1 + m]);
            let s4 = s3.push(out.ops[n + 2 + m]);
            let s5 = s4 + t.ops;
            let s6 = s5.push(out.ops.last());
            assert(out.ops =~= s6);
            lemma_definitions_push(k.ops, out.ops[n], label);
            lemma_definitions_concat(s1, f.ops, label);
            lemma_definitions_push(s2, out.ops[n + 1 + m], label);
            lemma_definitions_push(s3, out.ops[n + 2 + m], label);
            lemma_definitions_concat(s4, t.ops, label);
            lemma_definitions_push(s5, out.ops.last(), label);
            lemma_jumps_widen(k.ops, lo, k.next.labels, lo, hi);
            lemma_jumps_widen(t.ops, k.next.labels, t.next.labels, lo, hi);
            lemma_jumps_widen(f.ops, t.next.labels, f.next.labels, lo, hi);
            lemma_jumps_push(k.ops, out.ops[n], lo, hi);
            lemma_jumps_concat(s1, f.ops, lo, hi);
            lemma_jumps_push(s2, out.ops[n + 1 + m], lo, hi);
            lemma_jumps_push(s3, out.ops[n + 2 + m], lo, hi);
            lemma_jumps_concat(s4, t.ops, lo, hi);
            lemma_jumps_push(s5, out.ops.last(), lo, hi);
        },
        ExprNode::WhileExpr(cond, body) => {
            let k = lower_expr(*cond, c.after_labels(3));
            let b = lower_block(*body, k.next);
            law_expr_labels(*cond, c.after_labels(3), label);
            law_block_labels(*body, k.next, label);
            lemma_expr_scoped(*cond, c.after_labels(3));
            lemma_block_scoped(*body, k.next);
            let n = k.ops.len() as int;
            let s0 = Seq::<OpOf<Slot>>::empty().push(out.ops[0]);
            let s1 = s0 + k.ops;
            let s2 = s1.push(out.ops[n + 1]);
            let s3 = s2.push(out.ops[n + 2]);
            let s4 = s3.push(out.ops[n + 3]);
            let s5 = s4 + b.ops;
            let s6 = s5.push(out.ops[out.ops.len() - 2]);
            let s7 = s6.push(out.ops.last());
            assert(out.ops =~= s7);
            lemma_definitions_push(Seq::empty(), out.ops[0], label);
            lemma_definitions_concat(s0, k.ops, label);
            lemma_definitions_push(s1, out.ops[n + 1], label);
            lemma_definitions_push(s2, out.ops[n + 2], label);
            lemma_definitions_push(s3, out.ops[n + 3], label);
            lemma_definitions_concat(s4, b.ops, label);
            lemma_definitions_push(s5, out.ops[out.ops.len() - 2], label);
            lemma_definitions_push(s6, out.ops.last(), label);
            lemma_jumps_widen(k.ops, lo + 3, k.next.labels, lo, hi);
            lemma_jumps_widen(b.ops, k.next.labels, b.next.labels, lo, hi);
            lemma_jumps_push(Seq::empty(), out.ops[0], lo, hi);
            lemma_jumps_concat(s0, k.ops, lo, hi);
            lemma_jumps_push(s1, out.ops[n + 1], lo, hi);
            lemma_jumps_push(s2, out.ops[n + 2], lo, hi);
            lemma_jumps_push(s3, out.ops[n + 3], lo, hi);
            lemma_jumps_concat(s4, b.ops, lo, hi);
            lemma_jumps_push(s5, out.ops[out.ops.len() - 2], lo, hi);
            lemma_jumps_push(s6, out.ops.last(), lo, hi);
        },
        _ => {},
    }
}

/// As `law_expr_labels`, for a statement.
pub proof fn law_stmt_labels(s: Stmt, c: Counters, label: nat)
    ensures
        definitions(lower_stmt(s, c).ops, label) == one_if_within(
            label,
            c.labels,
            lower_stmt(s, c).next.labels,
        ),
        jumps_within(lower_stmt(s, c).ops, c.labels, lower_stmt(s, c).next.labels),
    decreases s,
{
    match s.val {
        StmtNode::LetStmt(_, _) => {},
        StmtNode::ExprStmt(e) => law_expr_labels(e, c, label),
        StmtNode::SemiStmt(e) => law_expr_labels(e, c, label),
    }
}

/// As `law_expr_labels`, for a sequence of statements.
pub proof fn law_stmts_labels(stmts: Seq<Stmt>, c: Counters, label: nat)
    ensures
        definitions(lower_stmts(stmts, c).0, label) == one_if_within(
            label,
            c.labels,
            lower_stmts(stmts, c).1.labels,
        ),
        jumps_within(lower_stmts(stmts, c).0, c.labels, lower_stmts(stmts, c).1.labels),
    decreases stmts,
{
    if stmts.len() > 0 {
        let (ops, mid) = lower_stmts(stmts.drop_last(), c);
        let last = lower_stmt(stmts.last(), mid);
        law_stmts_labels(stmts.drop_last(), c, label);
        law_stmt_labels(stmts.last(), mid, label);
        lemma_stmts_scoped(stmts.drop_last(), c);
        lemma_stmt_scoped(stmts.last(), mid);
        lemma_definitions_concat(ops, last.ops, label);
        lemma_jumps_widen(ops, c.labels, mid.labels, c.labels, last.next.labels);
        lemma_jumps_widen(last.ops, mid.labels, last.next.labels, c.labels, last.next.labels);
        lemma_jumps_concat(ops, last.ops, c.labels, last.next.labels);
    }
}

/// As `law_expr_labels`, for a block.
pub proof fn law_block_labels(b: Block, c: Counters, label: nat)
    ensures
        definitions(lower_block(b, c).ops, label) == one_if_within(
            label,
            c.labels,
            lower_block(b, c).next.labels,
        ),
        jumps_within(lower_block(b, c).ops, c.labels, lower_block(b, c).next.labels),
    decreases b,
{
    let (ops, mid) = lower_stmts(b.stmts@, c);
    law_stmts_labels(b.stmts@, c, label);
    lemma_stmts_scoped(b.stmts@, c);
    match b.expr {
        Some(e) => {
            let tail = lower_expr(e, mid);
            law_expr_labels(e, mid, label);
            lemma_expr_scoped(e, mid);
            lemma_definitions_concat(ops, tail.ops, label);
            lemma_jumps_widen(ops, c.labels, mid.labels, c.labels, tail.next.labels);
            lemma_jumps_widen(tail.ops, mid.labels, tail.next.labels, c.labels, tail.next.labels);
            lemma_jumps_concat(ops, tail.ops, c.labels, tail.next.labels);
        },
        None => {},
    }
}

/// Giving the temporaries their names changes no label: the stream that an
/// engine hands back defines the labels, and jumps to the labels, of the
/// lowering it reads as.
pub proof fn law_labels_resolved(
    ops: Seq<OpOf<Slot>>,
    names: Seq<Seq<char>>,
    label: nat,
    lo: nat,
    hi: nat,
)
    ensures
        definitions(resolve_ops(ops, names), label) == definitions(ops, label),
        jumps_within(ops, lo, hi) ==> jumps_within(resolve_ops(ops, names), lo, hi),
    decreases ops.len(),
{
    let resolved = resolve_ops(ops, names);
    if ops.len() > 0 {
        law_labels_resolved(ops.drop_last(), names, label, lo, hi);
        assert(resolved.drop_last() =~= resolve_ops(ops.drop_last(), names));
        assert(resolved.last() == resolve_op(ops.last(), names));
    }
    if jumps_within(ops, lo, hi) {
        assert forall|i: int| 0 <= i < resolved.len() implies jump_within(
            #[trigger] resolved[i],
            lo,
            hi,
        ) by {
            assert(jump_within(ops[i], lo, hi));
            assert(resolved[i] == resolve_op(ops[i], names));
        }
    }
}

} // verus!
