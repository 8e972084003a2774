//! Values are there before they are read: in the stream of a tree whose
//! parts all have a value, every temporary that an operation reads was
//! assigned by an earlier operation of the same stream.
//!
//! Not every tree is like that. A loop, a block without a final
//! expression and an expression that lowering only holds a place for have
//! a temporary that nothing assigns as their result; an operation that
//! reads it reads no value. `expr_yields` and `expr_feeds` say which trees
//! are free of this.

use vstd::prelude::*;
use crate::ast::{Block, Expr, ExprNode, Stmt, StmtNode};
use crate::ir::{OpOf, OperandOf, PlaceOf, ValueOf};
use crate::ir::lowering::{
    Counters, Slot, lower_block, lower_expr, lower_stmt, lower_stmts, referenced_name,
};

verus! {

/// The operation assigns to the variable `s` itself.
pub open spec fn assigns(op: OpOf<Slot>, s: Slot) -> bool {
    op matches OpOf::Assign(place, _) && place == PlaceOf::Var(s)
}

/// The operation reads the variable `s`: as an operand, as the condition of
/// a jump, or as the pointer that it stores through.
pub open spec fn reads(op: OpOf<Slot>, s: Slot) -> bool {
    match op {
        OpOf::Assign(place, value) => place == PlaceOf::Deref(s) || match value {
            ValueOf::BinOp(_, a, b) => a == OperandOf::Variable(s) || b == OperandOf::Variable(s),
            ValueOf::Direct(a) => a == OperandOf::Variable(s),
        },
        OpOf::CondGoto(cond, _, _) => cond == OperandOf::Variable(s),
        _ => false,
    }
}

/// The variable has a value before the operation at `at` runs: it is a
/// variable of the source program, or one of the operations before `at`
/// assigns to it.
pub open spec fn known(ops: Seq<OpOf<Slot>>, s: Slot, at: int) -> bool {
    s is Named || exists|j: int| 0 <= j < at && j < ops.len() && assigns(#[trigger] ops[j], s)
}

/// Every variable that an operation of the stream reads has a value before
/// that operation runs.
pub open spec fn reads_known(ops: Seq<OpOf<Slot>>) -> bool {
    forall|i: int, s: Slot|
        0 <= i < ops.len() && #[trigger] reads(ops[i], s) ==> known(ops, s, i)
}

/// The lowering of the expression reads values only, and leaves a value in
/// its result.
pub open spec fn expr_yields(e: Expr) -> bool
    decreases e, 0nat,
{
    match e.val {
        ExprNode::LitExpr(_) => true,
        ExprNode::IdentExpr(_) => true,
        ExprNode::PathExpr(_) => referenced_name(e) is Some,
        ExprNode::GroupExpr(inner) => expr_yields(*inner),
        ExprNode::BinOpExpr(_, left, right) => expr_yields(*left) && expr_yields(*right),
        ExprNode::AssignExpr(target, value) => expr_yields(*value) && match target.val {
            ExprNode::UnOpExpr(_, pointer) => expr_yields(*pointer),
            _ => referenced_name(*target) is Some,
        },
        ExprNode::BlockExpr(block) => block_yields(*block),
        ExprNode::IfExpr(cond, on_true, on_false) => expr_yields(*cond) && block_yields(*on_true)
            && block_yields(*on_false),
        _ => false,
    }
}

/// The lowering of the expression reads values only. Its result may be a
/// temporary that nothing assigns.
pub open spec fn expr_feeds(e: Expr) -> bool
    decreases e, 1nat,
{
    match e.val {
        ExprNode::GroupExpr(inner) => expr_feeds(*inner),
        ExprNode::BinOpExpr(_, _, _) => expr_yields(e),
        ExprNode::AssignExpr(_, _) => expr_yields(e),
        ExprNode::BlockExpr(block) => block_feeds(*block),
        ExprNode::IfExpr(_, _, _) => expr_yields(e),
        ExprNode::WhileExpr(cond, body) => expr_yields(*cond) && block_feeds(*body),
        _ => true,
    }
}

/// As `expr_feeds`, for a statement.
pub open spec fn stmt_feeds(s: Stmt) -> bool
    decreases s, 0nat,
{
    match s.val {
        StmtNode::LetStmt(_, _) => true,
        StmtNode::ExprStmt(e) => expr_feeds(e),
        StmtNode::SemiStmt(e) => expr_feeds(e),
    }
}

/// As `expr_feeds`, for every statement of the sequence.
pub open spec fn stmts_feed(stmts: Seq<Stmt>) -> bool
    decreases stmts, 0nat,
{
    if stmts.len() == 0 {
        true
    } else {
        stmts_feed(stmts.drop_last()) && stmt_feeds(stmts.last())
    }
}

/// As `expr_feeds`, for a block.
pub open spec fn block_feeds(b: Block) -> bool
    decreases b, 0nat,
{
    stmts_feed(b.stmts@) && match b.expr {
        Some(e) => expr_feeds(e),
        None => true,
    }
}

/// As `expr_yields`, for a block: it has a final expression, which yields.
pub open spec fn block_yields(b: Block) -> bool
    decreases b, 0nat,
{
    stmts_feed(b.stmts@) && match b.expr {
        Some(e) => expr_yields(e),
        None => false,
    }
}

/// A value that is there stays there when operations are added at the end.
pub proof fn lemma_known_extends(a: Seq<OpOf<Slot>>, b: Seq<OpOf<Slot>>, s: Slot, at: int)
    requires
        known(a, s, at),
    ensures
        known(a + b, s, at),
        forall|later: int| at <= later ==> known(a + b, s, later),
{
    if !(s is Named) {
        let j = choose|j: int| 0 <= j < at && j < a.len() && assigns(#[trigger] a[j], s);
        assert((a + b)[j] == a[j]);
    }
}

/// A value that is there in the second of two streams is there in both.
pub proof fn lemma_known_shifts(a: Seq<OpOf<Slot>>, b: Seq<OpOf<Slot>>, s: Slot, at: int)
    requires
        known(b, s, at),
    ensures
        known(a + b, s, at + a.len()),
{
    if !(s is Named) {
        let j = choose|j: int| 0 <= j < at && j < b.len() && assigns(#[trigger] b[j], s);
        assert((a + b)[j + a.len()] == b[j]);
    }
}

/// Two streams that read values only, one after the other, read values
/// only.
pub proof fn lemma_reads_known_concat(a: Seq<OpOf<Slot>>, b: Seq<OpOf<Slot>>)
    requires
        reads_known(a),
        reads_known(b),
    ensures
        reads_known(a + b),
{
    assert forall|i: int, s: Slot| 0 <= i < (a + b).len() && #[trigger] reads((a + b)[i], s)
        implies known(a + b, s, i) by {
        if i < a.len() {
            assert(reads(a[i], s));
            lemma_known_extends(a, b, s, i);
        } else {
            assert(reads(b[i - a.len()], s));
            lemma_known_shifts(a, b, s, i - a.len());
        }
    }
}

/// A stream that reads values only, and one more operation that reads
/// what has a value at the end of the stream.
pub proof fn lemma_reads_known_push(a: Seq<OpOf<Slot>>, op: OpOf<Slot>)
    requires
        reads_known(a),
        forall|s: Slot| reads(op, s) ==> known(a, s, a.len() as int),
    ensures
        reads_known(a.push(op)),
        forall|s: Slot| known(a, s, a.len() as int) ==> known(a.push(op), s, a.len() as int + 1),
        forall|s: Slot| assigns(op, s) ==> known(a.push(op), s, a.len() as int + 1),
{
    let all = a.push(op);
    assert(all =~= a + seq![op]);
    assert forall|i: int, s: Slot| 0 <= i < all.len() && #[trigger] reads(all[i], s) implies known(
        all,
        s,
        i,
    ) by {
        if i < a.len() {
            assert(reads(a[i], s));
            lemma_known_extends(a, seq![op], s, i);
        } else {
            lemma_known_extends(a, seq![op], s, a.len() as int);
        }
    }
    assert forall|s: Slot| known(a, s, a.len() as int) implies known(all, s, a.len() as int + 1) by {
        lemma_known_extends(a, seq![op], s, a.len() as int);
    }
    assert forall|s: Slot| assigns(op, s) implies known(all, s, a.len() as int + 1) by {
        assert(all[a.len() as int] == op);
    }
}

/// In the stream of an expression that feeds, every variable that an
/// operation reads is a variable of the source program or was assigned
/// by an earlier operation of the stream. Where the expression yields, its
/// result too is such a variable once the stream has run.
pub proof fn law_expr_reads_values(e: Expr, c: Counters)
    ensures
        expr_feeds(e) ==> reads_known(lower_expr(e, c).ops),
        expr_yields(e) ==> expr_feeds(e) && known(
            lower_expr(e, c).ops,
            lower_expr(e, c).result,
            lower_expr(e, c).ops.len() as int,
        ),
    decreases e,
{
    let out = lower_expr(e, c);
    match e.val {
        ExprNode::LitExpr(_) => {
            lemma_reads_known_push(Seq::empty(), out.ops[0]);
            assert(out.ops =~= Seq::empty().push(out.ops[0]));
        },
        ExprNode::GroupExpr(inner) => {
            law_expr_reads_values(*inner, c);
        },
        ExprNode::BinOpExpr(_, left, right) => {
            let l = lower_expr(*left, c);
            let r = lower_expr(*right, l.next);
            law_expr_reads_values(*left, c);
            law_expr_reads_values(*right, l.next);
            if expr_yields(e) {
                let both = l.ops + r.ops;
                lemma_reads_known_concat(l.ops, r.ops);
                lemma_known_extends(l.ops, r.ops, l.result, l.ops.len() as int);
                lemma_known_shifts(l.ops, r.ops, r.result, r.ops.len() as int);
                lemma_reads_known_push(both, out.ops.last());
                assert(out.ops =~= both.push(out.ops.last()));
            }
        },
        ExprNode::AssignExpr(target, value) => {
            let v = lower_expr(*value, c);
            law_expr_reads_values(*value, c);
            if expr_yields(e) {
                match target.val {
                    ExprNode::UnOpExpr(_, pointer) => {
                        let p = lower_expr(*pointer, v.next);
                        law_expr_reads_values(*pointer, v.next);
                        let both = p.ops + v.ops;
                        lemma_reads_known_concat(p.ops, v.ops);
                        lemma_known_extends(p.ops, v.ops, p.result, p.ops.len() as int);
                        lemma_known_shifts(p.ops, v.ops, v.result, v.ops.len() as int);
                        lemma_reads_known_push(both, out.ops.last());
                        assert(out.ops =~= both.push(out.ops.last()));
                    },
                    _ => {
                        lemma_reads_known_push(v.ops, out.ops.last());
                        assert(out.ops =~= v.ops.push(out.ops.last()));
                    },
                }
            }
        },
        ExprNode::BlockExpr(block) => {
            law_block_reads_values(*block, c);
        },
        ExprNode::IfExpr(cond, on_true, on_false) => {
            let k = lower_expr(*cond, c);
            let t = lower_block(*on_true, k.next);
            let f = lower_block(*on_false, t.next);
            law_expr_reads_values(*cond, c);
            law_block_reads_values(*on_true, k.next);
            law_block_reads_values(*on_false, t.next);
            if expr_yields(e) {
                let n = k.ops.len() as int;
                let m = f.ops.len() as int;
                let s1 = k.ops.push(out.ops[n]);
                let s2 = s1 + f.ops;
                let s3 = s2.push(out.ops[n + 1 + m]);
                let s4 = s3.push(out.ops[n + 2 + m]);
                let s5 = s4 + t.ops;
                let s6 = s5.push(out.ops.last());
                assert(out.ops =~= s6);
                lemma_reads_known_push(k.ops, out.ops[n]);
                lemma_reads_known_concat(s1, f.ops);
                lemma_known_shifts(s1, f.ops, f.result, m);
                lemma_reads_known_push(s2, out.ops[n + 1 + m]);
                lemma_reads_known_push(s3, out.ops[n + 2 + m]);
                lemma_reads_known_concat(s4, t.ops);
                lemma_known_shifts(s4, t.ops, t.result, t.ops.len() as int);
                lemma_reads_known_push(s5, out.ops.last());
            }
        },
        ExprNode::WhileExpr(cond, body) => {
            let k = lower_expr(*cond, c.after_labels(3));
            let b = lower_block(*body, k.next);
            law_expr_reads_values(*cond, c.after_labels(3));
            law_block_reads_values(*body, k.next);
            if expr_feeds(e) {
                let n = k.ops.len() as int;
                let s0 = Seq::<OpOf<Slot>>::empty().push(out.ops[0]);
                let s1 = s0 + k.ops;
                let s2 = s1.push(out.ops[n + 1]);
                let s3 = s2.push(out.ops[n + 2]);
                let s4 = s3.push(out.ops[n + 3]);
                let s5 = s4 + b.ops;
                let s6 = s5.push(out.ops[out.ops.len() - 2]);
                let s7 = s6.push(out.ops.last());
                assert(out.ops =~= s7);
                lemma_reads_known_push(Seq::empty(), out.ops[0]);
                lemma_reads_known_concat(s0, k.ops);
                lemma_known_shifts(s0, k.ops, k.result, n);
                lemma_reads_known_push(s1, out.ops[n + 1]);
                lemma_reads_known_push(s2, out.ops[n + 2]);
                lemma_reads_known_push(s3, out.ops[n + 3]);
                lemma_reads_known_concat(s4, b.ops);
                lemma_reads_known_push(s5, out.ops[out.ops.len() - 2]);
                lemma_reads_known_push(s6, out.ops.last());
            }
        },
        _ => {},
    }
}

/// As `law_expr_reads_values`, for a statement.
pub proof fn law_stmt_reads_values(s: Stmt, c: Counters)
    ensures
        stmt_feeds(s) ==> reads_known(lower_stmt(s, c).ops),
    decreases s,
{
    match s.val {
        StmtNode::LetStmt(_, _) => {},
        StmtNode::ExprStmt(e) => law_expr_reads_values(e, c),
        StmtNode::SemiStmt(e) => law_expr_reads_values(e, c),
    }
}

/// As `law_expr_reads_values`, for a sequence of statements.
pub proof fn law_stmts_read_values(stmts: Seq<Stmt>, c: Counters)
    ensures
        stmts_feed(stmts) ==> reads_known(lower_stmts(stmts, c).0),
    decreases stmts,
{
    if stmts.len() > 0 {
        let (ops, mid) = lower_stmts(stmts.drop_last(), c);
        law_stmts_read_values(stmts.drop_last(), c);
        law_stmt_reads_values(stmts.last(), mid);
        if stmts_feed(stmts) {
            lemma_reads_known_concat(ops, lower_stmt(stmts.last(), mid).ops);
        }
    }
}

/// As `law_expr_reads_values`, for a block.
pub proof fn law_block_reads_values(b: Block, c: Counters)
    ensures
        block_feeds(b) ==> reads_known(lower_block(b, c).ops),
        block_yields(b) ==> block_feeds(b) && known(
            lower_block(b, c).ops,
            lower_block(b, c).result,
            lower_block(b, c).ops.len() as int,
        ),
    decreases b,
{
    let (ops, mid) = lower_stmts(b.stmts@, c);
    law_stmts_read_values(b.stmts@, c);
    match b.expr {
        Some(e) => {
            let tail = lower_expr(e, mid);
            law_expr_reads_values(e, mid);
            if block_feeds(b) {
                lemma_reads_known_concat(ops, tail.ops);
            }
            if block_yields(b) {
                lemma_known_shifts(ops, tail.ops, tail.result, tail.ops.len() as int);
            }
        },
        None => {},
    }
}

} // verus!
