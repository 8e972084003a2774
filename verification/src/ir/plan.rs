//! Whether a lowering can be done, decided before it is begun: whether the
//! tree is accepted, and whether the counters can count that far.

use vstd::prelude::*;
use crate::ast::{Block, Expr, ExprNode, Stmt, StmtNode, UnOpNode};
use crate::ir::lowering::{
    Counters, block_supported, expr_supported, lower_block, lower_expr, lower_stmt, lower_stmts,
    stmt_supported, stmts_supported,
};
use crate::ir::scope::{
    lemma_block_scoped, lemma_expr_scoped, lemma_stmts_scoped, lemma_stmts_step,
    lemma_stmts_take,
};

verus! {

/// The two counters as numbers without a bound.
pub open spec fn counters_at(temps: usize, labels: usize) -> Counters {
    Counters { temps: temps as nat, labels: labels as nat }
}

/// What `planned` says of the lowering `next` of an accepted or refused
/// tree: it holds the counters after the lowering where the tree is
/// accepted and those counters fit in a machine word, and nothing
/// otherwise.
pub open spec fn plans(planned: Option<(usize, usize)>, accepted: bool, next: Counters) -> bool {
    match planned {
        Some(after) => accepted && counters_at(after.0, after.1) == next,
        None => !(accepted && next.fits()),
    }
}

/// The counters after one more temporary, if there is room for one.
fn plan_temp(temps: usize, labels: usize) -> (planned: Option<(usize, usize)>)
    ensures
        plans(planned, true, counters_at(temps, labels).after_temp()),
{
    if temps < usize::MAX {
        Some((temps + 1, labels))
    } else {
        None
    }
}

/// The counters after the expression is lowered from `temps` and `labels`,
/// if it is accepted and they fit.
pub fn plan_expr(expr: &Expr, temps: usize, labels: usize) -> (planned: Option<(usize, usize)>)
    ensures
        plans(
            planned,
            expr_supported(*expr),
            lower_expr(*expr, counters_at(temps, labels)).next,
        ),
    decreases *expr,
{
    let ghost c = counters_at(temps, labels);
    match &expr.val {
        ExprNode::LitExpr(_) => plan_temp(temps, labels),
        ExprNode::IdentExpr(_) => Some((temps, labels)),
        ExprNode::PathExpr(path) => {
            if path.val.elems.len() > 0 {
                Some((temps, labels))
            } else {
                None
            }
        },
        ExprNode::GroupExpr(inner) => plan_expr(inner, temps, labels),
        ExprNode::BlockExpr(block) => plan_block(block, temps, labels),
        ExprNode::BinOpExpr(_, left, right) => {
            proof {
                lemma_expr_scoped(**left, c);
                lemma_expr_scoped(**right, lower_expr(**left, c).next);
            }
            match plan_expr(left, temps, labels) {
                None => None,
                Some((t1, l1)) => match plan_expr(right, t1, l1) {
                    None => None,
                    Some((t2, l2)) => plan_temp(t2, l2),
                },
            }
        },
        ExprNode::AssignExpr(target, value) => {
            proof {
                lemma_expr_scoped(**value, c);
                if target.val is UnOpExpr {
                    lemma_expr_scoped(*target.val->UnOpExpr_1, lower_expr(**value, c).next);
                }
            }
            match plan_expr(value, temps, labels) {
                None => None,
                Some((t1, l1)) => match &target.val {
                    ExprNode::IdentExpr(_) => Some((t1, l1)),
                    ExprNode::PathExpr(path) => {
                        if path.val.elems.len() > 0 {
                            Some((t1, l1))
                        } else {
                            None
                        }
                    },
                    ExprNode::UnOpExpr(op, pointer) => match op.val {
                        UnOpNode::Deref => plan_expr(pointer, t1, l1),
                        _ => None,
                    },
                    _ => None,
                },
            }
        },
        ExprNode::IfExpr(cond, on_true, on_false) => {
            proof {
                let k = lower_expr(**cond, c);
                let t = lower_block(**on_true, k.next);
                lemma_expr_scoped(**cond, c);
                lemma_block_scoped(**on_true, k.next);
                lemma_block_scoped(**on_false, t.next);
            }
            match plan_expr(cond, temps, labels) {
                None => None,
                Some((t1, l1)) => match plan_block(on_true, t1, l1) {
                    None => None,
                    Some((t2, l2)) => match plan_block(on_false, t2, l2) {
                        None => None,
                        Some((t3, l3)) => {
                            if l3 < usize::MAX {
                                plan_temp(t3, l3 + 1)
                            } else {
                                None
                            }
                        },
                    },
                },
            }
        },
        ExprNode::WhileExpr(cond, body) => {
            proof {
                let k = lower_expr(**cond, c.after_labels(3));
                lemma_expr_scoped(**cond, c.after_labels(3));
                lemma_block_scoped(**body, k.next);
            }
            if labels > usize::MAX - 3 {
                None
            } else {
                match plan_expr(cond, temps, labels + 3) {
                    None => None,
                    Some((t1, l1)) => match plan_block(body, t1, l1) {
                        None => None,
                        Some((t2, l2)) => plan_temp(t2, l2),
                    },
                }
            }
        },
        _ => plan_temp(temps, labels),
    }
}

/// As `plan_expr`, for a statement.
pub fn plan_stmt(stmt: &Stmt, temps: usize, labels: usize) -> (planned: Option<(usize, usize)>)
    ensures
        plans(
            planned,
            stmt_supported(*stmt),
            lower_stmt(*stmt, counters_at(temps, labels)).next,
        ),
    decreases *stmt,
{
    match &stmt.val {
        StmtNode::LetStmt(_, _) => None,
        StmtNode::ExprStmt(e) => plan_expr(e, temps, labels),
        StmtNode::SemiStmt(e) => plan_expr(e, temps, labels),
    }
}

/// As `plan_expr`, for the statements of a block.
pub fn plan_stmts(stmts: &Vec<Stmt>, temps: usize, labels: usize) -> (planned: Option<
    (usize, usize),
>)
    ensures
        plans(
            planned,
            stmts_supported(stmts@),
            lower_stmts(stmts@, counters_at(temps, labels)).1,
        ),
    decreases *stmts,
{
    let ghost c = counters_at(temps, labels);
    let mut now = (temps, labels);
    let mut i: usize = 0;
    proof {
        assert(stmts@.take(0) =~= Seq::<Stmt>::empty());
    }
    while i < stmts.len()
        invariant
            i <= stmts.len(),
            c == counters_at(temps, labels),
            stmts_supported(stmts@.take(i as int)),
            counters_at(now.0, now.1) == lower_stmts(stmts@.take(i as int), c).1,
        decreases stmts.len() - i,
    {
        proof {
            lemma_stmts_step(stmts@, c, i as int);
            lemma_stmts_take(stmts@, c, i as int + 1);
        }
        match plan_stmt(&stmts[i], now.0, now.1) {
            None => {
                return None;
            },
            Some(after) => {
                now = after;
            },
        }
        i += 1;
    }
    proof {
        assert(stmts@.take(i as int) =~= stmts@);
    }
    Some(now)
}

/// As `plan_expr`, for a block.
pub fn plan_block(block: &Block, temps: usize, labels: usize) -> (planned: Option<(usize, usize)>)
    ensures
        plans(
            planned,
            block_supported(*block),
            lower_block(*block, counters_at(temps, labels)).next,
        ),
    decreases *block,
{
    let ghost c = counters_at(temps, labels);
    proof {
        lemma_stmts_scoped(block.stmts@, c);
        if block.expr is Some {
            lemma_expr_scoped(block.expr->0, lower_stmts(block.stmts@, c).1);
        }
    }
    match plan_stmts(&block.stmts, temps, labels) {
        None => None,
        Some((t1, l1)) => match &block.expr {
            Some(e) => plan_expr(e, t1, l1),
            None => plan_temp(t1, l1),
        },
    }
}

} // verus!
