//! What lowering produces, as a function of the tree and of two counters.
//!
//! The result is stated over [`Slot`]s: a variable of the source program is
//! named by its handle, a generated temporary by its number. Which handle a
//! temporary gets depends on the interner, and [`resolve_ops`] fills it in
//! from the interner's table; the operations themselves, their order and
//! their labels depend on the tree and the counters alone.
//!
//! Lowering accepts some trees only ([`expr_supported`]). The functions
//! here have a value for the others too, but it means nothing: no engine
//! lowers them.

use vstd::prelude::*;
use crate::ast::{Block, Expr, ExprNode, Stmt, StmtNode, UnOpNode};
use crate::ir::{OpOf, OpView, OperandOf, PlaceOf, ValueOf, VarView};
use crate::ir::temps::temp_text;
use crate::session::first_index;

verus! {

/// A variable before temporaries have names.
pub enum Slot {
    /// A variable of the source program, by the handle of its name.
    Named(nat),
    /// The generated temporary of this number.
    Temp(nat),
}

/// The next temporary and the next label to hand out.
pub struct Counters {
    pub temps: nat,
    pub labels: nat,
}

impl Counters {
    /// The counters after one temporary was taken.
    pub open spec fn after_temp(self) -> Counters {
        Counters { temps: self.temps + 1, labels: self.labels }
    }

    /// The counters after `n` labels were taken.
    pub open spec fn after_labels(self, n: nat) -> Counters {
        Counters { temps: self.temps, labels: self.labels + n }
    }

    /// Both counters can be held in a machine word.
    pub open spec fn fits(self) -> bool {
        self.temps <= usize::MAX && self.labels <= usize::MAX
    }
}

/// The outcome of lowering one expression, statement or block.
pub struct Lowering {
    /// The operations, in the order in which they run.
    pub ops: Seq<OpOf<Slot>>,
    /// The variable that holds the value afterwards.
    pub result: Slot,
    /// The counters afterwards.
    pub next: Counters,
}

/// An operation that stores a readable value in a variable.
pub open spec fn store(target: Slot, value: OperandOf<Slot>) -> OpOf<Slot> {
    OpOf::Assign(PlaceOf::Var(target), ValueOf::Direct(value))
}

/// A jump or label annotation that holds nothing.
pub open spec fn no_vars() -> Set<Slot> {
    Set::empty()
}

/// A placeholder: no operation, and a fresh temporary that nothing assigns.
pub open spec fn placeholder(c: Counters) -> Lowering {
    Lowering { ops: Seq::empty(), result: Slot::Temp(c.temps), next: c.after_temp() }
}

/// The handle that a reference to a variable names: that of an identifier,
/// or of the last segment of a path. `None` for any other expression and
/// for a path without segments.
pub open spec fn referenced_name(e: Expr) -> Option<nat> {
    match e.val {
        ExprNode::IdentExpr(id) => Some(id.val.name@),
        ExprNode::PathExpr(path) => if path.val.elems@.len() > 0 {
            Some(path.val.elems@.last().val.name@)
        } else {
            None
        },
        _ => None,
    }
}

/// Whether lowering accepts the expression: every statement it reaches is
/// an expression statement, every assignment it reaches has a variable or a
/// dereference on its left, and every path it reaches has a segment.
pub open spec fn expr_supported(e: Expr) -> bool
    decreases e,
{
    match e.val {
        ExprNode::LitExpr(_) => true,
        ExprNode::IdentExpr(_) => true,
        ExprNode::PathExpr(_) => referenced_name(e) is Some,
        ExprNode::GroupExpr(inner) => expr_supported(*inner),
        ExprNode::BinOpExpr(_, left, right) => expr_supported(*left) && expr_supported(*right),
        ExprNode::AssignExpr(target, value) => expr_supported(*value) && match target.val {
            ExprNode::IdentExpr(_) => true,
            ExprNode::PathExpr(_) => referenced_name(*target) is Some,
            ExprNode::UnOpExpr(op, pointer) => op.val == UnOpNode::Deref && expr_supported(
                *pointer,
            ),
            _ => false,
        },
        ExprNode::BlockExpr(block) => block_supported(*block),
        ExprNode::IfExpr(cond, on_true, on_false) => expr_supported(*cond) && block_supported(
            *on_true,
        ) && block_supported(*on_false),
        ExprNode::WhileExpr(cond, body) => expr_supported(*cond) && block_supported(*body),
        _ => true,
    }
}

/// Whether lowering accepts the statement: a binding is never accepted.
pub open spec fn stmt_supported(s: Stmt) -> bool
    decreases s,
{
    match s.val {
        StmtNode::LetStmt(_, _) => false,
        StmtNode::ExprStmt(e) => expr_supported(e),
        StmtNode::SemiStmt(e) => expr_supported(e),
    }
}

/// Whether lowering accepts every statement of the sequence.
pub open spec fn stmts_supported(stmts: Seq<Stmt>) -> bool
    decreases stmts,
{
    if stmts.len() == 0 {
        true
    } else {
        stmts_supported(stmts.drop_last()) && stmt_supported(stmts.last())
    }
}

/// Whether lowering accepts the block: its statements and its final
/// expression. Nested items are not looked at.
pub open spec fn block_supported(b: Block) -> bool
    decreases b,
{
    stmts_supported(b.stmts@) && match b.expr {
        Some(e) => expr_supported(e),
        None => true,
    }
}

/// The lowering of an expression, starting from the counters `c`.
pub open spec fn lower_expr(e: Expr, c: Counters) -> Lowering
    decreases e,
{
    match e.val {
        ExprNode::LitExpr(lit) => Lowering {
            ops: seq![store(Slot::Temp(c.temps), OperandOf::Constant(lit.val@))],
            result: Slot::Temp(c.temps),
            next: c.after_temp(),
        },
        ExprNode::IdentExpr(_) | ExprNode::PathExpr(_) => match referenced_name(e) {
            Some(name) => Lowering { ops: Seq::empty(), result: Slot::Named(name), next: c },
            None => placeholder(c),
        },
        ExprNode::GroupExpr(inner) => lower_expr(*inner, c),
        ExprNode::BinOpExpr(op, left, right) => {
            let l = lower_expr(*left, c);
            let r = lower_expr(*right, l.next);
            let sum = Slot::Temp(r.next.temps);
            Lowering {
                ops: l.ops + r.ops + seq![
                    OpOf::Assign(
                        PlaceOf::Var(sum),
                        ValueOf::BinOp(
                            op.val,
                            OperandOf::Variable(l.result),
                            OperandOf::Variable(r.result),
                        ),
                    ),
                ],
                result: sum,
                next: r.next.after_temp(),
            }
        },
        ExprNode::AssignExpr(target, value) => {
            let v = lower_expr(*value, c);
            match target.val {
                ExprNode::UnOpExpr(_, pointer) => {
                    let p = lower_expr(*pointer, v.next);
                    Lowering {
                        ops: p.ops + v.ops + seq![
                            OpOf::Assign(
                                PlaceOf::Deref(p.result),
                                ValueOf::Direct(OperandOf::Variable(v.result)),
                            ),
                        ],
                        result: v.result,
                        next: p.next,
                    }
                },
                _ => match referenced_name(*target) {
                    Some(name) => Lowering {
                        ops: v.ops + seq![store(Slot::Named(name), OperandOf::Variable(v.result))],
                        result: v.result,
                        next: v.next,
                    },
                    None => v,
                },
            }
        },
        ExprNode::BlockExpr(block) => lower_block(*block, c),
        ExprNode::IfExpr(cond, on_true, on_false) => {
            let k = lower_expr(*cond, c);
            let t = lower_block(*on_true, k.next);
            let f = lower_block(*on_false, t.next);
            let true_label = f.next.labels;
            let joined = Slot::Temp(f.next.temps);
            Lowering {
                ops: k.ops + seq![
                    OpOf::CondGoto(OperandOf::Variable(k.result), true_label, no_vars()),
                ] + f.ops + seq![
                    store(joined, OperandOf::Variable(f.result)),
                    OpOf::Label(true_label, no_vars()),
                ] + t.ops + seq![store(joined, OperandOf::Variable(t.result))],
                result: joined,
                next: f.next.after_temp().after_labels(1),
            }
        },
        ExprNode::WhileExpr(cond, body) => {
            let begin = c.labels;
            let middle = c.labels + 1;
            let end = c.labels + 2;
            let k = lower_expr(*cond, c.after_labels(3));
            let b = lower_block(*body, k.next);
            Lowering {
                ops: seq![OpOf::Label(begin, no_vars())] + k.ops + seq![
                    OpOf::CondGoto(OperandOf::Variable(k.result), middle, no_vars()),
                    OpOf::Goto(end, no_vars()),
                    OpOf::Label(middle, no_vars()),
                ] + b.ops + seq![OpOf::Goto(begin, no_vars()), OpOf::Label(end, no_vars())],
                result: Slot::Temp(b.next.temps),
                next: b.next.after_temp(),
            }
        },
        _ => placeholder(c),
    }
}

/// The lowering of a statement: that of the expression it holds.
pub open spec fn lower_stmt(s: Stmt, c: Counters) -> Lowering
    decreases s,
{
    match s.val {
        StmtNode::LetStmt(_, _) => placeholder(c),
        StmtNode::ExprStmt(e) => lower_expr(e, c),
        StmtNode::SemiStmt(e) => lower_expr(e, c),
    }
}

/// The operations of a sequence of statements, one statement after the
/// other, and the counters afterwards. The values of the statements are
/// dropped.
pub open spec fn lower_stmts(stmts: Seq<Stmt>, c: Counters) -> (Seq<OpOf<Slot>>, Counters)
    decreases stmts,
{
    if stmts.len() == 0 {
        (Seq::empty(), c)
    } else {
        let (ops, mid) = lower_stmts(stmts.drop_last(), c);
        let last = lower_stmt(stmts.last(), mid);
        (ops + last.ops, last.next)
    }
}

/// The lowering of a block: its statements, then its final expression,
/// whose value is the value of the block. A block without a final
/// expression has a fresh temporary that nothing assigns as its value.
pub open spec fn lower_block(b: Block, c: Counters) -> Lowering
    decreases b,
{
    let (ops, mid) = lower_stmts(b.stmts@, c);
    match b.expr {
        Some(e) => {
            let tail = lower_expr(e, mid);
            Lowering { ops: ops + tail.ops, result: tail.result, next: tail.next }
        },
        None => Lowering { ops: ops, result: Slot::Temp(mid.temps), next: mid.after_temp() },
    }
}

/// The handle of the `n`-th temporary in a table that holds its name.
pub open spec fn temp_handle(table: Seq<Seq<char>>, n: nat) -> nat {
    first_index(table, temp_text(n))
}

/// The variable that a slot stands for, with temporaries named by `table`.
/// The generation is unset.
pub open spec fn resolve_slot(s: Slot, table: Seq<Seq<char>>) -> VarView {
    match s {
        Slot::Named(name) => VarView { name: name, generation: None },
        Slot::Temp(n) => VarView { name: temp_handle(table, n), generation: None },
    }
}

/// The place with its slot replaced by the variable it stands for.
pub open spec fn resolve_place(p: PlaceOf<Slot>, table: Seq<Seq<char>>) -> PlaceOf<VarView> {
    match p {
        PlaceOf::Var(s) => PlaceOf::Var(resolve_slot(s, table)),
        PlaceOf::Deref(s) => PlaceOf::Deref(resolve_slot(s, table)),
    }
}

/// The readable value with its slot replaced by the variable it stands
/// for; a constant stays as it is.
pub open spec fn resolve_operand(o: OperandOf<Slot>, table: Seq<Seq<char>>) -> OperandOf<
    VarView,
> {
    match o {
        OperandOf::Variable(s) => OperandOf::Variable(resolve_slot(s, table)),
        OperandOf::Constant(lit) => OperandOf::Constant(lit),
    }
}

/// The right-hand side with every slot replaced by the variable it stands
/// for.
pub open spec fn resolve_value(v: ValueOf<Slot>, table: Seq<Seq<char>>) -> ValueOf<VarView> {
    match v {
        ValueOf::BinOp(op, a, b) => ValueOf::BinOp(
            op,
            resolve_operand(a, table),
            resolve_operand(b, table),
        ),
        ValueOf::Direct(a) => ValueOf::Direct(resolve_operand(a, table)),
    }
}

/// The variables that the slots of an annotation stand for.
pub open spec fn resolve_vars(vars: Set<Slot>, table: Seq<Seq<char>>) -> Set<VarView> {
    vars.map(|s: Slot| resolve_slot(s, table))
}

/// The operation with every slot replaced by the variable it stands for.
pub open spec fn resolve_op(op: OpOf<Slot>, table: Seq<Seq<char>>) -> OpView {
    match op {
        OpOf::Assign(place, value) => OpOf::Assign(
            resolve_place(place, table),
            resolve_value(value, table),
        ),
        OpOf::Goto(label, vars) => OpOf::Goto(label, resolve_vars(vars, table)),
        OpOf::CondGoto(cond, label, vars) => OpOf::CondGoto(
            resolve_operand(cond, table),
            label,
            resolve_vars(vars, table),
        ),
        OpOf::Label(label, vars) => OpOf::Label(label, resolve_vars(vars, table)),
    }
}

/// The stream with every slot replaced by the variable it stands for.
pub open spec fn resolve_ops(ops: Seq<OpOf<Slot>>, table: Seq<Seq<char>>) -> Seq<OpView> {
    ops.map_values(|op: OpOf<Slot>| resolve_op(op, table))
}

} // verus!
