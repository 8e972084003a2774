//! Lowering of the syntax tree to the intermediate representation.

use vstd::prelude::*;
use std::collections::BTreeSet;
use crate::ast::{Block, Expr, ExprNode, Stmt, StmtNode};
use crate::ir::{
    LValue, Op, OpOf, OperandOf, PlaceOf, RValue, RValueElem, ValueOf, Var, lemma_no_vars,
    ops_view,
};
use crate::ir::lowering::{
    Counters, Lowering, Slot, block_supported, expr_supported, lower_block, lower_expr, lower_stmt,
    lower_stmts, no_vars, resolve_ops, resolve_slot, resolve_vars, stmt_supported,
    stmts_supported, store,
};
use crate::ir::plan::{plan_block, plan_expr, plan_stmt};
use crate::ir::scope::{
    lemma_block_scoped, lemma_block_settled, lemma_expr_scoped, lemma_expr_settled,
    lemma_stmt_scoped, lemma_stmts_scoped, lemma_stmts_settled, lemma_stmts_step,
    lemma_stmts_take, lemma_views_concat, lemma_views_empty, lemma_views_push,
};
use crate::ir::temps::{
    intern_temps, lemma_extends_trans, lemma_intern_temps_unfold, lemma_interned,
    lemma_runs_join, temp_string, temp_text,
};
use crate::session::Interner;

verus! {

/// The lowering engine: the counters for fresh temporaries and labels, and
/// the interner that names the temporaries.
///
/// The engine borrows the interner for as long as it lives. Every method
/// that changes the engine says that the engine still holds the same
/// borrow (`*final(final(self).interner) == *final(old(self).interner)`),
/// so that the owner of the interner finds in it, once the engine is gone,
/// what the engine left there.
pub struct ASTToIntermediate<'a> {
    pub var_count: usize,
    pub label_count: usize,
    pub interner: &'a mut Interner,
}

impl<'a> ASTToIntermediate<'a> {
    /// The next temporary and the next label that this engine hands out.
    pub open spec fn counters(&self) -> Counters {
        Counters { temps: self.var_count as nat, labels: self.label_count as nat }
    }

    /// The table of the interner, as it is now.
    pub open spec fn names(&self) -> Seq<Seq<char>> {
        self.interner@
    }

    /// The engine `self` came from `before` by a lowering that gave `low`,
    /// and `out` is what that lowering handed back: the counters are those
    /// of `low`; the interner took in the names of the temporaries in the
    /// order of their numbers; the operations and the result are those of
    /// `low`, each temporary under its name.
    pub open spec fn produced(
        &self,
        before: &ASTToIntermediate<'a>,
        out: (Vec<Op>, Var),
        low: Lowering,
    ) -> bool {
        &&& self.counters() == low.next
        &&& self.names() == intern_temps(before.names(), before.counters().temps, low.next.temps)
        &&& ops_view(out.0@) == resolve_ops(low.ops, self.names())
        &&& out.1@ == resolve_slot(low.result, self.names())
    }

    /// An engine whose counters are zero.
    pub fn new(interner: &'a mut Interner) -> (engine: ASTToIntermediate<'a>)
        ensures
            engine.counters() == (Counters { temps: 0, labels: 0 }),
            engine.names() == old(interner)@,
            *final(interner) == *final(engine.interner),
    {
        ASTToIntermediate { var_count: 0, label_count: 0, interner: interner }
    }

    /// Whether `convert_expr` can be called on the expression: it is
    /// accepted, and the counters can count the temporaries and labels that
    /// its lowering takes.
    pub fn can_convert_expr(&self, expr: &Expr) -> (ok: bool)
        ensures
            ok == (expr_supported(*expr) && lower_expr(*expr, self.counters()).next.fits()),
    {
        plan_expr(expr, self.var_count, self.label_count).is_some()
    }

    /// Whether `convert_stmt` can be called on the statement.
    pub fn can_convert_stmt(&self, stmt: &Stmt) -> (ok: bool)
        ensures
            ok == (stmt_supported(*stmt) && lower_stmt(*stmt, self.counters()).next.fits()),
    {
        plan_stmt(stmt, self.var_count, self.label_count).is_some()
    }

    /// Whether `convert_block` can be called on the block.
    pub fn can_convert_block(&self, block: &Block) -> (ok: bool)
        ensures
            ok == (block_supported(*block) && lower_block(*block, self.counters()).next.fits()),
    {
        plan_block(block, self.var_count, self.label_count).is_some()
    }

    /// A fresh temporary: the variable whose name is `TEMP` followed by the
    /// counter, which goes up by one.
    fn gen_temp(&mut self) -> (v: Var)
        requires
            old(self).counters().temps < usize::MAX,
        ensures
            final(self).counters() == old(self).counters().after_temp(),
            final(self).names() == intern_temps(
                old(self).names(),
                old(self).counters().temps,
                old(self).counters().temps + 1,
            ),
            v@ == resolve_slot(Slot::Temp(old(self).counters().temps), final(self).names()),
            *final(final(self).interner) == *final(old(self).interner),
    {
        let name = self.interner.intern(temp_string(self.var_count));
        proof {
            lemma_interned(old(self).names(), temp_text(self.var_count as nat));
            lemma_intern_temps_unfold(
                old(self).names(),
                self.var_count as nat,
                self.var_count as nat,
            );
        }
        self.var_count += 1;
        Var { name: name, generation: None }
    }

    /// Lowers a statement: the expression that it holds.
    pub fn convert_stmt(&mut self, stmt: &Stmt) -> (out: (Vec<Op>, Var))
        requires
            stmt_supported(*stmt),
            lower_stmt(*stmt, old(self).counters()).next.fits(),
        ensures
            final(self).counters() == lower_stmt(*stmt, old(self).counters()).next,
            final(self).names() == intern_temps(
                old(self).names(),
                old(self).counters().temps,
                final(self).counters().temps,
            ),
            ops_view(out.0@) == resolve_ops(
                lower_stmt(*stmt, old(self).counters()).ops,
                final(self).names(),
            ),
            out.1@ == resolve_slot(
                lower_stmt(*stmt, old(self).counters()).result,
                final(self).names(),
            ),
            *final(final(self).interner) == *final(old(self).interner),
        decreases *stmt, 0nat,
    {
        match &stmt.val {
            StmtNode::ExprStmt(e) => self.convert_expr(e),
            StmtNode::SemiStmt(e) => self.convert_expr(e),
            StmtNode::LetStmt(_, _) => unreached(),
        }
    }

    /// Lowers the statements of a block, one after the other.
    fn convert_stmts(&mut self, stmts: &Vec<Stmt>) -> (ops: Vec<Op>)
        requires
            stmts_supported(stmts@),
            lower_stmts(stmts@, old(self).counters()).1.fits(),
        ensures
            final(self).counters() == lower_stmts(stmts@, old(self).counters()).1,
            final(self).names() == intern_temps(
                old(self).names(),
                old(self).counters().temps,
                final(self).counters().temps,
            ),
            ops_view(ops@) == resolve_ops(
                lower_stmts(stmts@, old(self).counters()).0,
                final(self).names(),
            ),
            *final(final(self).interner) == *final(old(self).interner),
        decreases *stmts, 0nat,
    {
        let ghost c0 = self.counters();
        let ghost n0 = self.names();
        let mut ops: Vec<Op> = Vec::new();
        let mut i: usize = 0;
        proof {
            lemma_intern_temps_unfold(n0, c0.temps, c0.temps);
            assert(stmts@.take(0) =~= Seq::<Stmt>::empty());
            lemma_views_empty(n0);
        }
        while i < stmts.len()
            invariant
                i <= stmts.len(),
                stmts_supported(stmts@),
                lower_stmts(stmts@, c0).1.fits(),
                c0.temps <= self.counters().temps,
                self.counters() == lower_stmts(stmts@.take(i as int), c0).1,
                self.names() == intern_temps(n0, c0.temps, self.counters().temps),
                ops_view(ops@) == resolve_ops(
                    lower_stmts(stmts@.take(i as int), c0).0,
                    self.names(),
                ),
                *final(self.interner) == *final(old(self).interner),
            decreases stmts.len() - i,
        {
            let ghost ci = self.counters();
            let ghost ni = self.names();
            let ghost before = ops@;
            proof {
                lemma_stmts_step(stmts@, c0, i as int);
                lemma_stmts_take(stmts@, c0, i as int);
                lemma_stmts_take(stmts@, c0, i as int + 1);
                lemma_stmt_scoped(stmts@[i as int], ci);
            }
            let (mut new_ops, _) = self.convert_stmt(&stmts[i]);
            let ghost added = new_ops@;
            ops.append(&mut new_ops);
            proof {
                let nj = self.names();
                lemma_runs_join(n0, c0.temps, ni, ci.temps, nj, self.counters().temps);
                lemma_stmts_settled(stmts@.take(i as int), c0, n0, nj);
                lemma_views_concat(
                    before,
                    added,
                    lower_stmts(stmts@.take(i as int), c0).0,
                    lower_stmt(stmts@[i as int], ci).ops,
                    nj,
                );
            }
            i += 1;
        }
        proof {
            assert(stmts@.take(i as int) =~= stmts@);
        }
        ops
    }

    /// Lowers a block: its statements in order, then its final expression.
    pub fn convert_block(&mut self, block: &Block) -> (out: (Vec<Op>, Var))
        requires
            block_supported(*block),
            lower_block(*block, old(self).counters()).next.fits(),
        ensures
            final(self).counters() == lower_block(*block, old(self).counters()).next,
            final(self).names() == intern_temps(
                old(self).names(),
                old(self).counters().temps,
                final(self).counters().temps,
            ),
            ops_view(out.0@) == resolve_ops(
                lower_block(*block, old(self).counters()).ops,
                final(self).names(),
            ),
            out.1@ == resolve_slot(
                lower_block(*block, old(self).counters()).result,
                final(self).names(),
            ),
            *final(final(self).interner) == *final(old(self).interner),
        decreases *block, 0nat,
    {
        let ghost c0 = self.counters();
        let ghost n0 = self.names();
        proof {
            lemma_stmts_scoped(block.stmts@, c0);
            if block.expr is Some {
                lemma_expr_scoped(block.expr->0, lower_stmts(block.stmts@, c0).1);
            }
        }
        let mut ops = self.convert_stmts(&block.stmts);
        let ghost cm = self.counters();
        let ghost nm = self.names();
        let ghost before = ops@;
        match &block.expr {
            Some(e) => {
                let (mut new_ops, new_var) = self.convert_expr(e);
                let ghost added = new_ops@;
                ops.append(&mut new_ops);
                proof {
                    let nf = self.names();
                    lemma_runs_join(n0, c0.temps, nm, cm.temps, nf, self.counters().temps);
                    lemma_stmts_settled(block.stmts@, c0, n0, nf);
                    lemma_views_concat(
                        before,
                        added,
                        lower_stmts(block.stmts@, c0).0,
                        lower_expr(*e, cm).ops,
                        nf,
                    );
                }
                (ops, new_var)
            },
            None => {
                let v = self.gen_temp();
                proof {
                    let nf = self.names();
                    lemma_runs_join(n0, c0.temps, nm, cm.temps, nf, cm.temps + 1);
                    lemma_stmts_settled(block.stmts@, c0, n0, nf);
                }
                (ops, v)
            },
        }
    }

    /// Lowers an expression to operations that compute it, in the order of
    /// evaluation, and the variable that holds its value afterwards.
    pub fn convert_expr(&mut self, expr: &Expr) -> (out: (Vec<Op>, Var))
        requires
            expr_supported(*expr),
            lower_expr(*expr, old(self).counters()).next.fits(),
        ensures
            final(self).counters() == lower_expr(*expr, old(self).counters()).next,
            final(self).names() == intern_temps(
                old(self).names(),
                old(self).counters().temps,
                final(self).counters().temps,
            ),
            ops_view(out.0@) == resolve_ops(
                lower_expr(*expr, old(self).counters()).ops,
                final(self).names(),
            ),
            out.1@ == resolve_slot(
                lower_expr(*expr, old(self).counters()).result,
                final(self).names(),
            ),
            *final(final(self).interner) == *final(old(self).interner),
        decreases *expr, 1nat,
    {
        let ghost c0 = self.counters();
        let ghost n0 = self.names();
        let ghost low = lower_expr(*expr, c0);
        proof {
            lemma_intern_temps_unfold(n0, c0.temps, c0.temps);
            lemma_no_vars();
            assert(resolve_vars(Set::<Slot>::empty(), n0) =~= Set::empty());
        }
        match &expr.val {
            ExprNode::LitExpr(lit) => {
                let res_var = self.gen_temp();
                let insts = vec![
                    Op::Assign(
                        LValue::VarLValue(res_var),
                        RValue::DirectRValue(RValueElem::Constant(lit.val.clone())),
                    ),
                ];
                proof {
                    assert(ops_view(insts@) =~= resolve_ops(low.ops, self.names()));
                }
                (insts, res_var)
            },
            ExprNode::IdentExpr(id) => {
                let insts: Vec<Op> = Vec::new();
                proof {
                    assert(ops_view(insts@) =~= resolve_ops(low.ops, self.names()));
                }
                (insts, Var { name: id.val.name, generation: None })
            },
            ExprNode::PathExpr(path) => {
                let insts: Vec<Op> = Vec::new();
                proof {
                    assert(ops_view(insts@) =~= resolve_ops(low.ops, self.names()));
                }
                let last = &path.val.elems[path.val.elems.len() - 1];
                (insts, Var { name: last.val.name, generation: None })
            },
            ExprNode::GroupExpr(inner) => self.convert_expr(inner),
            ExprNode::BlockExpr(block) => self.convert_block(block),
            ExprNode::BinOpExpr(_, _, _) => self.convert_bin_op(expr),
            ExprNode::AssignExpr(_, _) => self.convert_assign(expr),
            ExprNode::IfExpr(_, _, _) => self.convert_if(expr),
            ExprNode::WhileExpr(_, _) => self.convert_while(expr),
            _ => {
                let insts: Vec<Op> = Vec::new();
                let v = self.gen_temp();
                proof {
                    assert(ops_view(insts@) =~= resolve_ops(low.ops, self.names()));
                }
                (insts, v)
            },
        }
    }

    /// Lowers a binary operation: the left operand, the right operand, then
    /// the operation on the two results.
    fn convert_bin_op(&mut self, expr: &Expr) -> (out: (Vec<Op>, Var))
        requires
            expr.val is BinOpExpr,
            expr_supported(*expr),
            lower_expr(*expr, old(self).counters()).next.fits(),
        ensures
            final(self).produced(old(self), out, lower_expr(*expr, old(self).counters())),
            *final(final(self).interner) == *final(old(self).interner),
        decreases *expr, 0nat,
    {
        let ghost c0 = self.counters();
        let ghost n0 = self.names();
        let ghost low = lower_expr(*expr, c0);
        proof {
            lemma_no_vars();
        }
        match &expr.val {
            ExprNode::BinOpExpr(op, e1, e2) => {
                let ghost l1 = lower_expr(**e1, c0);
                let ghost l2 = lower_expr(**e2, l1.next);
                proof {
                    lemma_expr_scoped(**e1, c0);
                    lemma_expr_scoped(**e2, l1.next);
                }
                let (mut insts1, var1) = self.convert_expr(e1);
                let ghost n1 = self.names();
                let (mut insts2, var2) = self.convert_expr(e2);
                let ghost n2 = self.names();
                let new_res = self.gen_temp();
                let ghost nf = self.names();
                let ghost joined = insts1@ + insts2@;
                let ghost sum = OpOf::Assign(
                    PlaceOf::Var(Slot::Temp(l2.next.temps)),
                    ValueOf::BinOp(
                        op.val,
                        OperandOf::Variable(l1.result),
                        OperandOf::Variable(l2.result),
                    ),
                );
                proof {
                    lemma_runs_join(n0, c0.temps, n1, l1.next.temps, n2, l2.next.temps);
                    lemma_runs_join(n0, c0.temps, n2, l2.next.temps, nf, l2.next.temps + 1);
                    lemma_extends_trans(nf, n2, n1);
                    lemma_expr_settled(**e1, c0, n0, nf);
                    lemma_expr_settled(**e2, l1.next, n1, nf);
                    lemma_views_concat(insts1@, insts2@, l1.ops, l2.ops, nf);
                }
                insts1.append(&mut insts2);
                let assign = Op::Assign(
                    LValue::VarLValue(new_res),
                    RValue::BinOpRValue(
                        op.val,
                        RValueElem::Variable(var1),
                        RValueElem::Variable(var2),
                    ),
                );
                proof {
                    lemma_views_push(joined, assign, l1.ops + l2.ops, sum, nf);
                    assert(low.ops =~= (l1.ops + l2.ops).push(sum));
                }
                insts1.push(assign);
                (insts1, new_res)
            },
            _ => unreached(),
        }
    }

    /// Lowers an assignment: the operations that find the place, those that
    /// compute the value, then the store.
    fn convert_assign(&mut self, expr: &Expr) -> (out: (Vec<Op>, Var))
        requires
            expr.val is AssignExpr,
            expr_supported(*expr),
            lower_expr(*expr, old(self).counters()).next.fits(),
        ensures
            final(self).produced(old(self), out, lower_expr(*expr, old(self).counters())),
            *final(final(self).interner) == *final(old(self).interner),
        decreases *expr, 0nat,
    {
        let ghost c0 = self.counters();
        let ghost n0 = self.names();
        let ghost low = lower_expr(*expr, c0);
        proof {
            lemma_no_vars();
        }
        match &expr.val {
            ExprNode::AssignExpr(target, value) => {
                let ghost lv = lower_expr(**value, c0);
                proof {
                    lemma_expr_scoped(**value, c0);
                }
                match &target.val {
                    ExprNode::UnOpExpr(_, pointer) => {
                        let ghost lp = lower_expr(**pointer, lv.next);
                        proof {
                            lemma_expr_scoped(**pointer, lv.next);
                        }
                        let (mut insts2, var2) = self.convert_expr(value);
                        let ghost n1 = self.names();
                        let (mut res, var) = self.convert_expr(pointer);
                        let ghost nf = self.names();
                        let ghost joined = res@ + insts2@;
                        let ghost write = OpOf::Assign(
                            PlaceOf::Deref(lp.result),
                            ValueOf::Direct(OperandOf::Variable(lv.result)),
                        );
                        proof {
                            lemma_runs_join(n0, c0.temps, n1, lv.next.temps, nf, lp.next.temps);
                            lemma_expr_settled(**value, c0, n0, nf);
                            lemma_views_concat(res@, insts2@, lp.ops, lv.ops, nf);
                        }
                        res.append(&mut insts2);
                        let assign = Op::Assign(
                            LValue::PtrLValue(var),
                            RValue::DirectRValue(RValueElem::Variable(var2)),
                        );
                        proof {
                            lemma_views_push(joined, assign, lp.ops + lv.ops, write, nf);
                            assert(low.ops =~= (lp.ops + lv.ops).push(write));
                        }
                        res.push(assign);
                        (res, var2)
                    },
                    ExprNode::IdentExpr(id) => {
                        let (mut res, var2) = self.convert_expr(value);
                        let ghost before = res@;
                        let ghost write = store(
                            Slot::Named(id.val.name@),
                            OperandOf::Variable(lv.result),
                        );
                        let assign = Op::Assign(
                            LValue::VarLValue(Var { name: id.val.name, generation: None }),
                            RValue::DirectRValue(RValueElem::Variable(var2)),
                        );
                        proof {
                            lemma_views_push(before, assign, lv.ops, write, self.names());
                            assert(low.ops =~= lv.ops.push(write));
                        }
                        res.push(assign);
                        (res, var2)
                    },
                    ExprNode::PathExpr(path) => {
                        let (mut res, var2) = self.convert_expr(value);
                        let last = &path.val.elems[path.val.elems.len() - 1];
                        let ghost before = res@;
                        let ghost write = store(
                            Slot::Named(last.val.name@),
                            OperandOf::Variable(lv.result),
                        );
                        let assign = Op::Assign(
                            LValue::VarLValue(Var { name: last.val.name, generation: None }),
                            RValue::DirectRValue(RValueElem::Variable(var2)),
                        );
                        proof {
                            lemma_views_push(before, assign, lv.ops, write, self.names());
                            assert(low.ops =~= lv.ops.push(write));
                        }
                        res.push(assign);
                        (res, var2)
                    },
                    _ => unreached(),
                }
            },
            _ => unreached(),
        }
    }

    /// Lowers a conditional: both branches are laid out, the false branch
    /// first, and a conditional jump leads to the true branch.
    fn convert_if(&mut self, expr: &Expr) -> (out: (Vec<Op>, Var))
        requires
            expr.val is IfExpr,
            expr_supported(*expr),
            lower_expr(*expr, old(self).counters()).next.fits(),
        ensures
            final(self).produced(old(self), out, lower_expr(*expr, old(self).counters())),
            *final(final(self).interner) == *final(old(self).interner),
        decreases *expr, 0nat,
    {
        let ghost c0 = self.counters();
        let ghost n0 = self.names();
        let ghost low = lower_expr(*expr, c0);
        proof {
            lemma_no_vars();
        }
        match &expr.val {
            ExprNode::IfExpr(cond, on_true, on_false) => {
                let ghost lk = lower_expr(**cond, c0);
                let ghost lt = lower_block(**on_true, lk.next);
                let ghost lf = lower_block(**on_false, lt.next);
                proof {
                    lemma_expr_scoped(**cond, c0);
                    lemma_block_scoped(**on_true, lk.next);
                    lemma_block_scoped(**on_false, lt.next);
                }
                let (mut insts, if_var) = self.convert_expr(cond);
                let ghost n1 = self.names();
                let (mut b1_insts, b1_var) = self.convert_block(on_true);
                let ghost n2 = self.names();
                let (mut b2_insts, b2_var) = self.convert_block(on_false);
                let ghost n3 = self.names();
                let b1_label = self.gen_label();
                let ghost n4 = self.names();
                let end_var = self.gen_temp();
                let ghost nf = self.names();
                let ghost joined = Slot::Temp(lf.next.temps);
                let ghost label = lf.next.labels;
                proof {
                    lemma_runs_join(n0, c0.temps, n1, lk.next.temps, n2, lt.next.temps);
                    lemma_runs_join(n0, c0.temps, n2, lt.next.temps, n3, lf.next.temps);
                    lemma_runs_join(n0, c0.temps, n3, lf.next.temps, n4, lf.next.temps);
                    lemma_runs_join(n0, c0.temps, n4, lf.next.temps, nf, lf.next.temps + 1);
                    lemma_extends_trans(nf, n4, n3);
                    lemma_extends_trans(nf, n3, n2);
                    lemma_extends_trans(nf, n2, n1);
                    lemma_expr_settled(**cond, c0, n0, nf);
                    lemma_block_settled(**on_true, lk.next, n1, nf);
                    lemma_block_settled(**on_false, lt.next, n2, nf);
                    assert(resolve_vars(Set::<Slot>::empty(), nf) =~= Set::empty());
                }
                let ghost mut sk = lk.ops;
                let jump = Op::CondGoto(RValueElem::Variable(if_var), b1_label, BTreeSet::new());
                proof {
                    let s = OpOf::CondGoto(OperandOf::Variable(lk.result), label, no_vars());
                    lemma_views_push(insts@, jump, sk, s, nf);
                    sk = sk.push(s);
                }
                insts.push(jump);
                proof {
                    lemma_views_concat(insts@, b2_insts@, sk, lf.ops, nf);
                    sk = sk + lf.ops;
                }
                insts.append(&mut b2_insts);
                let on_false_value = Op::Assign(
                    LValue::VarLValue(end_var),
                    RValue::DirectRValue(RValueElem::Variable(b2_var)),
                );
                proof {
                    let s = store(joined, OperandOf::Variable(lf.result));
                    lemma_views_push(insts@, on_false_value, sk, s, nf);
                    sk = sk.push(s);
                }
                insts.push(on_false_value);
                let mark = Op::Label(b1_label, BTreeSet::new());
                proof {
                    let s = OpOf::Label(label, no_vars());
                    lemma_views_push(insts@, mark, sk, s, nf);
                    sk = sk.push(s);
                }
                insts.push(mark);
                proof {
                    lemma_views_concat(insts@, b1_insts@, sk, lt.ops, nf);
                    sk = sk + lt.ops;
                }
                insts.append(&mut b1_insts);
                let on_true_value = Op::Assign(
                    LValue::VarLValue(end_var),
                    RValue::DirectRValue(RValueElem::Variable(b1_var)),
                );
                proof {
                    let s = store(joined, OperandOf::Variable(lt.result));
                    lemma_views_push(insts@, on_true_value, sk, s, nf);
                    sk = sk.push(s);
                    assert(low.ops =~= sk);
                }
                insts.push(on_true_value);
                (insts, end_var)
            },
            _ => unreached(),
        }
    }

    /// Lowers a loop to labels and jumps.
    fn convert_while(&mut self, expr: &Expr) -> (out: (Vec<Op>, Var))
        requires
            expr.val is WhileExpr,
            expr_supported(*expr),
            lower_expr(*expr, old(self).counters()).next.fits(),
        ensures
            final(self).produced(old(self), out, lower_expr(*expr, old(self).counters())),
            *final(final(self).interner) == *final(old(self).interner),
        decreases *expr, 0nat,
    {
        let ghost c0 = self.counters();
        let ghost n0 = self.names();
        let ghost low = lower_expr(*expr, c0);
        proof {
            lemma_no_vars();
        }
        match &expr.val {
            ExprNode::WhileExpr(cond, body) => {
                let ghost lk = lower_expr(**cond, c0.after_labels(3));
                let ghost lb = lower_block(**body, lk.next);
                proof {
                    lemma_expr_scoped(**cond, c0.after_labels(3));
                    lemma_block_scoped(**body, lk.next);
                }
                let begin_label = self.gen_label();
                let middle_label = self.gen_label();
                let end_label = self.gen_label();
                let ghost n1 = self.names();
                let (mut cond_insts, cond_var) = self.convert_expr(cond);
                let ghost n2 = self.names();
                let (mut block_insts, _) = self.convert_block(body);
                let ghost n3 = self.names();
                let res_var = self.gen_temp();
                let ghost nf = self.names();
                proof {
                    assert(n1 == n0);
                    lemma_runs_join(n0, c0.temps, n1, c0.temps, n2, lk.next.temps);
                    lemma_runs_join(n0, c0.temps, n2, lk.next.temps, n3, lb.next.temps);
                    lemma_runs_join(n0, c0.temps, n3, lb.next.temps, nf, lb.next.temps + 1);
                    lemma_extends_trans(nf, n3, n2);
                    lemma_expr_settled(**cond, c0.after_labels(3), n1, nf);
                    lemma_block_settled(**body, lk.next, n2, nf);
                    assert(resolve_vars(Set::<Slot>::empty(), nf) =~= Set::empty());
                }
                let mut res = vec![Op::Label(begin_label, BTreeSet::new())];
                let ghost mut sk = seq![OpOf::Label(c0.labels, no_vars())];
                proof {
                    assert(ops_view(res@) =~= resolve_ops(sk, nf));
                    lemma_views_concat(res@, cond_insts@, sk, lk.ops, nf);
                    sk = sk + lk.ops;
                }
                res.append(&mut cond_insts);
                let test = Op::CondGoto(
                    RValueElem::Variable(cond_var),
                    middle_label,
                    BTreeSet::new(),
                );
                proof {
                    let s = OpOf::CondGoto(
                        OperandOf::Variable(lk.result),
                        c0.labels + 1,
                        no_vars(),
                    );
                    lemma_views_push(res@, test, sk, s, nf);
                    sk = sk.push(s);
                }
                res.push(test);
                let leave = Op::Goto(end_label, BTreeSet::new());
                proof {
                    let s = OpOf::Goto(c0.labels + 2, no_vars());
                    lemma_views_push(res@, leave, sk, s, nf);
                    sk = sk.push(s);
                }
                res.push(leave);
                let enter = Op::Label(middle_label, BTreeSet::new());
                proof {
                    let s = OpOf::Label(c0.labels + 1, no_vars());
                    lemma_views_push(res@, enter, sk, s, nf);
                    sk = sk.push(s);
                    lemma_views_concat(res@.push(enter), block_insts@, sk, lb.ops, nf);
                    sk = sk + lb.ops;
                }
                res.push(enter);
                res.append(&mut block_insts);
                let again = Op::Goto(begin_label, BTreeSet::new());
                proof {
                    let s = OpOf::Goto(c0.labels, no_vars());
                    lemma_views_push(res@, again, sk, s, nf);
                    sk = sk.push(s);
                }
                res.push(again);
                let done = Op::Label(end_label, BTreeSet::new());
                proof {
                    let s = OpOf::Label(c0.labels + 2, no_vars());
                    lemma_views_push(res@, done, sk, s, nf);
                    sk = sk.push(s);
                    assert(low.ops =~= sk);
                }
                res.push(done);
                (res, res_var)
            },
            _ => unreached(),
        }
    }

    /// A fresh label: the counter, which goes up by one.
    fn gen_label(&mut self) -> (label: usize)
        requires
            old(self).counters().labels < usize::MAX,
        ensures
            final(self).counters() == old(self).counters().after_labels(1),
            final(self).names() == intern_temps(
                old(self).names(),
                old(self).counters().temps,
                old(self).counters().temps,
            ),
            label == old(self).counters().labels,
            *final(final(self).interner) == *final(old(self).interner),
    {
        proof {
            lemma_intern_temps_unfold(
                old(self).names(),
                self.var_count as nat,
                self.var_count as nat,
            );
        }
        let res = self.label_count;
        self.label_count += 1;
        res
    }
}

} // verus!
