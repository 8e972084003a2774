use std::collections::BTreeSet;

use lowering::ast::{
    BinOp, BinOpNode, Block, Expr, ExprNode, Ident, IdentNode, Lit, LitNode, NodeId, Pat,
    PatNode, Path, PathNode, Stmt, StmtNode, UnOp, UnOpNode, WithId,
};
use lowering::ir::ast_to_intermediate::ASTToIntermediate;
use lowering::ir::{LValue, Op, RValue, RValueElem, Var};
use lowering::session::{Interner, Name};
use lowering::util::{IntKind, Width};

fn node<T>(val: T) -> WithId<T> {
    WithId { id: NodeId(0), val }
}

fn u8_kind() -> IntKind {
    IntKind::UnsignedInt(Width::Width8)
}

fn num(n: u64) -> Expr {
    let lit: Lit = node(LitNode::NumLit(n, u8_kind()));
    node(ExprNode::LitExpr(lit))
}

fn ident(name: Name) -> Ident {
    node(IdentNode { tps: None, name })
}

fn var_ref(name: Name) -> Expr {
    node(ExprNode::IdentExpr(ident(name)))
}

fn bin(op: BinOpNode, l: Expr, r: Expr) -> Expr {
    let op: BinOp = node(op);
    node(ExprNode::BinOpExpr(op, Box::new(l), Box::new(r)))
}

fn assign(target: Expr, value: Expr) -> Expr {
    node(ExprNode::AssignExpr(Box::new(target), Box::new(value)))
}

fn deref(e: Expr) -> Expr {
    let op: UnOp = node(UnOpNode::Deref);
    node(ExprNode::UnOpExpr(op, Box::new(e)))
}

fn block(stmts: Vec<Stmt>, expr: Option<Expr>) -> Block {
    Block { items: Vec::new(), stmts, expr }
}

fn semi(e: Expr) -> Stmt {
    node(StmtNode::SemiStmt(e))
}

fn let_stmt(name: Name) -> Stmt {
    let pat: Pat = node(PatNode::IdentPat(ident(name), None));
    node(StmtNode::LetStmt(pat, Some(num(1))))
}

fn var(name: Name) -> Var {
    Var { name, generation: None }
}

fn set_const(target: Var, n: u64) -> Op {
    Op::Assign(
        LValue::VarLValue(target),
        RValue::DirectRValue(RValueElem::Constant(LitNode::NumLit(n, u8_kind()))),
    )
}

fn set_var(target: Var, source: Var) -> Op {
    Op::Assign(LValue::VarLValue(target), RValue::DirectRValue(RValueElem::Variable(source)))
}

fn label(l: usize) -> Op {
    Op::Label(l, BTreeSet::new())
}

fn goto(l: usize) -> Op {
    Op::Goto(l, BTreeSet::new())
}

fn cond_goto(v: Var, l: usize) -> Op {
    Op::CondGoto(RValueElem::Variable(v), l, BTreeSet::new())
}

/// An interner that holds `x`, `y`, `p` and `c` at the handles 0 to 3.
fn source_names() -> (Interner, Name, Name, Name, Name) {
    let mut interner = Interner::new();
    let x = interner.intern("x".to_string());
    let y = interner.intern("y".to_string());
    let p = interner.intern("p".to_string());
    let c = interner.intern("c".to_string());
    (interner, x, y, p, c)
}

fn text_of(interner: &Interner, v: &Var) -> String {
    interner.lookup(v.name).expect("a name of this interner").clone()
}

#[test]
fn literal_lowers_to_one_assignment() {
    let mut interner = Interner::new();
    let mut engine = ASTToIntermediate::new(&mut interner);
    assert!(engine.can_convert_expr(&num(5)));
    let (ops, result) = engine.convert_expr(&num(5));
    assert_eq!(engine.var_count, 1);
    assert_eq!(engine.label_count, 0);
    let t0 = var(Name(0));
    assert_eq!(result, t0);
    assert_eq!(ops, vec![set_const(t0, 5)]);
    assert_eq!(text_of(&interner, &t0), "TEMP0");
    assert_eq!(interner.len(), 1);
}

#[test]
fn identifier_lowers_to_its_variable_without_operations() {
    let (mut interner, x, _, _, _) = source_names();
    let mut engine = ASTToIntermediate::new(&mut interner);
    let (ops, result) = engine.convert_expr(&var_ref(x));
    assert_eq!(ops, Vec::<Op>::new());
    assert_eq!(result, var(x));
    assert_eq!(engine.var_count, 0);
    assert_eq!(interner.len(), 4);
}

#[test]
fn path_lowers_to_its_last_segment() {
    let (mut interner, x, y, _, _) = source_names();
    let path: Path = node(PathNode { global: false, elems: vec![ident(x), ident(y)] });
    let e: Expr = node(ExprNode::PathExpr(path));
    let mut engine = ASTToIntermediate::new(&mut interner);
    assert!(engine.can_convert_expr(&e));
    let (ops, result) = engine.convert_expr(&e);
    assert_eq!(ops, Vec::<Op>::new());
    assert_eq!(result, var(y));
}

#[test]
fn path_without_segments_is_refused() {
    let mut interner = Interner::new();
    let path: Path = node(PathNode { global: false, elems: Vec::new() });
    let e: Expr = node(ExprNode::PathExpr(path));
    let engine = ASTToIntermediate::new(&mut interner);
    assert!(!engine.can_convert_expr(&e));
    let path: Path = node(PathNode { global: true, elems: Vec::new() });
    let target: Expr = node(ExprNode::PathExpr(path));
    assert!(!engine.can_convert_expr(&assign(target, num(1))));
}

#[test]
fn group_is_transparent() {
    let mut interner = Interner::new();
    let mut engine = ASTToIntermediate::new(&mut interner);
    let grouped: Expr = node(ExprNode::GroupExpr(Box::new(num(7))));
    let (ops, result) = engine.convert_expr(&grouped);
    assert_eq!(result, var(Name(0)));
    assert_eq!(ops, vec![set_const(var(Name(0)), 7)]);
}

#[test]
fn binary_operation_lowers_left_operand_first() {
    // (x = 1) + (y = 2)
    let (mut interner, x, y, _, _) = source_names();
    let e = bin(BinOpNode::PlusOp, assign(var_ref(x), num(1)), assign(var_ref(y), num(2)));
    let mut engine = ASTToIntermediate::new(&mut interner);
    assert!(engine.can_convert_expr(&e));
    let (ops, result) = engine.convert_expr(&e);
    let t0 = var(Name(4));
    let t1 = var(Name(5));
    let t2 = var(Name(6));
    assert_eq!(
        ops,
        vec![
            set_const(t0, 1),
            set_var(var(x), t0),
            set_const(t1, 2),
            set_var(var(y), t1),
            Op::Assign(
                LValue::VarLValue(t2),
                RValue::BinOpRValue(
                    BinOpNode::PlusOp,
                    RValueElem::Variable(t0),
                    RValueElem::Variable(t1),
                ),
            ),
        ]
    );
    assert_eq!(result, t2);
    assert_eq!(text_of(&interner, &t0), "TEMP0");
    assert_eq!(text_of(&interner, &t1), "TEMP1");
    assert_eq!(text_of(&interner, &t2), "TEMP2");
}

#[test]
fn assignment_to_a_variable() {
    let (mut interner, x, _, _, _) = source_names();
    let mut engine = ASTToIntermediate::new(&mut interner);
    let (ops, result) = engine.convert_expr(&assign(var_ref(x), num(5)));
    let t0 = var(Name(4));
    assert_eq!(ops, vec![set_const(t0, 5), set_var(var(x), t0)]);
    assert_eq!(result, t0);
}

#[test]
fn assignment_through_a_pointer() {
    // *p = x + 1
    let (mut interner, x, _, p, _) = source_names();
    let e = assign(deref(var_ref(p)), bin(BinOpNode::PlusOp, var_ref(x), num(1)));
    let mut engine = ASTToIntermediate::new(&mut interner);
    assert!(engine.can_convert_expr(&e));
    let (ops, result) = engine.convert_expr(&e);
    let t0 = var(Name(4));
    let t1 = var(Name(5));
    assert_eq!(
        ops,
        vec![
            set_const(t0, 1),
            Op::Assign(
                LValue::VarLValue(t1),
                RValue::BinOpRValue(
                    BinOpNode::PlusOp,
                    RValueElem::Variable(var(x)),
                    RValueElem::Variable(t0),
                ),
            ),
            Op::Assign(LValue::PtrLValue(var(p)), RValue::DirectRValue(RValueElem::Variable(t1))),
        ]
    );
    assert_eq!(result, t1);
}

#[test]
fn pointer_operations_come_before_value_operations() {
    // *(p = 1) = 2: the value is lowered first and so has the lower
    // temporary, but the operations that find the place come first.
    let (mut interner, _, _, p, _) = source_names();
    let e = assign(deref(assign(var_ref(p), num(1))), num(2));
    let mut engine = ASTToIntermediate::new(&mut interner);
    let (ops, result) = engine.convert_expr(&e);
    let t0 = var(Name(4));
    let t1 = var(Name(5));
    assert_eq!(text_of(engine.interner, &t0), "TEMP0");
    assert_eq!(
        ops,
        vec![
            set_const(t1, 1),
            set_var(var(p), t1),
            set_const(t0, 2),
            Op::Assign(LValue::PtrLValue(t1), RValue::DirectRValue(RValueElem::Variable(t0))),
        ]
    );
    assert_eq!(result, t0);
}

#[test]
fn assignment_to_anything_else_is_refused() {
    let (mut interner, x, _, p, _) = source_names();
    let engine = ASTToIntermediate::new(&mut interner);
    assert!(!engine.can_convert_expr(&assign(num(1), num(2))));
    let addr: UnOp = node(UnOpNode::AddrOf);
    let target: Expr = node(ExprNode::UnOpExpr(addr, Box::new(var_ref(p))));
    assert!(!engine.can_convert_expr(&assign(target, num(2))));
    let neg: UnOp = node(UnOpNode::Negate);
    let target: Expr = node(ExprNode::UnOpExpr(neg, Box::new(var_ref(p))));
    assert!(!engine.can_convert_expr(&assign(target, num(2))));
    assert!(!engine.can_convert_expr(&assign(var_ref(x), assign(num(1), num(2)))));
    assert!(engine.can_convert_expr(&assign(var_ref(x), num(2))));
}

#[test]
fn while_loop_has_three_labels_and_jumps_back() {
    // while c { x = 1; }
    let (mut interner, x, _, _, c) = source_names();
    let body = block(vec![semi(assign(var_ref(x), num(1)))], None);
    let e: Expr = node(ExprNode::WhileExpr(Box::new(var_ref(c)), Box::new(body)));
    let mut engine = ASTToIntermediate::new(&mut interner);
    assert!(engine.can_convert_expr(&e));
    let (ops, result) = engine.convert_expr(&e);
    let t0 = var(Name(4));
    assert_eq!(
        ops,
        vec![
            label(0),
            cond_goto(var(c), 1),
            goto(2),
            label(1),
            set_const(t0, 1),
            set_var(var(x), t0),
            goto(0),
            label(2),
        ]
    );
    assert_eq!(engine.label_count, 3);
    assert_eq!(engine.var_count, 3);
    // The body has no final expression and takes TEMP1 for its value; the
    // loop takes TEMP2, and nothing assigns either.
    assert_eq!(text_of(engine.interner, &result), "TEMP2");
    let labels = ops.iter().filter(|op| matches!(op, Op::Label(_, _))).count();
    assert_eq!(labels, 3);
}

#[test]
fn while_loop_condition_is_tested_after_the_begin_label() {
    // while x + 1 { }
    let (mut interner, x, _, _, _) = source_names();
    let e: Expr = node(ExprNode::WhileExpr(
        Box::new(bin(BinOpNode::PlusOp, var_ref(x), num(1))),
        Box::new(block(Vec::new(), None)),
    ));
    let mut engine = ASTToIntermediate::new(&mut interner);
    let (ops, _) = engine.convert_expr(&e);
    let t0 = var(Name(4));
    let t1 = var(Name(5));
    assert_eq!(ops.len(), 8);
    assert_eq!(ops[0], label(0));
    assert_eq!(ops[1], set_const(t0, 1));
    assert_eq!(ops[3], cond_goto(t1, 1));
    assert_eq!(ops[4], goto(2));
    assert_eq!(ops[5], label(1));
    assert_eq!(ops[6], goto(0));
    assert_eq!(ops[7], label(2));
}

#[test]
fn if_lays_out_both_branches() {
    // if c { 1 } else { 2 }
    let (mut interner, _, _, _, c) = source_names();
    let e: Expr = node(ExprNode::IfExpr(
        Box::new(var_ref(c)),
        Box::new(block(Vec::new(), Some(num(1)))),
        Box::new(block(Vec::new(), Some(num(2)))),
    ));
    let mut engine = ASTToIntermediate::new(&mut interner);
    assert!(engine.can_convert_expr(&e));
    let (ops, result) = engine.convert_expr(&e);
    let t0 = var(Name(4));
    let t1 = var(Name(5));
    let t2 = var(Name(6));
    assert_eq!(
        ops,
        vec![
            cond_goto(var(c), 0),
            set_const(t1, 2),
            set_var(t2, t1),
            label(0),
            set_const(t0, 1),
            set_var(t2, t0),
        ]
    );
    assert_eq!(result, t2);
    assert_eq!(engine.label_count, 1);
    assert_eq!(engine.var_count, 3);
}

#[test]
fn if_with_a_constant_condition_still_has_both_branches() {
    // if true { 1 } else { 2 }
    let mut interner = Interner::new();
    let cond: Expr = node(ExprNode::LitExpr(node(LitNode::BoolLit(true))));
    let e: Expr = node(ExprNode::IfExpr(
        Box::new(cond),
        Box::new(block(Vec::new(), Some(num(1)))),
        Box::new(block(Vec::new(), Some(num(2)))),
    ));
    let mut engine = ASTToIntermediate::new(&mut interner);
    let (ops, result) = engine.convert_expr(&e);
    let t = |n: usize| var(Name(n));
    assert_eq!(
        ops,
        vec![
            Op::Assign(
                LValue::VarLValue(t(0)),
                RValue::DirectRValue(RValueElem::Constant(LitNode::BoolLit(true))),
            ),
            cond_goto(t(0), 0),
            set_const(t(2), 2),
            set_var(t(3), t(2)),
            label(0),
            set_const(t(1), 1),
            set_var(t(3), t(1)),
        ]
    );
    assert_eq!(result, t(3));
}

#[test]
fn block_drops_the_values_of_its_statements() {
    // { 1; 2; 3 }
    let mut interner = Interner::new();
    let b = block(vec![semi(num(1)), node(StmtNode::ExprStmt(num(2)))], Some(num(3)));
    let mut engine = ASTToIntermediate::new(&mut interner);
    assert!(engine.can_convert_block(&b));
    let (ops, result) = engine.convert_block(&b);
    let t = |n: usize| var(Name(n));
    assert_eq!(ops, vec![set_const(t(0), 1), set_const(t(1), 2), set_const(t(2), 3)]);
    assert_eq!(result, t(2));
}

#[test]
fn block_without_final_expression_has_a_fresh_value() {
    // { 1; }
    let mut interner = Interner::new();
    let b = block(vec![semi(num(1))], None);
    let mut engine = ASTToIntermediate::new(&mut interner);
    let (ops, result) = engine.convert_block(&b);
    assert_eq!(ops, vec![set_const(var(Name(0)), 1)]);
    assert_eq!(result, var(Name(1)));
    assert_eq!(text_of(&interner, &result), "TEMP1");
}

#[test]
fn block_expression_is_its_block() {
    let mut interner = Interner::new();
    let e: Expr = node(ExprNode::BlockExpr(Box::new(block(vec![semi(num(1))], Some(num(2))))));
    let mut engine = ASTToIntermediate::new(&mut interner);
    let (ops, result) = engine.convert_expr(&e);
    assert_eq!(ops, vec![set_const(var(Name(0)), 1), set_const(var(Name(1)), 2)]);
    assert_eq!(result, var(Name(1)));
}

#[test]
fn statements_lower_their_expression() {
    let mut interner = Interner::new();
    let mut engine = ASTToIntermediate::new(&mut interner);
    let (ops, result) = engine.convert_stmt(&semi(num(4)));
    assert_eq!(ops, vec![set_const(var(Name(0)), 4)]);
    assert_eq!(result, var(Name(0)));
    let (ops, result) = engine.convert_stmt(&node(StmtNode::ExprStmt(num(6))));
    assert_eq!(ops, vec![set_const(var(Name(1)), 6)]);
    assert_eq!(result, var(Name(1)));
}

#[test]
fn other_expressions_are_placeholders() {
    let (mut interner, x, _, _, _) = source_names();
    let mut engine = ASTToIntermediate::new(&mut interner);
    let call: Expr = node(ExprNode::CallExpr(Box::new(var_ref(x)), vec![num(1)]));
    let others: Vec<Expr> = vec![
        node(ExprNode::UnitExpr),
        node(ExprNode::TupleExpr(vec![num(1), num(2)])),
        call,
        node(ExprNode::IndexExpr(Box::new(var_ref(x)), Box::new(num(0)))),
        node(ExprNode::DotExpr(Box::new(var_ref(x)), x)),
        node(ExprNode::ArrowExpr(Box::new(var_ref(x)), x)),
        node(ExprNode::ReturnExpr(Box::new(num(1)))),
        node(ExprNode::MatchExpr(Box::new(num(1)), Vec::new())),
        node(ExprNode::ForExpr(
            Box::new(num(1)),
            Box::new(num(2)),
            Box::new(num(3)),
            Box::new(block(Vec::new(), None)),
        )),
        deref(var_ref(x)),
    ];
    let mut taken = 0;
    for e in others.iter() {
        assert!(engine.can_convert_expr(e));
        let (ops, result) = engine.convert_expr(e);
        assert_eq!(ops, Vec::<Op>::new());
        assert_eq!(text_of(engine.interner, &result), format!("TEMP{}", taken));
        taken += 1;
        assert_eq!(engine.var_count, taken);
    }
    assert_eq!(engine.label_count, 0);
}

#[test]
fn let_is_refused() {
    let (mut interner, x, _, _, c) = source_names();
    let engine = ASTToIntermediate::new(&mut interner);
    assert!(!engine.can_convert_stmt(&let_stmt(x)));
    assert!(engine.can_convert_stmt(&semi(num(1))));
    let with_let = || block(vec![semi(num(1)), let_stmt(x)], Some(num(2)));
    assert!(!engine.can_convert_block(&with_let()));
    let nested: Expr = node(ExprNode::BlockExpr(Box::new(with_let())));
    assert!(!engine.can_convert_expr(&nested));
    assert!(!engine.can_convert_stmt(&semi(node(ExprNode::BlockExpr(Box::new(with_let()))))));
    let in_loop: Expr =
        node(ExprNode::WhileExpr(Box::new(var_ref(c)), Box::new(with_let())));
    assert!(!engine.can_convert_expr(&in_loop));
    let in_branch: Expr = node(ExprNode::IfExpr(
        Box::new(var_ref(c)),
        Box::new(block(Vec::new(), None)),
        Box::new(with_let()),
    ));
    assert!(!engine.can_convert_expr(&in_branch));
    let in_operand = bin(
        BinOpNode::PlusOp,
        num(1),
        node(ExprNode::BlockExpr(Box::new(with_let()))),
    );
    assert!(!engine.can_convert_expr(&in_operand));
}

#[test]
fn let_where_lowering_does_not_come_is_not_seen() {
    // f({ let x = 1; }): a call is a placeholder, its arguments are not lowered.
    let (mut interner, x, _, _, _) = source_names();
    let arg: Expr = node(ExprNode::BlockExpr(Box::new(block(vec![let_stmt(x)], None))));
    let call: Expr = node(ExprNode::CallExpr(Box::new(var_ref(x)), vec![arg]));
    let mut engine = ASTToIntermediate::new(&mut interner);
    assert!(engine.can_convert_expr(&call));
    let (ops, _) = engine.convert_expr(&call);
    assert_eq!(ops, Vec::<Op>::new());
}

fn sample() -> Expr {
    // if 1 + 2 { while 3 { 4; } } else { 5 }
    let inner: Expr = node(ExprNode::WhileExpr(
        Box::new(num(3)),
        Box::new(block(vec![semi(num(4))], None)),
    ));
    node(ExprNode::IfExpr(
        Box::new(bin(BinOpNode::PlusOp, num(1), num(2))),
        Box::new(block(Vec::new(), Some(inner))),
        Box::new(block(Vec::new(), Some(num(5)))),
    ))
}

#[test]
fn lowering_twice_with_fresh_engines_gives_the_same_stream() {
    let mut first = Interner::new();
    let mut second = Interner::new();
    let (ops1, result1) = ASTToIntermediate::new(&mut first).convert_expr(&sample());
    let (ops2, result2) = ASTToIntermediate::new(&mut second).convert_expr(&sample());
    assert_eq!(ops1, ops2);
    assert_eq!(result1, result2);
    assert_eq!(first.len(), second.len());
}

#[test]
fn lowering_again_on_the_same_interner_gives_the_same_stream() {
    let mut interner = Interner::new();
    let (ops1, result1) = ASTToIntermediate::new(&mut interner).convert_expr(&sample());
    let held = interner.len();
    let (ops2, result2) = ASTToIntermediate::new(&mut interner).convert_expr(&sample());
    assert_eq!(ops1, ops2);
    assert_eq!(result1, result2);
    assert_eq!(interner.len(), held);
}

/// The stream with each variable replaced by its text.
fn spelled(ops: &[Op], interner: &Interner) -> Vec<String> {
    let name = |v: &Var| text_of(interner, v);
    let elem = |e: &RValueElem| match e {
        RValueElem::Variable(v) => name(v),
        RValueElem::Constant(lit) => format!("{:?}", lit),
    };
    ops.iter()
        .map(|op| match op {
            Op::Assign(LValue::VarLValue(v), RValue::DirectRValue(e)) => {
                format!("{} = {}", name(v), elem(e))
            }
            Op::Assign(LValue::PtrLValue(v), RValue::DirectRValue(e)) => {
                format!("*{} = {}", name(v), elem(e))
            }
            Op::Assign(LValue::VarLValue(v), RValue::BinOpRValue(op, a, b)) => {
                format!("{} = {} {:?} {}", name(v), elem(a), op, elem(b))
            }
            Op::Assign(LValue::PtrLValue(v), RValue::BinOpRValue(op, a, b)) => {
                format!("*{} = {} {:?} {}", name(v), elem(a), op, elem(b))
            }
            Op::Goto(l, _) => format!("goto {}", l),
            Op::CondGoto(e, l, _) => format!("if {} goto {}", elem(e), l),
            Op::Label(l, _) => format!("{}:", l),
        })
        .collect()
}

#[test]
fn lowering_with_another_interner_differs_in_the_handles_only() {
    let mut first = Interner::new();
    let mut second = Interner::new();
    second.intern("TEMP3".to_string());
    second.intern("unrelated".to_string());
    second.intern("TEMP1".to_string());
    let (ops1, result1) = ASTToIntermediate::new(&mut first).convert_expr(&sample());
    let (ops2, result2) = ASTToIntermediate::new(&mut second).convert_expr(&sample());
    assert_ne!(ops1, ops2);
    assert_eq!(ops1.len(), ops2.len());
    assert_eq!(spelled(&ops1, &first), spelled(&ops2, &second));
    assert_eq!(text_of(&first, &result1), text_of(&second, &result2));
    // TEMP3 and TEMP1 keep the handles they had.
    assert_eq!(second.lookup(Name(0)).map(|s| s.as_str()), Some("TEMP3"));
    assert_eq!(second.lookup(Name(2)).map(|s| s.as_str()), Some("TEMP1"));
}

#[test]
fn sample_stream_in_full() {
    let mut interner = Interner::new();
    let mut engine = ASTToIntermediate::new(&mut interner);
    let (ops, result) = engine.convert_expr(&sample());
    assert_eq!(engine.var_count, 9);
    assert_eq!(engine.label_count, 4);
    assert_eq!(
        spelled(&ops, &interner),
        vec![
            "TEMP0 = NumLit(1, UnsignedInt(Width8))",
            "TEMP1 = NumLit(2, UnsignedInt(Width8))",
            "TEMP2 = TEMP0 PlusOp TEMP1",
            "if TEMP2 goto 3",
            "TEMP7 = NumLit(5, UnsignedInt(Width8))",
            "TEMP8 = TEMP7",
            "3:",
            "0:",
            "TEMP3 = NumLit(3, UnsignedInt(Width8))",
            "if TEMP3 goto 1",
            "goto 2",
            "1:",
            "TEMP4 = NumLit(4, UnsignedInt(Width8))",
            "goto 0",
            "2:",
            "TEMP8 = TEMP6",
        ]
    );
    assert_eq!(text_of(&interner, &result), "TEMP8");
}

#[test]
fn every_label_is_defined_once_and_every_jump_has_a_target() {
    let mut interner = Interner::new();
    let mut engine = ASTToIntermediate::new(&mut interner);
    let (ops, _) = engine.convert_expr(&sample());
    let taken = engine.label_count;
    for l in 0..taken {
        let defined = ops.iter().filter(|op| matches!(op, Op::Label(m, _) if *m == l)).count();
        assert_eq!(defined, 1);
    }
    for op in ops.iter() {
        match op {
            Op::Goto(l, _) | Op::CondGoto(_, l, _) => assert!(*l < taken),
            Op::Label(l, _) => assert!(*l < taken),
            Op::Assign(_, _) => {}
        }
    }
}

#[test]
fn generations_are_unset_and_annotations_empty() {
    let mut interner = Interner::new();
    let (ops, result) = ASTToIntermediate::new(&mut interner).convert_expr(&sample());
    assert_eq!(result.generation, None);
    let unset = |e: &RValueElem| match e {
        RValueElem::Variable(v) => v.generation.is_none(),
        RValueElem::Constant(_) => true,
    };
    for op in ops.iter() {
        match op {
            Op::Assign(place, value) => {
                match place {
                    LValue::VarLValue(v) | LValue::PtrLValue(v) => assert_eq!(v.generation, None),
                }
                match value {
                    RValue::DirectRValue(a) => assert!(unset(a)),
                    RValue::BinOpRValue(_, a, b) => assert!(unset(a) && unset(b)),
                }
            }
            Op::Goto(_, vars) | Op::Label(_, vars) => assert!(vars.is_empty()),
            Op::CondGoto(cond, _, vars) => {
                assert!(unset(cond));
                assert!(vars.is_empty());
            }
        }
    }
}

#[test]
fn temporaries_of_one_engine_have_different_names() {
    let mut interner = Interner::new();
    let mut engine = ASTToIntermediate::new(&mut interner);
    let mut seen = BTreeSet::new();
    for _ in 0..25 {
        let (_, result) = engine.convert_expr(&node(ExprNode::UnitExpr));
        assert!(seen.insert(result));
    }
    assert_eq!(interner.lookup(Name(10)).map(|s| s.as_str()), Some("TEMP10"));
    assert_eq!(interner.lookup(Name(24)).map(|s| s.as_str()), Some("TEMP24"));
}

#[test]
fn a_source_name_spelled_like_a_temporary_is_shared() {
    let mut interner = Interner::new();
    let clash = interner.intern("TEMP0".to_string());
    let mut engine = ASTToIntermediate::new(&mut interner);
    let (_, result) = engine.convert_expr(&num(1));
    assert_eq!(result, var(clash));
    assert_eq!(interner.len(), 1);
}

#[test]
fn counters_that_cannot_count_further_are_refused() {
    let mut interner = Interner::new();
    let mut engine = ASTToIntermediate::new(&mut interner);
    engine.var_count = usize::MAX;
    assert!(!engine.can_convert_expr(&num(1)));
    assert!(engine.can_convert_expr(&var_ref(Name(0))));
    assert!(!engine.can_convert_block(&block(Vec::new(), None)));
    engine.var_count = usize::MAX - 1;
    assert!(engine.can_convert_expr(&num(1)));
    assert!(!engine.can_convert_expr(&bin(BinOpNode::PlusOp, num(1), num(2))));
    engine.var_count = 0;
    engine.label_count = usize::MAX - 2;
    let empty_loop = || -> Expr {
        node(ExprNode::WhileExpr(Box::new(num(1)), Box::new(block(Vec::new(), None))))
    };
    assert!(!engine.can_convert_expr(&empty_loop()));
    engine.label_count = usize::MAX - 3;
    assert!(engine.can_convert_expr(&empty_loop()));
    let (ops, _) = engine.convert_expr(&empty_loop());
    assert_eq!(ops[0], label(usize::MAX - 3));
    assert_eq!(engine.label_count, usize::MAX);
    assert!(!engine.can_convert_expr(&node(ExprNode::IfExpr(
        Box::new(num(1)),
        Box::new(block(Vec::new(), None)),
        Box::new(block(Vec::new(), None)),
    ))));
}

fn reads_of(op: &Op) -> Vec<Var> {
    let mut out = Vec::new();
    let mut elem = |e: &RValueElem| {
        if let RValueElem::Variable(v) = e {
            out.push(*v);
        }
    };
    match op {
        Op::Assign(place, value) => {
            match value {
                RValue::DirectRValue(a) => elem(a),
                RValue::BinOpRValue(_, a, b) => {
                    elem(a);
                    elem(b);
                }
            }
            if let LValue::PtrLValue(v) = place {
                out.push(*v);
            }
        }
        Op::CondGoto(cond, _, _) => elem(cond),
        Op::Goto(_, _) | Op::Label(_, _) => {}
    }
    out
}

#[test]
fn every_temporary_that_is_read_was_assigned_before() {
    // if (x = 1) + 2 { *p = 3; 4 } else { 5 }
    let (mut interner, x, _, p, _) = source_names();
    let sources = interner.len();
    let e: Expr = node(ExprNode::IfExpr(
        Box::new(bin(BinOpNode::PlusOp, assign(var_ref(x), num(1)), num(2))),
        Box::new(block(vec![semi(assign(deref(var_ref(p)), num(3)))], Some(num(4)))),
        Box::new(block(Vec::new(), Some(num(5)))),
    ));
    let (ops, result) = ASTToIntermediate::new(&mut interner).convert_expr(&e);
    assert_eq!(ops.len(), 12);
    let mut assigned: BTreeSet<Var> = BTreeSet::new();
    for op in ops.iter() {
        for v in reads_of(op) {
            assert!(v.name.0 < sources || assigned.contains(&v), "{:?} read in {:?}", v, op);
        }
        if let Op::Assign(LValue::VarLValue(v), _) = op {
            assigned.insert(*v);
        }
    }
    assert!(assigned.contains(&result));
}

#[test]
fn the_result_of_a_loop_is_never_assigned() {
    let (mut interner, x, _, _, c) = source_names();
    let body = block(vec![semi(assign(var_ref(x), num(1)))], None);
    let e: Expr = node(ExprNode::WhileExpr(Box::new(var_ref(c)), Box::new(body)));
    let (ops, result) = ASTToIntermediate::new(&mut interner).convert_expr(&e);
    for op in ops.iter() {
        if let Op::Assign(LValue::VarLValue(v), _) = op {
            assert_ne!(*v, result);
        }
    }
}
