use lowering::ast::visit::{
    children_of_block, children_of_expr, children_of_func_arg, children_of_ident,
    children_of_item, children_of_lit, children_of_stmt, children_of_type, Node,
};
use lowering::ast::{
    BinOpNode, Block, Expr, ExprNode, Field, FieldPat, FuncArg, Ident, IdentNode, Item, ItemNode,
    Lit, LitNode, MatchArm, NodeId, Pat, PatNode, Path, PathNode, Stmt, StmtNode, Type, TypeNode,
    UnOpNode, Variant, WithId,
};
use lowering::session::Name;
use lowering::util::IntKind;

fn at<T>(id: usize, val: T) -> WithId<T> {
    WithId { id: NodeId(id), val }
}

fn ty(id: usize) -> Type {
    at(id, TypeNode::BoolType)
}

fn ident(id: usize) -> Ident {
    at(id, IdentNode { tps: None, name: Name(id) })
}

fn unit(id: usize) -> Expr {
    at(id, ExprNode::UnitExpr)
}

fn empty_block() -> Block {
    Block { items: Vec::new(), stmts: Vec::new(), expr: None }
}

fn boxed_block(tail: usize) -> Box<Block> {
    Box::new(Block { items: Vec::new(), stmts: Vec::new(), expr: Some(unit(tail)) })
}

/// The kind of each node and the id of the node, or of the final
/// expression for a block.
fn seen(nodes: &[Node]) -> Vec<(&'static str, usize)> {
    nodes
        .iter()
        .map(|n| match n {
            Node::Item(x) => ("item", x.id.to_uint()),
            Node::Type(x) => ("type", x.id.to_uint()),
            Node::FuncArg(x) => ("arg", x.ident.id.to_uint()),
            Node::Block(x) => ("block", x.expr.as_ref().map(|e| e.id.to_uint()).unwrap_or(0)),
            Node::Stmt(x) => ("stmt", x.id.to_uint()),
            Node::Expr(x) => ("expr", x.id.to_uint()),
            Node::Lit(x) => ("lit", x.id.to_uint()),
            Node::Ident(x) => ("ident", x.id.to_uint()),
        })
        .collect()
}

#[test]
fn children_of_simple_expressions() {
    let lit: Lit = at(1, LitNode::BoolLit(true));
    assert_eq!(seen(&children_of_expr(&at(0, ExprNode::LitExpr(lit)))), vec![("lit", 1)]);
    assert_eq!(seen(&children_of_expr(&unit(0))), vec![]);
    assert_eq!(
        seen(&children_of_expr(&at(0, ExprNode::IdentExpr(ident(4))))),
        vec![("ident", 4)]
    );
    let path: Path = at(9, PathNode { global: true, elems: vec![ident(1), ident(2), ident(3)] });
    assert_eq!(
        seen(&children_of_expr(&at(0, ExprNode::PathExpr(path)))),
        vec![("ident", 1), ("ident", 2), ("ident", 3)]
    );
}

#[test]
fn children_of_operations_are_in_written_order() {
    let e = at(
        0,
        ExprNode::BinOpExpr(at(1, BinOpNode::MinusOp), Box::new(unit(2)), Box::new(unit(3))),
    );
    assert_eq!(seen(&children_of_expr(&e)), vec![("expr", 2), ("expr", 3)]);
    let e = at(0, ExprNode::AssignExpr(Box::new(unit(5)), Box::new(unit(4))));
    assert_eq!(seen(&children_of_expr(&e)), vec![("expr", 5), ("expr", 4)]);
    let e = at(0, ExprNode::IndexExpr(Box::new(unit(7)), Box::new(unit(6))));
    assert_eq!(seen(&children_of_expr(&e)), vec![("expr", 7), ("expr", 6)]);
    let e = at(0, ExprNode::UnOpExpr(at(1, UnOpNode::Negate), Box::new(unit(2))));
    assert_eq!(seen(&children_of_expr(&e)), vec![("expr", 2)]);
    let e = at(0, ExprNode::GroupExpr(Box::new(unit(2))));
    assert_eq!(seen(&children_of_expr(&e)), vec![("expr", 2)]);
    let e = at(0, ExprNode::ReturnExpr(Box::new(unit(2))));
    assert_eq!(seen(&children_of_expr(&e)), vec![("expr", 2)]);
    let e = at(0, ExprNode::DotExpr(Box::new(unit(2)), Name(0)));
    assert_eq!(seen(&children_of_expr(&e)), vec![("expr", 2)]);
    let e = at(0, ExprNode::ArrowExpr(Box::new(unit(3)), Name(0)));
    assert_eq!(seen(&children_of_expr(&e)), vec![("expr", 3)]);
    let e = at(0, ExprNode::CastExpr(Box::new(unit(3)), ty(8)));
    assert_eq!(seen(&children_of_expr(&e)), vec![("expr", 3), ("type", 8)]);
}

#[test]
fn children_of_calls_and_tuples() {
    let e = at(0, ExprNode::CallExpr(Box::new(unit(1)), vec![unit(2), unit(3), unit(4)]));
    assert_eq!(
        seen(&children_of_expr(&e)),
        vec![("expr", 1), ("expr", 2), ("expr", 3), ("expr", 4)]
    );
    let e = at(0, ExprNode::CallExpr(Box::new(unit(1)), Vec::new()));
    assert_eq!(seen(&children_of_expr(&e)), vec![("expr", 1)]);
    let e = at(0, ExprNode::TupleExpr(vec![unit(9), unit(8)]));
    assert_eq!(seen(&children_of_expr(&e)), vec![("expr", 9), ("expr", 8)]);
}

#[test]
fn children_of_control_flow() {
    let e = at(0, ExprNode::IfExpr(Box::new(unit(1)), boxed_block(2), boxed_block(3)));
    assert_eq!(seen(&children_of_expr(&e)), vec![("expr", 1), ("block", 2), ("block", 3)]);
    let e = at(0, ExprNode::WhileExpr(Box::new(unit(1)), boxed_block(2)));
    assert_eq!(seen(&children_of_expr(&e)), vec![("expr", 1), ("block", 2)]);
    let e = at(
        0,
        ExprNode::ForExpr(Box::new(unit(1)), Box::new(unit(2)), Box::new(unit(3)), boxed_block(4)),
    );
    assert_eq!(
        seen(&children_of_expr(&e)),
        vec![("expr", 1), ("expr", 2), ("expr", 3), ("block", 4)]
    );
    let e = at(0, ExprNode::BlockExpr(boxed_block(5)));
    assert_eq!(seen(&children_of_expr(&e)), vec![("block", 5)]);
}

#[test]
fn children_of_a_match_go_through_the_patterns() {
    let arm1 = MatchArm { pat: at(10, PatNode::IdentPat(ident(11), Some(ty(12)))), body: unit(13) };
    let arm2 = MatchArm {
        pat: at(
            20,
            PatNode::VariantPat(
                ident(21),
                vec![at(22, PatNode::DiscardPat(Some(ty(23)))), at(24, PatNode::DiscardPat(None))],
            ),
        ),
        body: unit(25),
    };
    let e = at(0, ExprNode::MatchExpr(Box::new(unit(1)), vec![arm1, arm2]));
    assert_eq!(
        seen(&children_of_expr(&e)),
        vec![
            ("expr", 1),
            ("ident", 11),
            ("type", 12),
            ("expr", 13),
            ("ident", 21),
            ("type", 23),
            ("expr", 25),
        ]
    );
}

#[test]
fn children_of_statements() {
    let s: Stmt = at(0, StmtNode::ExprStmt(unit(1)));
    assert_eq!(seen(&children_of_stmt(&s)), vec![("expr", 1)]);
    let s: Stmt = at(0, StmtNode::SemiStmt(unit(2)));
    assert_eq!(seen(&children_of_stmt(&s)), vec![("expr", 2)]);
    let pat: Pat = at(
        3,
        PatNode::StructPat(
            ident(4),
            vec![
                FieldPat { name: Name(0), pat: at(5, PatNode::IdentPat(ident(6), None)) },
                FieldPat {
                    name: Name(1),
                    pat: at(
                        7,
                        PatNode::TuplePat(vec![
                            at(8, PatNode::IdentPat(ident(9), Some(ty(10)))),
                            at(11, PatNode::IdentPat(ident(12), None)),
                        ]),
                    ),
                },
            ],
        ),
    );
    let s: Stmt = at(0, StmtNode::LetStmt(pat, Some(unit(13))));
    assert_eq!(
        seen(&children_of_stmt(&s)),
        vec![
            ("ident", 4),
            ("ident", 6),
            ("ident", 9),
            ("type", 10),
            ("ident", 12),
            ("expr", 13),
        ]
    );
    let s: Stmt = at(0, StmtNode::LetStmt(at(1, PatNode::DiscardPat(None)), None));
    assert_eq!(seen(&children_of_stmt(&s)), vec![]);
}

#[test]
fn children_of_a_block_are_items_statements_and_the_final_expression() {
    let item: Item = at(1, ItemNode::StructItem(ident(2), Vec::new(), Vec::new()));
    let b = Block {
        items: vec![item],
        stmts: vec![at(3, StmtNode::SemiStmt(unit(4))), at(5, StmtNode::ExprStmt(unit(6)))],
        expr: Some(unit(7)),
    };
    assert_eq!(
        seen(&children_of_block(&b)),
        vec![("item", 1), ("stmt", 3), ("stmt", 5), ("expr", 7)]
    );
    assert_eq!(seen(&children_of_block(&empty_block())), vec![]);
}

#[test]
fn children_of_types() {
    assert_eq!(seen(&children_of_type(&ty(0))), vec![]);
    assert_eq!(seen(&children_of_type(&at(0, TypeNode::UnitType))), vec![]);
    assert_eq!(seen(&children_of_type(&at(0, TypeNode::IntType(IntKind::GenericInt)))), vec![]);
    assert_eq!(
        seen(&children_of_type(&at(0, TypeNode::PtrType(Box::new(ty(1)))))),
        vec![("type", 1)]
    );
    assert_eq!(
        seen(&children_of_type(&at(0, TypeNode::NamedType(ident(2))))),
        vec![("ident", 2)]
    );
    assert_eq!(
        seen(&children_of_type(&at(0, TypeNode::FuncType(vec![ty(1), ty(2)], Box::new(ty(3)))))),
        vec![("type", 1), ("type", 2), ("type", 3)]
    );
    assert_eq!(
        seen(&children_of_type(&at(0, TypeNode::ArrayType(Box::new(ty(4)), 16)))),
        vec![("type", 4)]
    );
    assert_eq!(
        seen(&children_of_type(&at(0, TypeNode::TupleType(vec![ty(5), ty(6)])))),
        vec![("type", 5), ("type", 6)]
    );
}

#[test]
fn children_of_items() {
    let args = vec![
        FuncArg { ident: ident(2), argtype: ty(3) },
        FuncArg { ident: ident(4), argtype: ty(5) },
    ];
    let body = Block { items: Vec::new(), stmts: Vec::new(), expr: Some(unit(7)) };
    let f: Item = at(0, ItemNode::FuncItem(ident(1), args, ty(6), body, vec![ident(8), ident(9)]));
    assert_eq!(
        seen(&children_of_item(&f)),
        vec![
            ("ident", 1),
            ("arg", 2),
            ("arg", 4),
            ("type", 6),
            ("block", 7),
            ("ident", 8),
            ("ident", 9),
        ]
    );
    let fields =
        vec![Field { name: Name(0), fldtype: ty(2) }, Field { name: Name(1), fldtype: ty(3) }];
    let s: Item = at(0, ItemNode::StructItem(ident(1), fields, vec![ident(4)]));
    assert_eq!(
        seen(&children_of_item(&s)),
        vec![("ident", 1), ("type", 2), ("type", 3), ("ident", 4)]
    );
    let variants = vec![
        Variant { ident: ident(2), args: Vec::new() },
        Variant { ident: ident(3), args: vec![ty(4), ty(5)] },
    ];
    let e: Item = at(0, ItemNode::EnumItem(ident(1), variants, Vec::new()));
    assert_eq!(
        seen(&children_of_item(&e)),
        vec![("ident", 1), ("ident", 2), ("ident", 3), ("type", 4), ("type", 5)]
    );
}

#[test]
fn children_of_the_small_nodes() {
    let arg = FuncArg { ident: ident(1), argtype: ty(2) };
    assert_eq!(seen(&children_of_func_arg(&arg)), vec![("ident", 1), ("type", 2)]);
    let lit: Lit = at(1, LitNode::NumLit(1, IntKind::GenericInt));
    assert_eq!(seen(&children_of_lit(&lit)), vec![]);
    assert_eq!(seen(&children_of_ident(&ident(1))), vec![]);
    let generic: Ident = at(1, IdentNode { tps: Some(vec![ty(2), ty(3)]), name: Name(0) });
    assert_eq!(seen(&children_of_ident(&generic)), vec![("type", 2), ("type", 3)]);
    let bare: Ident = at(1, IdentNode { tps: Some(Vec::new()), name: Name(0) });
    assert_eq!(seen(&children_of_ident(&bare)), vec![]);
}
