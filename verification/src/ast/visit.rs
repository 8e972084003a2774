//! The children of a node, in the order in which a walk of the tree comes
//! to them.
//!
//! A walk hands eight kinds of node to its visitor: items, types, function
//! parameters, blocks, statements, expressions, literals and identifiers.
//! A pattern, a struct field, an enum variant and a match arm are not
//! handed out themselves: the nodes inside them are.

use vstd::prelude::*;
use crate::ast::{
    Block, Expr, ExprNode, Field, FieldPat, FuncArg, Ident, Item, ItemNode, Lit, MatchArm, Pat,
    PatNode, Stmt, StmtNode, Type, TypeNode, Variant,
};

verus! {

/// A node that a walk hands to its visitor.
#[derive(Clone, Copy, Debug)]
pub enum Node<'a> {
    Item(&'a Item),
    Type(&'a Type),
    FuncArg(&'a FuncArg),
    Block(&'a Block),
    Stmt(&'a Stmt),
    Expr(&'a Expr),
    Lit(&'a Lit),
    Ident(&'a Ident),
}

/// Each of the items as a node, in order.
pub open spec fn item_nodes<'a>(items: Seq<Item>) -> Seq<Node<'a>> {
    items.map_values(|x: Item| Node::Item(&x))
}

/// Each of the types as a node, in order.
pub open spec fn type_nodes<'a>(types: Seq<Type>) -> Seq<Node<'a>> {
    types.map_values(|x: Type| Node::Type(&x))
}

/// Each of the func args as a node, in order.
pub open spec fn func_arg_nodes<'a>(func_args: Seq<FuncArg>) -> Seq<Node<'a>> {
    func_args.map_values(|x: FuncArg| Node::FuncArg(&x))
}

/// Each of the stmts as a node, in order.
pub open spec fn stmt_nodes<'a>(stmts: Seq<Stmt>) -> Seq<Node<'a>> {
    stmts.map_values(|x: Stmt| Node::Stmt(&x))
}

/// Each of the exprs as a node, in order.
pub open spec fn expr_nodes<'a>(exprs: Seq<Expr>) -> Seq<Node<'a>> {
    exprs.map_values(|x: Expr| Node::Expr(&x))
}

/// Each of the idents as a node, in order.
pub open spec fn ident_nodes<'a>(idents: Seq<Ident>) -> Seq<Node<'a>> {
    idents.map_values(|x: Ident| Node::Ident(&x))
}

/// The type as a node, if there is one.
pub open spec fn optional_type<'a>(t: Option<Type>) -> Seq<Node<'a>> {
    match t {
        Some(t) => seq![Node::Type(&t)],
        None => Seq::empty(),
    }
}

/// The expression as a node, if there is one.
pub open spec fn optional_expr<'a>(e: Option<Expr>) -> Seq<Node<'a>> {
    match e {
        Some(e) => seq![Node::Expr(&e)],
        None => Seq::empty(),
    }
}

/// The identifiers and types inside a pattern, from left to right.
pub open spec fn pat_nodes<'a>(pat: Pat) -> Seq<Node<'a>>
    decreases pat,
{
    match pat.val {
        PatNode::DiscardPat(t) => optional_type(t),
        PatNode::IdentPat(id, t) => seq![Node::Ident(&id)] + optional_type(t),
        PatNode::TuplePat(pats) => pats_nodes(pats@),
        PatNode::VariantPat(id, pats) => seq![Node::Ident(&id)] + pats_nodes(pats@),
        PatNode::StructPat(id, fields) => seq![Node::Ident(&id)] + field_pats_nodes(fields@),
    }
}

/// The identifiers and types inside the patterns, pattern by pattern.
pub open spec fn pats_nodes<'a>(pats: Seq<Pat>) -> Seq<Node<'a>>
    decreases pats,
{
    if pats.len() == 0 {
        Seq::empty()
    } else {
        pats_nodes(pats.drop_last()) + pat_nodes(pats.last())
    }
}

/// The identifiers and types inside the patterns of the fields, field by
/// field.
pub open spec fn field_pats_nodes<'a>(fields: Seq<FieldPat>) -> Seq<Node<'a>>
    decreases fields,
{
    if fields.len() == 0 {
        Seq::empty()
    } else {
        field_pats_nodes(fields.drop_last()) + pat_nodes(fields.last().pat)
    }
}

/// The types of the fields, field by field.
pub open spec fn fields_nodes<'a>(fields: Seq<Field>) -> Seq<Node<'a>> {
    fields.map_values(|f: Field| Node::Type(&f.fldtype))
}

/// The name of each variant, followed by the types of its arguments.
pub open spec fn variants_nodes<'a>(variants: Seq<Variant>) -> Seq<Node<'a>>
    decreases variants.len(),
{
    if variants.len() == 0 {
        Seq::empty()
    } else {
        variants_nodes(variants.drop_last()) + seq![Node::Ident(&variants.last().ident)]
            + type_nodes(variants.last().args@)
    }
}

/// For each arm, what is inside its pattern, followed by its body.
pub open spec fn arms_nodes<'a>(arms: Seq<MatchArm>) -> Seq<Node<'a>>
    decreases arms.len(),
{
    if arms.len() == 0 {
        Seq::empty()
    } else {
        arms_nodes(arms.drop_last()) + pat_nodes(arms.last().pat) + seq![
            Node::Expr(&arms.last().body),
        ]
    }
}

/// The children of an item: its name, what it is made of, and its type
/// parameters.
pub open spec fn item_children<'a>(item: &'a Item) -> Seq<Node<'a>> {
    match item.val {
        ItemNode::FuncItem(id, args, ret, body, tps) => seq![Node::Ident(&id)] + func_arg_nodes(
            args@,
        ) + seq![Node::Type(&ret), Node::Block(&body)] + ident_nodes(tps@),
        ItemNode::StructItem(id, fields, tps) => seq![Node::Ident(&id)] + fields_nodes(fields@)
            + ident_nodes(tps@),
        ItemNode::EnumItem(id, variants, tps) => seq![Node::Ident(&id)] + variants_nodes(
            variants@,
        ) + ident_nodes(tps@),
    }
}

/// The children of a type.
pub open spec fn type_children<'a>(t: &'a Type) -> Seq<Node<'a>> {
    match t.val {
        TypeNode::PtrType(target) => seq![Node::Type(&*target)],
        TypeNode::NamedType(id) => seq![Node::Ident(&id)],
        TypeNode::FuncType(args, ret) => type_nodes(args@) + seq![Node::Type(&*ret)],
        TypeNode::ArrayType(element, _) => seq![Node::Type(&*element)],
        TypeNode::TupleType(parts) => type_nodes(parts@),
        _ => Seq::empty(),
    }
}

/// The children of a function parameter: its name and its type.
pub open spec fn func_arg_children<'a>(arg: &'a FuncArg) -> Seq<Node<'a>> {
    seq![Node::Ident(&arg.ident), Node::Type(&arg.argtype)]
}

/// The children of a block: its items, its statements, and its final
/// expression.
pub open spec fn block_children<'a>(block: &'a Block) -> Seq<Node<'a>> {
    item_nodes(block.items@) + stmt_nodes(block.stmts@) + optional_expr(block.expr)
}

/// The children of a statement.
pub open spec fn stmt_children<'a>(stmt: &'a Stmt) -> Seq<Node<'a>> {
    match stmt.val {
        StmtNode::LetStmt(pat, init) => pat_nodes(pat) + optional_expr(init),
        StmtNode::ExprStmt(e) => seq![Node::Expr(&e)],
        StmtNode::SemiStmt(e) => seq![Node::Expr(&e)],
    }
}

/// The children of an expression, in the order in which they are written.
pub open spec fn expr_children<'a>(expr: &'a Expr) -> Seq<Node<'a>> {
    match expr.val {
        ExprNode::UnitExpr => Seq::empty(),
        ExprNode::LitExpr(lit) => seq![Node::Lit(&lit)],
        ExprNode::TupleExpr(parts) => expr_nodes(parts@),
        ExprNode::IdentExpr(id) => seq![Node::Ident(&id)],
        ExprNode::PathExpr(path) => ident_nodes(path.val.elems@),
        ExprNode::GroupExpr(inner) => seq![Node::Expr(&*inner)],
        ExprNode::BinOpExpr(_, left, right) => seq![Node::Expr(&*left), Node::Expr(&*right)],
        ExprNode::UnOpExpr(_, operand) => seq![Node::Expr(&*operand)],
        ExprNode::IndexExpr(array, index) => seq![Node::Expr(&*array), Node::Expr(&*index)],
        ExprNode::DotExpr(object, _) => seq![Node::Expr(&*object)],
        ExprNode::ArrowExpr(object, _) => seq![Node::Expr(&*object)],
        ExprNode::AssignExpr(target, value) => seq![Node::Expr(&*target), Node::Expr(&*value)],
        ExprNode::CallExpr(callee, args) => seq![Node::Expr(&*callee)] + expr_nodes(args@),
        ExprNode::CastExpr(value, t) => seq![Node::Expr(&*value), Node::Type(&t)],
        ExprNode::IfExpr(cond, on_true, on_false) => seq![
            Node::Expr(&*cond),
            Node::Block(&*on_true),
            Node::Block(&*on_false),
        ],
        ExprNode::BlockExpr(block) => seq![Node::Block(&*block)],
        ExprNode::ReturnExpr(value) => seq![Node::Expr(&*value)],
        ExprNode::WhileExpr(cond, body) => seq![Node::Expr(&*cond), Node::Block(&*body)],
        ExprNode::ForExpr(init, cond, step, body) => seq![
            Node::Expr(&*init),
            Node::Expr(&*cond),
            Node::Expr(&*step),
            Node::Block(&*body),
        ],
        ExprNode::MatchExpr(subject, arms) => seq![Node::Expr(&*subject)] + arms_nodes(arms@),
    }
}

/// A literal has no children.
pub open spec fn lit_children<'a>(lit: &'a Lit) -> Seq<Node<'a>> {
    Seq::empty()
}

/// The children of an identifier: its type arguments.
pub open spec fn ident_children<'a>(ident: &'a Ident) -> Seq<Node<'a>> {
    match ident.val.tps {
        Some(tps) => type_nodes(tps@),
        None => Seq::empty(),
    }
}

/// Adds each of the items.
fn push_items<'a>(out: &mut Vec<Node<'a>>, items: &'a Vec<Item>)
    ensures
        final(out)@ == old(out)@ + item_nodes(items@),
{
    let mut i: usize = 0;
    while i < items.len()
        invariant
            i <= items.len(),
            out@ == old(out)@ + item_nodes(items@.take(i as int)),
        decreases items.len() - i,
    {
        out.push(Node::Item(&items[i]));
        assert(items@.take(i as int + 1) =~= items@.take(i as int).push(items@[i as int]));
        assert(out@ =~= old(out)@ + item_nodes(items@.take(i as int + 1)));
        i += 1;
    }
    assert(items@.take(i as int) =~= items@);
}

/// Adds each of the types.
fn push_types<'a>(out: &mut Vec<Node<'a>>, types: &'a Vec<Type>)
    ensures
        final(out)@ == old(out)@ + type_nodes(types@),
{
    let mut i: usize = 0;
    while i < types.len()
        invariant
            i <= types.len(),
            out@ == old(out)@ + type_nodes(types@.take(i as int)),
        decreases types.len() - i,
    {
        out.push(Node::Type(&types[i]));
        assert(types@.take(i as int + 1) =~= types@.take(i as int).push(types@[i as int]));
        assert(out@ =~= old(out)@ + type_nodes(types@.take(i as int + 1)));
        i += 1;
    }
    assert(types@.take(i as int) =~= types@);
}

/// Adds each of the func args.
fn push_func_args<'a>(out: &mut Vec<Node<'a>>, func_args: &'a Vec<FuncArg>)
    ensures
        final(out)@ == old(out)@ + func_arg_nodes(func_args@),
{
    let mut i: usize = 0;
    while i < func_args.len()
        invariant
            i <= func_args.len(),
            out@ == old(out)@ + func_arg_nodes(func_args@.take(i as int)),
        decreases func_args.len() - i,
    {
        out.push(Node::FuncArg(&func_args[i]));
        assert(func_args@.take(i as int + 1) =~= func_args@.take(i as int).push(func_args@[i as int]));
        assert(out@ =~= old(out)@ + func_arg_nodes(func_args@.take(i as int + 1)));
        i += 1;
    }
    assert(func_args@.take(i as int) =~= func_args@);
}

/// Adds each of the stmts.
fn push_stmts<'a>(out: &mut Vec<Node<'a>>, stmts: &'a Vec<Stmt>)
    ensures
        final(out)@ == old(out)@ + stmt_nodes(stmts@),
{
    let mut i: usize = 0;
    while i < stmts.len()
        invariant
            i <= stmts.len(),
            out@ == old(out)@ + stmt_nodes(stmts@.take(i as int)),
        decreases stmts.len() - i,
    {
        out.push(Node::Stmt(&stmts[i]));
        assert(stmts@.take(i as int + 1) =~= stmts@.take(i as int).push(stmts@[i as int]));
        assert(out@ =~= old(out)@ + stmt_nodes(stmts@.take(i as int + 1)));
        i += 1;
    }
    assert(stmts@.take(i as int) =~= stmts@);
}

/// Adds each of the exprs.
fn push_exprs<'a>(out: &mut Vec<Node<'a>>, exprs: &'a Vec<Expr>)
    ensures
        final(out)@ == old(out)@ + expr_nodes(exprs@),
{
    let mut i: usize = 0;
    while i < exprs.len()
        invariant
            i <= exprs.len(),
            out@ == old(out)@ + expr_nodes(exprs@.take(i as int)),
        decreases exprs.len() - i,
    {
        out.push(Node::Expr(&exprs[i]));
        assert(exprs@.take(i as int + 1) =~= exprs@.take(i as int).push(exprs@[i as int]));
        assert(out@ =~= old(out)@ + expr_nodes(exprs@.take(i as int + 1)));
        i += 1;
    }
    assert(exprs@.take(i as int) =~= exprs@);
}

/// Adds each of the idents.
fn push_idents<'a>(out: &mut Vec<Node<'a>>, idents: &'a Vec<Ident>)
    ensures
        final(out)@ == old(out)@ + ident_nodes(idents@),
{
    let mut i: usize = 0;
    while i < idents.len()
        invariant
            i <= idents.len(),
            out@ == old(out)@ + ident_nodes(idents@.take(i as int)),
        decreases idents.len() - i,
    {
        out.push(Node::Ident(&idents[i]));
        assert(idents@.take(i as int + 1) =~= idents@.take(i as int).push(idents@[i as int]));
        assert(out@ =~= old(out)@ + ident_nodes(idents@.take(i as int + 1)));
        i += 1;
    }
    assert(idents@.take(i as int) =~= idents@);
}

/// Adds the type, if there is one.
fn push_optional_type<'a>(out: &mut Vec<Node<'a>>, t: &'a Option<Type>)
    ensures
        final(out)@ == old(out)@ + optional_type(*t),
{
    match t {
        Some(t) => {
            out.push(Node::Type(t));
        },
        None => {},
    }
    assert(out@ =~= old(out)@ + optional_type(*t));
}

/// Adds the expression, if there is one.
fn push_optional_expr<'a>(out: &mut Vec<Node<'a>>, e: &'a Option<Expr>)
    ensures
        final(out)@ == old(out)@ + optional_expr(*e),
{
    match e {
        Some(e) => {
            out.push(Node::Expr(e));
        },
        None => {},
    }
    assert(out@ =~= old(out)@ + optional_expr(*e));
}

/// Adds what is inside a pattern.
fn push_pat<'a>(out: &mut Vec<Node<'a>>, pat: &'a Pat)
    ensures
        final(out)@ == old(out)@ + pat_nodes(*pat),
    decreases *pat,
{
    match &pat.val {
        PatNode::DiscardPat(t) => {
            push_optional_type(out, t);
        },
        PatNode::IdentPat(id, t) => {
            out.push(Node::Ident(id));
            push_optional_type(out, t);
            assert(out@ =~= old(out)@ + pat_nodes(*pat));
        },
        PatNode::TuplePat(pats) => {
            push_pats(out, pats);
        },
        PatNode::VariantPat(id, pats) => {
            out.push(Node::Ident(id));
            push_pats(out, pats);
            assert(out@ =~= old(out)@ + pat_nodes(*pat));
        },
        PatNode::StructPat(id, fields) => {
            out.push(Node::Ident(id));
            push_field_pats(out, fields);
            assert(out@ =~= old(out)@ + pat_nodes(*pat));
        },
    }
}

/// Adds what is inside each of the patterns.
fn push_pats<'a>(out: &mut Vec<Node<'a>>, pats: &'a Vec<Pat>)
    ensures
        final(out)@ == old(out)@ + pats_nodes(pats@),
    decreases *pats,
{
    let mut i: usize = 0;
    while i < pats.len()
        invariant
            i <= pats.len(),
            out@ == old(out)@ + pats_nodes(pats@.take(i as int)),
        decreases pats.len() - i,
    {
        push_pat(out, &pats[i]);
        assert(pats@.take(i as int + 1).drop_last() =~= pats@.take(i as int));
        assert(out@ =~= old(out)@ + pats_nodes(pats@.take(i as int + 1)));
        i += 1;
    }
    assert(pats@.take(i as int) =~= pats@);
}

/// Adds what is inside the pattern of each of the fields.
fn push_field_pats<'a>(out: &mut Vec<Node<'a>>, fields: &'a Vec<FieldPat>)
    ensures
        final(out)@ == old(out)@ + field_pats_nodes(fields@),
    decreases *fields,
{
    let mut i: usize = 0;
    while i < fields.len()
        invariant
            i <= fields.len(),
            out@ == old(out)@ + field_pats_nodes(fields@.take(i as int)),
        decreases fields.len() - i,
    {
        push_pat(out, &fields[i].pat);
        assert(fields@.take(i as int + 1).drop_last() =~= fields@.take(i as int));
        assert(out@ =~= old(out)@ + field_pats_nodes(fields@.take(i as int + 1)));
        i += 1;
    }
    assert(fields@.take(i as int) =~= fields@);
}

/// The children of an item.
pub fn children_of_item<'a>(item: &'a Item) -> (children: Vec<Node<'a>>)
    ensures
        children@ == item_children(item),
{
    let mut out: Vec<Node<'a>> = Vec::new();
    match &item.val {
        ItemNode::FuncItem(id, args, ret, body, tps) => {
            out.push(Node::Ident(id));
            push_func_args(&mut out, args);
            out.push(Node::Type(ret));
            out.push(Node::Block(body));
            push_idents(&mut out, tps);
        },
        ItemNode::StructItem(id, fields, tps) => {
            out.push(Node::Ident(id));
            let ghost start = out@;
            let mut i: usize = 0;
            while i < fields.len()
                invariant
                    i <= fields.len(),
                    out@ == start + fields_nodes(fields@.take(i as int)),
                decreases fields.len() - i,
            {
                out.push(Node::Type(&fields[i].fldtype));
                assert(fields@.take(i as int + 1) =~= fields@.take(i as int).push(
                    fields@[i as int],
                ));
                assert(out@ =~= start + fields_nodes(fields@.take(i as int + 1)));
                i += 1;
            }
            assert(fields@.take(i as int) =~= fields@);
            push_idents(&mut out, tps);
        },
        ItemNode::EnumItem(id, variants, tps) => {
            out.push(Node::Ident(id));
            let ghost start = out@;
            let mut i: usize = 0;
            while i < variants.len()
                invariant
                    i <= variants.len(),
                    out@ == start + variants_nodes(variants@.take(i as int)),
                decreases variants.len() - i,
            {
                out.push(Node::Ident(&variants[i].ident));
                push_types(&mut out, &variants[i].args);
                assert(variants@.take(i as int + 1).drop_last() =~= variants@.take(i as int));
                assert(out@ =~= start + variants_nodes(variants@.take(i as int + 1)));
                i += 1;
            }
            assert(variants@.take(i as int) =~= variants@);
            push_idents(&mut out, tps);
        },
    }
    assert(out@ =~= item_children(item));
    out
}

/// The children of a type.
pub fn children_of_type<'a>(t: &'a Type) -> (children: Vec<Node<'a>>)
    ensures
        children@ == type_children(t),
{
    let mut out: Vec<Node<'a>> = Vec::new();
    match &t.val {
        TypeNode::PtrType(target) => {
            out.push(Node::Type(target));
        },
        TypeNode::NamedType(id) => {
            out.push(Node::Ident(id));
        },
        TypeNode::FuncType(args, ret) => {
            push_types(&mut out, args);
            out.push(Node::Type(ret));
        },
        TypeNode::ArrayType(element, _) => {
            out.push(Node::Type(element));
        },
        TypeNode::TupleType(parts) => {
            push_types(&mut out, parts);
        },
        _ => {},
    }
    assert(out@ =~= type_children(t));
    out
}

/// The children of a function parameter.
pub fn children_of_func_arg<'a>(arg: &'a FuncArg) -> (children: Vec<Node<'a>>)
    ensures
        children@ == func_arg_children(arg),
{
    let mut out: Vec<Node<'a>> = Vec::new();
    out.push(Node::Ident(&arg.ident));
    out.push(Node::Type(&arg.argtype));
    assert(out@ =~= func_arg_children(arg));
    out
}

/// The children of a block.
pub fn children_of_block<'a>(block: &'a Block) -> (children: Vec<Node<'a>>)
    ensures
        children@ == block_children(block),
{
    let mut out: Vec<Node<'a>> = Vec::new();
    push_items(&mut out, &block.items);
    push_stmts(&mut out, &block.stmts);
    push_optional_expr(&mut out, &block.expr);
    assert(out@ =~= block_children(block));
    out
}

/// The children of a statement.
pub fn children_of_stmt<'a>(stmt: &'a Stmt) -> (children: Vec<Node<'a>>)
    ensures
        children@ == stmt_children(stmt),
{
    let mut out: Vec<Node<'a>> = Vec::new();
    match &stmt.val {
        StmtNode::LetStmt(pat, init) => {
            push_pat(&mut out, pat);
            push_optional_expr(&mut out, init);
        },
        StmtNode::ExprStmt(e) => {
            out.push(Node::Expr(e));
        },
        StmtNode::SemiStmt(e) => {
            out.push(Node::Expr(e));
        },
    }
    assert(out@ =~= stmt_children(stmt));
    out
}

/// The children of an expression.
pub fn children_of_expr<'a>(expr: &'a Expr) -> (children: Vec<Node<'a>>)
    ensures
        children@ == expr_children(expr),
{
    let mut out: Vec<Node<'a>> = Vec::new();
    match &expr.val {
        ExprNode::UnitExpr => {},
        ExprNode::LitExpr(lit) => {
            out.push(Node::Lit(lit));
        },
        ExprNode::TupleExpr(parts) => {
            push_exprs(&mut out, parts);
        },
        ExprNode::IdentExpr(id) => {
            out.push(Node::Ident(id));
        },
        ExprNode::PathExpr(path) => {
            push_idents(&mut out, &path.val.elems);
        },
        ExprNode::GroupExpr(inner) => {
            out.push(Node::Expr(inner));
        },
        ExprNode::BinOpExpr(_, left, right) => {
            out.push(Node::Expr(left));
            out.push(Node::Expr(right));
        },
        ExprNode::UnOpExpr(_, operand) => {
            out.push(Node::Expr(operand));
        },
        ExprNode::IndexExpr(array, index) => {
            out.push(Node::Expr(array));
            out.push(Node::Expr(index));
        },
        ExprNode::DotExpr(object, _) => {
            out.push(Node::Expr(object));
        },
        ExprNode::ArrowExpr(object, _) => {
            out.push(Node::Expr(object));
        },
        ExprNode::AssignExpr(target, value) => {
            out.push(Node::Expr(target));
            out.push(Node::Expr(value));
        },
        ExprNode::CallExpr(callee, args) => {
            out.push(Node::Expr(callee));
            push_exprs(&mut out, args);
        },
        ExprNode::CastExpr(value, t) => {
            out.push(Node::Expr(value));
            out.push(Node::Type(t));
        },
        ExprNode::IfExpr(cond, on_true, on_false) => {
            out.push(Node::Expr(cond));
            out.push(Node::Block(on_true));
            out.push(Node::Block(on_false));
        },
        ExprNode::BlockExpr(block) => {
            out.push(Node::Block(block));
        },
        ExprNode::ReturnExpr(value) => {
            out.push(Node::Expr(value));
        },
        ExprNode::WhileExpr(cond, body) => {
            out.push(Node::Expr(cond));
            out.push(Node::Block(body));
        },
        ExprNode::ForExpr(init, cond, step, body) => {
            out.push(Node::Expr(init));
            out.push(Node::Expr(cond));
            out.push(Node::Expr(step));
            out.push(Node::Block(body));
        },
        ExprNode::MatchExpr(subject, arms) => {
            out.push(Node::Expr(subject));
            let ghost start = out@;
            let mut i: usize = 0;
            while i < arms.len()
                invariant
                    i <= arms.len(),
                    out@ == start + arms_nodes(arms@.take(i as int)),
                decreases arms.len() - i,
            {
                push_pat(&mut out, &arms[i].pat);
                out.push(Node::Expr(&arms[i].body));
                assert(arms@.take(i as int + 1).drop_last() =~= arms@.take(i as int));
                assert(out@ =~= start + arms_nodes(arms@.take(i as int + 1)));
                i += 1;
            }
            assert(arms@.take(i as int) =~= arms@);
        },
    }
    assert(out@ =~= expr_children(expr));
    out
}

/// The children of a literal: none.
pub fn children_of_lit<'a>(lit: &'a Lit) -> (children: Vec<Node<'a>>)
    ensures
        children@ == lit_children(lit),
{
    Vec::new()
}

/// The children of an identifier.
pub fn children_of_ident<'a>(ident: &'a Ident) -> (children: Vec<Node<'a>>)
    ensures
        children@ == ident_children(ident),
{
    let mut out: Vec<Node<'a>> = Vec::new();
    match &ident.val.tps {
        Some(tps) => {
            push_types(&mut out, tps);
        },
        None => {},
    }
    assert(out@ =~= ident_children(ident));
    out
}

} // verus!
