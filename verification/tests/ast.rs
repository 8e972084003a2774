use lowering::ast::{
    BinOpNode, Expr, ExprNode, Ident, IdentNode, Lit, LitNode, NodeId, Type, TypeNode, WithId,
};
use lowering::session::Name;
use lowering::util::{IntKind, Width};

#[test]
fn node_id_as_a_number() {
    assert_eq!(NodeId(0).to_uint(), 0);
    assert_eq!(NodeId(17).to_uint(), 17);
    assert_eq!(NodeId(usize::MAX).to_uint(), usize::MAX);
}

#[test]
fn node_ids_are_ordered_by_their_number() {
    assert!(NodeId(1) < NodeId(2));
    assert_eq!(NodeId(3), NodeId(3));
    assert_ne!(NodeId(3), NodeId(4));
}

#[test]
fn nodes_are_compared_by_payload_only() {
    let a = WithId { id: NodeId(1), val: BinOpNode::PlusOp };
    let b = WithId { id: NodeId(2), val: BinOpNode::PlusOp };
    let c = WithId { id: NodeId(1), val: BinOpNode::MinusOp };
    assert!(a == b);
    assert!(a != c);
}

#[test]
fn trees_are_compared_without_their_ids() {
    let lit = |id: usize, n: u64| -> Expr {
        let l: Lit = WithId { id: NodeId(id), val: LitNode::NumLit(n, IntKind::GenericInt) };
        WithId { id: NodeId(id + 100), val: ExprNode::LitExpr(l) }
    };
    let sum = |id: usize, l: Expr, r: Expr| -> Expr {
        WithId {
            id: NodeId(id),
            val: ExprNode::BinOpExpr(
                WithId { id: NodeId(id + 1), val: BinOpNode::PlusOp },
                Box::new(l),
                Box::new(r),
            ),
        }
    };
    assert_eq!(sum(1, lit(2, 5), lit(3, 6)), sum(10, lit(20, 5), lit(30, 6)));
    assert_ne!(sum(1, lit(2, 5), lit(3, 6)), sum(1, lit(2, 5), lit(3, 7)));
}

#[test]
fn cloning_a_literal_keeps_it() {
    let s = LitNode::StringLit("text".to_string());
    assert_eq!(s.clone(), s);
    let n = LitNode::NumLit(9, IntKind::SignedInt(Width::Width16));
    assert_eq!(n.clone(), n);
    let b = LitNode::BoolLit(false);
    assert_eq!(b.clone(), b);
    assert_ne!(n.clone(), b);
}

#[test]
fn types_and_identifiers_hold_each_other() {
    let bool_type: Type = WithId { id: NodeId(0), val: TypeNode::BoolType };
    let list: Ident =
        WithId { id: NodeId(1), val: IdentNode { tps: Some(vec![bool_type]), name: Name(3) } };
    let named: Type = WithId { id: NodeId(2), val: TypeNode::NamedType(list) };
    match &named.val {
        TypeNode::NamedType(ident) => {
            assert_eq!(ident.val.name, Name(3));
            assert_eq!(ident.val.tps.as_ref().map(|t| t.len()), Some(1));
        }
        _ => unreachable!(),
    }
}
