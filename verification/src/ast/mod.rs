//! The abstract syntax tree: identifier-tagged nodes for types, patterns,
//! literals, expressions, statements, blocks and items.
//!
//! The tree is built by a parser and read-only afterwards. Every node pairs
//! a payload with a [`NodeId`], so that later passes can attach what they
//! find to a node by its id.

use vstd::prelude::*;
use vstd::std_specs::cmp::PartialEqSpec;
use crate::session::Name;
use crate::util::IntKind;

pub mod show;
pub mod visit;

verus! {

/// Identity of a node, unique within one parse.
#[derive(Clone, Copy, Debug, PartialEq, Eq, PartialOrd, Ord, Hash, Structural)]
pub struct NodeId(pub usize);

impl NodeId {
    /// The id as a plain number.
    pub fn to_uint(&self) -> (n: usize)
        ensures
            n == self.0,
    {
        self.0
    }
}

/// A payload together with the id of its node.
#[derive(Clone, Debug)]
pub struct WithId<T> {
    pub id: NodeId,
    pub val: T,
}

/// Two nodes are equal when their payloads are; the ids are not compared.
impl<T: PartialEq> PartialEq for WithId<T> {
    fn eq(&self, other: &WithId<T>) -> (r: bool) {
        self.val.eq(&other.val)
    }
}

impl<T: PartialEq> vstd::std_specs::cmp::PartialEqSpecImpl for WithId<T> {
    open spec fn obeys_eq_spec() -> bool {
        T::obeys_eq_spec()
    }

    open spec fn eq_spec(&self, other: &WithId<T>) -> bool {
        self.val.eq_spec(&other.val)
    }
}

impl<T: Eq> Eq for WithId<T> {

}

pub type Type = WithId<TypeNode>;

pub type BinOp = WithId<BinOpNode>;

pub type UnOp = WithId<UnOpNode>;

pub type Lit = WithId<LitNode>;

pub type Pat = WithId<PatNode>;

pub type Expr = WithId<ExprNode>;

pub type Stmt = WithId<StmtNode>;

pub type Item = WithId<ItemNode>;

pub type Ident = WithId<IdentNode>;

pub type Path = WithId<PathNode>;

/// An identifier, with the type arguments written after it, if any.
#[derive(Debug, PartialEq, Eq)]
pub struct IdentNode {
    pub tps: Option<Vec<Type>>,
    pub name: Name,
}

/// A possibly qualified reference: its segments, outermost first.
#[derive(Debug, PartialEq, Eq)]
pub struct PathNode {
    pub global: bool,
    pub elems: Vec<Ident>,
}

/// A named field inside a struct pattern.
#[derive(Debug, PartialEq, Eq)]
pub struct FieldPat {
    pub name: Name,
    pub pat: Pat,
}

/// Patterns.
#[derive(Debug, PartialEq, Eq)]
pub enum PatNode {
    DiscardPat(Option<Type>),
    IdentPat(Ident, Option<Type>),
    TuplePat(Vec<Pat>),
    VariantPat(Ident, Vec<Pat>),
    StructPat(Ident, Vec<FieldPat>),
}

/// Types.
#[derive(Debug, PartialEq, Eq)]
pub enum TypeNode {
    BoolType,
    UnitType,
    IntType(IntKind),
    PtrType(Box<Type>),
    NamedType(Ident),
    FuncType(Vec<Type>, Box<Type>),
    ArrayType(Box<Type>, u64),
    TupleType(Vec<Type>),
}

/// Binary operators.
#[derive(Clone, Copy, Debug, PartialEq, Eq, Hash, Structural)]
pub enum BinOpNode {
    PlusOp,
    MinusOp,
    TimesOp,
    DivideOp,
    ModOp,
    EqualsOp,
    NotEqualsOp,
    LessOp,
    LessEqOp,
    GreaterOp,
    GreaterEqOp,
    AndAlsoOp,
    OrElseOp,
    BitAndOp,
    BitOrOp,
    BitXorOp,
    LeftShiftOp,
    RightShiftOp,
}

/// Unary operators.
#[derive(Clone, Copy, Debug, PartialEq, Eq, Hash, Structural)]
pub enum UnOpNode {
    Deref,
    AddrOf,
    Negate,
}

/// Literals.
#[derive(Debug, PartialEq, Eq)]
pub enum LitNode {
    NumLit(u64, IntKind),
    StringLit(String),
    BoolLit(bool),
}

/// What a literal is, with a string taken as its sequence of characters.
pub enum LitView {
    Num(u64, IntKind),
    Str(Seq<char>),
    Bool(bool),
}

impl View for LitNode {
    type V = LitView;

    open spec fn view(&self) -> LitView {
        match *self {
            LitNode::NumLit(n, kind) => LitView::Num(n, kind),
            LitNode::StringLit(s) => LitView::Str(s@),
            LitNode::BoolLit(b) => LitView::Bool(b),
        }
    }
}

impl Clone for LitNode {
    fn clone(&self) -> (copy: LitNode)
        ensures
            copy@ == self@,
    {
        match self {
            LitNode::NumLit(n, kind) => LitNode::NumLit(*n, *kind),
            LitNode::StringLit(s) => LitNode::StringLit(s.clone()),
            LitNode::BoolLit(b) => LitNode::BoolLit(*b),
        }
    }
}

/// One arm of a match expression.
#[derive(Debug, PartialEq, Eq)]
pub struct MatchArm {
    pub pat: Pat,
    pub body: Expr,
}

/// Expressions.
#[derive(Debug, PartialEq, Eq)]
pub enum ExprNode {
    UnitExpr,
    LitExpr(Lit),
    TupleExpr(Vec<Expr>),
    IdentExpr(Ident),
    PathExpr(Path),
    GroupExpr(Box<Expr>),
    BinOpExpr(BinOp, Box<Expr>, Box<Expr>),
    UnOpExpr(UnOp, Box<Expr>),
    IndexExpr(Box<Expr>, Box<Expr>),
    DotExpr(Box<Expr>, Name),
    ArrowExpr(Box<Expr>, Name),
    AssignExpr(Box<Expr>, Box<Expr>),
    CallExpr(Box<Expr>, Vec<Expr>),
    CastExpr(Box<Expr>, Type),
    IfExpr(Box<Expr>, Box<Block>, Box<Block>),
    BlockExpr(Box<Block>),
    ReturnExpr(Box<Expr>),
    WhileExpr(Box<Expr>, Box<Block>),
    ForExpr(Box<Expr>, Box<Expr>, Box<Expr>, Box<Block>),
    MatchExpr(Box<Expr>, Vec<MatchArm>),
}

/// Statements.
#[derive(Debug, PartialEq, Eq)]
pub enum StmtNode {
    /// A binding of a pattern, with or without an initial value.
    LetStmt(Pat, Option<Expr>),
    /// An expression without a trailing semicolon; its type must be unit.
    ExprStmt(Expr),
    /// An expression with a trailing semicolon; its value is dropped.
    SemiStmt(Expr),
}

/// A block: nested items, statements in order, and the expression whose
/// value is the value of the block, if there is one.
#[derive(Debug, PartialEq, Eq)]
pub struct Block {
    pub items: Vec<Item>,
    pub stmts: Vec<Stmt>,
    pub expr: Option<Expr>,
}

/// A parameter of a function.
#[derive(Debug, PartialEq, Eq)]
pub struct FuncArg {
    pub ident: Ident,
    pub argtype: Type,
}

/// A variant of an enum.
#[derive(Debug, PartialEq, Eq)]
pub struct Variant {
    pub ident: Ident,
    pub args: Vec<Type>,
}

/// A field of a struct.
#[derive(Debug, PartialEq, Eq)]
pub struct Field {
    pub name: Name,
    pub fldtype: Type,
}

/// Items.
#[derive(Debug, PartialEq, Eq)]
pub enum ItemNode {
    FuncItem(Ident, Vec<FuncArg>, Type, Block, Vec<Ident>),
    StructItem(Ident, Vec<Field>, Vec<Ident>),
    EnumItem(Ident, Vec<Variant>, Vec<Ident>),
}

/// A whole source file.
#[derive(Debug, PartialEq, Eq)]
pub struct Module {
    pub items: Vec<Item>,
}

} // verus!
