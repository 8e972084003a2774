//! The intermediate representation: a flat stream of operations over
//! variables, with labels and jumps in place of structured control flow.

use vstd::prelude::*;
use std::collections::BTreeSet;
use crate::ast::{BinOpNode, LitNode, LitView};
use crate::session::Name;

pub mod ast_to_intermediate;
pub mod defined;
pub mod labels;
pub mod laws;
pub mod lowering;
pub mod plan;
pub mod scope;
pub mod temps;

verus! {

/// A variable: an interned name and, once a renaming pass has run, the
/// generation of that name. Lowering leaves the generation unset.
#[derive(Clone, Copy, Debug, PartialEq, Eq, PartialOrd, Ord, Hash)]
pub struct Var {
    pub name: Name,
    pub generation: Option<usize>,
}

/// A variable as a pair of numbers.
pub struct VarView {
    pub name: nat,
    pub generation: Option<nat>,
}

impl View for Var {
    type V = VarView;

    open spec fn view(&self) -> VarView {
        VarView {
            name: self.name@,
            generation: match self.generation {
                Some(g) => Some(g as nat),
                None => None,
            },
        }
    }
}

/// A place that can be assigned to.
#[derive(Clone, Debug, PartialEq, Eq)]
pub enum LValue {
    /// The variable itself.
    VarLValue(Var),
    /// The memory cell that the variable points to.
    PtrLValue(Var),
}

/// A value that can be read: a variable or a constant.
#[derive(Clone, Debug, PartialEq, Eq)]
pub enum RValueElem {
    Variable(Var),
    Constant(LitNode),
}

/// The right-hand side of an assignment.
#[derive(Clone, Debug, PartialEq, Eq)]
pub enum RValue {
    BinOpRValue(BinOpNode, RValueElem, RValueElem),
    DirectRValue(RValueElem),
}

/// One operation of the flat stream. Jumps and labels carry a set of
/// variables for a later flow analysis to fill.
#[derive(Clone, Debug, PartialEq, Eq)]
pub enum Op {
    /// Store the value in the place.
    Assign(LValue, RValue),
    /// Jump to the label.
    Goto(usize, BTreeSet<Var>),
    /// Jump to the label if the value is true or non-zero; else go on.
    CondGoto(RValueElem, usize, BTreeSet<Var>),
    /// The target of the jumps to this label.
    Label(usize, BTreeSet<Var>),
}

/// A place over variables of type `V`.
pub enum PlaceOf<V> {
    Var(V),
    Deref(V),
}

/// A readable value over variables of type `V`.
pub enum OperandOf<V> {
    Variable(V),
    Constant(LitView),
}

/// A right-hand side over variables of type `V`.
pub enum ValueOf<V> {
    BinOp(BinOpNode, OperandOf<V>, OperandOf<V>),
    Direct(OperandOf<V>),
}

/// An operation over variables of type `V`.
#[verifier::reject_recursive_types(V)]
pub enum OpOf<V> {
    Assign(PlaceOf<V>, ValueOf<V>),
    Goto(nat, Set<V>),
    CondGoto(OperandOf<V>, nat, Set<V>),
    Label(nat, Set<V>),
}

/// An operation over variables given as pairs of numbers.
pub type OpView = OpOf<VarView>;

impl View for LValue {
    type V = PlaceOf<VarView>;

    open spec fn view(&self) -> PlaceOf<VarView> {
        match *self {
            LValue::VarLValue(v) => PlaceOf::Var(v@),
            LValue::PtrLValue(v) => PlaceOf::Deref(v@),
        }
    }
}

impl View for RValueElem {
    type V = OperandOf<VarView>;

    open spec fn view(&self) -> OperandOf<VarView> {
        match *self {
            RValueElem::Variable(v) => OperandOf::Variable(v@),
            RValueElem::Constant(lit) => OperandOf::Constant(lit@),
        }
    }
}

impl View for RValue {
    type V = ValueOf<VarView>;

    open spec fn view(&self) -> ValueOf<VarView> {
        match *self {
            RValue::BinOpRValue(op, a, b) => ValueOf::BinOp(op, a@, b@),
            RValue::DirectRValue(a) => ValueOf::Direct(a@),
        }
    }
}

/// The variables of a set, each as a pair of numbers.
pub open spec fn vars_view(vars: Set<Var>) -> Set<VarView> {
    vars.map(|v: Var| v@)
}

impl View for Op {
    type V = OpOf<VarView>;

    open spec fn view(&self) -> OpOf<VarView> {
        match *self {
            Op::Assign(place, value) => OpOf::Assign(place@, value@),
            Op::Goto(label, vars) => OpOf::Goto(label as nat, vars_view(vars@)),
            Op::CondGoto(cond, label, vars) => OpOf::CondGoto(cond@, label as nat, vars_view(vars@)),
            Op::Label(label, vars) => OpOf::Label(label as nat, vars_view(vars@)),
        }
    }
}

/// The operations of a stream, each by its view.
pub open spec fn ops_view(ops: Seq<Op>) -> Seq<OpView> {
    ops.map_values(|op: Op| op@)
}

/// An empty annotation reads as the empty set.
pub proof fn lemma_no_vars()
    ensures
        vars_view(Set::<Var>::empty()) == Set::<VarView>::empty(),
{
    assert(vars_view(Set::<Var>::empty()) =~= Set::<VarView>::empty());
}

} // verus!
