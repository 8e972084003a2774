//! Arithmetic on literals, as a constant folder needs it.
//!
//! Two numbers can be combined when they are of one integer kind, two
//! booleans always; any other pair of literals has no result.

use vstd::prelude::*;
use crate::ast::LitNode;
use crate::util::IntKind;

verus! {

/// An integer, reduced to the range of a 64-bit number.
pub open spec fn wrap(i: int) -> u64 {
    (i % 0x1_0000_0000_0000_0000) as u64
}

/// The literals are two numbers of one integer kind.
pub open spec fn numbers_of_one_kind(lhs: LitNode, rhs: LitNode) -> bool {
    lhs is NumLit && rhs is NumLit && lhs->NumLit_1 == rhs->NumLit_1
}

/// The literals are two booleans.
pub open spec fn two_booleans(lhs: LitNode, rhs: LitNode) -> bool {
    lhs is BoolLit && rhs is BoolLit
}

/// Whether the literals are two numbers of one integer kind.
pub fn are_numbers_of_one_kind(lhs: &LitNode, rhs: &LitNode) -> (ok: bool)
    ensures
        ok == numbers_of_one_kind(*lhs, *rhs),
{
    match lhs {
        LitNode::NumLit(_, kind1) => match rhs {
            LitNode::NumLit(_, kind2) => *kind1 == *kind2,
            _ => false,
        },
        _ => false,
    }
}

/// Applies `f` to the number in `rhs`, which is of the kind `kind1`.
fn num_op_helper<F: Fn(u64) -> u64>(kind1: &IntKind, rhs: &LitNode, f: F) -> (res: LitNode)
    requires
        rhs is NumLit,
        rhs->NumLit_1 == *kind1,
        call_requires(f, (rhs->NumLit_0,)),
    ensures
        res is NumLit,
        res->NumLit_1 == *kind1,
        call_ensures(f, (rhs->NumLit_0,), res->NumLit_0),
{
    match rhs {
        LitNode::NumLit(n2, kind2) => LitNode::NumLit(f(*n2), *kind2),
        _ => unreached(),
    }
}

/// Applies `f` to the boolean in `rhs`.
fn bool_op_helper<F: Fn(bool) -> bool>(rhs: &LitNode, f: F) -> (res: LitNode)
    requires
        rhs is BoolLit,
        call_requires(f, (rhs->BoolLit_0,)),
    ensures
        res is BoolLit,
        call_ensures(f, (rhs->BoolLit_0,), res->BoolLit_0),
{
    match rhs {
        LitNode::BoolLit(b2) => LitNode::BoolLit(f(*b2)),
        _ => unreached(),
    }
}

/// Combines two numbers of one kind by `intfunc`, or two booleans by
/// `boolfunc`. The result is of the kind of the operands.
pub fn generic_op<I: Fn(u64, u64) -> u64, B: Fn(bool, bool) -> bool>(
    lhs: &LitNode,
    rhs: &LitNode,
    intfunc: I,
    boolfunc: B,
) -> (res: LitNode)
    requires
        numbers_of_one_kind(*lhs, *rhs) || two_booleans(*lhs, *rhs),
        numbers_of_one_kind(*lhs, *rhs) ==> call_requires(
            intfunc,
            (lhs->NumLit_0, rhs->NumLit_0),
        ),
        two_booleans(*lhs, *rhs) ==> call_requires(boolfunc, (lhs->BoolLit_0, rhs->BoolLit_0)),
    ensures
        numbers_of_one_kind(*lhs, *rhs) ==> res is NumLit && res->NumLit_1 == lhs->NumLit_1
            && call_ensures(intfunc, (lhs->NumLit_0, rhs->NumLit_0), res->NumLit_0),
        two_booleans(*lhs, *rhs) ==> res is BoolLit && call_ensures(
            boolfunc,
            (lhs->BoolLit_0, rhs->BoolLit_0),
            res->BoolLit_0,
        ),
{
    match lhs {
        LitNode::NumLit(n1, kind1) => {
            let n1 = *n1;
            let g = &intfunc;
            let with_left = |x: u64| -> (y: u64)
                requires
                    call_requires(g, (n1, x)),
                ensures
                    call_ensures(g, (n1, x), y),
            {
                g(n1, x)
            };
            num_op_helper(kind1, rhs, with_left)
        },
        LitNode::BoolLit(b) => {
            let b = *b;
            let g = &boolfunc;
            let with_left = |x: bool| -> (y: bool)
                requires
                    call_requires(g, (b, x)),
                ensures
                    call_ensures(g, (b, x), y),
            {
                g(b, x)
            };
            bool_op_helper(rhs, with_left)
        },
        _ => unreached(),
    }
}

/// Compares two numbers of one kind by `f`; the result is a boolean.
pub fn relation_op<F: Fn(u64, u64) -> bool>(lhs: &LitNode, rhs: &LitNode, f: F) -> (res: LitNode)
    requires
        numbers_of_one_kind(*lhs, *rhs),
        call_requires(f, (lhs->NumLit_0, rhs->NumLit_0)),
    ensures
        res is BoolLit,
        call_ensures(f, (lhs->NumLit_0, rhs->NumLit_0), res->BoolLit_0),
{
    match lhs {
        LitNode::NumLit(n1, _) => match rhs {
            LitNode::NumLit(n2, _) => LitNode::BoolLit(f(*n1, *n2)),
            _ => unreached(),
        },
        _ => unreached(),
    }
}

impl core::ops::Add<&LitNode> for &LitNode {
    type Output = LitNode;

    /// The sum of two numbers of one kind, reduced to 64 bits.
    fn add(self, rhs: &LitNode) -> (res: LitNode) {
        let on_numbers = |x: u64, y: u64| -> (z: u64)
            ensures
                z == wrap(x + y),
        {
            x.wrapping_add(y)
        };
        let on_booleans = |a: bool, b: bool| -> (z: bool) { a };
        generic_op(self, rhs, on_numbers, on_booleans)
    }
}

impl vstd::std_specs::ops::AddSpecImpl<&LitNode> for &LitNode {
    open spec fn obeys_add_spec() -> bool {
        true
    }

    open spec fn add_req(self, rhs: &LitNode) -> bool {
        numbers_of_one_kind(*self, *rhs)
    }

    open spec fn add_spec(self, rhs: &LitNode) -> LitNode {
        LitNode::NumLit(wrap(self->NumLit_0 + rhs->NumLit_0), self->NumLit_1)
    }
}

impl core::ops::Mul<&LitNode> for &LitNode {
    type Output = LitNode;

    /// The product of two numbers of one kind, reduced to 64 bits.
    fn mul(self, rhs: &LitNode) -> (res: LitNode) {
        let on_numbers = |x: u64, y: u64| -> (z: u64)
            ensures
                z == wrap(x * y),
        {
            x.wrapping_mul(y)
        };
        let on_booleans = |a: bool, b: bool| -> (z: bool) { a };
        generic_op(self, rhs, on_numbers, on_booleans)
    }
}

impl vstd::std_specs::ops::MulSpecImpl<&LitNode> for &LitNode {
    open spec fn obeys_mul_spec() -> bool {
        true
    }

    open spec fn mul_req(self, rhs: &LitNode) -> bool {
        numbers_of_one_kind(*self, *rhs)
    }

    open spec fn mul_spec(self, rhs: &LitNode) -> LitNode {
        LitNode::NumLit(wrap(self->NumLit_0 * rhs->NumLit_0), self->NumLit_1)
    }
}

impl core::ops::Sub<&LitNode> for &LitNode {
    type Output = LitNode;

    /// The difference of two numbers of one kind, reduced to 64 bits.
    fn sub(self, rhs: &LitNode) -> (res: LitNode) {
        let on_numbers = |x: u64, y: u64| -> (z: u64)
            ensures
                z == wrap(x - y),
        {
            x.wrapping_sub(y)
        };
        let on_booleans = |a: bool, b: bool| -> (z: bool) { a };
        generic_op(self, rhs, on_numbers, on_booleans)
    }
}

impl vstd::std_specs::ops::SubSpecImpl<&LitNode> for &LitNode {
    open spec fn obeys_sub_spec() -> bool {
        true
    }

    open spec fn sub_req(self, rhs: &LitNode) -> bool {
        numbers_of_one_kind(*self, *rhs)
    }

    open spec fn sub_spec(self, rhs: &LitNode) -> LitNode {
        LitNode::NumLit(wrap(self->NumLit_0 - rhs->NumLit_0), self->NumLit_1)
    }
}

impl core::ops::Div<&LitNode> for &LitNode {
    type Output = LitNode;

    /// The quotient of two numbers of one kind; the divisor is not zero.
    fn div(self, rhs: &LitNode) -> (res: LitNode) {
        let on_numbers = |x: u64, y: u64| -> (z: u64)
            requires
                y != 0,
            ensures
                z == x / y,
        {
            x / y
        };
        let on_booleans = |a: bool, b: bool| -> (z: bool) { a };
        generic_op(self, rhs, on_numbers, on_booleans)
    }
}

impl vstd::std_specs::ops::DivSpecImpl<&LitNode> for &LitNode {
    open spec fn obeys_div_spec() -> bool {
        true
    }

    open spec fn div_req(self, rhs: &LitNode) -> bool {
        numbers_of_one_kind(*self, *rhs) && rhs->NumLit_0 != 0
    }

    open spec fn div_spec(self, rhs: &LitNode) -> LitNode {
        LitNode::NumLit(self->NumLit_0 / rhs->NumLit_0, self->NumLit_1)
    }
}

impl core::ops::BitAnd<&LitNode> for &LitNode {
    type Output = LitNode;

    /// The bitwise and of two numbers of one kind.
    fn bitand(self, rhs: &LitNode) -> (res: LitNode) {
        let on_numbers = |x: u64, y: u64| -> (z: u64)
            ensures
                z == x & y,
        {
            x & y
        };
        let on_booleans = |a: bool, b: bool| -> (z: bool) { a };
        generic_op(self, rhs, on_numbers, on_booleans)
    }
}

impl vstd::std_specs::ops::BitAndSpecImpl<&LitNode> for &LitNode {
    open spec fn obeys_bitand_spec() -> bool {
        true
    }

    open spec fn bitand_req(self, rhs: &LitNode) -> bool {
        numbers_of_one_kind(*self, *rhs)
    }

    open spec fn bitand_spec(self, rhs: &LitNode) -> LitNode {
        LitNode::NumLit(self->NumLit_0 & rhs->NumLit_0, self->NumLit_1)
    }
}

impl core::ops::BitOr<&LitNode> for &LitNode {
    type Output = LitNode;

    /// The bitwise or of two numbers of one kind.
    fn bitor(self, rhs: &LitNode) -> (res: LitNode) {
        let on_numbers = |x: u64, y: u64| -> (z: u64)
            ensures
                z == x | y,
        {
            x | y
        };
        let on_booleans = |a: bool, b: bool| -> (z: bool) { a };
        generic_op(self, rhs, on_numbers, on_booleans)
    }
}

impl vstd::std_specs::ops::BitOrSpecImpl<&LitNode> for &LitNode {
    open spec fn obeys_bitor_spec() -> bool {
        true
    }

    open spec fn bitor_req(self, rhs: &LitNode) -> bool {
        numbers_of_one_kind(*self, *rhs)
    }

    open spec fn bitor_spec(self, rhs: &LitNode) -> LitNode {
        LitNode::NumLit(self->NumLit_0 | rhs->NumLit_0, self->NumLit_1)
    }
}

impl core::ops::BitXor<&LitNode> for &LitNode {
    type Output = LitNode;

    /// The bitwise exclusive or of two numbers of one kind.
    fn bitxor(self, rhs: &LitNode) -> (res: LitNode) {
        let on_numbers = |x: u64, y: u64| -> (z: u64)
            ensures
                z == x ^ y,
        {
            x ^ y
        };
        let on_booleans = |a: bool, b: bool| -> (z: bool) { a };
        generic_op(self, rhs, on_numbers, on_booleans)
    }
}

impl vstd::std_specs::ops::BitXorSpecImpl<&LitNode> for &LitNode {
    open spec fn obeys_bitxor_spec() -> bool {
        true
    }

    open spec fn bitxor_req(self, rhs: &LitNode) -> bool {
        numbers_of_one_kind(*self, *rhs)
    }

    open spec fn bitxor_spec(self, rhs: &LitNode) -> LitNode {
        LitNode::NumLit(self->NumLit_0 ^ rhs->NumLit_0, self->NumLit_1)
    }
}

impl core::ops::Rem<&LitNode> for &LitNode {
    type Output = LitNode;

    /// The remainder of two numbers of one kind; the divisor is not zero.
    fn rem(self, rhs: &LitNode) -> (res: LitNode) {
        let on_numbers = |x: u64, y: u64| -> (z: u64)
            requires
                y != 0,
            ensures
                z == x % y,
        {
            x % y
        };
        let on_booleans = |a: bool, b: bool| -> (z: bool) { a };
        generic_op(self, rhs, on_numbers, on_booleans)
    }
}

impl vstd::std_specs::ops::RemSpecImpl<&LitNode> for &LitNode {
    open spec fn obeys_rem_spec() -> bool {
        true
    }

    open spec fn rem_req(self, rhs: &LitNode) -> bool {
        numbers_of_one_kind(*self, *rhs) && rhs->NumLit_0 != 0
    }

    open spec fn rem_spec(self, rhs: &LitNode) -> LitNode {
        LitNode::NumLit(self->NumLit_0 % rhs->NumLit_0, self->NumLit_1)
    }
}

} // verus!
