use lowering::ast::LitNode;
use lowering::util::{IntKind, Width};
use lowering::values::{are_numbers_of_one_kind, generic_op, relation_op};

fn u32_lit(n: u64) -> LitNode {
    LitNode::NumLit(n, IntKind::UnsignedInt(Width::Width32))
}

fn i8_lit(n: u64) -> LitNode {
    LitNode::NumLit(n, IntKind::SignedInt(Width::Width8))
}

#[test]
fn sum_of_two_numbers() {
    assert_eq!(&u32_lit(3) + &u32_lit(4), u32_lit(7));
    assert_eq!(&i8_lit(0) + &i8_lit(0), i8_lit(0));
}

#[test]
fn sum_wraps_at_64_bits() {
    assert_eq!(&u32_lit(u64::MAX) + &u32_lit(1), u32_lit(0));
    assert_eq!(&u32_lit(u64::MAX) + &u32_lit(u64::MAX), u32_lit(u64::MAX - 1));
}

#[test]
fn difference_wraps_below_zero() {
    assert_eq!(&u32_lit(10) - &u32_lit(4), u32_lit(6));
    assert_eq!(&u32_lit(3) - &u32_lit(4), u32_lit(u64::MAX));
}

#[test]
fn product_wraps_at_64_bits() {
    assert_eq!(&u32_lit(6) * &u32_lit(7), u32_lit(42));
    assert_eq!(&u32_lit(1 << 63) * &u32_lit(2), u32_lit(0));
    assert_eq!(&u32_lit(u64::MAX) * &u32_lit(u64::MAX), u32_lit(1));
}

#[test]
fn quotient_and_remainder() {
    assert_eq!(&u32_lit(17) / &u32_lit(5), u32_lit(3));
    assert_eq!(&u32_lit(17) % &u32_lit(5), u32_lit(2));
    assert_eq!(&u32_lit(0) / &u32_lit(5), u32_lit(0));
    assert_eq!(&u32_lit(4) % &u32_lit(5), u32_lit(4));
}

#[test]
fn bitwise_operations() {
    assert_eq!(&u32_lit(0b1100) & &u32_lit(0b1010), u32_lit(0b1000));
    assert_eq!(&u32_lit(0b1100) | &u32_lit(0b1010), u32_lit(0b1110));
    assert_eq!(&u32_lit(0b1100) ^ &u32_lit(0b1010), u32_lit(0b0110));
}

#[test]
fn result_has_the_kind_of_the_operands() {
    let sum = &i8_lit(1) + &i8_lit(2);
    assert_eq!(sum, LitNode::NumLit(3, IntKind::SignedInt(Width::Width8)));
    assert_ne!(sum, u32_lit(3));
}

#[test]
fn generic_op_on_numbers_and_on_booleans() {
    let max = |x: u64, y: u64| if x > y { x } else { y };
    let and = |a: bool, b: bool| a && b;
    assert_eq!(generic_op(&u32_lit(3), &u32_lit(9), max, and), u32_lit(9));
    assert_eq!(
        generic_op(&LitNode::BoolLit(true), &LitNode::BoolLit(false), max, and),
        LitNode::BoolLit(false)
    );
    assert_eq!(
        generic_op(&LitNode::BoolLit(true), &LitNode::BoolLit(true), max, and),
        LitNode::BoolLit(true)
    );
}

#[test]
fn generic_op_gives_the_left_operand_first() {
    let left = |x: u64, _y: u64| x;
    let first = |a: bool, _b: bool| a;
    assert_eq!(generic_op(&u32_lit(3), &u32_lit(9), left, first), u32_lit(3));
    assert_eq!(
        generic_op(&LitNode::BoolLit(false), &LitNode::BoolLit(true), left, first),
        LitNode::BoolLit(false)
    );
}

#[test]
fn relation_op_gives_a_boolean() {
    let less = |x: u64, y: u64| x < y;
    assert_eq!(relation_op(&u32_lit(3), &u32_lit(9), less), LitNode::BoolLit(true));
    assert_eq!(relation_op(&u32_lit(9), &u32_lit(3), less), LitNode::BoolLit(false));
    assert_eq!(relation_op(&u32_lit(3), &u32_lit(3), less), LitNode::BoolLit(false));
}

#[test]
fn only_numbers_of_one_kind_can_be_combined() {
    assert!(are_numbers_of_one_kind(&u32_lit(1), &u32_lit(2)));
    assert!(!are_numbers_of_one_kind(&u32_lit(1), &i8_lit(2)));
    assert!(!are_numbers_of_one_kind(
        &u32_lit(1),
        &LitNode::NumLit(1, IntKind::UnsignedInt(Width::Width16))
    ));
    assert!(!are_numbers_of_one_kind(&u32_lit(1), &LitNode::NumLit(1, IntKind::GenericInt)));
    assert!(!are_numbers_of_one_kind(&u32_lit(1), &LitNode::BoolLit(true)));
    assert!(!are_numbers_of_one_kind(&LitNode::BoolLit(true), &LitNode::BoolLit(true)));
    assert!(!are_numbers_of_one_kind(&LitNode::StringLit("1".to_string()), &u32_lit(1)));
}
