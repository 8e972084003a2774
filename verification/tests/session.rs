use lowering::ir::temps::{decimal_string, temp_string};
use lowering::session::{Interner, Name};

#[test]
fn new_interner_is_empty() {
    let interner = Interner::new();
    assert_eq!(interner.len(), 0);
    assert_eq!(interner.lookup(Name(0)), None);
}

#[test]
fn interning_gives_handles_in_order() {
    let mut interner = Interner::new();
    assert_eq!(interner.intern("a".to_string()), Name(0));
    assert_eq!(interner.intern("b".to_string()), Name(1));
    assert_eq!(interner.intern("".to_string()), Name(2));
    assert_eq!(interner.len(), 3);
}

#[test]
fn interning_again_gives_the_same_handle() {
    let mut interner = Interner::new();
    let a = interner.intern("a".to_string());
    let b = interner.intern("b".to_string());
    assert_ne!(a, b);
    assert_eq!(interner.intern("a".to_string()), a);
    assert_eq!(interner.intern("b".to_string()), b);
    assert_eq!(interner.len(), 2);
}

#[test]
fn lookup_gives_the_string_back() {
    let mut interner = Interner::new();
    let a = interner.intern("alpha".to_string());
    let b = interner.intern("beta".to_string());
    assert_eq!(interner.lookup(a).map(|s| s.as_str()), Some("alpha"));
    assert_eq!(interner.lookup(b).map(|s| s.as_str()), Some("beta"));
    assert_eq!(interner.lookup(Name(2)), None);
    assert_eq!(interner.lookup(Name(usize::MAX)), None);
}

#[test]
fn strings_that_differ_in_case_or_length_are_different() {
    let mut interner = Interner::new();
    let a = interner.intern("x".to_string());
    let b = interner.intern("X".to_string());
    let c = interner.intern("xx".to_string());
    assert_eq!((a, b, c), (Name(0), Name(1), Name(2)));
}

#[test]
fn decimal_of_small_and_large_numbers() {
    assert_eq!(decimal_string(0), "0");
    assert_eq!(decimal_string(7), "7");
    assert_eq!(decimal_string(9), "9");
    assert_eq!(decimal_string(10), "10");
    assert_eq!(decimal_string(109), "109");
    assert_eq!(decimal_string(1234567890), "1234567890");
    assert_eq!(decimal_string(u64::MAX), "18446744073709551615");
}

#[test]
fn temporaries_are_named_temp_and_their_number() {
    assert_eq!(temp_string(0), "TEMP0");
    assert_eq!(temp_string(1), "TEMP1");
    assert_eq!(temp_string(42), "TEMP42");
    assert_eq!(temp_string(1000), "TEMP1000");
}
