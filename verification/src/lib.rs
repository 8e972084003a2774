//! Front-to-middle stage of a compiler for a small C-like language: the
//! syntax tree, the flat intermediate representation, and the lowering from
//! one to the other.

pub mod ast;
pub mod ir;
pub mod session;
pub mod util;
pub mod values;
