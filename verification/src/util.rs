//! Integer kinds shared by the syntax tree and the literals.

use vstd::prelude::*;

verus! {

/// Width of a sized integer type.
#[derive(Clone, Copy, Debug, PartialEq, Eq, Hash, Structural)]
pub enum Width {
    AnyWidth,
    Width32,
    Width16,
    Width8,
}

/// Kind of an integer: its signedness and its width.
#[derive(Clone, Copy, Debug, PartialEq, Eq, Hash, Structural)]
pub enum IntKind {
    GenericInt,
    SignedInt(Width),
    UnsignedInt(Width),
}

} // verus!
