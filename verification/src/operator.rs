//! The logical connectives a formula may use.
use vstd::prelude::*;

verus! {

/// A logical connective: `Not` is the only unary one, the other five are
/// binary.
#[derive(Clone, Copy, Debug, PartialEq, Eq, Structural)]
pub enum Operator {
    Not,
    And,
    Or,
    Xor,
    Xnor,
    Imply,
}

} // verus!
