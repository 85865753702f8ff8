//! Named boolean variables.
use vstd::prelude::*;

verus! {

/// A named boolean variable. Its identity is the letter: every occurrence
/// of one letter in a formula stands for the same variable, realised by the
/// per-parse table in `Tree` that holds one record per letter.
#[derive(Clone, Copy, Debug, PartialEq, Eq, Structural)]
pub struct Variable {
    /// A single uppercase letter `A`-`Z`.
    pub name: char,
    /// The assigned truth value; meaningful only when `is_set` holds.
    pub value: bool,
    /// Whether a truth value has been assigned.
    pub is_set: bool,
}

impl Variable {
    /// A fresh variable with the given name and value, not yet marked as
    /// assigned.
    pub fn new(name: char, value: bool) -> (v: Variable)
        ensures
            v == (Variable { name, value, is_set: false }),
    {
        Variable { name, value, is_set: false }
    }
}

} // verus!
