//! Propositional-logic formulas in reverse-Polish notation: parsing into an
//! expression tree and rewriting that tree into Negation Normal Form (NNF),
//! the shape in which `not` stands only directly above variables or
//! constants and the only other connectives are `and` and `or`.
use vstd::prelude::*;

pub mod nnf;
pub mod node;
pub mod operator;
pub mod tree;
pub mod variable;

use crate::nnf::{nnf_spec, node_to_negation_normal_form};
use crate::node::rpn_spec;
use crate::tree::{parse_result, Tree};

verus! {

/// Parses an RPN formula, rewrites the tree into negation normal form, and
/// renders the result back as an RPN string.
///
/// The formula must be one the parser accepts: on anything else the
/// pipeline would have nothing to render.
pub fn negation_normal_form(formula: &str) -> (r: String)
    requires
        parse_result(formula@) is Ok,
    ensures
        r@ == rpn_spec(nnf_spec(parse_result(formula@)->Ok_0)),
{
    match Tree::from_str(formula) {
        Ok(tree) => node_to_negation_normal_form(tree.root).print_rpn(),
        Err(_) => vstd::pervasive::unreached(),
    }
}

} // verus!
