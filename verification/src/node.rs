//! The expression tree and its well-formedness, semantics and RPN rendering.
use vstd::prelude::*;

use crate::operator::Operator;

verus! {

/// One node of an expression tree. A variable is referred to by its letter,
/// which indexes the per-parse table of `Variable` records in `Tree`; two
/// occurrences of one letter therefore share one variable.
#[derive(Debug, PartialEq, Eq)]
pub enum Node {
    Constant(bool),
    VariableRef(char),
    UnaryExpr { op: Operator, child: Box<Node> },
    BinaryExpr { op: Operator, lhs: Box<Node>, rhs: Box<Node> },
}

/// A termination measure: counts a binary node twice so that wrapping one
/// operand in a fresh negation still shrinks the measure.
pub open spec fn size(n: Node) -> nat
    decreases n,
{
    match n {
        Node::Constant(_) => 1,
        Node::VariableRef(_) => 1,
        Node::UnaryExpr { op, child } => 1 + size(*child),
        Node::BinaryExpr { op, lhs, rhs } => 2 + size(*lhs) + size(*rhs),
    }
}

/// Well-formedness: a unary node always carries `Not`, a binary node never
/// does, and a variable's name is a single uppercase letter.
pub open spec fn wf(n: Node) -> bool
    decreases n,
{
    match n {
        Node::Constant(_) => true,
        Node::VariableRef(c) => 'A' <= c <= 'Z',
        Node::UnaryExpr { op, child } => op == Operator::Not && wf(*child),
        Node::BinaryExpr { op, lhs, rhs } => op != Operator::Not && wf(*lhs) && wf(*rhs),
    }
}

/// A constant or a variable reference: the atoms a negation may wrap in
/// negation normal form.
pub open spec fn is_atom(n: Node) -> bool {
    match n {
        Node::Constant(_) => true,
        Node::VariableRef(_) => true,
        _ => false,
    }
}

/// Every negation in the tree stands directly above an atom: no `Not`
/// wraps a binary node or another `Not`.
pub open spec fn negations_atomic(n: Node) -> bool
    decreases n,
{
    match n {
        Node::Constant(_) => true,
        Node::VariableRef(_) => true,
        Node::UnaryExpr { op, child } => is_atom(*child),
        Node::BinaryExpr { op, lhs, rhs } => negations_atomic(*lhs) && negations_atomic(*rhs),
    }
}

/// The only operators in the tree are `And`, `Or` and `Not`: none of
/// `Xor`, `Xnor`, `Imply` remains.
pub open spec fn ops_closed(n: Node) -> bool
    decreases n,
{
    match n {
        Node::Constant(_) => true,
        Node::VariableRef(_) => true,
        Node::UnaryExpr { op, child } => op == Operator::Not && ops_closed(*child),
        Node::BinaryExpr { op, lhs, rhs } => (op == Operator::And || op == Operator::Or)
            && ops_closed(*lhs) && ops_closed(*rhs),
    }
}

/// The truth value of a tree under an assignment of the variables.
/// A unary node is read as negation, which on well-formed trees it is.
pub open spec fn eval(n: Node, env: Map<char, bool>) -> bool
    decreases n,
{
    match n {
        Node::Constant(b) => b,
        Node::VariableRef(c) => env[c],
        Node::UnaryExpr { op, child } => !eval(*child, env),
        Node::BinaryExpr { op, lhs, rhs } => {
            let a = eval(*lhs, env);
            let b = eval(*rhs, env);
            if op == Operator::And {
                a && b
            } else if op == Operator::Or {
                a || b
            } else if op == Operator::Xor {
                a != b
            } else if op == Operator::Xnor {
                a == b
            } else {
                !a || b
            }
        },
    }
}

/// The character that writes a binary connective in RPN.
pub open spec fn op_char(op: Operator) -> char {
    match op {
        Operator::Not => '!',
        Operator::And => '&',
        Operator::Or => '|',
        Operator::Xor => '^',
        Operator::Xnor => '=',
        Operator::Imply => '>',
    }
}

/// The RPN rendering of a tree: post-order, operands before their operator,
/// `0`/`1` for constants and the letter for a variable.
pub open spec fn rpn_spec(n: Node) -> Seq<char>
    decreases n,
{
    match n {
        Node::Constant(b) => seq![if b { '1' } else { '0' }],
        Node::VariableRef(c) => seq![c],
        Node::UnaryExpr { op, child } => rpn_spec(*child) + seq!['!'],
        Node::BinaryExpr { op, lhs, rhs } => rpn_spec(*lhs) + rpn_spec(*rhs) + seq![op_char(op)],
    }
}

/// Relies on String::push: appends exactly the one given character.
#[verifier::external_body]
fn push_char(out: &mut String, c: char)
    ensures
        final(out)@ == old(out)@.push(c),
{
    out.push(c);
}

impl Node {
    /// A structurally equal copy of the tree, with its own ownership of
    /// every subtree.
    pub fn deep_clone(&self) -> (res: Node)
        ensures
            res == *self,
        decreases *self,
    {
        match self {
            Node::Constant(b) => Node::Constant(*b),
            Node::VariableRef(c) => Node::VariableRef(*c),
            Node::UnaryExpr { op, child } => Node::UnaryExpr {
                op: *op,
                child: Box::new(child.deep_clone()),
            },
            Node::BinaryExpr { op, lhs, rhs } => Node::BinaryExpr {
                op: *op,
                lhs: Box::new(lhs.deep_clone()),
                rhs: Box::new(rhs.deep_clone()),
            },
        }
    }

    /// Appends the RPN rendering of the tree to `out`.
    fn write_rpn(&self, out: &mut String)
        ensures
            final(out)@ == old(out)@ + rpn_spec(*self),
        decreases *self,
    {
        match self {
            Node::Constant(b) => {
                push_char(out, if *b { '1' } else { '0' });
                assert(final(out)@ =~= old(out)@ + rpn_spec(*self));
            },
            Node::VariableRef(c) => {
                push_char(out, *c);
                assert(final(out)@ =~= old(out)@ + rpn_spec(*self));
            },
            Node::UnaryExpr { op, child } => {
                child.write_rpn(out);
                push_char(out, '!');
                assert(final(out)@ =~= old(out)@ + rpn_spec(*self));
            },
            Node::BinaryExpr { op, lhs, rhs } => {
                lhs.write_rpn(out);
                rhs.write_rpn(out);
                let c = match op {
                    Operator::Not => '!',
                    Operator::And => '&',
                    Operator::Or => '|',
                    Operator::Xor => '^',
                    Operator::Xnor => '=',
                    Operator::Imply => '>',
                };
                push_char(out, c);
                assert(final(out)@ =~= old(out)@ + rpn_spec(*self));
            },
        }
    }

    /// The RPN rendering of the tree as a string.
    pub fn print_rpn(&self) -> (r: String)
        ensures
            r@ == rpn_spec(*self),
    {
        let mut out = String::new();
        self.write_rpn(&mut out);
        proof {
            assert(out@ =~= rpn_spec(*self));
        }
        out
    }
}

} // verus!
