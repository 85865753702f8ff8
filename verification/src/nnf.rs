//! Rewriting an expression tree into negation normal form.
use vstd::prelude::*;

use crate::node::{eval, is_atom, negations_atomic, ops_closed, size, wf, Node};
use crate::operator::Operator;

verus! {

/// The negation of a tree, as a node.
pub open spec fn not_node(n: Node) -> Node {
    Node::UnaryExpr { op: Operator::Not, child: Box::new(n) }
}

/// The conjunction of two trees, as a node.
pub open spec fn and_node(a: Node, b: Node) -> Node {
    Node::BinaryExpr { op: Operator::And, lhs: Box::new(a), rhs: Box::new(b) }
}

/// The disjunction of two trees, as a node.
pub open spec fn or_node(a: Node, b: Node) -> Node {
    Node::BinaryExpr { op: Operator::Or, lhs: Box::new(a), rhs: Box::new(b) }
}

/// The negation normal form of a tree: negation stands only directly above
/// atoms, and the only binary connectives left are `And` and `Or`.
///
/// `Imply`, `Xor` and `Xnor` are expanded by their truth-table identities
/// (`a > b` as `!a | b`, `a ^ b` as `(!a & b) | (a & !b)`, `a = b` as
/// `(a & b) | (!a & !b)`); a negated binary node is pushed down by
/// De Morgan's laws and the negated forms of those identities; a doubled
/// negation is peeled off.
pub open spec fn nnf_spec(n: Node) -> Node
    decreases size(n),
    via nnf_spec_decreases
{
    match n {
        Node::Constant(_) => n,
        Node::VariableRef(_) => n,
        Node::BinaryExpr { op, lhs, rhs } => {
            let a = *lhs;
            let b = *rhs;
            if op == Operator::And || op == Operator::Or {
                Node::BinaryExpr { op, lhs: Box::new(nnf_spec(a)), rhs: Box::new(nnf_spec(b)) }
            } else if op == Operator::Imply {
                or_node(nnf_spec(not_node(a)), nnf_spec(b))
            } else if op == Operator::Xor {
                or_node(
                    and_node(nnf_spec(not_node(a)), nnf_spec(b)),
                    and_node(nnf_spec(a), nnf_spec(not_node(b))),
                )
            } else {
                or_node(
                    and_node(nnf_spec(a), nnf_spec(b)),
                    and_node(nnf_spec(not_node(a)), nnf_spec(not_node(b))),
                )
            }
        },
        Node::UnaryExpr { op, child } => {
            match *child {
                Node::Constant(_) => n,
                Node::VariableRef(_) => n,
                Node::UnaryExpr { op: inner_op, child: grandchild } => nnf_spec(*grandchild),
                Node::BinaryExpr { op: inner_op, lhs, rhs } => {
                    let a = *lhs;
                    let b = *rhs;
                    if inner_op == Operator::And {
                        or_node(nnf_spec(not_node(a)), nnf_spec(not_node(b)))
                    } else if inner_op == Operator::Or {
                        and_node(nnf_spec(not_node(a)), nnf_spec(not_node(b)))
                    } else if inner_op == Operator::Imply {
                        and_node(nnf_spec(a), nnf_spec(not_node(b)))
                    } else if inner_op == Operator::Xor {
                        or_node(
                            and_node(nnf_spec(a), nnf_spec(b)),
                            and_node(nnf_spec(not_node(a)), nnf_spec(not_node(b))),
                        )
                    } else {
                        or_node(
                            and_node(nnf_spec(not_node(a)), nnf_spec(b)),
                            and_node(nnf_spec(a), nnf_spec(not_node(b))),
                        )
                    }
                },
            }
        },
    }
}

#[via_fn]
proof fn nnf_spec_decreases(n: Node) {
    reveal_with_fuel(size, 3);
}

/// Rewrites a well-formed tree into its negation normal form.
pub fn node_to_negation_normal_form(node: Node) -> (r: Node)
    requires
        wf(node),
    ensures
        r == nnf_spec(node),
        wf(r),
        negations_atomic(r),
        ops_closed(r),
    decreases size(node), 1int,
{
    proof {
        reveal_with_fuel(size, 3);
        reveal_with_fuel(wf, 4);
        reveal_with_fuel(negations_atomic, 4);
        reveal_with_fuel(ops_closed, 4);
    }
    match node {
        Node::Constant(b) => Node::Constant(b),
        Node::VariableRef(c) => Node::VariableRef(c),
        Node::UnaryExpr { op, child } => unary_expr_to_nnf(Node::UnaryExpr { op, child }),
        Node::BinaryExpr { op, lhs, rhs } => {
            match op {
                Operator::And | Operator::Or => {
                    let l = node_to_negation_normal_form(*lhs);
                    let r2 = node_to_negation_normal_form(*rhs);
                    Node::BinaryExpr { op, lhs: Box::new(l), rhs: Box::new(r2) }
                },
                _ => binary_expr_to_nnf(Node::BinaryExpr { op, lhs, rhs }),
            }
        },
    }
}

/// Rewrites a well-formed `Imply`, `Xor` or `Xnor` node into negation
/// normal form by expanding the connective over `And`, `Or` and `Not`.
pub fn binary_expr_to_nnf(node: Node) -> (r: Node)
    requires
        wf(node),
        node matches Node::BinaryExpr { op, .. }
            && (op == Operator::Imply || op == Operator::Xor || op == Operator::Xnor),
    ensures
        r == nnf_spec(node),
        wf(r),
        negations_atomic(r),
        ops_closed(r),
    decreases size(node), 0int,
{
    proof {
        reveal_with_fuel(size, 3);
        reveal_with_fuel(wf, 4);
        reveal_with_fuel(negations_atomic, 4);
        reveal_with_fuel(ops_closed, 4);
    }
    match node {
        Node::BinaryExpr { op, lhs, rhs } => {
            match op {
                Operator::Imply => {
                    let nl = node_to_negation_normal_form(
                        Node::UnaryExpr { op: Operator::Not, child: lhs },
                    );
                    let nr = node_to_negation_normal_form(*rhs);
                    Node::BinaryExpr { op: Operator::Or, lhs: Box::new(nl), rhs: Box::new(nr) }
                },
                Operator::Xor => {
                    let lhs2 = lhs.deep_clone();
                    let rhs2 = rhs.deep_clone();
                    let left = Node::BinaryExpr {
                        op: Operator::And,
                        lhs: Box::new(node_to_negation_normal_form(
                            Node::UnaryExpr { op: Operator::Not, child: lhs },
                        )),
                        rhs: Box::new(node_to_negation_normal_form(*rhs)),
                    };
                    let right = Node::BinaryExpr {
                        op: Operator::And,
                        lhs: Box::new(node_to_negation_normal_form(lhs2)),
                        rhs: Box::new(node_to_negation_normal_form(
                            Node::UnaryExpr { op: Operator::Not, child: Box::new(rhs2) },
                        )),
                    };
                    Node::BinaryExpr { op: Operator::Or, lhs: Box::new(left), rhs: Box::new(right) }
                },
                _ => {
                    let lhs2 = lhs.deep_clone();
                    let rhs2 = rhs.deep_clone();
                    let left = Node::BinaryExpr {
                        op: Operator::And,
                        lhs: Box::new(node_to_negation_normal_form(*lhs)),
                        rhs: Box::new(node_to_negation_normal_form(*rhs)),
                    };
                    let right = Node::BinaryExpr {
                        op: Operator::And,
                        lhs: Box::new(node_to_negation_normal_form(
                            Node::UnaryExpr { op: Operator::Not, child: Box::new(lhs2) },
                        )),
                        rhs: Box::new(node_to_negation_normal_form(
                            Node::UnaryExpr { op: Operator::Not, child: Box::new(rhs2) },
                        )),
                    };
                    Node::BinaryExpr { op: Operator::Or, lhs: Box::new(left), rhs: Box::new(right) }
                },
            }
        },
        _ => vstd::pervasive::unreached(),
    }
}

/// Rewrites a well-formed negation node into negation normal form: a
/// negated atom is kept, a doubled negation is peeled, and a negated
/// binary node is pushed down by the negated form of its connective.
pub fn unary_expr_to_nnf(node: Node) -> (r: Node)
    requires
        wf(node),
        node matches Node::UnaryExpr { .. },
    ensures
        r == nnf_spec(node),
        wf(r),
        negations_atomic(r),
        ops_closed(r),
    decreases size(node), 0int,
{
    proof {
        reveal_with_fuel(size, 3);
        reveal_with_fuel(wf, 4);
        reveal_with_fuel(negations_atomic, 4);
        reveal_with_fuel(ops_closed, 4);
    }
    match node {
        Node::UnaryExpr { op, child } => {
            match *child {
                Node::Constant(b) => Node::UnaryExpr {
                    op: Operator::Not,
                    child: Box::new(Node::Constant(b)),
                },
                Node::VariableRef(c) => Node::UnaryExpr {
                    op: Operator::Not,
                    child: Box::new(Node::VariableRef(c)),
                },
                Node::UnaryExpr { op: inner_op, child: grandchild } => {
                    node_to_negation_normal_form(*grandchild)
                },
                Node::BinaryExpr { op: inner_op, lhs, rhs } => {
                    match inner_op {
                        Operator::And => {
                            let nl = node_to_negation_normal_form(
                                Node::UnaryExpr { op: Operator::Not, child: lhs },
                            );
                            let nr = node_to_negation_normal_form(
                                Node::UnaryExpr { op: Operator::Not, child: rhs },
                            );
                            Node::BinaryExpr {
                                op: Operator::Or,
                                lhs: Box::new(nl),
                                rhs: Box::new(nr),
                            }
                        },
                        Operator::Or => {
                            let nl = node_to_negation_normal_form(
                                Node::UnaryExpr { op: Operator::Not, child: lhs },
                            );
                            let nr = node_to_negation_normal_form(
                                Node::UnaryExpr { op: Operator::Not, child: rhs },
                            );
                            Node::BinaryExpr {
                                op: Operator::And,
                                lhs: Box::new(nl),
                                rhs: Box::new(nr),
                            }
                        },
                        Operator::Imply => {
                            let nl = node_to_negation_normal_form(*lhs);
                            let nr = node_to_negation_normal_form(
                                Node::UnaryExpr { op: Operator::Not, child: rhs },
                            );
                            Node::BinaryExpr {
                                op: Operator::And,
                                lhs: Box::new(nl),
                                rhs: Box::new(nr),
                            }
                        },
                        Operator::Xor => {
                            let lhs2 = lhs.deep_clone();
                            let rhs2 = rhs.deep_clone();
                            let left = Node::BinaryExpr {
                                op: Operator::And,
                                lhs: Box::new(node_to_negation_normal_form(*lhs)),
                                rhs: Box::new(node_to_negation_normal_form(*rhs)),
                            };
                            let right = Node::BinaryExpr {
                                op: Operator::And,
                                lhs: Box::new(node_to_negation_normal_form(
                                    Node::UnaryExpr {
                                        op: Operator::Not,
                                        child: Box::new(lhs2),
                                    },
                                )),
                                rhs: Box::new(node_to_negation_normal_form(
                                    Node::UnaryExpr {
                                        op: Operator::Not,
                                        child: Box::new(rhs2),
                                    },
                                )),
                            };
                            Node::BinaryExpr {
                                op: Operator::Or,
                                lhs: Box::new(left),
                                rhs: Box::new(right),
                            }
                        },
                        _ => {
                            let lhs2 = lhs.deep_clone();
                            let rhs2 = rhs.deep_clone();
                            let left = Node::BinaryExpr {
                                op: Operator::And,
                                lhs: Box::new(node_to_negation_normal_form(
                                    Node::UnaryExpr { op: Operator::Not, child: lhs },
                                )),
                                rhs: Box::new(node_to_negation_normal_form(*rhs)),
                            };
                            let right = Node::BinaryExpr {
                                op: Operator::And,
                                lhs: Box::new(node_to_negation_normal_form(lhs2)),
                                rhs: Box::new(node_to_negation_normal_form(
                                    Node::UnaryExpr {
                                        op: Operator::Not,
                                        child: Box::new(rhs2),
                                    },
                                )),
                            };
                            Node::BinaryExpr {
                                op: Operator::Or,
                                lhs: Box::new(left),
                                rhs: Box::new(right),
                            }
                        },
                    }
                },
            }
        },
        _ => vstd::pervasive::unreached(),
    }
}

/// Rewriting preserves well-formedness and establishes both normal-form
/// invariants: negations stand only above atoms, and only `And`, `Or` and
/// `Not` remain.
pub proof fn lemma_nnf_props(n: Node)
    requires
        wf(n),
    ensures
        wf(nnf_spec(n)),
        negations_atomic(nnf_spec(n)),
        ops_closed(nnf_spec(n)),
    decreases size(n),
{
    reveal_with_fuel(size, 3);
    reveal_with_fuel(wf, 4);
    reveal_with_fuel(negations_atomic, 4);
    reveal_with_fuel(ops_closed, 4);
    match n {
        Node::Constant(_) => {},
        Node::VariableRef(_) => {},
        Node::BinaryExpr { op, lhs, rhs } => {
            lemma_nnf_props(*lhs);
            lemma_nnf_props(*rhs);
            lemma_nnf_props(not_node(*lhs));
            lemma_nnf_props(not_node(*rhs));
        },
        Node::UnaryExpr { op, child } => {
            match *child {
                Node::Constant(_) => {},
                Node::VariableRef(_) => {},
                Node::UnaryExpr { op: inner_op, child: grandchild } => {
                    lemma_nnf_props(*grandchild);
                },
                Node::BinaryExpr { op: inner_op, lhs, rhs } => {
                    lemma_nnf_props(*lhs);
                    lemma_nnf_props(*rhs);
                    lemma_nnf_props(not_node(*lhs));
                    lemma_nnf_props(not_node(*rhs));
                },
            }
        },
    }
}

/// A tree already in negation normal form is left exactly as it is.
pub proof fn lemma_nnf_fixpoint(n: Node)
    requires
        negations_atomic(n),
        ops_closed(n),
    ensures
        nnf_spec(n) == n,
    decreases size(n),
{
    reveal_with_fuel(size, 3);
    reveal_with_fuel(negations_atomic, 4);
    reveal_with_fuel(ops_closed, 4);
    match n {
        Node::Constant(_) => {},
        Node::VariableRef(_) => {},
        Node::BinaryExpr { op, lhs, rhs } => {
            lemma_nnf_fixpoint(*lhs);
            lemma_nnf_fixpoint(*rhs);
        },
        Node::UnaryExpr { op, child } => {},
    }
}

/// Idempotence: on every well-formed tree, rewriting a second time changes
/// nothing — the output of one rewrite is already a fixed point.
pub proof fn lemma_nnf_idempotent(n: Node)
    requires
        wf(n),
    ensures
        nnf_spec(nnf_spec(n)) == nnf_spec(n),
{
    lemma_nnf_props(n);
    lemma_nnf_fixpoint(nnf_spec(n));
}

/// Rewriting preserves meaning: under every assignment of the variables,
/// the normal form has the same truth value as the original tree.
pub proof fn lemma_nnf_preserves_eval(n: Node, env: Map<char, bool>)
    requires
        wf(n),
    ensures
        eval(nnf_spec(n), env) == eval(n, env),
    decreases size(n),
{
    reveal_with_fuel(size, 3);
    reveal_with_fuel(wf, 4);
    reveal_with_fuel(eval, 4);
    match n {
        Node::Constant(_) => {},
        Node::VariableRef(_) => {},
        Node::BinaryExpr { op, lhs, rhs } => {
            lemma_nnf_preserves_eval(*lhs, env);
            lemma_nnf_preserves_eval(*rhs, env);
            lemma_nnf_preserves_eval(not_node(*lhs), env);
            lemma_nnf_preserves_eval(not_node(*rhs), env);
        },
        Node::UnaryExpr { op, child } => {
            match *child {
                Node::Constant(_) => {},
                Node::VariableRef(_) => {},
                Node::UnaryExpr { op: inner_op, child: grandchild } => {
                    lemma_nnf_preserves_eval(*grandchild, env);
                },
                Node::BinaryExpr { op: inner_op, lhs, rhs } => {
                    lemma_nnf_preserves_eval(*lhs, env);
                    lemma_nnf_preserves_eval(*rhs, env);
                    lemma_nnf_preserves_eval(not_node(*lhs), env);
                    lemma_nnf_preserves_eval(not_node(*rhs), env);
                },
            }
        },
    }
}

} // verus!
