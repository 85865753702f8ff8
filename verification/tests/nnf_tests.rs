use boolean_evaluation::nnf::{node_to_negation_normal_form, unary_expr_to_nnf};
use boolean_evaluation::tree::Tree;

#[test]
fn test_nnf_not_and() {
    let node = Tree::from_str("AB&!").unwrap();
    let result = Tree::from_str("A!B!|").unwrap();
    assert_eq!(node_to_negation_normal_form(node.root), result.root);
}

#[test]
fn test_nnf_imply() {
    let node = Tree::from_str("AB>").unwrap();
    let result = Tree::from_str("A!B|").unwrap();
    assert_eq!(node_to_negation_normal_form(node.root), result.root);
}

#[test]
fn test_nnf_xnor() {
    let node = Tree::from_str("AB=").unwrap();
    let result = Tree::from_str("AB&A!B!&|").unwrap();
    assert_eq!(node_to_negation_normal_form(node.root), result.root);
}

#[test]
fn test_nnf_xor() {
    let node = Tree::from_str("AB^").unwrap();
    let result = Tree::from_str("A!B&AB!&|").unwrap();
    assert_eq!(node_to_negation_normal_form(node.root), result.root);
}

#[test]
fn test_nnf_complex() {
    let node = Tree::from_str("AB|C&!").unwrap();
    let result = Tree::from_str("A!B!&C!|").unwrap();
    assert_eq!(node_to_negation_normal_form(node.root), result.root);
}

#[test]
fn test_nnf_not_or() {
    let node = Tree::from_str("AB|!").unwrap();
    let result = Tree::from_str("A!B!&").unwrap();
    assert_eq!(node_to_negation_normal_form(node.root), result.root);
}

#[test]
fn test_not_unary_odd() {
    let three = Tree::from_str("1!!!").unwrap();
    assert_eq!(
        unary_expr_to_nnf(three.root),
        Tree::from_str("1!").unwrap().root
    );
    let five = Tree::from_str("1!!!!!").unwrap();
    assert_eq!(
        unary_expr_to_nnf(five.root),
        Tree::from_str("1!").unwrap().root
    );
}

#[test]
fn test_not_unary_even() {
    let two = Tree::from_str("1!!").unwrap();
    assert_eq!(
        unary_expr_to_nnf(two.root),
        Tree::from_str("1").unwrap().root
    );
    let four = Tree::from_str("1!!!!").unwrap();
    assert_eq!(
        unary_expr_to_nnf(four.root),
        Tree::from_str("1").unwrap().root
    );
}
