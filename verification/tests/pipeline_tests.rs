use boolean_evaluation::negation_normal_form;
use boolean_evaluation::nnf::node_to_negation_normal_form;
use boolean_evaluation::node::Node;
use boolean_evaluation::tree::{ParseError, Tree};
use boolean_evaluation::variable::Variable;

#[test]
fn pipeline_not_and() {
    assert_eq!(negation_normal_form("AB&!"), "A!B!|");
}

#[test]
fn pipeline_imply() {
    assert_eq!(negation_normal_form("AB>"), "A!B|");
}

#[test]
fn pipeline_xnor() {
    assert_eq!(negation_normal_form("AB="), "AB&A!B!&|");
}

#[test]
fn pipeline_xor() {
    assert_eq!(negation_normal_form("AB^"), "A!B&AB!&|");
}

#[test]
fn pipeline_complex() {
    assert_eq!(negation_normal_form("AB|C&!"), "A!B!&C!|");
}

#[test]
fn pipeline_triple_negation() {
    assert_eq!(negation_normal_form("1!!!"), "1!");
    assert_eq!(negation_normal_form("1!!"), "1");
}

#[test]
fn pipeline_negated_imply() {
    assert_eq!(negation_normal_form("AB>!"), "AB!&");
}

#[test]
fn pipeline_negated_xor() {
    assert_eq!(negation_normal_form("AB^!"), "AB&A!B!&|");
}

#[test]
fn pipeline_negated_xnor() {
    assert_eq!(negation_normal_form("AB=!"), "A!B&AB!&|");
}

#[test]
fn pipeline_imply_compound_lhs() {
    assert_eq!(negation_normal_form("AB&C>"), "A!B!|C|");
}

#[test]
fn pipeline_idempotent_on_examples() {
    for formula in ["AB&!", "AB>", "AB=", "AB^", "AB|C&!", "1!!!", "AB=C>!"] {
        let once = node_to_negation_normal_form(Tree::from_str(formula).unwrap().root);
        let again = once.deep_clone();
        assert_eq!(node_to_negation_normal_form(again), once);
    }
}

#[test]
fn parse_empty_input() {
    match Tree::from_str("") {
        Err(e) => assert_eq!(e, ParseError::EmptyInput),
        Ok(_) => panic!("empty input was accepted"),
    }
}

#[test]
fn parse_invalid_token() {
    match Tree::from_str("A?") {
        Err(e) => assert_eq!(e, ParseError::InvalidToken),
        Ok(_) => panic!("invalid token was accepted"),
    }
    match Tree::from_str("Ab&") {
        Err(e) => assert_eq!(e, ParseError::InvalidToken),
        Ok(_) => panic!("lowercase letter was accepted"),
    }
    match Tree::from_str("A\u{00e9}&") {
        Err(e) => assert_eq!(e, ParseError::InvalidToken),
        Ok(_) => panic!("non-ascii character was accepted"),
    }
}

#[test]
fn parse_malformed_expression() {
    match Tree::from_str("A&") {
        Err(e) => assert_eq!(e, ParseError::MalformedExpression),
        Ok(_) => panic!("binary operator with one operand was accepted"),
    }
    match Tree::from_str("!") {
        Err(e) => assert_eq!(e, ParseError::MalformedExpression),
        Ok(_) => panic!("negation without an operand was accepted"),
    }
    match Tree::from_str("AB") {
        Err(e) => assert_eq!(e, ParseError::MalformedExpression),
        Ok(_) => panic!("leftover operands were accepted"),
    }
}

#[test]
fn parse_single_tokens() {
    assert_eq!(Tree::from_str("0").unwrap().root, Node::Constant(false));
    assert_eq!(Tree::from_str("1").unwrap().root, Node::Constant(true));
    assert_eq!(Tree::from_str("Z").unwrap().root, Node::VariableRef('Z'));
}

#[test]
fn parse_operand_order() {
    // In postfix, the operand on the stack top is the right-hand side.
    let tree = Tree::from_str("AB>").unwrap();
    match tree.root {
        Node::BinaryExpr { lhs, rhs, .. } => {
            assert_eq!(*lhs, Node::VariableRef('A'));
            assert_eq!(*rhs, Node::VariableRef('B'));
        }
        other => panic!("expected a binary node, got {:?}", other),
    }
}

#[test]
fn variable_table_shared_by_letter() {
    let tree = Tree::from_str("AA&B|").unwrap();
    let table = tree.variable_list.expect("letters were parsed");
    assert_eq!(table.len(), 26);
    assert_eq!(table[0], Some(Variable::new('A', false)));
    assert_eq!(table[1], Some(Variable::new('B', false)));
    for slot in table.iter().skip(2) {
        assert_eq!(*slot, None);
    }
}

#[test]
fn variable_table_absent_without_letters() {
    let tree = Tree::from_str("01|").unwrap();
    assert!(tree.variable_list.is_none());
}

#[test]
fn variable_new_is_unset() {
    let v = Variable::new('Q', true);
    assert_eq!(v.name, 'Q');
    assert!(v.value);
    assert!(!v.is_set);
}

#[test]
fn print_rpn_round_trip() {
    for formula in ["AB|C&!", "01&", "AB=C>", "Z!", "1!!"] {
        let tree = Tree::from_str(formula).unwrap();
        let rendered = tree.root.print_rpn();
        assert_eq!(rendered, formula);
        let reparsed = Tree::from_str(&rendered).unwrap();
        assert_eq!(reparsed.root, Tree::from_str(formula).unwrap().root);
    }
}

#[test]
fn deep_clone_is_equal() {
    let tree = Tree::from_str("AB=C>!").unwrap();
    let copy = tree.root.deep_clone();
    assert_eq!(copy, tree.root);
}
