//! Parsing an RPN formula into an expression tree.
use vstd::prelude::*;

use crate::node::{op_char, rpn_spec, wf, Node};
use crate::operator::Operator;
use crate::variable::Variable;
use vstd::string::StrSliceExecFns;

verus! {

/// Why a formula was rejected.
#[derive(Clone, Copy, Debug, PartialEq, Eq, Structural)]
pub enum ParseError {
    /// The input string is empty.
    EmptyInput,
    /// A character outside the token alphabet is present.
    InvalidToken,
    /// An operator lacks operands, or the scan does not end with exactly
    /// one operand.
    MalformedExpression,
}

/// An uppercase letter `A`-`Z`: a variable token.
pub open spec fn is_letter(c: char) -> bool {
    'A' <= c <= 'Z'
}

/// One of the five binary-connective tokens.
pub open spec fn is_binary_token(c: char) -> bool {
    c == '&' || c == '|' || c == '^' || c == '=' || c == '>'
}

/// A character of the token alphabet.
pub open spec fn is_valid_token(c: char) -> bool {
    c == '0' || c == '1' || c == '!' || is_binary_token(c) || is_letter(c)
}

/// The connective a binary token stands for.
pub open spec fn binary_op_of(c: char) -> Operator {
    if c == '&' {
        Operator::And
    } else if c == '|' {
        Operator::Or
    } else if c == '^' {
        Operator::Xor
    } else if c == '=' {
        Operator::Xnor
    } else {
        Operator::Imply
    }
}

/// One shift/reduce step of the RPN scan: how one token transforms the
/// operand stack. `None` means the token is not in the alphabet or an
/// operator found too few operands.
pub open spec fn scan_step(stack: Seq<Node>, c: char) -> Option<Seq<Node>> {
    if c == '0' {
        Some(stack.push(Node::Constant(false)))
    } else if c == '1' {
        Some(stack.push(Node::Constant(true)))
    } else if is_letter(c) {
        Some(stack.push(Node::VariableRef(c)))
    } else if c == '!' {
        if stack.len() >= 1 {
            Some(
                stack.subrange(0, stack.len() - 1).push(
                    Node::UnaryExpr { op: Operator::Not, child: Box::new(stack.last()) },
                ),
            )
        } else {
            None
        }
    } else if is_binary_token(c) {
        if stack.len() >= 2 {
            Some(
                stack.subrange(0, stack.len() - 2).push(
                    Node::BinaryExpr {
                        op: binary_op_of(c),
                        lhs: Box::new(stack[stack.len() - 2]),
                        rhs: Box::new(stack[stack.len() - 1]),
                    },
                ),
            )
        } else {
            None
        }
    } else {
        None
    }
}

/// The whole left-to-right scan of `s`, started on the stack `stack`.
pub open spec fn scan_seq(stack: Seq<Node>, s: Seq<char>) -> Option<Seq<Node>>
    decreases s.len(),
{
    if s.len() == 0 {
        Some(stack)
    } else {
        match scan_step(stack, s[0]) {
            None => None,
            Some(stack2) => scan_seq(stack2, s.skip(1)),
        }
    }
}

/// What parsing a string yields: the rejection cases of the grammar, or
/// the single tree left on the stack after the scan.
pub open spec fn parse_result(s: Seq<char>) -> Result<Node, ParseError> {
    if s.len() == 0 {
        Err(ParseError::EmptyInput)
    } else if exists|k: int| 0 <= k < s.len() && !is_valid_token(s[k]) {
        Err(ParseError::InvalidToken)
    } else {
        match scan_seq(Seq::<Node>::empty(), s) {
            None => Err(ParseError::MalformedExpression),
            Some(stack) => if stack.len() == 1 {
                Ok(stack[0])
            } else {
                Err(ParseError::MalformedExpression)
            },
        }
    }
}

/// Whether the character `c` occurs in `s`.
pub open spec fn occurs(s: Seq<char>, c: char) -> bool {
    exists|k: int| 0 <= k < s.len() && s[k] == c
}

/// The table slot a letter indexes.
pub open spec fn slot_of(c: char) -> int {
    c as int - 'A' as int
}

/// How a parse's variable table relates to the text that was parsed: it is
/// present exactly when the text holds a letter, has one slot per letter of
/// the alphabet, and a slot is filled exactly by the letters that occur,
/// each with a fresh unset variable of that name.
pub open spec fn variable_list_matches(vl: Option<Vec<Option<Variable>>>, s: Seq<char>) -> bool {
    &&& (vl is Some <==> exists|k: int| 0 <= k < s.len() && is_letter(s[k]))
    &&& (vl matches Some(t) ==> {
        &&& t@.len() == 26
        &&& forall|c: char|
            is_letter(c) ==> t@[#[trigger] slot_of(c)] == (if occurs(s, c) {
                Some(Variable { name: c, value: false, is_set: false })
            } else {
                None::<Variable>
            })
    })
}

/// Scanning a concatenation scans the first part, then the second from
/// whatever stack the first part left.
proof fn lemma_scan_seq_app(stack: Seq<Node>, a: Seq<char>, b: Seq<char>)
    ensures
        scan_seq(stack, a + b) == (match scan_seq(stack, a) {
            None => None::<Seq<Node>>,
            Some(mid) => scan_seq(mid, b),
        }),
    decreases a.len(),
{
    if a.len() == 0 {
        assert(a + b =~= b);
    } else {
        assert((a + b)[0] == a[0]);
        match scan_step(stack, a[0]) {
            None => {},
            Some(stack2) => {
                assert((a + b).skip(1) =~= a.skip(1) + b);
                lemma_scan_seq_app(stack2, a.skip(1), b);
            },
        }
    }
}

/// Scanning a single token is one step.
proof fn lemma_scan_seq_one(stack: Seq<Node>, c: char)
    ensures
        scan_seq(stack, seq![c]) == scan_step(stack, c),
{
    assert(seq![c].skip(1) =~= Seq::<char>::empty());
    match scan_step(stack, c) {
        None => {},
        Some(stack2) => {
            assert(scan_seq(stack2, Seq::<char>::empty()) == Some(stack2));
        },
    }
}

/// Every node the scan ever builds is well-formed, provided the stack it
/// started from held only well-formed nodes.
proof fn lemma_scan_seq_wf(stack: Seq<Node>, s: Seq<char>)
    requires
        forall|k: int| 0 <= k < stack.len() ==> wf(#[trigger] stack[k]),
        scan_seq(stack, s) is Some,
    ensures
        forall|k: int|
            0 <= k < scan_seq(stack, s)->Some_0.len() ==> wf(
                #[trigger] scan_seq(stack, s)->Some_0[k],
            ),
    decreases s.len(),
{
    if s.len() != 0 {
        let stack2 = scan_step(stack, s[0])->Some_0;
        assert forall|k: int| 0 <= k < stack2.len() implies wf(#[trigger] stack2[k]) by {
            reveal_with_fuel(wf, 2);
        }
        lemma_scan_seq_wf(stack2, s.skip(1));
    }
}

/// A tree accepted by the parser is well-formed.
pub proof fn lemma_parse_wf(s: Seq<char>)
    requires
        parse_result(s) is Ok,
    ensures
        wf(parse_result(s)->Ok_0),
{
    lemma_scan_seq_wf(Seq::<Node>::empty(), s);
}

/// Every character of the RPN rendering of a well-formed tree is a token
/// of the alphabet.
proof fn lemma_rpn_valid(n: Node)
    requires
        wf(n),
    ensures
        forall|k: int| 0 <= k < rpn_spec(n).len() ==> is_valid_token(#[trigger] rpn_spec(n)[k]),
    decreases n,
{
    match n {
        Node::Constant(b) => {
            assert(rpn_spec(n)[0] == (if b { '1' } else { '0' }));
        },
        Node::VariableRef(c) => {
            assert(rpn_spec(n)[0] == c);
        },
        Node::UnaryExpr { op, child } => {
            lemma_rpn_valid(*child);
            let a = rpn_spec(*child);
            assert forall|k: int| 0 <= k < rpn_spec(n).len() implies is_valid_token(
                #[trigger] rpn_spec(n)[k],
            ) by {
                if k < a.len() {
                    assert(rpn_spec(n)[k] == a[k]);
                } else {
                    assert(rpn_spec(n)[k] == '!');
                }
            }
        },
        Node::BinaryExpr { op, lhs, rhs } => {
            lemma_rpn_valid(*lhs);
            lemma_rpn_valid(*rhs);
            let a = rpn_spec(*lhs);
            let b = rpn_spec(*rhs);
            assert(is_binary_token(op_char(op)));
            assert forall|k: int| 0 <= k < rpn_spec(n).len() implies is_valid_token(
                #[trigger] rpn_spec(n)[k],
            ) by {
                if k < a.len() {
                    assert(rpn_spec(n)[k] == a[k]);
                } else if k < a.len() + b.len() {
                    assert(rpn_spec(n)[k] == b[k - a.len()]);
                } else {
                    assert(rpn_spec(n)[k] == op_char(op));
                }
            }
        },
    }
}

/// Scanning the rendering of a well-formed tree pushes exactly that tree,
/// whatever stack the scan starts from.
proof fn lemma_scan_rpn(n: Node, stack: Seq<Node>)
    requires
        wf(n),
    ensures
        scan_seq(stack, rpn_spec(n)) == Some(stack.push(n)),
    decreases n,
{
    match n {
        Node::Constant(b) => {
            lemma_scan_seq_one(stack, if b { '1' } else { '0' });
        },
        Node::VariableRef(c) => {
            lemma_scan_seq_one(stack, c);
        },
        Node::UnaryExpr { op, child } => {
            lemma_scan_rpn(*child, stack);
            lemma_scan_seq_app(stack, rpn_spec(*child), seq!['!']);
            lemma_scan_seq_one(stack.push(*child), '!');
            let built = scan_step(stack.push(*child), '!')->Some_0;
            assert(stack.push(*child).subrange(0, stack.len() as int) =~= stack);
            assert(built =~= stack.push(n));
        },
        Node::BinaryExpr { op, lhs, rhs } => {
            let c = op_char(op);
            lemma_scan_rpn(*lhs, stack);
            lemma_scan_rpn(*rhs, stack.push(*lhs));
            lemma_scan_seq_app(stack, rpn_spec(*lhs), rpn_spec(*rhs));
            lemma_scan_seq_app(stack, rpn_spec(*lhs) + rpn_spec(*rhs), seq![c]);
            assert(rpn_spec(n) == (rpn_spec(*lhs) + rpn_spec(*rhs)) + seq![c]);
            lemma_scan_seq_one(stack.push(*lhs).push(*rhs), c);
            let two = stack.push(*lhs).push(*rhs);
            assert(two.len() >= 2 && two[two.len() - 2] == *lhs && two[two.len() - 1] == *rhs);
            let built = scan_step(two, c)->Some_0;
            assert(two.subrange(0, stack.len() as int) =~= stack);
            assert(binary_op_of(c) == op);
            assert(built =~= stack.push(n));
        },
    }
}

/// Round trip: rendering a tree the parser accepted and parsing the
/// rendering yields the same tree again.
pub proof fn lemma_parse_render_round_trip(s: Seq<char>)
    requires
        parse_result(s) is Ok,
    ensures
        parse_result(rpn_spec(parse_result(s)->Ok_0)) == parse_result(s),
{
    let n = parse_result(s)->Ok_0;
    lemma_parse_wf(s);
    let t = rpn_spec(n);
    lemma_rpn_valid(n);
    lemma_scan_rpn(n, Seq::<Node>::empty());
    assert(scan_seq(Seq::<Node>::empty(), t) == Some(seq![n]));
    if t.len() == 0 {
        assert(scan_seq(Seq::<Node>::empty(), t) == Some(Seq::<Node>::empty()));
    }
    assert(seq![n].len() == 1 && seq![n][0] == n);
}

/// The result of one parse: the tree, and the table of the variables the
/// text mentioned (present only if it mentioned any), shared by letter.
pub struct Tree {
    pub root: Node,
    pub variable_list: Option<Vec<Option<Variable>>>,
}

/// Whether `c` is a token of the alphabet.
fn char_is_valid_token(c: char) -> (r: bool)
    ensures
        r == is_valid_token(c),
{
    let u = c as u32;
    u == 48 || u == 49 || u == 33 || u == 38 || u == 124 || u == 94 || u == 61 || u == 62 || (65
        <= u && u <= 90)
}

impl Tree {
    /// Parses an RPN formula over the alphabet `0 1 A`-`Z !  & | ^ = >`.
    ///
    /// Rejects an empty string, any character outside the alphabet, and any
    /// string that is not a single well-formed RPN formula; on success the
    /// returned tree is exactly what `parse_result` yields, and the table
    /// holds one unset variable per distinct letter of the text.
    pub fn from_str(s: &str) -> (r: Result<Tree, ParseError>)
        ensures
            r matches Ok(tree) ==> {
                &&& parse_result(s@) == Ok::<Node, ParseError>(tree.root)
                &&& wf(tree.root)
                &&& variable_list_matches(tree.variable_list, s@)
            },
            r matches Err(e) ==> parse_result(s@) == Err::<Node, ParseError>(e),
    {
        let n = s.unicode_len();
        if n == 0 {
            return Err(ParseError::EmptyInput);
        }
        let mut i: usize = 0;
        while i < n
            invariant
                n == s@.len(),
                i <= n,
                forall|k: int| 0 <= k < i ==> is_valid_token(#[trigger] s@[k]),
            decreases n - i,
        {
            let c = s.get_char(i);
            if !char_is_valid_token(c) {
                return Err(ParseError::InvalidToken);
            }
            i += 1;
        }

        let mut table: Vec<Option<Variable>> = Vec::new();
        let mut j: usize = 0;
        while j < 26
            invariant
                table@.len() == j,
                j <= 26,
                forall|k: int| 0 <= k < j ==> table@[k] is None,
            decreases 26 - j,
        {
            table.push(None);
            j += 1;
        }

        let mut stack: Vec<Node> = Vec::new();
        let mut saw_letter = false;
        let mut i: usize = 0;
        while i < n
            invariant
                n == s@.len(),
                i <= n,
                forall|k: int| 0 <= k < n ==> is_valid_token(#[trigger] s@[k]),
                scan_seq(Seq::<Node>::empty(), s@.take(i as int)) == Some(stack@),
                forall|k: int| 0 <= k < stack@.len() ==> wf(#[trigger] stack@[k]),
                table@.len() == 26,
                saw_letter <==> (exists|k: int| 0 <= k < i && is_letter(#[trigger] s@[k])),
                forall|c: char|
                    is_letter(c) ==> table@[#[trigger] slot_of(c)] == (if occurs(
                        s@.take(i as int),
                        c,
                    ) {
                        Some(Variable { name: c, value: false, is_set: false })
                    } else {
                        None::<Variable>
                    }),
            decreases n - i,
        {
            let ghost prefix = s@.take(i as int);
            let ghost stack0 = stack@;
            let c = s.get_char(i);
            proof {
                assert(s@.take(i as int + 1) =~= prefix + seq![c]);
                lemma_scan_seq_app(Seq::<Node>::empty(), prefix, seq![c]);
                lemma_scan_seq_one(stack0, c);
            }
            let u = c as u32;
            if u == 48 {
                stack.push(Node::Constant(false));
                proof {
                    assert(stack@ =~= scan_step(stack0, c)->Some_0);
                }
            } else if u == 49 {
                stack.push(Node::Constant(true));
                proof {
                    assert(stack@ =~= scan_step(stack0, c)->Some_0);
                }
            } else if 65 <= u && u <= 90 {
                let idx = (u - 65) as usize;
                if table[idx].is_none() {
                    table[idx] = Some(Variable::new(c, false));
                }
                saw_letter = true;
                stack.push(Node::VariableRef(c));
                proof {
                    assert(stack@ =~= scan_step(stack0, c)->Some_0);
                }
                proof {
                    assert forall|d: char| is_letter(d) implies table@[#[trigger] slot_of(d)]
                        == (if occurs(s@.take(i as int + 1), d) {
                        Some(Variable { name: d, value: false, is_set: false })
                    } else {
                        None::<Variable>
                    }) by {
                        if occurs(prefix, d) {
                            assert(occurs(s@.take(i as int + 1), d));
                        } else if d == c {
                            assert(s@.take(i as int + 1)[i as int] == c);
                            assert(occurs(s@.take(i as int + 1), d));
                        } else {
                            assert(!occurs(s@.take(i as int + 1), d));
                        }
                    }
                }
            } else if u == 33 {
                match stack.pop() {
                    Some(child) => {
                        stack.push(Node::UnaryExpr { op: Operator::Not, child: Box::new(child) });
                        proof {
                            assert(stack@ =~= scan_step(stack0, c)->Some_0);
                        }
                    },
                    None => {
                        proof {
                            assert(s@ =~= s@.take(i as int + 1) + s@.skip(i as int + 1));
                            lemma_scan_seq_app(
                                Seq::<Node>::empty(),
                                s@.take(i as int + 1),
                                s@.skip(i as int + 1),
                            );
                        }
                        return Err(ParseError::MalformedExpression);
                    },
                }
            } else {
                let op = if u == 38 {
                    Operator::And
                } else if u == 124 {
                    Operator::Or
                } else if u == 94 {
                    Operator::Xor
                } else if u == 61 {
                    Operator::Xnor
                } else {
                    Operator::Imply
                };
                let rhs_opt = stack.pop();
                let lhs_opt = stack.pop();
                match (lhs_opt, rhs_opt) {
                    (Some(lhs), Some(rhs)) => {
                        stack.push(
                            Node::BinaryExpr { op, lhs: Box::new(lhs), rhs: Box::new(rhs) },
                        );
                        proof {
                            assert(stack@ =~= scan_step(stack0, c)->Some_0);
                        }
                    },
                    _ => {
                        proof {
                            assert(s@ =~= s@.take(i as int + 1) + s@.skip(i as int + 1));
                            lemma_scan_seq_app(
                                Seq::<Node>::empty(),
                                s@.take(i as int + 1),
                                s@.skip(i as int + 1),
                            );
                        }
                        return Err(ParseError::MalformedExpression);
                    },
                }
            }
            i += 1;
        }
        proof {
            assert(s@.take(n as int) =~= s@);
        }
        if stack.len() == 1 {
            match stack.pop() {
                Some(root) => Ok(
                    Tree {
                        root,
                        variable_list: if saw_letter {
                            Some(table)
                        } else {
                            None
                        },
                    },
                ),
                None => vstd::pervasive::unreached(),
            }
        } else {
            Err(ParseError::MalformedExpression)
        }
    }
}

} // verus!
