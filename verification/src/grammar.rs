//! The grammar of the language: how the tokens of the source form
//! literals, expressions, assignments, statements and a file.
//!
//! Every rule is greedy and matches from the position it is given; blank
//! space and comments may stand between the tokens of a rule. The shape of
//! an expression node tells precedence and associativity: an operator that
//! binds tighter lies deeper in the tree.

use crate::lexer::{
    blanks_end_is_maximal, boolean_end, close_end_is_inside, comment_end, digits_end,
    digits_end_is_maximal, float_end, integer_end, keyword_end, mantissa_end, object_end,
    operator_end, scan_boolean, scan_comment, scan_digits, scan_float, scan_integer,
    scan_keyword, scan_object, scan_operator, scan_sign, scan_string, scan_whitespace, sign_end,
    skip, skip_end, skip_end_is_maximal, string_end, until_end_is_first, whitespace_end,
    word_end_is_maximal,
};
use crate::literal::chars_of;
use crate::primitive::Operator;
use crate::reader::{assignment_fault, expression_fault, literal_fault, statement_fault};
use crate::syntax::{Node, Rule, Tree};
use crate::words::{operator_at, operator_of};
use vstd::prelude::*;

verus! {

/// The models of a sequence of nodes.
pub open spec fn trees(nodes: Seq<Node>) -> Seq<Tree> {
    Seq::new(nodes.len(), |i: int| nodes[i]@)
}

/// The node of a rule that matched the source from `from` up to `to`, with
/// the nodes of the rules matched inside it.
pub open spec fn branch(rule: Rule, s: Seq<char>, from: int, to: int, children: Seq<Tree>) -> Tree {
    Tree { rule, text: s.subrange(from, to), children }
}

/// The node of a rule that matched the source from `from` up to `to`, with
/// nothing matched inside it.
pub open spec fn leaf(rule: Rule, s: Seq<char>, from: int, to: int) -> Tree {
    branch(rule, s, from, to, Seq::empty())
}

/// Builds the node of a rule that matched the source from `from` up to `to`.
fn build(rule: Rule, text: &str, chars: &Vec<char>, from: usize, to: usize, children: Vec<Node>) -> (node:
    Node)
    requires
        chars@ == text@,
        from <= to <= chars@.len(),
    ensures
        node@ == branch(rule, chars@, from as int, to as int, trees(children@)),
{
    let node = Node { rule, text: text.substring_char(from, to).to_owned(), children };
    assert(node@.children =~= trees(children@));
    node
}

/// Builds the node of a rule with nothing matched inside it.
fn build_leaf(rule: Rule, text: &str, chars: &Vec<char>, from: usize, to: usize) -> (node: Node)
    requires
        chars@ == text@,
        from <= to <= chars@.len(),
    ensures
        node@ == leaf(rule, chars@, from as int, to as int),
{
    let node = build(rule, text, chars, from, to, Vec::new());
    assert(trees(Seq::<Node>::empty()) =~= Seq::<Tree>::empty());
    node
}

/// Builds the node of a rule with one node matched inside it.
fn build_around(rule: Rule, text: &str, chars: &Vec<char>, from: usize, to: usize, kid: Node) -> (node:
    Node)
    requires
        chars@ == text@,
        from <= to <= chars@.len(),
    ensures
        node@ == branch(rule, chars@, from as int, to as int, seq![kid@]),
{
    let mut children: Vec<Node> = Vec::new();
    children.push(kid);
    let node = build(rule, text, chars, from, to, children);
    assert(trees(seq![kid]) =~= seq![kid@]);
    node
}

/// A number: a float, which is an integer node where it has neither a
/// fraction nor an exponent. An integer that does not fit in 32 bits is no
/// number.
pub open spec fn number(s: Seq<char>, pos: int) -> Option<(Tree, int)> {
    match float_end(s, pos) {
        Some(e) => if e == digits_end(s, sign_end(s, pos)) {
            if integer_end(s, pos) == Some(e) {
                Some((leaf(Rule::integer, s, pos, e), e))
            } else {
                None
            }
        } else {
            Some((leaf(Rule::float, s, pos, e), e))
        },
        None => None,
    }
}

/// What a literal holds: a number, a string or a boolean.
pub open spec fn literal_kid(s: Seq<char>, pos: int) -> Option<(Tree, int)> {
    match number(s, pos) {
        Some(found) => Some(found),
        None => match string_end(s, pos) {
            Some(e) => Some((leaf(Rule::string, s, pos, e), e)),
            None => match boolean_end(s, pos) {
                Some(e) => Some((leaf(Rule::boolean, s, pos, e), e)),
                None => None,
            },
        },
    }
}

/// A literal.
pub open spec fn literal(s: Seq<char>, pos: int) -> Option<(Tree, int)> {
    match literal_kid(s, pos) {
        Some((kid, e)) => Some((branch(Rule::literal, s, pos, e, seq![kid]), e)),
        None => None,
    }
}

/// Parses a number.
fn parse_number(text: &str, chars: &Vec<char>, pos: usize) -> (out: Option<(Node, usize)>)
    requires
        chars@ == text@,
        pos <= chars@.len(),
    ensures
        out matches Some((node, e)) ==> number(chars@, pos as int) == Some((node@, e as int))
            && pos < e <= chars@.len(),
        out is None ==> number(chars@, pos as int) is None,
{
    match scan_float(chars, pos) {
        Some(e) => {
            if e == scan_digits(chars, scan_sign(chars, pos)) {
                match scan_integer(chars, pos) {
                    Some(i) => {
                        if i == e {
                            Some((build_leaf(Rule::integer, text, chars, pos, e), e))
                        } else {
                            None
                        }
                    },
                    None => None,
                }
            } else {
                Some((build_leaf(Rule::float, text, chars, pos, e), e))
            }
        },
        None => None,
    }
}

/// Parses a literal.
pub fn parse_literal(text: &str, chars: &Vec<char>, pos: usize) -> (out: Option<(Node, usize)>)
    requires
        chars@ == text@,
        pos <= chars@.len(),
    ensures
        out matches Some((node, e)) ==> literal(chars@, pos as int) == Some((node@, e as int))
            && pos < e <= chars@.len(),
        out is None ==> literal(chars@, pos as int) is None,
{
    let kid = match parse_number(text, chars, pos) {
        Some(found) => Some(found),
        None => match scan_string(chars, pos) {
            Some(e) => Some((build_leaf(Rule::string, text, chars, pos, e), e)),
            None => match scan_boolean(chars, pos) {
                Some(e) => Some((build_leaf(Rule::boolean, text, chars, pos, e), e)),
                None => None,
            },
        },
    };
    match kid {
        Some((kid, e)) => Some((build_around(Rule::literal, text, chars, pos, e, kid), e)),
        None => None,
    }
}

/// How tightly an operator binds, from 1, the loosest, to 5: the logical
/// operators, then the comparisons, then sum and difference, then product,
/// quotient and remainder, then the power.
pub open spec fn binding(op: Operator) -> nat {
    match op {
        Operator::And | Operator::Or => 1,
        Operator::Eq | Operator::Ne => 2,
        Operator::Add | Operator::Sub => 3,
        Operator::Mul | Operator::Div | Operator::Mod => 4,
        Operator::Pow => 5,
    }
}

/// The loosest binding that the right operand of an operator may have at
/// its top: one more than the operator's own, so that operators of one
/// binding group to the left; the power's own, so that powers group to the
/// right.
pub open spec fn right_floor(op: Operator) -> nat {
    if op is Pow {
        5
    } else {
        binding(op) + 1
    }
}

/// Computes how tightly an operator binds.
pub fn binding_of(op: Operator) -> (b: u8)
    ensures
        b == binding(op),
{
    match op {
        Operator::And | Operator::Or => 1,
        Operator::Eq | Operator::Ne => 2,
        Operator::Add | Operator::Sub => 3,
        Operator::Mul | Operator::Div | Operator::Mod => 4,
        Operator::Pow => 5,
    }
}

/// An operator at `pos` that binds at least as tightly as `floor`: its end
/// and the operator.
pub open spec fn operator_from(s: Seq<char>, pos: int, floor: nat) -> Option<(int, Operator)> {
    match operator_end(s, pos) {
        Some(e) => match operator_of(s.subrange(pos, e)) {
            Some(op) => if binding(op) >= floor {
                Some((e, op))
            } else {
                None
            },
            None => None,
        },
        None => None,
    }
}

/// An operand: a literal, a name, or an expression in parentheses.
pub open spec fn atom(s: Seq<char>, pos: int) -> Option<(Tree, int)>
    decreases s.len() - pos, 0nat,
{
    if 0 <= pos < s.len() && s[pos] == '(' {
        let start = skip_end(s, pos + 1);
        if pos < start <= s.len() {
            match climb(s, start, 1) {
                Some((inner, e)) => {
                    let close = skip_end(s, e);
                    if pos < close < s.len() && s[close] == ')' {
                        Some((branch(Rule::expression, s, pos, close + 1, seq![inner]), close + 1))
                    } else {
                        None
                    }
                },
                None => None,
            }
        } else {
            None
        }
    } else {
        match literal(s, pos) {
            Some((kid, e)) => Some((branch(Rule::expression, s, pos, e, seq![kid]), e)),
            None => match object_end(s, pos) {
                Some(e) => Some(
                    (branch(Rule::expression, s, pos, e, seq![leaf(Rule::object, s, pos, e)]), e),
                ),
                None => None,
            },
        }
    }
}

/// An expression whose operators outside parentheses all bind at least as
/// tightly as `floor`: an operand, and the operators and operands that
/// follow it.
pub open spec fn climb(s: Seq<char>, pos: int, floor: nat) -> Option<(Tree, int)>
    decreases s.len() - pos, 1nat,
{
    match atom(s, pos) {
        Some((first, e)) => if pos < e <= s.len() {
            Some(climb_on(s, pos, first, e, floor))
        } else {
            None
        },
        None => None,
    }
}

/// The expression that grows from `left`, which started at `start` and
/// ended at `e`, by the operators that follow and bind at least as tightly
/// as `floor`. Each operator takes as its right operand the longest
/// expression whose operators bind tighter than it, or as tightly for the
/// power; where no operand follows an operator, the expression ends before
/// the operator.
pub open spec fn climb_on(s: Seq<char>, start: int, left: Tree, e: int, floor: nat) -> (Tree, int)
    decreases s.len() - e, 2nat,
{
    let at = skip_end(s, e);
    match operator_from(s, at, floor) {
        Some((after, op)) => {
            let next = skip_end(s, after);
            if e < next <= s.len() {
                match climb(s, next, right_floor(op)) {
                    Some((right, end)) => if next < end <= s.len() {
                        climb_on(
                            s,
                            start,
                            branch(
                                Rule::expression,
                                s,
                                start,
                                end,
                                seq![left, leaf(Rule::operator, s, at, after), right],
                            ),
                            end,
                            floor,
                        )
                    } else {
                        (left, e)
                    },
                    None => (left, e),
                }
            } else {
                (left, e)
            }
        },
        None => (left, e),
    }
}

/// An expression.
pub open spec fn expression(s: Seq<char>, pos: int) -> Option<(Tree, int)> {
    climb(s, pos, 1)
}

/// Parses an operand.
pub fn parse_atom(text: &str, chars: &Vec<char>, pos: usize) -> (out: Option<(Node, usize)>)
    requires
        chars@ == text@,
        pos <= chars@.len(),
    ensures
        out matches Some((node, e)) ==> atom(chars@, pos as int) == Some((node@, e as int)) && pos
            < e <= chars@.len(),
        out is None ==> atom(chars@, pos as int) is None,
    decreases chars@.len() - pos, 0nat,
{
    if pos < chars.len() && chars[pos] == '(' {
        let start = skip(chars, pos + 1);
        match parse_climb(text, chars, start, 1) {
            Some((inner, e)) => {
                let close = skip(chars, e);
                if close < chars.len() && chars[close] == ')' {
                    Some(
                        (build_around(Rule::expression, text, chars, pos, close + 1, inner), close + 1),
                    )
                } else {
                    None
                }
            },
            None => None,
        }
    } else {
        match parse_literal(text, chars, pos) {
            Some((kid, e)) => Some((build_around(Rule::expression, text, chars, pos, e, kid), e)),
            None => match scan_object(chars, pos) {
                Some(e) => {
                    let name = build_leaf(Rule::object, text, chars, pos, e);
                    Some((build_around(Rule::expression, text, chars, pos, e, name), e))
                },
                None => None,
            },
        }
    }
}

/// Parses an expression whose operators outside parentheses all bind at
/// least as tightly as `floor`.
pub fn parse_climb(text: &str, chars: &Vec<char>, pos: usize, floor: u8) -> (out: Option<
    (Node, usize),
>)
    requires
        chars@ == text@,
        pos <= chars@.len(),
    ensures
        out matches Some((node, e)) ==> climb(chars@, pos as int, floor as nat) == Some(
            (node@, e as int),
        ) && pos < e <= chars@.len(),
        out is None ==> climb(chars@, pos as int, floor as nat) is None,
    decreases chars@.len() - pos, 1nat,
{
    let (first, first_end) = match parse_atom(text, chars, pos) {
        Some(found) => found,
        None => {
            return None;
        },
    };
    let ghost whole = climb_on(chars@, pos as int, first@, first_end as int, floor as nat);
    let mut left = first;
    let mut e = first_end;
    loop
        invariant
            chars@ == text@,
            pos < e <= chars@.len(),
            climb(chars@, pos as int, floor as nat) == Some(whole),
            climb_on(chars@, pos as int, left@, e as int, floor as nat) == whole,
        decreases chars@.len() - e,
    {
        let at = skip(chars, e);
        let after = match scan_operator(chars, at) {
            Some(after) => after,
            None => {
                return Some((left, e));
            },
        };
        let op = match operator_at(chars, at, after) {
            Some(op) => op,
            None => {
                return Some((left, e));
            },
        };
        if binding_of(op) < floor {
            return Some((left, e));
        }
        let next = skip(chars, after);
        let right_floor: u8 = if binding_of(op) == 5 {
            5
        } else {
            binding_of(op) + 1
        };
        match parse_climb(text, chars, next, right_floor) {
            Some((right, end)) => {
                let ghost grown = branch(
                    Rule::expression,
                    chars@,
                    pos as int,
                    end as int,
                    seq![left@, leaf(Rule::operator, chars@, at as int, after as int), right@],
                );
                let sign = build_leaf(Rule::operator, text, chars, at, after);
                let mut children: Vec<Node> = Vec::new();
                children.push(left);
                children.push(sign);
                children.push(right);
                assert(trees(children@) =~= seq![
                    left@,
                    leaf(Rule::operator, chars@, at as int, after as int),
                    right@,
                ]);
                left = build(Rule::expression, text, chars, pos, end, children);
                e = end;
                assert(left@ == grown);
            },
            None => {
                return Some((left, e));
            },
        }
    }
}

/// Parses an expression.
pub fn parse_expression(text: &str, chars: &Vec<char>, pos: usize) -> (out: Option<(Node, usize)>)
    requires
        chars@ == text@,
        pos <= chars@.len(),
    ensures
        out matches Some((node, e)) ==> expression(chars@, pos as int) == Some((node@, e as int))
            && pos < e <= chars@.len(),
        out is None ==> expression(chars@, pos as int) is None,
{
    parse_climb(text, chars, pos, 1)
}

/// The sign of an assignment: an equals sign that no second one follows.
pub open spec fn equals_end(s: Seq<char>, pos: int) -> Option<int> {
    if 0 <= pos < s.len() && s[pos] == '=' && !(pos + 1 < s.len() && s[pos + 1] == '=') {
        Some(pos + 1)
    } else {
        None
    }
}

/// Where the name of an assignment starts: after the keyword that opens
/// it and what is skipped behind the keyword, or at `pos` without one.
pub open spec fn name_start(s: Seq<char>, pos: int) -> int {
    match keyword_end(s, pos) {
        Some(k) => skip_end(s, k),
        None => pos,
    }
}

/// An assignment: a keyword or none, a name, an equals sign and an
/// expression.
pub open spec fn assignment(s: Seq<char>, pos: int) -> Option<(Tree, int)> {
    let at = name_start(s, pos);
    match object_end(s, at) {
        Some(named) => match equals_end(s, skip_end(s, named)) {
            Some(sign) => match expression(s, skip_end(s, sign)) {
                Some((value, e)) => {
                    let name = leaf(Rule::object, s, at, named);
                    let kids = match keyword_end(s, pos) {
                        Some(k) => seq![leaf(Rule::keyword, s, pos, k), name, value],
                        None => seq![name, value],
                    };
                    Some((branch(Rule::assignment, s, pos, e, kids), e))
                },
                None => None,
            },
            None => None,
        },
        None => None,
    }
}

/// What a statement holds: an assignment, or else an expression.
pub open spec fn statement_kid(s: Seq<char>, pos: int) -> Option<(Tree, int)> {
    match assignment(s, pos) {
        Some(found) => Some(found),
        None => expression(s, pos),
    }
}

/// A statement: an assignment or an expression, and a semicolon.
pub open spec fn statement(s: Seq<char>, pos: int) -> Option<(Tree, int)> {
    match statement_kid(s, pos) {
        Some((kid, e)) => {
            let semi = skip_end(s, e);
            if 0 <= semi < s.len() && s[semi] == ';' {
                Some((branch(Rule::statement, s, pos, semi + 1, seq![kid]), semi + 1))
            } else {
                None
            }
        },
        None => None,
    }
}

/// The statements that follow each other from `pos` on, with what is
/// skipped behind each, and where they end.
pub open spec fn statements(s: Seq<char>, pos: int) -> (Seq<Tree>, int)
    decreases s.len() - pos,
{
    match statement(s, pos) {
        Some((first, e)) => {
            let next = skip_end(s, e);
            if pos < next <= s.len() {
                (seq![first] + statements(s, next).0, statements(s, next).1)
            } else {
                (Seq::empty(), pos)
            }
        },
        None => (Seq::empty(), pos),
    }
}

/// A file: statements up to the end of the source, or else the position
/// at which no further statement starts.
pub open spec fn file(s: Seq<char>) -> Result<Tree, int> {
    let found = statements(s, skip_end(s, 0));
    if found.1 == s.len() {
        Ok(branch(Rule::file, s, 0, s.len() as int, found.0))
    } else {
        Err(found.1)
    }
}

/// Parses an assignment.
pub fn parse_assignment(text: &str, chars: &Vec<char>, pos: usize) -> (out: Option<(Node, usize)>)
    requires
        chars@ == text@,
        pos <= chars@.len(),
    ensures
        out matches Some((node, e)) ==> assignment(chars@, pos as int) == Some((node@, e as int))
            && pos < e <= chars@.len(),
        out is None ==> assignment(chars@, pos as int) is None,
{
    let opener = scan_keyword(chars, pos);
    let at = match opener {
        Some(k) => skip(chars, k),
        None => pos,
    };
    let named = match scan_object(chars, at) {
        Some(named) => named,
        None => {
            return None;
        },
    };
    let sign_at = skip(chars, named);
    if !(sign_at < chars.len() && chars[sign_at] == '=' && !(sign_at + 1 < chars.len()
        && chars[sign_at + 1] == '=')) {
        return None;
    }
    let (value, e) = match parse_expression(text, chars, skip(chars, sign_at + 1)) {
        Some(found) => found,
        None => {
            return None;
        },
    };
    let ghost name_view = leaf(Rule::object, chars@, at as int, named as int);
    let ghost value_view = value@;
    let name = build_leaf(Rule::object, text, chars, at, named);
    let mut children: Vec<Node> = Vec::new();
    match opener {
        Some(k) => {
            children.push(build_leaf(Rule::keyword, text, chars, pos, k));
            children.push(name);
            children.push(value);
            assert(trees(children@) =~= seq![
                leaf(Rule::keyword, chars@, pos as int, k as int),
                name_view,
                value_view,
            ]);
        },
        None => {
            children.push(name);
            children.push(value);
            assert(trees(children@) =~= seq![name_view, value_view]);
        },
    }
    Some((build(Rule::assignment, text, chars, pos, e, children), e))
}

/// Parses a statement.
pub fn parse_statement(text: &str, chars: &Vec<char>, pos: usize) -> (out: Option<(Node, usize)>)
    requires
        chars@ == text@,
        pos <= chars@.len(),
    ensures
        out matches Some((node, e)) ==> statement(chars@, pos as int) == Some((node@, e as int))
            && pos < e <= chars@.len(),
        out is None ==> statement(chars@, pos as int) is None,
{
    let body = match parse_assignment(text, chars, pos) {
        Some(found) => Some(found),
        None => parse_expression(text, chars, pos),
    };
    match body {
        Some((kid, e)) => {
            let semi = skip(chars, e);
            if semi < chars.len() && chars[semi] == ';' {
                Some((build_around(Rule::statement, text, chars, pos, semi + 1, kid), semi + 1))
            } else {
                None
            }
        },
        None => None,
    }
}

/// Parses a file: the statements of the source, or else the position at
/// which no further statement starts.
pub fn parse_file(text: &str, chars: &Vec<char>) -> (out: Result<Node, usize>)
    requires
        chars@ == text@,
    ensures
        out matches Ok(node) ==> file(chars@) == Ok::<Tree, int>(node@),
        out matches Err(at) ==> file(chars@) == Err::<Tree, int>(at as int) && at <= chars@.len(),
{
    let start = skip(chars, 0);
    let ghost whole = statements(chars@, start as int);
    let mut kids: Vec<Node> = Vec::new();
    let mut pos = start;
    assert(trees(kids@) + statements(chars@, pos as int).0 =~= whole.0);
    loop
        invariant
            chars@ == text@,
            pos <= chars@.len(),
            start == skip_end(chars@, 0),
            whole == statements(chars@, start as int),
            trees(kids@) + statements(chars@, pos as int).0 == whole.0,
            statements(chars@, pos as int).1 == whole.1,
        decreases chars@.len() - pos,
    {
        match parse_statement(text, chars, pos) {
            Some((node, e)) => {
                let next = skip(chars, e);
                let ghost before = trees(kids@);
                let ghost rest = statements(chars@, next as int).0;
                assert(statements(chars@, pos as int).0 == seq![node@] + rest);
                kids.push(node);
                assert(trees(kids@) =~= before.push(node@));
                assert(trees(kids@) + rest =~= before + (seq![node@] + rest));
                pos = next;
            },
            None => {
                assert(trees(kids@) =~= whole.0);
                if pos == chars.len() {
                    return Ok(build(Rule::file, text, chars, 0, pos, kids));
                } else {
                    return Err(pos);
                }
            },
        }
    }
}

/// Why a source does not follow the grammar: the position, counted in
/// characters, at which the parser could not go on, and the rule that it
/// expected there.
#[derive(Clone, Copy, Debug, PartialEq, Eq)]
pub struct SyntaxError {
    pub position: usize,
    pub expected: Rule,
}

/// Where a lexical rule ends that starts at `pos`; nothing for a rule
/// that is not lexical or does not match.
pub open spec fn token_end(rule: Rule, s: Seq<char>, pos: int) -> Option<int> {
    match rule {
        Rule::WHITESPACE => whitespace_end(s, pos),
        Rule::COMMENT => comment_end(s, pos),
        Rule::integer => integer_end(s, pos),
        Rule::float => float_end(s, pos),
        Rule::string => string_end(s, pos),
        Rule::boolean => boolean_end(s, pos),
        Rule::operator => operator_end(s, pos),
        Rule::object => object_end(s, pos),
        Rule::keyword => keyword_end(s, pos),
        _ => None,
    }
}

/// What a rule that holds other rules matches at the start of a source.
pub open spec fn composite(rule: Rule, s: Seq<char>) -> Option<(Tree, int)> {
    match rule {
        Rule::literal => literal(s, 0),
        Rule::expression => expression(s, 0),
        Rule::assignment => assignment(s, 0),
        Rule::statement => statement(s, 0),
        _ => None,
    }
}

/// Whether a rule is lexical: it holds no other rule.
pub open spec fn lexical(rule: Rule) -> bool {
    match rule {
        Rule::literal | Rule::expression | Rule::assignment | Rule::statement | Rule::file => false,
        _ => true,
    }
}

/// What parsing a source by a rule gives: the node of the rule, or the
/// position at which the source stops following the grammar and the rule
/// expected there.
///
/// A file has to match the whole source; where it does not, a statement is
/// expected where the last statement that matched ends. Any other rule has
/// to match at the start of the source, and what follows the match is left
/// unread; where it does not match, the rule itself is expected at 0.
pub open spec fn parsed(rule: Rule, s: Seq<char>) -> Result<Tree, (int, Rule)> {
    if rule == Rule::file {
        match file(s) {
            Ok(tree) => Ok(tree),
            Err(at) => Err((at, Rule::statement)),
        }
    } else if lexical(rule) {
        match token_end(rule, s, 0) {
            Some(e) => Ok(leaf(rule, s, 0, e)),
            None => Err((0, rule)),
        }
    } else {
        match composite(rule, s) {
            Some((tree, _)) => Ok(tree),
            None => Err((0, rule)),
        }
    }
}

/// Scans a lexical rule at the start of the source.
fn scan_token(rule: Rule, chars: &Vec<char>) -> (end: Option<usize>)
    requires
        lexical(rule),
    ensures
        end matches Some(e) ==> token_end(rule, chars@, 0) == Some(e as int) && e <= chars@.len(),
        end is None ==> token_end(rule, chars@, 0) is None,
{
    match rule {
        Rule::WHITESPACE => scan_whitespace(chars, 0),
        Rule::COMMENT => scan_comment(chars, 0),
        Rule::integer => scan_integer(chars, 0),
        Rule::float => scan_float(chars, 0),
        Rule::string => scan_string(chars, 0),
        Rule::boolean => scan_boolean(chars, 0),
        Rule::operator => scan_operator(chars, 0),
        Rule::object => scan_object(chars, 0),
        Rule::keyword => scan_keyword(chars, 0),
        _ => None,
    }
}

/// The parser of the language.
#[derive(Clone, Copy, Debug, PartialEq, Eq)]
pub struct JamalParser;

impl JamalParser {
    /// Parses a source by a rule of the grammar.
    pub fn parse(rule: Rule, input: &str) -> (out: Result<Node, SyntaxError>)
        ensures
            out matches Ok(node) ==> parsed(rule, input@) == Ok::<Tree, (int, Rule)>(node@),
            out matches Err(e) ==> parsed(rule, input@) == Err::<Tree, (int, Rule)>(
                (e.position as int, e.expected),
            ),
    {
        let chars = chars_of(input);
        match rule {
            Rule::file => match parse_file(input, &chars) {
                Ok(node) => Ok(node),
                Err(at) => Err(SyntaxError { position: at, expected: Rule::statement }),
            },
            Rule::literal => match parse_literal(input, &chars, 0) {
                Some((node, _)) => Ok(node),
                None => Err(SyntaxError { position: 0, expected: rule }),
            },
            Rule::expression => match parse_expression(input, &chars, 0) {
                Some((node, _)) => Ok(node),
                None => Err(SyntaxError { position: 0, expected: rule }),
            },
            Rule::assignment => match parse_assignment(input, &chars, 0) {
                Some((node, _)) => Ok(node),
                None => Err(SyntaxError { position: 0, expected: rule }),
            },
            Rule::statement => match parse_statement(input, &chars, 0) {
                Some((node, _)) => Ok(node),
                None => Err(SyntaxError { position: 0, expected: rule }),
            },
            _ => match scan_token(rule, &chars) {
                Some(e) => Ok(build_leaf(rule, input, &chars, 0, e)),
                None => Err(SyntaxError { position: 0, expected: rule }),
            },
        }
    }
}

/// A token is never empty and ends inside the source.
pub proof fn tokens_make_progress(rule: Rule, s: Seq<char>, pos: int)
    requires
        0 <= pos <= s.len(),
    ensures
        token_end(rule, s, pos) matches Some(e) ==> pos < e <= s.len(),
{
    digits_end_is_maximal(s, pos);
    digits_end_is_maximal(s, sign_end(s, pos));
    word_end_is_maximal(s, pos);
    match rule {
        Rule::WHITESPACE => {
            blanks_end_is_maximal(s, pos);
        },
        Rule::COMMENT => {
            assert(seq!['/', '/'].len() == 2);
            assert(seq!['/', '*'].len() == 2);
            if pos + 2 <= s.len() {
                until_end_is_first(s, pos + 2, '\n');
                close_end_is_inside(s, pos + 2);
            }
        },
        Rule::float => {
            let start = sign_end(s, pos);
            let d = digits_end(s, start);
            if d < s.len() {
                digits_end_is_maximal(s, d + 1);
            }
            if start < s.len() {
                digits_end_is_maximal(s, start + 1);
            }
            if let Some(m) = mantissa_end(s, start) {
                if m < s.len() {
                    digits_end_is_maximal(s, sign_end(s, m + 1));
                }
            }
        },
        Rule::string => {
            if pos < s.len() {
                until_end_is_first(s, pos + 1, s[pos]);
            }
        },
        Rule::boolean => {
            assert(seq!['t', 'r', 'u', 'e'].len() == 4);
            assert(seq!['f', 'a', 'l', 's', 'e'].len() == 5);
        },
        Rule::keyword => {
            assert(seq!['l', 'e', 't'].len() == 3);
            assert(seq!['c', 'o', 'n', 's', 't'].len() == 5);
            assert(seq!['v', 'a', 'r'].len() == 3);
        },
        Rule::operator => {
            assert(seq!['&', '&'].len() == 2);
            assert(seq!['|', '|'].len() == 2);
            assert(seq!['=', '='].len() == 2);
            assert(seq!['!', '='].len() == 2);
        },
        _ => {},
    }
}

/// Whether `t` is the node of `rule` for the source from `pos` up to `e`,
/// a span that is not empty. The text of the node is that part of the
/// source.
pub open spec fn spans(s: Seq<char>, pos: int, t: Tree, e: int, rule: Rule) -> bool {
    0 <= pos < e <= s.len() && t.rule == rule && t.text == s.subrange(pos, e)
}

/// A literal that the grammar matches spans what it matched, and the
/// reader finds no fault in it.
pub proof fn literals_are_sound(s: Seq<char>, pos: int)
    requires
        0 <= pos <= s.len(),
    ensures
        literal(s, pos) matches Some((t, e)) ==> spans(s, pos, t, e, Rule::literal)
            && literal_fault(t) is None,
{
    tokens_make_progress(Rule::float, s, pos);
    tokens_make_progress(Rule::integer, s, pos);
    tokens_make_progress(Rule::string, s, pos);
    tokens_make_progress(Rule::boolean, s, pos);
    if number(s, pos) is None {
        if let Some(e) = string_end(s, pos) {
            until_end_is_first(s, pos + 1, s[pos]);
            let text = s.subrange(pos, e);
            assert(text[0] == s[pos]);
            assert(text[text.len() - 1] == s[e - 1]);
        }
    }
}

/// An operand that the grammar matches is an expression node that spans
/// what it matched, and the reader finds no fault in it.
pub proof fn atoms_are_sound(s: Seq<char>, pos: int)
    requires
        0 <= pos <= s.len(),
    ensures
        atom(s, pos) matches Some((t, e)) ==> spans(s, pos, t, e, Rule::expression)
            && expression_fault(t) is None,
    decreases s.len() - pos, 0nat,
{
    if pos < s.len() && s[pos] == '(' {
        skip_end_is_maximal(s, pos + 1);
        let start = skip_end(s, pos + 1);
        climbs_are_sound(s, start, 1);
        if let Some((inner, e)) = climb(s, start, 1) {
            skip_end_is_maximal(s, e);
        }
    } else {
        literals_are_sound(s, pos);
        tokens_make_progress(Rule::object, s, pos);
    }
}

/// An expression that the grammar matches is an expression node that
/// spans what it matched, and the reader finds no fault in it.
pub proof fn climbs_are_sound(s: Seq<char>, pos: int, floor: nat)
    requires
        0 <= pos <= s.len(),
    ensures
        climb(s, pos, floor) matches Some((t, e)) ==> spans(s, pos, t, e, Rule::expression)
            && expression_fault(t) is None,
    decreases s.len() - pos, 1nat,
{
    atoms_are_sound(s, pos);
    if let Some((first, e)) = atom(s, pos) {
        climbs_go_on_soundly(s, pos, first, e, floor);
    }
}

/// An expression that grows from a sound expression is sound.
pub proof fn climbs_go_on_soundly(s: Seq<char>, start: int, left: Tree, e: int, floor: nat)
    requires
        spans(s, start, left, e, Rule::expression),
        expression_fault(left) is None,
    ensures
        spans(
            s,
            start,
            climb_on(s, start, left, e, floor).0,
            climb_on(s, start, left, e, floor).1,
            Rule::expression,
        ),
        expression_fault(climb_on(s, start, left, e, floor).0) is None,
    decreases s.len() - e, 2nat,
{
    skip_end_is_maximal(s, e);
    let at = skip_end(s, e);
    if let Some((after, op)) = operator_from(s, at, floor) {
        tokens_make_progress(Rule::operator, s, at);
        skip_end_is_maximal(s, after);
        let next = skip_end(s, after);
        climbs_are_sound(s, next, right_floor(op));
        if let Some((right, end)) = climb(s, next, right_floor(op)) {
            let grown = branch(
                Rule::expression,
                s,
                start,
                end,
                seq![left, leaf(Rule::operator, s, at, after), right],
            );
            assert(grown.children[0] == left);
            assert(grown.children[1] == leaf(Rule::operator, s, at, after));
            assert(grown.children[2] == right);
            assert(expression_fault(grown) is None);
            climbs_go_on_soundly(s, start, grown, end, floor);
        }
    }
}

/// A statement that the grammar matches is a statement node that spans
/// what it matched, and the reader finds no fault in it.
pub proof fn statements_are_sound(s: Seq<char>, pos: int)
    requires
        0 <= pos <= s.len(),
    ensures
        statement(s, pos) matches Some((t, e)) ==> spans(s, pos, t, e, Rule::statement)
            && statement_fault(t) is None,
{
    climbs_are_sound(s, pos, 1);
    tokens_make_progress(Rule::keyword, s, pos);
    let at = name_start(s, pos);
    if let Some(k) = keyword_end(s, pos) {
        skip_end_is_maximal(s, k);
    }
    tokens_make_progress(Rule::object, s, at);
    if let Some(named) = object_end(s, at) {
        skip_end_is_maximal(s, named);
        if let Some(sign) = equals_end(s, skip_end(s, named)) {
            skip_end_is_maximal(s, sign);
            climbs_are_sound(s, skip_end(s, sign), 1);
            if let Some((value, e)) = expression(s, skip_end(s, sign)) {
                let name = leaf(Rule::object, s, at, named);
                match keyword_end(s, pos) {
                    Some(k) => {
                        let kids = seq![leaf(Rule::keyword, s, pos, k), name, value];
                        assert(kids[0] == leaf(Rule::keyword, s, pos, k));
                        assert(kids[1] == name && kids[2] == value);
                        assert(assignment_fault(branch(Rule::assignment, s, pos, e, kids)) is None);
                    },
                    None => {
                        let kids = seq![name, value];
                        assert(kids[0] == name && kids[1] == value);
                        assert(assignment_fault(branch(Rule::assignment, s, pos, e, kids)) is None);
                    },
                }
            }
        }
    }
    if let Some((kid, e)) = statement_kid(s, pos) {
        skip_end_is_maximal(s, e);
    }
}

/// The statements that the grammar matches one after the other are
/// statement nodes in which the reader finds no fault, and they end inside
/// the source.
pub proof fn statement_runs_are_sound(s: Seq<char>, pos: int)
    requires
        0 <= pos <= s.len(),
    ensures
        pos <= statements(s, pos).1 <= s.len(),
        forall|i: int|
            0 <= i < statements(s, pos).0.len() ==> (#[trigger] statements(s, pos).0[i]).rule
                == Rule::statement && statement_fault(statements(s, pos).0[i]) is None,
    decreases s.len() - pos,
{
    statements_are_sound(s, pos);
    if let Some((first, e)) = statement(s, pos) {
        skip_end_is_maximal(s, e);
        let next = skip_end(s, e);
        statement_runs_are_sound(s, next);
    }
}

/// The grammar keeps its contract with the reader: the tree of a source
/// that parses as a file is a file node that holds statement nodes only,
/// and the reader finds no fault in any of them.
pub proof fn parsed_files_are_sound(s: Seq<char>)
    requires
        parsed(Rule::file, s) is Ok,
    ensures
        parsed(Rule::file, s)->Ok_0.rule == Rule::file,
        parsed(Rule::file, s)->Ok_0.text == s,
        forall|i: int|
            0 <= i < parsed(Rule::file, s)->Ok_0.children.len() ==> (#[trigger] parsed(
                Rule::file,
                s,
            )->Ok_0.children[i]).rule == Rule::statement && statement_fault(
                parsed(Rule::file, s)->Ok_0.children[i],
            ) is None,
{
    skip_end_is_maximal(s, 0);
    statement_runs_are_sound(s, skip_end(s, 0));
    assert(s.subrange(0, s.len() as int) =~= s);
}

/// The operator that an expression node applies at its top, if it
/// applies one.
pub open spec fn top_operator(t: Tree) -> Option<Operator> {
    if t.children.len() == 3 {
        operator_of(t.children[1].text)
    } else {
        None
    }
}

/// How tightly the top of an expression node binds: as its operator does,
/// and tighter than any operator where it is an operand.
pub open spec fn top_binding(t: Tree) -> nat {
    match top_operator(t) {
        Some(op) => binding(op),
        None => 6,
    }
}

/// The loosest binding that the left operand of an operator may have at
/// its top: the operator's own, so that operators of one binding group to
/// the left; tighter than any operator for the power, which groups to the
/// right.
pub open spec fn left_floor(op: Operator) -> nat {
    if op is Pow {
        6
    } else {
        binding(op)
    }
}

/// Whether the shape of an expression node follows precedence and
/// associativity: under every operator, outside parentheses, the left
/// operand binds at least as tightly as [`left_floor`] says and the right
/// operand at least as tightly as [`right_floor`] says.
pub open spec fn nested(t: Tree) -> bool
    decreases t,
{
    if t.children.len() == 3 {
        match operator_of(t.children[1].text) {
            Some(op) => top_binding(t.children[0]) >= left_floor(op) && top_binding(t.children[2])
                >= right_floor(op) && nested(t.children[0]) && nested(t.children[2]),
            None => false,
        }
    } else if t.children.len() == 1 && t.children[0].rule == Rule::expression {
        nested(t.children[0])
    } else {
        true
    }
}

/// Whether an expression that ends at `e` can grow by an operator that
/// binds at least as tightly as `floor`: the operator follows, and an
/// operand follows the operator.
pub open spec fn grows(s: Seq<char>, e: int, floor: nat) -> bool {
    match operator_from(s, skip_end(s, e), floor) {
        Some((after, op)) => e < skip_end(s, after) <= s.len() && (climb(
            s,
            skip_end(s, after),
            right_floor(op),
        ) matches Some((_, end)) && skip_end(s, after) < end <= s.len()),
        None => false,
    }
}

/// An expression is as long as it can be: where it ends, it cannot grow.
pub proof fn climbs_are_greedy(s: Seq<char>, pos: int, floor: nat)
    ensures
        climb(s, pos, floor) matches Some((_, e)) ==> !grows(s, e, floor),
{
    if let Some((first, e)) = atom(s, pos) {
        if pos < e <= s.len() {
            climbs_go_on_greedily(s, pos, first, e, floor);
        }
    }
}

/// An expression that grows from another ends where it cannot grow.
pub proof fn climbs_go_on_greedily(s: Seq<char>, start: int, left: Tree, e: int, floor: nat)
    ensures
        !grows(s, climb_on(s, start, left, e, floor).1, floor),
    decreases s.len() - e,
{
    let at = skip_end(s, e);
    if let Some((after, op)) = operator_from(s, at, floor) {
        let next = skip_end(s, after);
        if e < next <= s.len() {
            if let Some((right, end)) = climb(s, next, right_floor(op)) {
                if next < end <= s.len() {
                    let grown = branch(
                        Rule::expression,
                        s,
                        start,
                        end,
                        seq![left, leaf(Rule::operator, s, at, after), right],
                    );
                    climbs_go_on_greedily(s, start, grown, end, floor);
                }
            }
        }
    }
}

/// An operand binds tighter than any operator, and its shape follows
/// precedence and associativity.
pub proof fn atoms_nest(s: Seq<char>, pos: int)
    requires
        0 <= pos <= s.len(),
    ensures
        atom(s, pos) matches Some((t, _)) ==> nested(t) && top_operator(t) is None,
    decreases s.len() - pos, 0nat,
{
    if pos < s.len() && s[pos] == '(' {
        skip_end_is_maximal(s, pos + 1);
        let start = skip_end(s, pos + 1);
        climbs_nest(s, start, 1);
        climbs_are_sound(s, start, 1);
        if let Some((inner, e)) = climb(s, start, 1) {
            let close = skip_end(s, e);
            let t = branch(Rule::expression, s, pos, close + 1, seq![inner]);
            assert(t.children[0] == inner);
        }
    } else {
        literals_are_sound(s, pos);
        if let Some((kid, e)) = literal(s, pos) {
            let t = branch(Rule::expression, s, pos, e, seq![kid]);
            assert(t.children[0] == kid);
        } else if let Some(e) = object_end(s, pos) {
            let t = branch(Rule::expression, s, pos, e, seq![leaf(Rule::object, s, pos, e)]);
            assert(t.children[0] == leaf(Rule::object, s, pos, e));
        }
    }
}

/// The shape of an expression follows precedence and associativity: no
/// operator at its top binds looser than `floor`, and under every
/// operator the operands bind as tightly as the operator asks.
pub proof fn climbs_nest(s: Seq<char>, pos: int, floor: nat)
    requires
        0 <= pos <= s.len(),
        floor <= 5,
    ensures
        climb(s, pos, floor) matches Some((t, _)) ==> nested(t) && top_binding(t) >= floor,
    decreases s.len() - pos, 1nat,
{
    atoms_nest(s, pos);
    atoms_are_sound(s, pos);
    if let Some((first, e)) = atom(s, pos) {
        climbs_go_on_nesting(s, pos, first, e, floor);
    }
}

/// An expression that grows from a nested expression is nested.
pub proof fn climbs_go_on_nesting(s: Seq<char>, start: int, left: Tree, e: int, floor: nat)
    requires
        0 <= start < e <= s.len(),
        nested(left),
        floor <= 5,
        top_binding(left) >= floor,
        top_operator(left) matches Some(op) ==> !grows(s, e, right_floor(op)),
    ensures
        nested(climb_on(s, start, left, e, floor).0),
        top_binding(climb_on(s, start, left, e, floor).0) >= floor,
    decreases s.len() - e, 2nat,
{
    skip_end_is_maximal(s, e);
    let at = skip_end(s, e);
    if let Some((after, op)) = operator_from(s, at, floor) {
        tokens_make_progress(Rule::operator, s, at);
        skip_end_is_maximal(s, after);
        let next = skip_end(s, after);
        climbs_nest(s, next, right_floor(op));
        climbs_are_sound(s, next, right_floor(op));
        climbs_are_greedy(s, next, right_floor(op));
        if let Some((right, end)) = climb(s, next, right_floor(op)) {
            let sign = leaf(Rule::operator, s, at, after);
            let grown = branch(Rule::expression, s, start, end, seq![left, sign, right]);
            assert(grown.children[0] == left);
            assert(grown.children[1] == sign);
            assert(grown.children[2] == right);
            assert(top_operator(grown) == Some(op));
            assert(top_binding(left) >= left_floor(op)) by {
                if let Some(before) = top_operator(left) {
                    assert(!grows(s, e, right_floor(before)));
                    assert(operator_from(s, at, right_floor(before)) is None);
                }
            }
            climbs_go_on_nesting(s, start, grown, end, floor);
        }
    }
}

/// The tree of a source that parses as an expression tells precedence and
/// associativity by its shape.
pub proof fn parsed_expressions_nest(s: Seq<char>)
    requires
        parsed(Rule::expression, s) is Ok,
    ensures
        nested(parsed(Rule::expression, s)->Ok_0),
{
    climbs_nest(s, 0, 1);
}

} // verus!
