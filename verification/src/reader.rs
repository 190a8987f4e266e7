//! Reading a parse tree: what statement or expression a node spells. The
//! reader trusts the grammar's node set and checks only that each node is
//! one that the grammar produces in its place; a node that is not is a
//! `ParserContractViolation`.

use crate::error::{Failure, RuntimeErr};
use crate::eval::{Expression, Term};
use crate::literal::{chars_of, int_literal, read_int};
use crate::primitive::{Operator, Primitive, Value};
use crate::syntax::{Node, Rule, Tree};
use crate::unit::{
    read, reads, serves, steady, steady_units_answer_once, FloatReply, FloatRequest,
};
use crate::words::{
    keyword_at, keyword_of, operator_at, operator_of, quoted, truth_at, truth_of, unquoted,
    Keyword,
};
use vstd::prelude::*;

verus! {

/// A statement of the language.
#[derive(Debug, PartialEq, Eq)]
pub enum Statement {
    /// A declaration, where a keyword opens it, else a reassignment.
    Assignment { keyword: Option<Keyword>, name: String, value: Expression },
    /// A bare expression.
    Expression(Expression),
}

/// The mathematical model of a [`Statement`].
pub enum Action {
    Assign { keyword: Option<Keyword>, name: Seq<char>, value: Term },
    Evaluate(Term),
}

impl View for Statement {
    type V = Action;

    open spec fn view(&self) -> Action {
        match self {
            Statement::Assignment { keyword, name, value } => Action::Assign {
                keyword: *keyword,
                name: name@,
                value: value@,
            },
            Statement::Expression(e) => Action::Evaluate(e@),
        }
    }
}

/// Reads the operator that a text spells.
pub fn read_operator(text: &str) -> (op: Option<Operator>)
    ensures
        op == operator_of(text@),
{
    let chars = chars_of(text);
    assert(chars@.subrange(0, chars@.len() as int) =~= text@);
    operator_at(&chars, 0, chars.len())
}

/// Reads the keyword that a text spells.
pub fn read_keyword(text: &str) -> (keyword: Option<Keyword>)
    ensures
        keyword == keyword_of(text@),
{
    let chars = chars_of(text);
    assert(chars@.subrange(0, chars@.len() as int) =~= text@);
    keyword_at(&chars, 0, chars.len())
}

/// Reads the truth value that a text spells.
pub fn read_truth(text: &str) -> (truth: Option<bool>)
    ensures
        truth == truth_of(text@),
{
    let chars = chars_of(text);
    assert(chars@.subrange(0, chars@.len() as int) =~= text@);
    truth_at(&chars, 0, chars.len())
}

/// The rule of the first node that is out of place in a literal node, if
/// there is one. A literal node holds one node: an integer that fits in 32
/// bits, a float, a quoted string, or a boolean that reads `true` or `false`.
pub open spec fn literal_fault(node: Tree) -> Option<Rule> {
    if node.rule != Rule::literal {
        Some(node.rule)
    } else if node.children.len() != 1 {
        Some(Rule::literal)
    } else {
        let kid = node.children[0];
        match kid.rule {
            Rule::integer => if int_literal(kid.text) is None {
                Some(Rule::integer)
            } else {
                None
            },
            Rule::float => None,
            Rule::string => if quoted(kid.text) {
                None
            } else {
                Some(Rule::string)
            },
            Rule::boolean => if truth_of(kid.text) is None {
                Some(Rule::boolean)
            } else {
                None
            },
            _ => Some(kid.rule),
        }
    }
}

/// Whether a literal node without fault spells the value `v`. The value of
/// a float is what the unit reads in its text.
pub open spec fn literal_spells<F: Fn(FloatRequest) -> FloatReply>(
    unit: &F,
    node: Tree,
    v: Value,
) -> bool {
    let kid = node.children[0];
    match kid.rule {
        Rule::integer => int_literal(kid.text) == Some(v->Int_0) && v is Int,
        Rule::float => v is Float && reads(unit, kid.text, v->Float_0),
        Rule::string => v == Value::Text(unquoted(kid.text)),
        Rule::boolean => truth_of(kid.text) == Some(v->Bool_0) && v is Bool,
        _ => false,
    }
}

/// The rule of the first node that is out of place in an expression node,
/// if there is one. An expression node holds a literal, a name, an
/// expression (a group), or an expression, an operator and an expression.
pub open spec fn expression_fault(node: Tree) -> Option<Rule>
    decreases node,
{
    if node.rule != Rule::expression {
        Some(node.rule)
    } else if node.children.len() == 1 {
        let kid = node.children[0];
        match kid.rule {
            Rule::literal => literal_fault(kid),
            Rule::object => None,
            Rule::expression => expression_fault(kid),
            _ => Some(kid.rule),
        }
    } else if node.children.len() == 3 {
        let left = node.children[0];
        let middle = node.children[1];
        let right = node.children[2];
        match expression_fault(left) {
            Some(rule) => Some(rule),
            None => if middle.rule != Rule::operator {
                Some(middle.rule)
            } else if operator_of(middle.text) is None {
                Some(Rule::operator)
            } else {
                expression_fault(right)
            },
        }
    } else {
        Some(Rule::expression)
    }
}

/// Whether an expression node without fault spells the expression `t`.
pub open spec fn expression_spells<F: Fn(FloatRequest) -> FloatReply>(
    unit: &F,
    node: Tree,
    t: Term,
) -> bool
    decreases node,
{
    if node.children.len() == 1 {
        let kid = node.children[0];
        match kid.rule {
            Rule::literal => t matches Term::Literal(v) && literal_spells(unit, kid, v),
            Rule::object => t == Term::Identifier(kid.text),
            Rule::expression => t matches Term::Grouped(inner) && expression_spells(
                unit,
                kid,
                *inner,
            ),
            _ => false,
        }
    } else if node.children.len() == 3 {
        t matches Term::BinaryOp(op, l, r) && operator_of(node.children[1].text) == Some(op)
            && expression_spells(unit, node.children[0], *l) && expression_spells(
            unit,
            node.children[2],
            *r,
        )
    } else {
        false
    }
}

/// The rule of the first node that is out of place in a statement node, if
/// there is one. A statement node holds an expression or an assignment; an
/// assignment node holds a name and an expression, after a keyword or not.
pub open spec fn statement_fault(node: Tree) -> Option<Rule> {
    if node.rule != Rule::statement {
        Some(node.rule)
    } else if node.children.len() != 1 {
        Some(Rule::statement)
    } else {
        let kid = node.children[0];
        match kid.rule {
            Rule::expression => expression_fault(kid),
            Rule::assignment => assignment_fault(kid),
            _ => Some(kid.rule),
        }
    }
}

/// The rule of the first node that is out of place in an assignment node,
/// if there is one.
pub open spec fn assignment_fault(node: Tree) -> Option<Rule> {
    if node.children.len() == 2 {
        if node.children[0].rule != Rule::object {
            Some(node.children[0].rule)
        } else {
            expression_fault(node.children[1])
        }
    } else if node.children.len() == 3 {
        if node.children[0].rule != Rule::keyword {
            Some(node.children[0].rule)
        } else if keyword_of(node.children[0].text) is None {
            Some(Rule::keyword)
        } else if node.children[1].rule != Rule::object {
            Some(node.children[1].rule)
        } else {
            expression_fault(node.children[2])
        }
    } else {
        Some(Rule::assignment)
    }
}

/// Whether a statement node without fault spells the statement `a`.
pub open spec fn statement_spells<F: Fn(FloatRequest) -> FloatReply>(
    unit: &F,
    node: Tree,
    a: Action,
) -> bool {
    let kid = node.children[0];
    match kid.rule {
        Rule::expression => a matches Action::Evaluate(t) && expression_spells(unit, kid, t),
        Rule::assignment => a matches Action::Assign { keyword, name, value } && {
            if kid.children.len() == 2 {
                keyword is None && name == kid.children[0].text && expression_spells(
                    unit,
                    kid.children[1],
                    value,
                )
            } else {
                keyword is Some && keyword == keyword_of(kid.children[0].text) && name
                    == kid.children[1].text && expression_spells(unit, kid.children[2], value)
            }
        },
        _ => false,
    }
}

/// The failure that a node out of place is.
pub open spec fn violation(rule: Rule) -> Failure {
    Failure::ParserContractViolation(rule)
}

/// Reads the value that a literal node spells.
pub fn read_literal<F: Fn(FloatRequest) -> FloatReply>(node: &Node, unit: &F) -> (out: Result<
    Primitive,
    RuntimeErr,
>)
    requires
        serves(unit),
    ensures
        match out {
            Ok(p) => literal_fault(node@) is None && literal_spells(unit, node@, p@),
            Err(e) => literal_fault(node@) is Some && e@ == violation(literal_fault(node@)->Some_0),
        },
{
    if node.rule != Rule::literal {
        return Err(RuntimeErr::ParserContractViolation(node.rule));
    }
    if node.children.len() != 1 {
        return Err(RuntimeErr::ParserContractViolation(Rule::literal));
    }
    let kid = &node.children[0];
    assert(node@.children[0] == kid@);
    match kid.rule {
        Rule::integer => {
            let chars = chars_of(kid.text.as_str());
            assert(chars@.subrange(0, chars@.len() as int) =~= kid.text@);
            match read_int(&chars, 0, chars.len()) {
                Some(i) => Ok(Primitive::Int(i)),
                None => Err(RuntimeErr::ParserContractViolation(Rule::integer)),
            }
        },
        Rule::float => Ok(Primitive::Float(read(unit, kid.text.as_str()))),
        Rule::string => {
            let text = kid.text.as_str();
            let n = text.unicode_len();
            if n >= 2 && text.get_char(0) == text.get_char(n - 1) && (text.get_char(0) == '"'
                || text.get_char(0) == '\'') {
                Ok(Primitive::String(text.substring_char(1, n - 1).to_owned()))
            } else {
                Err(RuntimeErr::ParserContractViolation(Rule::string))
            }
        },
        Rule::boolean => match read_truth(kid.text.as_str()) {
            Some(b) => Ok(Primitive::Bool(b)),
            None => Err(RuntimeErr::ParserContractViolation(Rule::boolean)),
        },
        _ => Err(RuntimeErr::ParserContractViolation(kid.rule)),
    }
}

/// Reads the expression that an expression node spells.
pub fn read_expression<F: Fn(FloatRequest) -> FloatReply>(node: &Node, unit: &F) -> (out: Result<
    Expression,
    RuntimeErr,
>)
    requires
        serves(unit),
    ensures
        match out {
            Ok(e) => expression_fault(node@) is None && expression_spells(unit, node@, e@),
            Err(e) => expression_fault(node@) is Some && e@ == violation(
                expression_fault(node@)->Some_0,
            ),
        },
    decreases node,
{
    if node.rule != Rule::expression {
        return Err(RuntimeErr::ParserContractViolation(node.rule));
    }
    if node.children.len() == 1 {
        let kid = &node.children[0];
        assert(node@.children[0] == kid@);
        match kid.rule {
            Rule::literal => match read_literal(kid, unit) {
                Ok(p) => Ok(Expression::Literal(p)),
                Err(e) => Err(e),
            },
            Rule::object => Ok(Expression::Identifier(kid.text.clone())),
            Rule::expression => match read_expression(kid, unit) {
                Ok(inner) => Ok(Expression::Grouped(Box::new(inner))),
                Err(e) => Err(e),
            },
            _ => Err(RuntimeErr::ParserContractViolation(kid.rule)),
        }
    } else if node.children.len() == 3 {
        let left = &node.children[0];
        let middle = &node.children[1];
        let right = &node.children[2];
        assert(node@.children[0] == left@);
        assert(node@.children[1] == middle@);
        assert(node@.children[2] == right@);
        let l = match read_expression(left, unit) {
            Ok(l) => l,
            Err(e) => {
                return Err(e);
            },
        };
        if middle.rule != Rule::operator {
            return Err(RuntimeErr::ParserContractViolation(middle.rule));
        }
        let op = match read_operator(middle.text.as_str()) {
            Some(op) => op,
            None => {
                return Err(RuntimeErr::ParserContractViolation(Rule::operator));
            },
        };
        match read_expression(right, unit) {
            Ok(r) => Ok(Expression::BinaryOp(op, Box::new(l), Box::new(r))),
            Err(e) => Err(e),
        }
    } else {
        Err(RuntimeErr::ParserContractViolation(Rule::expression))
    }
}

/// Reads the statement that a statement node spells.
pub fn read_statement<F: Fn(FloatRequest) -> FloatReply>(node: &Node, unit: &F) -> (out: Result<
    Statement,
    RuntimeErr,
>)
    requires
        serves(unit),
    ensures
        match out {
            Ok(s) => statement_fault(node@) is None && statement_spells(unit, node@, s@),
            Err(e) => statement_fault(node@) is Some && e@ == violation(
                statement_fault(node@)->Some_0,
            ),
        },
{
    if node.rule != Rule::statement {
        return Err(RuntimeErr::ParserContractViolation(node.rule));
    }
    if node.children.len() != 1 {
        return Err(RuntimeErr::ParserContractViolation(Rule::statement));
    }
    let kid = &node.children[0];
    assert(node@.children[0] == kid@);
    match kid.rule {
        Rule::expression => match read_expression(kid, unit) {
            Ok(e) => Ok(Statement::Expression(e)),
            Err(e) => Err(e),
        },
        Rule::assignment => {
            if kid.children.len() == 2 {
                let target = &kid.children[0];
                let source = &kid.children[1];
                assert(kid@.children[0] == target@);
                assert(kid@.children[1] == source@);
                if target.rule != Rule::object {
                    return Err(RuntimeErr::ParserContractViolation(target.rule));
                }
                match read_expression(source, unit) {
                    Ok(value) => Ok(
                        Statement::Assignment { keyword: None, name: target.text.clone(), value },
                    ),
                    Err(e) => Err(e),
                }
            } else if kid.children.len() == 3 {
                let opener = &kid.children[0];
                let target = &kid.children[1];
                let source = &kid.children[2];
                assert(kid@.children[0] == opener@);
                assert(kid@.children[1] == target@);
                assert(kid@.children[2] == source@);
                if opener.rule != Rule::keyword {
                    return Err(RuntimeErr::ParserContractViolation(opener.rule));
                }
                let keyword = match read_keyword(opener.text.as_str()) {
                    Some(k) => k,
                    None => {
                        return Err(RuntimeErr::ParserContractViolation(Rule::keyword));
                    },
                };
                if target.rule != Rule::object {
                    return Err(RuntimeErr::ParserContractViolation(target.rule));
                }
                match read_expression(source, unit) {
                    Ok(value) => Ok(
                        Statement::Assignment {
                            keyword: Some(keyword),
                            name: target.text.clone(),
                            value,
                        },
                    ),
                    Err(e) => Err(e),
                }
            } else {
                Err(RuntimeErr::ParserContractViolation(Rule::assignment))
            }
        },
        _ => Err(RuntimeErr::ParserContractViolation(kid.rule)),
    }
}

/// With a steady unit an expression node spells one expression.
pub proof fn expressions_are_spelled_once<F: Fn(FloatRequest) -> FloatReply>(
    unit: &F,
    node: Tree,
    first: Term,
    second: Term,
)
    requires
        steady(unit),
        expression_spells(unit, node, first),
        expression_spells(unit, node, second),
    ensures
        first == second,
    decreases node,
{
    steady_units_answer_once(unit);
    if node.children.len() == 1 {
        let kid = node.children[0];
        if kid.rule == Rule::expression {
            expressions_are_spelled_once(
                unit,
                kid,
                *first->Grouped_0,
                *second->Grouped_0,
            );
        }
    } else if node.children.len() == 3 {
        expressions_are_spelled_once(
            unit,
            node.children[0],
            *first->BinaryOp_1,
            *second->BinaryOp_1,
        );
        expressions_are_spelled_once(
            unit,
            node.children[2],
            *first->BinaryOp_2,
            *second->BinaryOp_2,
        );
    }
}

/// With a steady unit a statement node spells one statement.
pub proof fn statements_are_spelled_once<F: Fn(FloatRequest) -> FloatReply>(
    unit: &F,
    node: Tree,
    first: Action,
    second: Action,
)
    requires
        steady(unit),
        statement_spells(unit, node, first),
        statement_spells(unit, node, second),
    ensures
        first == second,
{
    let kid = node.children[0];
    match kid.rule {
        Rule::expression => {
            expressions_are_spelled_once(unit, kid, first->Evaluate_0, second->Evaluate_0);
        },
        Rule::assignment => {
            if kid.children.len() == 2 {
                expressions_are_spelled_once(
                    unit,
                    kid.children[1],
                    first->Assign_value,
                    second->Assign_value,
                );
            } else {
                expressions_are_spelled_once(
                    unit,
                    kid.children[2],
                    first->Assign_value,
                    second->Assign_value,
                );
            }
        },
        _ => {},
    }
}

} // verus!
