//! The expression evaluator: a stateless, recursive reduction of an
//! expression to a primitive value. Precedence and associativity are in the
//! shape of the expression; the evaluator does not reason about them.

use crate::error::{Failure, RuntimeErr};
use crate::primitive::{
    application_is_a_function, applies, apply, combines, outcome, promotes, Operator, Primitive,
    Value,
};
use crate::scope::{looked_up, Frame, ScopeTree};
use crate::unit::{serves, steady, FloatReply, FloatRequest};
use vstd::prelude::*;

verus! {

/// An expression of the language.
#[derive(Debug, PartialEq, Eq)]
pub enum Expression {
    /// A value written in the source.
    Literal(Primitive),
    /// A name, which stands for the value bound to it.
    Identifier(String),
    /// An expression in parentheses, which stands for the expression.
    Grouped(Box<Expression>),
    /// An operator between two expressions.
    BinaryOp(Operator, Box<Expression>, Box<Expression>),
}

/// The mathematical model of an [`Expression`].
pub enum Term {
    Literal(Value),
    Identifier(Seq<char>),
    Grouped(Box<Term>),
    BinaryOp(Operator, Box<Term>, Box<Term>),
}

impl Expression {
    /// The model of an expression.
    pub open spec fn model(self) -> Term
        decreases self,
    {
        match self {
            Expression::Literal(p) => Term::Literal(p@),
            Expression::Identifier(n) => Term::Identifier(n@),
            Expression::Grouped(inner) => Term::Grouped(Box::new(inner.model())),
            Expression::BinaryOp(op, l, r) => Term::BinaryOp(
                op,
                Box::new(l.model()),
                Box::new(r.model()),
            ),
        }
    }
}

impl View for Expression {
    type V = Term;

    open spec fn view(&self) -> Term {
        self.model()
    }
}

/// Whether `out` is a result of an operator whose operands evaluated to `a`
/// and `b`: the failure of the left operand, else the failure of the right
/// operand, else what the operator gives on the two values.
pub open spec fn folds<F: Fn(FloatRequest) -> FloatReply>(
    unit: &F,
    op: Operator,
    a: Result<Value, Failure>,
    b: Result<Value, Failure>,
    out: Result<Value, Failure>,
) -> bool {
    match a {
        Err(f) => out == Err::<Value, Failure>(f),
        Ok(x) => match b {
            Err(f) => out == Err::<Value, Failure>(f),
            Ok(y) => applies(unit, op, x, y, out),
        },
    }
}

/// Whether `out` is a result of evaluating `e` from the scope `scope` of
/// `frames` with the floating-point unit `unit`.
///
/// A literal is its value, a name is what a lookup gives, a group is its
/// inner expression, and an operator is applied to what its operands
/// evaluate to, the left one first; the right operand is not evaluated
/// where the left one fails.
pub open spec fn evaluates<F: Fn(FloatRequest) -> FloatReply>(
    unit: &F,
    frames: Seq<Frame>,
    scope: int,
    e: Term,
    out: Result<Value, Failure>,
) -> bool
    decreases e,
{
    match e {
        Term::Literal(v) => out == Ok::<Value, Failure>(v),
        Term::Identifier(n) => out == looked_up(frames, scope, n),
        Term::Grouped(inner) => evaluates(unit, frames, scope, *inner, out),
        Term::BinaryOp(op, l, r) => exists|a: Result<Value, Failure>, b: Result<Value, Failure>|
            evaluates(unit, frames, scope, *l, a) && (a is Ok ==> evaluates(
                unit,
                frames,
                scope,
                *r,
                b,
            )) && #[trigger] folds(unit, op, a, b, out),
    }
}

/// Evaluates an expression from a scope of the tree.
pub fn evaluate<F: Fn(FloatRequest) -> FloatReply>(
    expr: &Expression,
    tree: &ScopeTree,
    scope: usize,
    unit: &F,
) -> (out: Result<Primitive, RuntimeErr>)
    requires
        serves(unit),
        tree.well_formed(),
        scope < tree@.len(),
    ensures
        evaluates(unit, tree@, scope as int, expr@, outcome(out)),
    decreases expr,
{
    match expr {
        Expression::Literal(p) => Ok(p.clone()),
        Expression::Identifier(n) => tree.lookup(scope, n.as_str()),
        Expression::Grouped(inner) => evaluate(inner, tree, scope, unit),
        Expression::BinaryOp(op, l, r) => {
            let left = evaluate(l, tree, scope, unit);
            let a = match left {
                Ok(a) => a,
                Err(f) => {
                    proof {
                        let failed = Err::<Value, Failure>(f@);
                        assert(folds(unit, *op, failed, failed, failed));
                    }
                    return Err(f);
                },
            };
            let right = evaluate(r, tree, scope, unit);
            let b = match right {
                Ok(b) => b,
                Err(f) => {
                    proof {
                        let failed = Err::<Value, Failure>(f@);
                        assert(folds(unit, *op, Ok(a@), failed, failed));
                    }
                    return Err(f);
                },
            };
            let out = apply(*op, &a, &b, unit);
            proof {
                assert(folds(unit, *op, Ok(a@), Ok(b@), outcome(out)));
            }
            out
        },
    }
}

/// Whether a failure is about the shape of the parse tree.
pub open spec fn about_the_tree(f: Failure) -> bool {
    f is ParserContractViolation
}

/// Evaluation has nothing to do with the parse tree: whatever an
/// expression evaluates to, it is no `ParserContractViolation`.
pub proof fn evaluation_finds_no_violation<F: Fn(FloatRequest) -> FloatReply>(
    unit: &F,
    frames: Seq<Frame>,
    scope: int,
    e: Term,
    out: Result<Value, Failure>,
)
    requires
        evaluates(unit, frames, scope, e, out),
    ensures
        out matches Err(f) ==> !about_the_tree(f),
    decreases e,
{
    match e {
        Term::Literal(_) => {},
        Term::Identifier(_) => {},
        Term::Grouped(inner) => {
            evaluation_finds_no_violation(unit, frames, scope, *inner, out);
        },
        Term::BinaryOp(op, l, r) => {
            let (a, b) = choose|a: Result<Value, Failure>, b: Result<Value, Failure>|
                evaluates(unit, frames, scope, *l, a) && (a is Ok ==> evaluates(
                    unit,
                    frames,
                    scope,
                    *r,
                    b,
                )) && #[trigger] folds(unit, op, a, b, out);
            evaluation_finds_no_violation(unit, frames, scope, *l, a);
            if a is Ok {
                evaluation_finds_no_violation(unit, frames, scope, *r, b);
                if b is Ok {
                    let x = a->Ok_0;
                    let y = b->Ok_0;
                    let k = x.kind().join(y.kind());
                    let (p, q) = choose|p: Value, q: Value|
                        promotes(unit, x, k, Ok(p)) && promotes(unit, y, k, Ok(q))
                            && #[trigger] combines(unit, op, p, q, x.kind(), y.kind(), out);
                }
            }
        },
    }
}

/// With a steady unit evaluation is a function: an expression has one
/// result from a scope.
pub proof fn evaluation_is_a_function<F: Fn(FloatRequest) -> FloatReply>(
    unit: &F,
    frames: Seq<Frame>,
    scope: int,
    e: Term,
    first: Result<Value, Failure>,
    second: Result<Value, Failure>,
)
    requires
        steady(unit),
        evaluates(unit, frames, scope, e, first),
        evaluates(unit, frames, scope, e, second),
    ensures
        first == second,
    decreases e,
{
    match e {
        Term::Literal(_) => {},
        Term::Identifier(_) => {},
        Term::Grouped(inner) => {
            evaluation_is_a_function(unit, frames, scope, *inner, first, second);
        },
        Term::BinaryOp(op, l, r) => {
            let (a1, b1) = choose|a: Result<Value, Failure>, b: Result<Value, Failure>|
                evaluates(unit, frames, scope, *l, a) && (a is Ok ==> evaluates(
                    unit,
                    frames,
                    scope,
                    *r,
                    b,
                )) && #[trigger] folds(unit, op, a, b, first);
            let (a2, b2) = choose|a: Result<Value, Failure>, b: Result<Value, Failure>|
                evaluates(unit, frames, scope, *l, a) && (a is Ok ==> evaluates(
                    unit,
                    frames,
                    scope,
                    *r,
                    b,
                )) && #[trigger] folds(unit, op, a, b, second);
            evaluation_is_a_function(unit, frames, scope, *l, a1, a2);
            if a1 is Ok {
                evaluation_is_a_function(unit, frames, scope, *r, b1, b2);
                if b1 is Ok {
                    application_is_a_function(unit, op, a1->Ok_0, b1->Ok_0, first, second);
                }
            }
        },
    }
}

} // verus!
