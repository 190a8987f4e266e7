//! The failures of the library.

use crate::grammar::SyntaxError;
use crate::primitive::{Kind, Operator};
use crate::syntax::Rule;
use vstd::prelude::*;
use vstd::std_specs::convert::FromSpecImpl;

verus! {

/// A failure of evaluation. Every operation hands its failure to its caller;
/// nothing is retried.
#[derive(Debug, PartialEq, Eq)]
pub enum RuntimeErr {
    /// No scope on the way to the root binds the name.
    UndefinedVariable(String),
    /// The scope already binds the name.
    DuplicateDeclaration(String),
    /// The binding found for the name cannot be overwritten.
    ImmutableBinding(String),
    /// A value of the first kind cannot be narrowed to the second.
    InvalidCoercion(Kind, Kind),
    /// The operator has no meaning on operands of the kind.
    UnsupportedOperator(Operator, Kind),
    /// A logical operator met numeric operands of the kinds.
    TypeMismatch(Operator, Kind, Kind),
    /// The right operand of a division or remainder is zero.
    DivisionByZero,
    /// The parse tree holds a node that the grammar never produces there.
    ParserContractViolation(Rule),
}

/// The mathematical model of a [`RuntimeErr`].
pub enum Failure {
    UndefinedVariable(Seq<char>),
    DuplicateDeclaration(Seq<char>),
    ImmutableBinding(Seq<char>),
    InvalidCoercion(Kind, Kind),
    UnsupportedOperator(Operator, Kind),
    TypeMismatch(Operator, Kind, Kind),
    DivisionByZero,
    ParserContractViolation(Rule),
}

impl View for RuntimeErr {
    type V = Failure;

    open spec fn view(&self) -> Failure {
        match self {
            RuntimeErr::UndefinedVariable(n) => Failure::UndefinedVariable(n@),
            RuntimeErr::DuplicateDeclaration(n) => Failure::DuplicateDeclaration(n@),
            RuntimeErr::ImmutableBinding(n) => Failure::ImmutableBinding(n@),
            RuntimeErr::InvalidCoercion(from, to) => Failure::InvalidCoercion(*from, *to),
            RuntimeErr::UnsupportedOperator(op, k) => Failure::UnsupportedOperator(*op, *k),
            RuntimeErr::TypeMismatch(op, l, r) => Failure::TypeMismatch(*op, *l, *r),
            RuntimeErr::DivisionByZero => Failure::DivisionByZero,
            RuntimeErr::ParserContractViolation(r) => Failure::ParserContractViolation(*r),
        }
    }
}

/// What a run of a program can fail with.
#[derive(Debug, PartialEq, Eq)]
pub enum JamalErr {
    /// The source file could not be read.
    FileReadErr,
    /// The source text does not follow the grammar; the position counts
    /// characters from the start of the text.
    FileParseErr(usize),
    /// A statement failed.
    Runtime(RuntimeErr),
}

impl From<SyntaxError> for JamalErr {
    /// A source that does not follow the grammar fails to parse at the
    /// position of the syntax error.
    fn from(e: SyntaxError) -> (out: JamalErr) {
        JamalErr::FileParseErr(e.position)
    }
}

impl FromSpecImpl<SyntaxError> for JamalErr {
    open spec fn obeys_from_spec() -> bool {
        true
    }

    open spec fn from_spec(e: SyntaxError) -> JamalErr {
        JamalErr::FileParseErr(e.position)
    }
}

impl From<RuntimeErr> for JamalErr {
    /// A failure of evaluation is a failure of the run.
    fn from(e: RuntimeErr) -> (out: JamalErr) {
        JamalErr::Runtime(e)
    }
}

impl FromSpecImpl<RuntimeErr> for JamalErr {
    open spec fn obeys_from_spec() -> bool {
        true
    }

    open spec fn from_spec(e: RuntimeErr) -> JamalErr {
        JamalErr::Runtime(e)
    }
}

} // verus!
