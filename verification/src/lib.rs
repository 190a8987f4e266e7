//! JAMAL: a small scripting language for string manipulation.
//!
//! The crate holds the evaluation core of the language: the primitive value
//! model with its coercion order, the scope tree, the expression evaluator,
//! the assignment handler and the statement executor, together with the
//! grammar that turns source text into a parse tree.

pub mod arith;
pub mod error;
pub mod eval;
pub mod executor;
pub mod grammar;
pub mod lexer;
pub mod literal;
pub mod primitive;
pub mod reader;
pub mod scope;
pub mod syntax;
pub mod text;
pub mod unit;
pub mod words;

pub use crate::error::{JamalErr, RuntimeErr};
pub use crate::eval::Expression;
pub use crate::grammar::{JamalParser, SyntaxError};
pub use crate::primitive::{Kind, Operator, Primitive};
pub use crate::reader::Statement;
pub use crate::scope::{Binding, Scope, ScopeTree};
pub use crate::syntax::{Node, Rule};
pub use crate::unit::{FloatReply, FloatRequest};
pub use crate::words::Keyword;

use crate::error::Failure;
use crate::eval::about_the_tree;
use crate::executor::{run, runs_file, sound_nodes_run_without_violation};
use crate::grammar::{parsed, parsed_files_are_sound};
use crate::scope::{effect, Frame};
use crate::syntax::Tree;
use crate::unit::serves;
use vstd::prelude::*;

verus! {

/// The scopes of a fresh tree: a root without bindings and without children.
pub open spec fn fresh() -> Seq<Frame> {
    seq![Frame { parent: None, bindings: Map::empty(), children: Seq::empty() }]
}

/// The interpreter of the language.
pub struct Jamal {}

impl Jamal {
    /// Runs a program: parses the source as a file and runs its statements
    /// in order from the root of a fresh scope tree, which it hands back.
    ///
    /// A source that does not follow the grammar gives `FileParseErr` with
    /// the position at which it stops following it, and nothing is run. The
    /// first statement that fails ends the run with its failure.
    pub fn run<F: Fn(FloatRequest) -> FloatReply>(source: &str, unit: &F) -> (out: Result<
        ScopeTree,
        JamalErr,
    >)
        requires
            serves(unit),
        ensures
            match out {
                Ok(tree) => tree.well_formed() && parsed(Rule::file, source@) is Ok && runs_file(
                    unit,
                    fresh(),
                    0,
                    parsed(Rule::file, source@)->Ok_0,
                    Ok(()),
                    tree@,
                ),
                Err(JamalErr::FileParseErr(at)) => parsed(Rule::file, source@) == Err::<
                    Tree,
                    (int, Rule),
                >((at as int, Rule::statement)),
                Err(JamalErr::Runtime(e)) => parsed(Rule::file, source@) is Ok && exists|
                    after: Seq<Frame>,
                | #[trigger]
                    runs_file(
                        unit,
                        fresh(),
                        0,
                        parsed(Rule::file, source@)->Ok_0,
                        Err(e@),
                        after,
                    ),
                Err(JamalErr::FileReadErr) => false,
            },
    {
        let file = match JamalParser::parse(Rule::file, source) {
            Ok(file) => file,
            Err(e) => {
                return Err(JamalErr::from(e));
            },
        };
        let mut tree = ScopeTree::create_root();
        assert(tree@ =~= fresh());
        let done = run(&file, &mut tree, 0, unit);
        assert(parsed(Rule::file, source@)->Ok_0 == file@);
        assert(runs_file(unit, fresh(), 0, file@, effect(done), tree@));
        match done {
            Ok(_) => Ok(tree),
            Err(e) => Err(JamalErr::from(e)),
        }
    }
}

/// The grammar and the executor fit together: a source that parses as a
/// file runs without a `ParserContractViolation`, from any scope of any
/// tree and with any floating-point unit.
pub proof fn parsed_programs_run_without_violation<F: Fn(FloatRequest) -> FloatReply>(
    unit: &F,
    frames: Seq<Frame>,
    scope: int,
    source: Seq<char>,
    out: Result<(), Failure>,
    after: Seq<Frame>,
)
    requires
        parsed(Rule::file, source) is Ok,
        runs_file(unit, frames, scope, parsed(Rule::file, source)->Ok_0, out, after),
    ensures
        out matches Err(f) ==> !about_the_tree(f),
{
    parsed_files_are_sound(source);
    sound_nodes_run_without_violation(
        unit,
        frames,
        scope,
        parsed(Rule::file, source)->Ok_0.children,
        out,
        after,
    );
}

} // verus!
