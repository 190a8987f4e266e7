//! The assignment handler and the statement executor. A statement is an
//! assignment, which changes the scope tree, or a bare expression, which is
//! evaluated for its value. The statements of a program run in source order
//! from one scope, and the first failure ends the run.

use crate::error::{Failure, RuntimeErr};
use crate::eval::{
    about_the_tree, evaluate, evaluates, evaluation_finds_no_violation, evaluation_is_a_function,
};
use crate::primitive::{Primitive, Value};
use crate::reader::{
    read_statement, statement_fault, statement_spells, statements_are_spelled_once, violation,
    Action, Statement,
};
use crate::words::Keyword;
use crate::scope::{assigned, declared, effect, Entry, Frame, ScopeTree};
use crate::syntax::{Node, Rule, Tree};
use crate::unit::{serves, steady, FloatReply, FloatRequest};
use vstd::prelude::*;

verus! {

/// What binding `v` to `name` from `scope` gives, and the scopes after it:
/// without a keyword the name is reassigned, with one it is declared in
/// `scope`, mutable where the keyword is `var`.
pub open spec fn stored(
    frames: Seq<Frame>,
    scope: int,
    keyword: Option<Keyword>,
    name: Seq<char>,
    v: Value,
) -> (Result<(), Failure>, Seq<Frame>) {
    match keyword {
        None => assigned(frames, scope, name, v),
        Some(k) => declared(frames, scope, name, Entry { value: v, mutable: k.mutable() }),
    }
}

/// The model of what a statement hands back: the value of a bare
/// expression, nothing for an assignment, or a failure.
pub open spec fn yielded(r: Result<Option<Primitive>, RuntimeErr>) -> Result<
    Option<Value>,
    Failure,
> {
    match r {
        Ok(Some(p)) => Ok(Some(p@)),
        Ok(None) => Ok(None),
        Err(e) => Err(e@),
    }
}

/// Whether the statement `action`, run from `scope` of `frames`, may hand
/// back `out` and leave the scopes `after`.
///
/// A bare expression is evaluated and leaves the scopes as they are. An
/// assignment evaluates its expression first; where that fails, nothing is
/// bound; else the value is bound as [`stored`] says.
pub open spec fn performs<F: Fn(FloatRequest) -> FloatReply>(
    unit: &F,
    frames: Seq<Frame>,
    scope: int,
    action: Action,
    out: Result<Option<Value>, Failure>,
    after: Seq<Frame>,
) -> bool {
    match action {
        Action::Evaluate(t) => after == frames && match out {
            Ok(Some(v)) => evaluates(unit, frames, scope, t, Ok(v)),
            Ok(None) => false,
            Err(f) => evaluates(unit, frames, scope, t, Err(f)),
        },
        Action::Assign { keyword, name, value } => exists|v: Result<Value, Failure>| #[trigger]
            evaluates(unit, frames, scope, value, v) && match v {
                Err(f) => out == Err::<Option<Value>, Failure>(f) && after == frames,
                Ok(x) => match stored(frames, scope, keyword, name, x).0 {
                    Ok(_) => out == Ok::<Option<Value>, Failure>(None) && after == stored(
                        frames,
                        scope,
                        keyword,
                        name,
                        x,
                    ).1,
                    Err(f) => out == Err::<Option<Value>, Failure>(f) && after == frames,
                },
            },
    }
}

/// Runs one statement from a scope of the tree. A bare expression hands
/// back its value; an assignment hands back nothing.
pub fn execute<F: Fn(FloatRequest) -> FloatReply>(
    statement: &Statement,
    tree: &mut ScopeTree,
    scope: usize,
    unit: &F,
) -> (out: Result<Option<Primitive>, RuntimeErr>)
    requires
        serves(unit),
        old(tree).well_formed(),
        scope < old(tree)@.len(),
    ensures
        final(tree).well_formed(),
        final(tree)@.len() == old(tree)@.len(),
        performs(unit, old(tree)@, scope as int, statement@, yielded(out), final(tree)@),
{
    match statement {
        Statement::Expression(e) => match evaluate(e, tree, scope, unit) {
            Ok(v) => Ok(Some(v)),
            Err(f) => Err(f),
        },
        Statement::Assignment { keyword, name, value } => {
            let computed = evaluate(value, tree, scope, unit);
            let v = match computed {
                Ok(v) => v,
                Err(f) => {
                    return Err(f);
                },
            };
            let ghost before = tree@;
            let stored_as = match keyword {
                None => tree.assign(scope, name.as_str(), v),
                Some(k) => tree.declare(scope, name.as_str(), v, k.is_mutable()),
            };
            proof {
                assert(evaluates(unit, before, scope as int, value@, Ok(v@)));
                assert((effect(stored_as), tree@) == stored(
                    before,
                    scope as int,
                    *keyword,
                    name@,
                    v@,
                ));
            }
            match stored_as {
                Ok(_) => Ok(None),
                Err(f) => Err(f),
            }
        },
    }
}

/// Whether a node holds nothing to run: blank space or a comment.
pub open spec fn trivia(rule: Rule) -> bool {
    rule == Rule::WHITESPACE || rule == Rule::COMMENT
}

/// Whether running the statement nodes `nodes` in order from `scope` of
/// `frames` may hand back `out` and leave the scopes `after`.
///
/// Blank space and comments are skipped. Each other node is read as a
/// statement and run on the scopes that the statements before it left. The
/// first node out of place, or the first statement that fails, ends the run
/// with its failure; what the statements before it bound stays bound.
pub open spec fn runs<F: Fn(FloatRequest) -> FloatReply>(
    unit: &F,
    frames: Seq<Frame>,
    scope: int,
    nodes: Seq<Tree>,
    out: Result<(), Failure>,
    after: Seq<Frame>,
) -> bool
    decreases nodes.len(),
{
    if nodes.len() == 0 {
        out == Ok::<(), Failure>(()) && after == frames
    } else if trivia(nodes[0].rule) {
        runs(unit, frames, scope, nodes.drop_first(), out, after)
    } else {
        match statement_fault(nodes[0]) {
            Some(rule) => out == Err::<(), Failure>(violation(rule)) && after == frames,
            None => exists|a: Action, r: Result<Option<Value>, Failure>, mid: Seq<Frame>|
                statement_spells(unit, nodes[0], a) && #[trigger] performs(
                    unit,
                    frames,
                    scope,
                    a,
                    r,
                    mid,
                ) && match r {
                    Err(f) => out == Err::<(), Failure>(f) && after == mid,
                    Ok(_) => runs(unit, mid, scope, nodes.drop_first(), out, after),
                },
        }
    }
}

/// Whether running the program under the node `file` from `scope` of
/// `frames` may hand back `out` and leave the scopes `after`. A node that is
/// no file node is out of place.
pub open spec fn runs_file<F: Fn(FloatRequest) -> FloatReply>(
    unit: &F,
    frames: Seq<Frame>,
    scope: int,
    file: Tree,
    out: Result<(), Failure>,
    after: Seq<Frame>,
) -> bool {
    if file.rule != Rule::file {
        out == Err::<(), Failure>(violation(file.rule)) && after == frames
    } else {
        runs(unit, frames, scope, file.children, out, after)
    }
}

/// Runs the statements of a program in source order from a scope of the
/// tree, and stops at the first failure.
pub fn run<F: Fn(FloatRequest) -> FloatReply>(
    file: &Node,
    tree: &mut ScopeTree,
    scope: usize,
    unit: &F,
) -> (out: Result<(), RuntimeErr>)
    requires
        serves(unit),
        old(tree).well_formed(),
        scope < old(tree)@.len(),
    ensures
        final(tree).well_formed(),
        final(tree)@.len() == old(tree)@.len(),
        runs_file(unit, old(tree)@, scope as int, file@, effect(out), final(tree)@),
{
    if file.rule != Rule::file {
        return Err(RuntimeErr::ParserContractViolation(file.rule));
    }
    let ghost nodes = file@.children;
    let ghost start = tree@;
    let n = file.children.len();
    let mut i: usize = 0;
    assert(nodes.subrange(0, n as int) =~= nodes);
    while i < n
        invariant
            serves(unit),
            tree.well_formed(),
            tree@.len() == start.len(),
            start == old(tree)@,
            file.rule == Rule::file,
            scope < tree@.len(),
            i <= n,
            n == file.children@.len(),
            nodes == file@.children,
            nodes.len() == n,
            forall|out: Result<(), Failure>, after: Seq<Frame>| #[trigger]
                runs(unit, tree@, scope as int, nodes.subrange(i as int, n as int), out, after)
                    ==> runs(unit, start, scope as int, nodes, out, after),
        decreases n - i,
    {
        let node = &file.children[i];
        let ghost here = tree@;
        let ghost ahead = nodes.subrange(i as int, n as int);
        let ghost rest = nodes.subrange(i + 1, n as int);
        assert(ahead[0] == node@);
        assert(ahead.drop_first() =~= rest);
        if node.rule == Rule::WHITESPACE || node.rule == Rule::COMMENT {
            proof {
                assert forall|out: Result<(), Failure>, after: Seq<Frame>| #[trigger]
                    runs(unit, here, scope as int, rest, out, after) implies runs(
                    unit,
                    start,
                    scope as int,
                    nodes,
                    out,
                    after,
                ) by {
                    assert(runs(unit, here, scope as int, ahead, out, after));
                }
            }
            i += 1;
            continue ;
        }
        let statement = match read_statement(node, unit) {
            Ok(s) => s,
            Err(e) => {
                assert(runs(unit, here, scope as int, ahead, Err(e@), here));
                return Err(e);
            },
        };
        let done = execute(&statement, tree, scope, unit);
        match done {
            Err(e) => {
                assert(performs(unit, here, scope as int, statement@, yielded(done), tree@));
                assert(runs(unit, here, scope as int, ahead, Err(e@), tree@));
                return Err(e);
            },
            Ok(_) => {
                proof {
                    let mid = tree@;
                    assert forall|out: Result<(), Failure>, after: Seq<Frame>| #[trigger]
                        runs(unit, mid, scope as int, rest, out, after) implies runs(
                        unit,
                        start,
                        scope as int,
                        nodes,
                        out,
                        after,
                    ) by {
                        assert(performs(unit, here, scope as int, statement@, yielded(done), mid));
                        assert(runs(unit, here, scope as int, ahead, out, after));
                    }
                }
                i += 1;
            },
        }
    }
    assert(nodes.subrange(n as int, n as int).len() == 0);
    assert(runs(unit, tree@, scope as int, nodes.subrange(n as int, n as int), Ok(()), tree@));
    Ok(())
}

/// A statement has nothing to do with the parse tree: whatever running it
/// gives, it is no `ParserContractViolation`.
pub proof fn statements_find_no_violation<F: Fn(FloatRequest) -> FloatReply>(
    unit: &F,
    frames: Seq<Frame>,
    scope: int,
    action: Action,
    out: Result<Option<Value>, Failure>,
    after: Seq<Frame>,
)
    requires
        performs(unit, frames, scope, action, out, after),
    ensures
        out matches Err(f) ==> !about_the_tree(f),
{
    match action {
        Action::Evaluate(t) => {
            if let Err(f) = out {
                evaluation_finds_no_violation(unit, frames, scope, t, Err(f));
            }
        },
        Action::Assign { keyword, name, value } => {
            let v = choose|v: Result<Value, Failure>| #[trigger]
                evaluates(unit, frames, scope, value, v) && match v {
                    Err(f) => out == Err::<Option<Value>, Failure>(f) && after == frames,
                    Ok(x) => match stored(frames, scope, keyword, name, x).0 {
                        Ok(_) => out == Ok::<Option<Value>, Failure>(None) && after == stored(
                            frames,
                            scope,
                            keyword,
                            name,
                            x,
                        ).1,
                        Err(f) => out == Err::<Option<Value>, Failure>(f) && after == frames,
                    },
                };
            evaluation_finds_no_violation(unit, frames, scope, value, v);
        },
    }
}

/// Statement nodes in which the reader finds no fault run without a
/// `ParserContractViolation`.
pub proof fn sound_nodes_run_without_violation<F: Fn(FloatRequest) -> FloatReply>(
    unit: &F,
    frames: Seq<Frame>,
    scope: int,
    nodes: Seq<Tree>,
    out: Result<(), Failure>,
    after: Seq<Frame>,
)
    requires
        runs(unit, frames, scope, nodes, out, after),
        forall|i: int|
            0 <= i < nodes.len() ==> trivia((#[trigger] nodes[i]).rule) || statement_fault(
                nodes[i],
            ) is None,
    ensures
        out matches Err(f) ==> !about_the_tree(f),
    decreases nodes.len(),
{
    if nodes.len() > 0 {
        let rest = nodes.drop_first();
        assert forall|i: int| 0 <= i < rest.len() implies trivia((#[trigger] rest[i]).rule)
            || statement_fault(rest[i]) is None by {
            assert(rest[i] == nodes[i + 1]);
        }
        if trivia(nodes[0].rule) {
            sound_nodes_run_without_violation(unit, frames, scope, rest, out, after);
        } else {
            let (a, r, mid) = choose|
                a: Action,
                r: Result<Option<Value>, Failure>,
                mid: Seq<Frame>,
            |
                statement_spells(unit, nodes[0], a) && #[trigger] performs(
                    unit,
                    frames,
                    scope,
                    a,
                    r,
                    mid,
                ) && match r {
                    Err(f) => out == Err::<(), Failure>(f) && after == mid,
                    Ok(_) => runs(unit, mid, scope, rest, out, after),
                };
            statements_find_no_violation(unit, frames, scope, a, r, mid);
            if r is Ok {
                sound_nodes_run_without_violation(unit, mid, scope, rest, out, after);
            }
        }
    }
}

/// What the expression of a bare statement evaluated to, where the
/// statement handed back `out`, which is a value or a failure.
spec fn evaluated(out: Result<Option<Value>, Failure>) -> Result<Value, Failure> {
    match out {
        Ok(Some(v)) => Ok(v),
        Ok(None) => Ok(Value::Null),
        Err(f) => Err(f),
    }
}

/// With a steady unit a statement is a function of the scopes it runs
/// on: it hands back one result and leaves the scopes in one state.
pub proof fn statements_are_functions<F: Fn(FloatRequest) -> FloatReply>(
    unit: &F,
    frames: Seq<Frame>,
    scope: int,
    action: Action,
    first: (Result<Option<Value>, Failure>, Seq<Frame>),
    second: (Result<Option<Value>, Failure>, Seq<Frame>),
)
    requires
        steady(unit),
        performs(unit, frames, scope, action, first.0, first.1),
        performs(unit, frames, scope, action, second.0, second.1),
    ensures
        first == second,
{
    match action {
        Action::Evaluate(t) => {
            if first.0 != Ok::<Option<Value>, Failure>(None) && second.0 != Ok::<
                Option<Value>,
                Failure,
            >(None) {
                evaluation_is_a_function(
                    unit,
                    frames,
                    scope,
                    t,
                    evaluated(first.0),
                    evaluated(second.0),
                );
            }
        },
        Action::Assign { keyword, name, value } => {
            let v1 = choose|v: Result<Value, Failure>| #[trigger]
                evaluates(unit, frames, scope, value, v) && match v {
                    Err(f) => first.0 == Err::<Option<Value>, Failure>(f) && first.1 == frames,
                    Ok(x) => match stored(frames, scope, keyword, name, x).0 {
                        Ok(_) => first.0 == Ok::<Option<Value>, Failure>(None) && first.1
                            == stored(frames, scope, keyword, name, x).1,
                        Err(f) => first.0 == Err::<Option<Value>, Failure>(f) && first.1
                            == frames,
                    },
                };
            let v2 = choose|v: Result<Value, Failure>| #[trigger]
                evaluates(unit, frames, scope, value, v) && match v {
                    Err(f) => second.0 == Err::<Option<Value>, Failure>(f) && second.1 == frames,
                    Ok(x) => match stored(frames, scope, keyword, name, x).0 {
                        Ok(_) => second.0 == Ok::<Option<Value>, Failure>(None) && second.1
                            == stored(frames, scope, keyword, name, x).1,
                        Err(f) => second.0 == Err::<Option<Value>, Failure>(f) && second.1
                            == frames,
                    },
                };
            evaluation_is_a_function(unit, frames, scope, value, v1, v2);
        },
    }
}

/// With a steady unit a run is a function of the scopes it starts on: it
/// ends in one way and leaves the scopes in one state.
pub proof fn runs_are_functions<F: Fn(FloatRequest) -> FloatReply>(
    unit: &F,
    frames: Seq<Frame>,
    scope: int,
    nodes: Seq<Tree>,
    first: (Result<(), Failure>, Seq<Frame>),
    second: (Result<(), Failure>, Seq<Frame>),
)
    requires
        steady(unit),
        runs(unit, frames, scope, nodes, first.0, first.1),
        runs(unit, frames, scope, nodes, second.0, second.1),
    ensures
        first == second,
    decreases nodes.len(),
{
    if nodes.len() > 0 {
        let rest = nodes.drop_first();
        if trivia(nodes[0].rule) {
            runs_are_functions(unit, frames, scope, rest, first, second);
        } else if statement_fault(nodes[0]) is None {
            let (a1, r1, m1) = choose|
                a: Action,
                r: Result<Option<Value>, Failure>,
                mid: Seq<Frame>,
            |
                statement_spells(unit, nodes[0], a) && #[trigger] performs(
                    unit,
                    frames,
                    scope,
                    a,
                    r,
                    mid,
                ) && match r {
                    Err(f) => first.0 == Err::<(), Failure>(f) && first.1 == mid,
                    Ok(_) => runs(unit, mid, scope, rest, first.0, first.1),
                };
            let (a2, r2, m2) = choose|
                a: Action,
                r: Result<Option<Value>, Failure>,
                mid: Seq<Frame>,
            |
                statement_spells(unit, nodes[0], a) && #[trigger] performs(
                    unit,
                    frames,
                    scope,
                    a,
                    r,
                    mid,
                ) && match r {
                    Err(f) => second.0 == Err::<(), Failure>(f) && second.1 == mid,
                    Ok(_) => runs(unit, mid, scope, rest, second.0, second.1),
                };
            statements_are_spelled_once(unit, nodes[0], a1, a2);
            statements_are_functions(unit, frames, scope, a1, (r1, m1), (r2, m2));
            if r1 is Ok {
                runs_are_functions(unit, m1, scope, rest, first, second);
            }
        }
    }
}

} // verus!
