//! The node vocabulary of the parse tree.

use vstd::prelude::*;

verus! {

/// The rules of the grammar. Each node of a parse tree carries the rule that
/// produced it.
#[allow(non_camel_case_types)]
#[derive(Clone, Copy, Debug, PartialEq, Eq, Structural)]
pub enum Rule {
    WHITESPACE,
    COMMENT,
    integer,
    float,
    string,
    boolean,
    operator,
    object,
    keyword,
    literal,
    expression,
    assignment,
    statement,
    file,
}

/// A node of the parse tree: the rule that matched, the text it matched and
/// the nodes of the rules matched inside it, in source order.
#[derive(Debug, PartialEq, Eq)]
pub struct Node {
    pub rule: Rule,
    pub text: String,
    pub children: Vec<Node>,
}

/// The mathematical model of a [`Node`].
pub struct Tree {
    pub rule: Rule,
    pub text: Seq<char>,
    pub children: Seq<Tree>,
}

impl Node {
    /// The model of a node.
    pub open spec fn model(self) -> Tree
        decreases self,
    {
        Tree {
            rule: self.rule,
            text: self.text@,
            children: Seq::new(
                self.children@.len(),
                |i: int|
                    if 0 <= i < self.children@.len() {
                        self.children@[i].model()
                    } else {
                        arbitrary()
                    },
            ),
        }
    }
}

impl View for Node {
    type V = Tree;

    open spec fn view(&self) -> Tree {
        self.model()
    }
}

} // verus!
