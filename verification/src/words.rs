//! The words of the language: keywords, booleans and operators, and the
//! quotation marks of strings.

use crate::literal::chars_of;
use crate::primitive::Operator;
use vstd::prelude::*;

verus! {

/// The word that opens a declaration.
#[derive(Clone, Copy, Debug, PartialEq, Eq, Structural)]
pub enum Keyword {
    Let,
    Const,
    Var,
}

impl Keyword {
    /// Whether a binding declared with the keyword may be overwritten:
    /// `var` declares a mutable binding, `let` and `const` an immutable one.
    pub open spec fn mutable(self) -> bool {
        self is Var
    }

    /// Tells whether a binding declared with the keyword may be overwritten.
    pub fn is_mutable(self) -> (m: bool)
        ensures
            m == self.mutable(),
    {
        match self {
            Keyword::Var => true,
            _ => false,
        }
    }
}

/// The operator that a text spells.
pub open spec fn operator_of(text: Seq<char>) -> Option<Operator> {
    if text == seq!['+'] {
        Some(Operator::Add)
    } else if text == seq!['-'] {
        Some(Operator::Sub)
    } else if text == seq!['*'] {
        Some(Operator::Mul)
    } else if text == seq!['/'] {
        Some(Operator::Div)
    } else if text == seq!['^'] {
        Some(Operator::Pow)
    } else if text == seq!['%'] {
        Some(Operator::Mod)
    } else if text == seq!['&', '&'] {
        Some(Operator::And)
    } else if text == seq!['|', '|'] {
        Some(Operator::Or)
    } else if text == seq!['=', '='] {
        Some(Operator::Eq)
    } else if text == seq!['!', '='] {
        Some(Operator::Ne)
    } else {
        None
    }
}

/// The keyword that a text spells.
pub open spec fn keyword_of(text: Seq<char>) -> Option<Keyword> {
    if text == seq!['l', 'e', 't'] {
        Some(Keyword::Let)
    } else if text == seq!['c', 'o', 'n', 's', 't'] {
        Some(Keyword::Const)
    } else if text == seq!['v', 'a', 'r'] {
        Some(Keyword::Var)
    } else {
        None
    }
}

/// The truth value that a text spells.
pub open spec fn truth_of(text: Seq<char>) -> Option<bool> {
    if text == seq!['t', 'r', 'u', 'e'] {
        Some(true)
    } else if text == seq!['f', 'a', 'l', 's', 'e'] {
        Some(false)
    } else {
        None
    }
}

/// Whether a text stands between two quotation marks of one sort, double
/// or single.
pub open spec fn quoted(text: Seq<char>) -> bool {
    text.len() >= 2 && text[0] == text[text.len() - 1] && (text[0] == '"' || text[0] == '\'')
}

/// What stands between the quotation marks of a quoted text.
pub open spec fn unquoted(text: Seq<char>) -> Seq<char> {
    text.subrange(1, text.len() - 1)
}

/// Tells whether the characters from `from` up to `to` spell `word`.
pub fn spells(chars: &Vec<char>, from: usize, to: usize, word: &str) -> (same: bool)
    requires
        from <= to <= chars@.len(),
    ensures
        same == (chars@.subrange(from as int, to as int) == word@),
{
    let letters = chars_of(word);
    let ghost span = chars@.subrange(from as int, to as int);
    if letters.len() != to - from {
        return false;
    }
    let mut i: usize = 0;
    while i < letters.len()
        invariant
            from <= to <= chars@.len(),
            letters@ == word@,
            letters@.len() == to - from,
            span == chars@.subrange(from as int, to as int),
            i <= letters@.len(),
            forall|j: int| 0 <= j < i ==> span[j] == letters@[j],
        decreases letters@.len() - i,
    {
        if chars[from + i] != letters[i] {
            assert(span[i as int] != word@[i as int]);
            return false;
        }
        i += 1;
    }
    assert(span =~= word@);
    true
}

/// Reads the keyword that the characters from `from` up to `to` spell.
pub fn keyword_at(chars: &Vec<char>, from: usize, to: usize) -> (keyword: Option<Keyword>)
    requires
        from <= to <= chars@.len(),
    ensures
        keyword == keyword_of(chars@.subrange(from as int, to as int)),
{
    proof {
        reveal_strlit("let");
        reveal_strlit("const");
        reveal_strlit("var");
    }
    assert("let"@ =~= seq!['l', 'e', 't']);
    assert("const"@ =~= seq!['c', 'o', 'n', 's', 't']);
    assert("var"@ =~= seq!['v', 'a', 'r']);
    if spells(chars, from, to, "let") {
        Some(Keyword::Let)
    } else if spells(chars, from, to, "const") {
        Some(Keyword::Const)
    } else if spells(chars, from, to, "var") {
        Some(Keyword::Var)
    } else {
        None
    }
}

/// Reads the truth value that the characters from `from` up to `to` spell.
pub fn truth_at(chars: &Vec<char>, from: usize, to: usize) -> (truth: Option<bool>)
    requires
        from <= to <= chars@.len(),
    ensures
        truth == truth_of(chars@.subrange(from as int, to as int)),
{
    proof {
        reveal_strlit("true");
        reveal_strlit("false");
    }
    assert("true"@ =~= seq!['t', 'r', 'u', 'e']);
    assert("false"@ =~= seq!['f', 'a', 'l', 's', 'e']);
    if spells(chars, from, to, "true") {
        Some(true)
    } else if spells(chars, from, to, "false") {
        Some(false)
    } else {
        None
    }
}

/// Reads the operator that the characters from `from` up to `to` spell.
pub fn operator_at(chars: &Vec<char>, from: usize, to: usize) -> (op: Option<Operator>)
    requires
        from <= to <= chars@.len(),
    ensures
        op == operator_of(chars@.subrange(from as int, to as int)),
{
    proof {
        reveal_strlit("+");
        reveal_strlit("-");
        reveal_strlit("*");
        reveal_strlit("/");
        reveal_strlit("^");
        reveal_strlit("%");
        reveal_strlit("&&");
        reveal_strlit("||");
        reveal_strlit("==");
        reveal_strlit("!=");
    }
    assert("+"@ =~= seq!['+']);
    assert("-"@ =~= seq!['-']);
    assert("*"@ =~= seq!['*']);
    assert("/"@ =~= seq!['/']);
    assert("^"@ =~= seq!['^']);
    assert("%"@ =~= seq!['%']);
    assert("&&"@ =~= seq!['&', '&']);
    assert("||"@ =~= seq!['|', '|']);
    assert("=="@ =~= seq!['=', '=']);
    assert("!="@ =~= seq!['!', '=']);
    if spells(chars, from, to, "+") {
        Some(Operator::Add)
    } else if spells(chars, from, to, "-") {
        Some(Operator::Sub)
    } else if spells(chars, from, to, "*") {
        Some(Operator::Mul)
    } else if spells(chars, from, to, "/") {
        Some(Operator::Div)
    } else if spells(chars, from, to, "^") {
        Some(Operator::Pow)
    } else if spells(chars, from, to, "%") {
        Some(Operator::Mod)
    } else if spells(chars, from, to, "&&") {
        Some(Operator::And)
    } else if spells(chars, from, to, "||") {
        Some(Operator::Or)
    } else if spells(chars, from, to, "==") {
        Some(Operator::Eq)
    } else if spells(chars, from, to, "!=") {
        Some(Operator::Ne)
    } else {
        None
    }
}

} // verus!
