//! The lexical rules of the grammar: where, from a position of the source,
//! blank space, a comment, a number, a string, a word or an operator ends.
//!
//! The rules are greedy and look no further back than the position they
//! start from. Positions count characters.

use crate::literal::{
    blank, digit, int_literal, is_blank, is_digit, is_word_char, read_int, word_char,
};
use crate::words::{keyword_at, keyword_of, truth_at, truth_of};
use vstd::prelude::*;

verus! {

/// The end of the longest run of digits that starts at `pos`.
pub open spec fn digits_end(s: Seq<char>, pos: int) -> int
    decreases s.len() - pos,
{
    if 0 <= pos < s.len() && digit(s[pos]) {
        digits_end(s, pos + 1)
    } else {
        pos
    }
}

/// The end of the longest run of blank characters that starts at `pos`.
pub open spec fn blanks_end(s: Seq<char>, pos: int) -> int
    decreases s.len() - pos,
{
    if 0 <= pos < s.len() && blank(s[pos]) {
        blanks_end(s, pos + 1)
    } else {
        pos
    }
}

/// The end of the longest run of word characters that starts at `pos`.
pub open spec fn word_end(s: Seq<char>, pos: int) -> int
    decreases s.len() - pos,
{
    if 0 <= pos < s.len() && word_char(s[pos]) {
        word_end(s, pos + 1)
    } else {
        pos
    }
}

/// The end of the longest run of underscores that starts at `pos`.
pub open spec fn underscores_end(s: Seq<char>, pos: int) -> int
    decreases s.len() - pos,
{
    if 0 <= pos < s.len() && s[pos] == '_' {
        underscores_end(s, pos + 1)
    } else {
        pos
    }
}

/// The first position from `pos` on that holds `stop`, or the end of the
/// source.
pub open spec fn until_end(s: Seq<char>, pos: int, stop: char) -> int
    decreases s.len() - pos,
{
    if 0 <= pos < s.len() && s[pos] != stop {
        until_end(s, pos + 1, stop)
    } else {
        pos
    }
}

/// Whether the source holds `word` at `pos`.
pub open spec fn holds_at(s: Seq<char>, pos: int, word: Seq<char>) -> bool {
    0 <= pos && pos + word.len() <= s.len() && s.subrange(pos, pos + word.len()) == word
}

/// Blank space: one blank character or more.
pub open spec fn whitespace_end(s: Seq<char>, pos: int) -> Option<int> {
    if blanks_end(s, pos) > pos {
        Some(blanks_end(s, pos))
    } else {
        None
    }
}

/// The position after the first `*/` that starts at `pos` or later.
pub open spec fn close_end(s: Seq<char>, pos: int) -> Option<int>
    decreases s.len() - pos,
{
    if 0 <= pos && pos + 1 < s.len() {
        if s[pos] == '*' && s[pos + 1] == '/' {
            Some(pos + 2)
        } else {
            close_end(s, pos + 1)
        }
    } else {
        None
    }
}

/// A comment: from `//` to the end of the line, or from `/*` to the first
/// `*/` after it.
pub open spec fn comment_end(s: Seq<char>, pos: int) -> Option<int> {
    if holds_at(s, pos, seq!['/', '/']) {
        Some(until_end(s, pos + 2, '\n'))
    } else if holds_at(s, pos, seq!['/', '*']) {
        close_end(s, pos + 2)
    } else {
        None
    }
}

/// The end of what is skipped between tokens: blank space and comments, as
/// many as follow each other.
pub open spec fn skip_end(s: Seq<char>, pos: int) -> int
    decreases s.len() - pos,
{
    match whitespace_end(s, pos) {
        Some(e) => if pos < e <= s.len() {
            skip_end(s, e)
        } else {
            pos
        },
        None => match comment_end(s, pos) {
            Some(e) => if pos < e <= s.len() {
                skip_end(s, e)
            } else {
                pos
            },
            None => pos,
        },
    }
}

/// The position after a sign at `pos`, or `pos` where there is none.
pub open spec fn sign_end(s: Seq<char>, pos: int) -> int {
    if 0 <= pos < s.len() && (s[pos] == '+' || s[pos] == '-') {
        pos + 1
    } else {
        pos
    }
}

/// An integer: an optional sign and digits, which denote a number that fits
/// in 32 bits.
pub open spec fn integer_end(s: Seq<char>, pos: int) -> Option<int> {
    let e = digits_end(s, sign_end(s, pos));
    if 0 <= pos && sign_end(s, pos) < e <= s.len() && int_literal(s.subrange(pos, e)) is Some {
        Some(e)
    } else {
        None
    }
}

/// The digits of a float before its exponent: digits, digits with a
/// fraction, or a fraction alone.
pub open spec fn mantissa_end(s: Seq<char>, pos: int) -> Option<int> {
    let d = digits_end(s, pos);
    if d > pos {
        if 0 <= d < s.len() && s[d] == '.' && digits_end(s, d + 1) > d + 1 {
            Some(digits_end(s, d + 1))
        } else {
            Some(d)
        }
    } else if 0 <= pos < s.len() && s[pos] == '.' && digits_end(s, pos + 1) > pos + 1 {
        Some(digits_end(s, pos + 1))
    } else {
        None
    }
}

/// An exponent: the letter `e`, an optional sign and digits.
pub open spec fn exponent_end(s: Seq<char>, pos: int) -> Option<int> {
    if 0 <= pos < s.len() && s[pos] == 'e' && digits_end(s, sign_end(s, pos + 1)) > sign_end(
        s,
        pos + 1,
    ) {
        Some(digits_end(s, sign_end(s, pos + 1)))
    } else {
        None
    }
}

/// A float: an optional sign, a mantissa and an optional exponent.
pub open spec fn float_end(s: Seq<char>, pos: int) -> Option<int> {
    match mantissa_end(s, sign_end(s, pos)) {
        Some(m) => match exponent_end(s, m) {
            Some(e) => Some(e),
            None => Some(m),
        },
        None => None,
    }
}

/// A string: what stands between a quotation mark, double or single, and
/// the next mark of the same sort, with both marks.
pub open spec fn string_end(s: Seq<char>, pos: int) -> Option<int> {
    if 0 <= pos < s.len() && (s[pos] == '"' || s[pos] == '\'') && until_end(s, pos + 1, s[pos])
        < s.len() {
        Some(until_end(s, pos + 1, s[pos]) + 1)
    } else {
        None
    }
}

/// A boolean: the word `true` or the word `false`.
pub open spec fn boolean_end(s: Seq<char>, pos: int) -> Option<int> {
    if 0 <= pos <= word_end(s, pos) <= s.len() && truth_of(s.subrange(pos, word_end(s, pos)))
        is Some {
        Some(word_end(s, pos))
    } else {
        None
    }
}

/// A keyword: the word `let`, `const` or `var`.
pub open spec fn keyword_end(s: Seq<char>, pos: int) -> Option<int> {
    if 0 <= pos <= word_end(s, pos) <= s.len() && keyword_of(s.subrange(pos, word_end(s, pos)))
        is Some {
        Some(word_end(s, pos))
    } else {
        None
    }
}

/// A name: a word that starts with no digit, is not made of underscores
/// alone and is neither a keyword nor a boolean.
pub open spec fn object_end(s: Seq<char>, pos: int) -> Option<int> {
    let e = word_end(s, pos);
    if 0 <= pos < e <= s.len() && !digit(s[pos]) && underscores_end(s, pos) < e && keyword_of(
        s.subrange(pos, e),
    ) is None && truth_of(s.subrange(pos, e)) is None {
        Some(e)
    } else {
        None
    }
}

/// An operator: one of `&&`, `||`, `==`, `!=`, `+`, `-`, `*`, `/`, `^`, `%`.
pub open spec fn operator_end(s: Seq<char>, pos: int) -> Option<int> {
    if holds_at(s, pos, seq!['&', '&']) || holds_at(s, pos, seq!['|', '|']) || holds_at(
        s,
        pos,
        seq!['=', '='],
    ) || holds_at(s, pos, seq!['!', '=']) {
        Some(pos + 2)
    } else if 0 <= pos < s.len() && (s[pos] == '+' || s[pos] == '-' || s[pos] == '*' || s[pos]
        == '/' || s[pos] == '^' || s[pos] == '%') {
        Some(pos + 1)
    } else {
        None
    }
}

/// Finds the end of the run of digits that starts at `pos`.
pub fn scan_digits(chars: &Vec<char>, pos: usize) -> (end: usize)
    requires
        pos <= chars@.len(),
    ensures
        end == digits_end(chars@, pos as int),
        pos <= end <= chars@.len(),
{
    let mut i = pos;
    while i < chars.len() && is_digit(chars[i])
        invariant
            pos <= i <= chars@.len(),
            digits_end(chars@, i as int) == digits_end(chars@, pos as int),
        decreases chars@.len() - i,
    {
        i += 1;
    }
    i
}

/// Finds the end of the run of blank characters that starts at `pos`.
pub fn scan_blanks(chars: &Vec<char>, pos: usize) -> (end: usize)
    requires
        pos <= chars@.len(),
    ensures
        end == blanks_end(chars@, pos as int),
        pos <= end <= chars@.len(),
{
    let mut i = pos;
    while i < chars.len() && is_blank(chars[i])
        invariant
            pos <= i <= chars@.len(),
            blanks_end(chars@, i as int) == blanks_end(chars@, pos as int),
        decreases chars@.len() - i,
    {
        i += 1;
    }
    i
}

/// Finds the end of the run of word characters that starts at `pos`.
pub fn scan_word(chars: &Vec<char>, pos: usize) -> (end: usize)
    requires
        pos <= chars@.len(),
    ensures
        end == word_end(chars@, pos as int),
        pos <= end <= chars@.len(),
{
    let mut i = pos;
    while i < chars.len() && is_word_char(chars[i])
        invariant
            pos <= i <= chars@.len(),
            word_end(chars@, i as int) == word_end(chars@, pos as int),
        decreases chars@.len() - i,
    {
        i += 1;
    }
    i
}

/// Finds the end of the run of underscores that starts at `pos`.
pub fn scan_underscores(chars: &Vec<char>, pos: usize) -> (end: usize)
    requires
        pos <= chars@.len(),
    ensures
        end == underscores_end(chars@, pos as int),
        pos <= end <= chars@.len(),
{
    let mut i = pos;
    while i < chars.len() && chars[i] == '_'
        invariant
            pos <= i <= chars@.len(),
            underscores_end(chars@, i as int) == underscores_end(chars@, pos as int),
        decreases chars@.len() - i,
    {
        i += 1;
    }
    i
}

/// Finds the first position from `pos` on that holds `stop`.
pub fn scan_until(chars: &Vec<char>, pos: usize, stop: char) -> (end: usize)
    requires
        pos <= chars@.len(),
    ensures
        end == until_end(chars@, pos as int, stop),
        pos <= end <= chars@.len(),
{
    let mut i = pos;
    while i < chars.len() && chars[i] != stop
        invariant
            pos <= i <= chars@.len(),
            until_end(chars@, i as int, stop) == until_end(chars@, pos as int, stop),
        decreases chars@.len() - i,
    {
        i += 1;
    }
    i
}

/// Tells whether the source holds the two characters `a` and `b` at `pos`.
pub fn holds_pair(chars: &Vec<char>, pos: usize, a: char, b: char) -> (held: bool)
    requires
        pos <= chars@.len(),
    ensures
        held == holds_at(chars@, pos as int, seq![a, b]),
        held ==> pos + 2 <= chars@.len() <= usize::MAX,
{
    if chars.len() - pos >= 2 {
        let ghost word = chars@.subrange(pos as int, pos + 2);
        assert(word[0] == chars@[pos as int] && word[1] == chars@[pos + 1]);
        assert(seq![a, b][0] == a && seq![a, b][1] == b);
        let held = chars[pos] == a && chars[pos + 1] == b;
        assert(held ==> word =~= seq![a, b]);
        held
    } else {
        false
    }
}

/// Scans blank space.
pub fn scan_whitespace(chars: &Vec<char>, pos: usize) -> (end: Option<usize>)
    requires
        pos <= chars@.len(),
    ensures
        end matches Some(e) ==> whitespace_end(chars@, pos as int) == Some(e as int) && pos < e
            <= chars@.len(),
        end is None ==> whitespace_end(chars@, pos as int) is None,
{
    let e = scan_blanks(chars, pos);
    if e > pos {
        Some(e)
    } else {
        None
    }
}

/// Finds the position after the first `*/` that starts at `pos` or later.
pub fn scan_close(chars: &Vec<char>, pos: usize) -> (end: Option<usize>)
    requires
        pos <= chars@.len(),
    ensures
        end matches Some(e) ==> close_end(chars@, pos as int) == Some(e as int) && pos < e
            <= chars@.len(),
        end is None ==> close_end(chars@, pos as int) is None,
{
    let mut i = pos;
    while chars.len() - i >= 2
        invariant
            pos <= i <= chars@.len(),
            close_end(chars@, i as int) == close_end(chars@, pos as int),
        decreases chars@.len() - i,
    {
        if chars[i] == '*' && chars[i + 1] == '/' {
            return Some(i + 2);
        }
        i += 1;
    }
    None
}

/// Scans a comment.
pub fn scan_comment(chars: &Vec<char>, pos: usize) -> (end: Option<usize>)
    requires
        pos <= chars@.len(),
    ensures
        end matches Some(e) ==> comment_end(chars@, pos as int) == Some(e as int) && pos < e
            <= chars@.len(),
        end is None ==> comment_end(chars@, pos as int) is None,
{
    if holds_pair(chars, pos, '/', '/') {
        Some(scan_until(chars, pos + 2, '\n'))
    } else if holds_pair(chars, pos, '/', '*') {
        scan_close(chars, pos + 2)
    } else {
        None
    }
}

/// Skips blank space and comments.
pub fn skip(chars: &Vec<char>, pos: usize) -> (end: usize)
    requires
        pos <= chars@.len(),
    ensures
        end == skip_end(chars@, pos as int),
        pos <= end <= chars@.len(),
{
    let mut i = pos;
    loop
        invariant
            pos <= i <= chars@.len(),
            skip_end(chars@, i as int) == skip_end(chars@, pos as int),
        decreases chars@.len() - i,
    {
        match scan_whitespace(chars, i) {
            Some(e) => {
                i = e;
            },
            None => match scan_comment(chars, i) {
                Some(e) => {
                    i = e;
                },
                None => {
                    return i;
                },
            },
        }
    }
}

/// Steps over a sign at `pos`, if there is one.
pub fn scan_sign(chars: &Vec<char>, pos: usize) -> (end: usize)
    requires
        pos <= chars@.len(),
    ensures
        end == sign_end(chars@, pos as int),
        pos <= end <= chars@.len(),
{
    if pos < chars.len() && (chars[pos] == '+' || chars[pos] == '-') {
        pos + 1
    } else {
        pos
    }
}

/// Scans an integer.
pub fn scan_integer(chars: &Vec<char>, pos: usize) -> (end: Option<usize>)
    requires
        pos <= chars@.len(),
    ensures
        end matches Some(e) ==> integer_end(chars@, pos as int) == Some(e as int) && pos < e
            <= chars@.len(),
        end is None ==> integer_end(chars@, pos as int) is None,
{
    let start = scan_sign(chars, pos);
    let e = scan_digits(chars, start);
    if e > start && read_int(chars, pos, e).is_some() {
        Some(e)
    } else {
        None
    }
}

/// Scans the digits of a float before its exponent.
pub fn scan_mantissa(chars: &Vec<char>, pos: usize) -> (end: Option<usize>)
    requires
        pos <= chars@.len(),
    ensures
        end matches Some(e) ==> mantissa_end(chars@, pos as int) == Some(e as int) && pos < e
            <= chars@.len(),
        end is None ==> mantissa_end(chars@, pos as int) is None,
{
    let d = scan_digits(chars, pos);
    if d > pos {
        if d < chars.len() && chars[d] == '.' {
            let f = scan_digits(chars, d + 1);
            if f > d + 1 {
                return Some(f);
            }
        }
        Some(d)
    } else if pos < chars.len() && chars[pos] == '.' {
        let f = scan_digits(chars, pos + 1);
        if f > pos + 1 {
            Some(f)
        } else {
            None
        }
    } else {
        None
    }
}

/// Scans an exponent.
pub fn scan_exponent(chars: &Vec<char>, pos: usize) -> (end: Option<usize>)
    requires
        pos <= chars@.len(),
    ensures
        end matches Some(e) ==> exponent_end(chars@, pos as int) == Some(e as int) && pos < e
            <= chars@.len(),
        end is None ==> exponent_end(chars@, pos as int) is None,
{
    if pos < chars.len() && chars[pos] == 'e' {
        let start = scan_sign(chars, pos + 1);
        let e = scan_digits(chars, start);
        if e > start {
            Some(e)
        } else {
            None
        }
    } else {
        None
    }
}

/// Scans a float.
pub fn scan_float(chars: &Vec<char>, pos: usize) -> (end: Option<usize>)
    requires
        pos <= chars@.len(),
    ensures
        end matches Some(e) ==> float_end(chars@, pos as int) == Some(e as int) && pos < e
            <= chars@.len(),
        end is None ==> float_end(chars@, pos as int) is None,
{
    let start = scan_sign(chars, pos);
    match scan_mantissa(chars, start) {
        Some(m) => match scan_exponent(chars, m) {
            Some(e) => Some(e),
            None => Some(m),
        },
        None => None,
    }
}

/// Scans a string.
pub fn scan_string(chars: &Vec<char>, pos: usize) -> (end: Option<usize>)
    requires
        pos <= chars@.len(),
    ensures
        end matches Some(e) ==> string_end(chars@, pos as int) == Some(e as int) && pos + 2 <= e
            <= chars@.len(),
        end is None ==> string_end(chars@, pos as int) is None,
{
    if pos < chars.len() && (chars[pos] == '"' || chars[pos] == '\'') {
        let close = scan_until(chars, pos + 1, chars[pos]);
        if close < chars.len() {
            Some(close + 1)
        } else {
            None
        }
    } else {
        None
    }
}

/// Scans a boolean.
pub fn scan_boolean(chars: &Vec<char>, pos: usize) -> (end: Option<usize>)
    requires
        pos <= chars@.len(),
    ensures
        end matches Some(e) ==> boolean_end(chars@, pos as int) == Some(e as int) && pos < e
            <= chars@.len(),
        end is None ==> boolean_end(chars@, pos as int) is None,
{
    let e = scan_word(chars, pos);
    if truth_at(chars, pos, e).is_some() {
        assert(e > pos) by {
            assert(chars@.subrange(pos as int, e as int).len() == e - pos);
            assert(seq!['t', 'r', 'u', 'e'].len() == 4);
            assert(seq!['f', 'a', 'l', 's', 'e'].len() == 5);
        }
        Some(e)
    } else {
        None
    }
}

/// Scans a keyword.
pub fn scan_keyword(chars: &Vec<char>, pos: usize) -> (end: Option<usize>)
    requires
        pos <= chars@.len(),
    ensures
        end matches Some(e) ==> keyword_end(chars@, pos as int) == Some(e as int) && pos < e
            <= chars@.len(),
        end is None ==> keyword_end(chars@, pos as int) is None,
{
    let e = scan_word(chars, pos);
    if keyword_at(chars, pos, e).is_some() {
        assert(e > pos) by {
            assert(chars@.subrange(pos as int, e as int).len() == e - pos);
            assert(seq!['l', 'e', 't'].len() == 3);
            assert(seq!['c', 'o', 'n', 's', 't'].len() == 5);
            assert(seq!['v', 'a', 'r'].len() == 3);
        }
        Some(e)
    } else {
        None
    }
}

/// Scans a name.
pub fn scan_object(chars: &Vec<char>, pos: usize) -> (end: Option<usize>)
    requires
        pos <= chars@.len(),
    ensures
        end matches Some(e) ==> object_end(chars@, pos as int) == Some(e as int) && pos < e
            <= chars@.len(),
        end is None ==> object_end(chars@, pos as int) is None,
{
    let e = scan_word(chars, pos);
    if e > pos && !is_digit(chars[pos]) && scan_underscores(chars, pos) < e && keyword_at(
        chars,
        pos,
        e,
    ).is_none() && truth_at(chars, pos, e).is_none() {
        Some(e)
    } else {
        None
    }
}

/// Scans an operator.
pub fn scan_operator(chars: &Vec<char>, pos: usize) -> (end: Option<usize>)
    requires
        pos <= chars@.len(),
    ensures
        end matches Some(e) ==> operator_end(chars@, pos as int) == Some(e as int) && pos < e
            <= chars@.len(),
        end is None ==> operator_end(chars@, pos as int) is None,
{
    if holds_pair(chars, pos, '&', '&') || holds_pair(chars, pos, '|', '|') || holds_pair(
        chars,
        pos,
        '=',
        '=',
    ) || holds_pair(chars, pos, '!', '=') {
        Some(pos + 2)
    } else if pos < chars.len() && (chars[pos] == '+' || chars[pos] == '-' || chars[pos] == '*'
        || chars[pos] == '/' || chars[pos] == '^' || chars[pos] == '%') {
        Some(pos + 1)
    } else {
        None
    }
}

/// The run of digits from `pos` ends where [`digits_end`] says: every
/// character before that position is a digit, and the character at it, if
/// there is one, is none.
pub proof fn digits_end_is_maximal(s: Seq<char>, pos: int)
    requires
        0 <= pos <= s.len(),
    ensures
        pos <= digits_end(s, pos) <= s.len(),
        forall|k: int| pos <= k < digits_end(s, pos) ==> digit(#[trigger] s[k]),
        digits_end(s, pos) < s.len() ==> !digit(s[digits_end(s, pos)]),
    decreases s.len() - pos,
{
    if pos < s.len() && digit(s[pos]) {
        digits_end_is_maximal(s, pos + 1);
    }
}

/// The run of blank characters from `pos` ends where [`blanks_end`] says.
pub proof fn blanks_end_is_maximal(s: Seq<char>, pos: int)
    requires
        0 <= pos <= s.len(),
    ensures
        pos <= blanks_end(s, pos) <= s.len(),
        forall|k: int| pos <= k < blanks_end(s, pos) ==> blank(#[trigger] s[k]),
        blanks_end(s, pos) < s.len() ==> !blank(s[blanks_end(s, pos)]),
    decreases s.len() - pos,
{
    if pos < s.len() && blank(s[pos]) {
        blanks_end_is_maximal(s, pos + 1);
    }
}

/// The run of word characters from `pos` ends where [`word_end`] says.
pub proof fn word_end_is_maximal(s: Seq<char>, pos: int)
    requires
        0 <= pos <= s.len(),
    ensures
        pos <= word_end(s, pos) <= s.len(),
        forall|k: int| pos <= k < word_end(s, pos) ==> word_char(#[trigger] s[k]),
        word_end(s, pos) < s.len() ==> !word_char(s[word_end(s, pos)]),
    decreases s.len() - pos,
{
    if pos < s.len() && word_char(s[pos]) {
        word_end_is_maximal(s, pos + 1);
    }
}

/// The run of underscores from `pos` ends where [`underscores_end`] says.
pub proof fn underscores_end_is_maximal(s: Seq<char>, pos: int)
    requires
        0 <= pos <= s.len(),
    ensures
        pos <= underscores_end(s, pos) <= s.len(),
        forall|k: int| pos <= k < underscores_end(s, pos) ==> #[trigger] s[k] == '_',
        underscores_end(s, pos) < s.len() ==> s[underscores_end(s, pos)] != '_',
    decreases s.len() - pos,
{
    if pos < s.len() && s[pos] == '_' {
        underscores_end_is_maximal(s, pos + 1);
    }
}

/// The search for `stop` from `pos` ends where [`until_end`] says: no
/// character before that position is `stop`, and the character at it, if
/// there is one, is `stop`.
pub proof fn until_end_is_first(s: Seq<char>, pos: int, stop: char)
    requires
        0 <= pos <= s.len(),
    ensures
        pos <= until_end(s, pos, stop) <= s.len(),
        forall|k: int| pos <= k < until_end(s, pos, stop) ==> #[trigger] s[k] != stop,
        until_end(s, pos, stop) < s.len() ==> s[until_end(s, pos, stop)] == stop,
    decreases s.len() - pos,
{
    if pos < s.len() && s[pos] != stop {
        until_end_is_first(s, pos + 1, stop);
    }
}

/// What is skipped between tokens ends inside the source, at a position
/// where neither blank space nor a comment starts.
pub proof fn skip_end_is_maximal(s: Seq<char>, pos: int)
    requires
        0 <= pos <= s.len(),
    ensures
        pos <= skip_end(s, pos) <= s.len(),
        whitespace_end(s, skip_end(s, pos)) is None,
        comment_end(s, skip_end(s, pos)) matches Some(e) ==> !(skip_end(s, pos) < e <= s.len()),
    decreases s.len() - pos,
{
    match whitespace_end(s, pos) {
        Some(e) => {
            if pos < e <= s.len() {
                skip_end_is_maximal(s, e);
            } else {
                blanks_end_is_maximal(s, pos);
            }
        },
        None => match comment_end(s, pos) {
            Some(e) => {
                if pos < e <= s.len() {
                    skip_end_is_maximal(s, e);
                }
            },
            None => {},
        },
    }
}

/// A comment that closes ends inside the source, after the position it
/// was searched from.
pub proof fn close_end_is_inside(s: Seq<char>, pos: int)
    requires
        0 <= pos <= s.len(),
    ensures
        close_end(s, pos) matches Some(e) ==> pos + 2 <= e <= s.len(),
    decreases s.len() - pos,
{
    if pos + 1 < s.len() && !(s[pos] == '*' && s[pos + 1] == '/') {
        close_end_is_inside(s, pos + 1);
    }
}

/// A name follows the constraints on identifiers: it is a word of ASCII
/// letters, digits and underscores that extends as far as the word does,
/// it starts with no digit, it holds a character that is no underscore,
/// and it is neither a keyword nor a boolean.
pub proof fn names_are_identifiers(s: Seq<char>, pos: int)
    requires
        object_end(s, pos) is Some,
    ensures
        0 <= pos < object_end(s, pos)->Some_0 <= s.len(),
        forall|k: int| pos <= k < object_end(s, pos)->Some_0 ==> word_char(#[trigger] s[k]),
        object_end(s, pos)->Some_0 < s.len() ==> !word_char(s[object_end(s, pos)->Some_0]),
        !digit(s[pos]),
        exists|k: int| pos <= k < object_end(s, pos)->Some_0 && #[trigger] s[k] != '_',
        keyword_of(s.subrange(pos, object_end(s, pos)->Some_0)) is None,
        truth_of(s.subrange(pos, object_end(s, pos)->Some_0)) is None,
{
    word_end_is_maximal(s, pos);
    underscores_end_is_maximal(s, pos);
    let k = underscores_end(s, pos);
    assert(s[k] != '_');
}

} // verus!
