//! Characters and the values that literals denote.

use vstd::prelude::*;

verus! {

/// Whether a character is a decimal digit.
pub open spec fn digit(c: char) -> bool {
    '0' <= c <= '9'
}

/// Whether a character is an ASCII letter.
pub open spec fn letter(c: char) -> bool {
    'a' <= c <= 'z' || 'A' <= c <= 'Z'
}

/// Whether a character can stand inside a word: a letter, a digit or an
/// underscore.
pub open spec fn word_char(c: char) -> bool {
    letter(c) || digit(c) || c == '_'
}

/// Whether a character is blank: a space, a tab or a line break.
pub open spec fn blank(c: char) -> bool {
    c == ' ' || c == '\t' || c == '\n' || c == '\r'
}

/// Tells whether a character is a decimal digit.
pub fn is_digit(c: char) -> (b: bool)
    ensures
        b == digit(c),
{
    '0' <= c && c <= '9'
}

/// Tells whether a character is an ASCII letter.
pub fn is_letter(c: char) -> (b: bool)
    ensures
        b == letter(c),
{
    ('a' <= c && c <= 'z') || ('A' <= c && c <= 'Z')
}

/// Tells whether a character can stand inside a word.
pub fn is_word_char(c: char) -> (b: bool)
    ensures
        b == word_char(c),
{
    is_letter(c) || is_digit(c) || c == '_'
}

/// Tells whether a character is blank.
pub fn is_blank(c: char) -> (b: bool)
    ensures
        b == blank(c),
{
    c == ' ' || c == '\t' || c == '\n' || c == '\r'
}

/// The number that a digit stands for.
pub open spec fn digit_value(c: char) -> nat {
    (c as nat - '0' as nat) as nat
}

/// The number that a run of digits denotes in decimal.
pub open spec fn digits_value(s: Seq<char>) -> nat
    decreases s.len(),
{
    if s.len() == 0 {
        0
    } else {
        digits_value(s.drop_last()) * 10 + digit_value(s.last())
    }
}

/// Whether every character of a text is a digit.
pub open spec fn all_digits(s: Seq<char>) -> bool {
    forall|i: int| 0 <= i < s.len() ==> digit(#[trigger] s[i])
}

/// Whether a text starts with a sign.
pub open spec fn signed(s: Seq<char>) -> bool {
    s.len() > 0 && (s[0] == '+' || s[0] == '-')
}

/// The digits of an integer literal: the text without its sign.
pub open spec fn magnitude(s: Seq<char>) -> Seq<char> {
    if signed(s) {
        s.subrange(1, s.len() as int)
    } else {
        s
    }
}

/// The number that an integer literal denotes: an optional sign and at
/// least one digit, read in decimal. Nothing where the text has another
/// form, or where the number does not fit in 32 bits.
pub open spec fn int_literal(s: Seq<char>) -> Option<i32> {
    let body = magnitude(s);
    if body.len() == 0 || !all_digits(body) {
        None
    } else {
        let v: int = if s[0] == '-' {
            -(digits_value(body) as int)
        } else {
            digits_value(body) as int
        };
        if i32::MIN <= v <= i32::MAX {
            Some(v as i32)
        } else {
            None
        }
    }
}

/// The characters of a text.
pub fn chars_of(s: &str) -> (v: Vec<char>)
    ensures
        v@ == s@,
{
    let mut v: Vec<char> = Vec::new();
    for c in it: s.chars()
        invariant
            v@ == it.seq().take(it.index() as int),
            it.seq() == s@,
    {
        v.push(c);
    }
    v
}

/// Reads the integer literal that the characters from `from` up to `to`
/// spell.
pub fn read_int(chars: &Vec<char>, from: usize, to: usize) -> (value: Option<i32>)
    requires
        from <= to <= chars@.len(),
    ensures
        value == int_literal(chars@.subrange(from as int, to as int)),
{
    let ghost s = chars@.subrange(from as int, to as int);
    let negative = from < to && chars[from] == '-';
    let start = if from < to && (chars[from] == '+' || chars[from] == '-') {
        from + 1
    } else {
        from
    };
    let ghost body = magnitude(s);
    assert(body =~= chars@.subrange(start as int, to as int));
    if start == to {
        return None;
    }
    let cap: u64 = 0x8000_0001;
    let mut acc: u64 = 0;
    let mut i = start;
    while i < to
        invariant
            from <= start <= i <= to <= chars@.len(),
            start < to,
            s == chars@.subrange(from as int, to as int),
            body == magnitude(s),
            body == chars@.subrange(start as int, to as int),
            negative <==> s[0] == '-',
            all_digits(body.take(i - start)),
            acc <= cap,
            cap == 0x8000_0001,
            acc == if digits_value(body.take(i - start)) < cap {
                digits_value(body.take(i - start))
            } else {
                cap as nat
            },
        decreases to - i,
    {
        let c = chars[i];
        if !is_digit(c) {
            assert(body[i - start] == c);
            return None;
        }
        let d: u64 = (c as u32 - '0' as u32) as u64;
        proof {
            let next = body.take(i - start + 1);
            assert(next.drop_last() =~= body.take(i - start));
            assert(next.last() == c);
            assert(digits_value(next) == digits_value(body.take(i - start)) * 10 + digit_value(c));
        }
        let grown: u64 = acc * 10 + d;
        acc = if grown < cap {
            grown
        } else {
            cap
        };
        i += 1;
    }
    assert(body.take(to - start) =~= body);
    if negative {
        if acc <= 0x8000_0000 {
            let v: i64 = -(acc as i64);
            Some(v as i32)
        } else {
            None
        }
    } else {
        if acc <= 0x7fff_ffff {
            Some(acc as i32)
        } else {
            None
        }
    }
}

} // verus!
