//! The canonical text of the values that the library can render by itself.

use vstd::prelude::*;

verus! {

/// The character of a decimal digit.
pub open spec fn digit_char(d: int) -> char {
    if d == 0 {
        '0'
    } else if d == 1 {
        '1'
    } else if d == 2 {
        '2'
    } else if d == 3 {
        '3'
    } else if d == 4 {
        '4'
    } else if d == 5 {
        '5'
    } else if d == 6 {
        '6'
    } else if d == 7 {
        '7'
    } else if d == 8 {
        '8'
    } else {
        '9'
    }
}

/// The decimal digits of a natural number, without leading zeroes.
pub open spec fn nat_text(n: nat) -> Seq<char>
    decreases n,
{
    if n < 10 {
        seq![digit_char(n as int)]
    } else {
        nat_text(n / 10).push(digit_char((n % 10) as int))
    }
}

/// The decimal rendering of an integer: a minus sign for a negative number,
/// then the digits of its magnitude.
pub open spec fn int_text(i: int) -> Seq<char> {
    if i < 0 {
        seq!['-'] + nat_text((-i) as nat)
    } else {
        nat_text(i as nat)
    }
}

/// The text of the null value.
pub open spec fn null_text() -> Seq<char> {
    seq!['n', 'u', 'l', 'l']
}

/// The text of a truth value.
pub open spec fn bool_text(b: bool) -> Seq<char> {
    if b {
        seq!['t', 'r', 'u', 'e']
    } else {
        seq!['f', 'a', 'l', 's', 'e']
    }
}

/// Appends one decimal digit to a text.
fn push_digit(out: &mut String, d: u32)
    requires
        d < 10,
    ensures
        final(out)@ == old(out)@.push(digit_char(d as int)),
{
    proof {
        reveal_strlit("0");
        reveal_strlit("1");
        reveal_strlit("2");
        reveal_strlit("3");
        reveal_strlit("4");
        reveal_strlit("5");
        reveal_strlit("6");
        reveal_strlit("7");
        reveal_strlit("8");
        reveal_strlit("9");
    }
    let digit: &str = if d == 0 {
        "0"
    } else if d == 1 {
        "1"
    } else if d == 2 {
        "2"
    } else if d == 3 {
        "3"
    } else if d == 4 {
        "4"
    } else if d == 5 {
        "5"
    } else if d == 6 {
        "6"
    } else if d == 7 {
        "7"
    } else if d == 8 {
        "8"
    } else {
        "9"
    };
    assert(digit@ =~= seq![digit_char(d as int)]);
    out.append(digit);
    assert(out@ =~= old(out)@.push(digit_char(d as int)));
}

/// Appends the decimal digits of a number to a text.
fn push_nat(out: &mut String, n: u32)
    ensures
        final(out)@ == old(out)@ + nat_text(n as nat),
    decreases n,
{
    if n >= 10 {
        push_nat(out, n / 10);
        push_digit(out, n % 10);
        assert(out@ =~= old(out)@ + nat_text(n as nat));
    } else {
        push_digit(out, n);
        assert(out@ =~= old(out)@ + nat_text(n as nat));
    }
}

/// Renders an integer in decimal.
pub fn render_int(i: i32) -> (out: String)
    ensures
        out@ == int_text(i as int),
{
    let mut out = String::new();
    if i < 0 {
        proof {
            reveal_strlit("-");
        }
        out.append("-");
        let magnitude: i64 = -(i as i64);
        push_nat(&mut out, magnitude as u32);
        assert(out@ =~= int_text(i as int));
    } else {
        push_nat(&mut out, i as u32);
        assert(out@ =~= int_text(i as int));
    }
    out
}

/// Renders a truth value as `true` or `false`.
pub fn render_bool(b: bool) -> (out: String)
    ensures
        out@ == bool_text(b),
{
    proof {
        reveal_strlit("true");
        reveal_strlit("false");
    }
    let out = if b {
        "true".to_owned()
    } else {
        "false".to_owned()
    };
    assert(out@ =~= bool_text(b));
    out
}

/// Renders the null value as `null`.
pub fn render_null() -> (out: String)
    ensures
        out@ == null_text(),
{
    proof {
        reveal_strlit("null");
    }
    let out = "null".to_owned();
    assert(out@ =~= null_text());
    out
}

} // verus!
