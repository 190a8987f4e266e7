//! The floating-point unit. The library carries a 32-bit float as its bit
//! pattern and computes nothing on it: the caller hands in a function that
//! does the arithmetic, and the contracts speak of what that function
//! returned.

use crate::primitive::Operator;
use vstd::prelude::*;

verus! {

/// What the library asks of the floating-point unit.
#[derive(Debug, PartialEq, Eq)]
pub enum FloatRequest {
    /// The bits of the number that a literal's text denotes.
    Parse(String),
    /// The bits of the float nearest to an integer.
    Widen(i32),
    /// The bits of the result of an arithmetic operator on two floats.
    Arith(Operator, u32, u32),
    /// The decimal text of a float.
    Render(u32),
}

/// The answer of the floating-point unit: `bits` to a request for a number,
/// `text` to a request for a rendering.
#[derive(Debug, PartialEq, Eq)]
pub struct FloatReply {
    pub bits: u32,
    pub text: String,
}

/// The unit answers every request.
pub open spec fn serves<F: Fn(FloatRequest) -> FloatReply>(unit: &F) -> bool {
    forall|q: FloatRequest| call_requires(*unit, (q,))
}

/// The unit may answer `bits` when asked to read `text`.
pub open spec fn reads<F: Fn(FloatRequest) -> FloatReply>(
    unit: &F,
    text: Seq<char>,
    bits: u32,
) -> bool {
    exists|q: String, reply: FloatReply|
        q@ == text && reply.bits == bits && #[trigger] call_ensures(
            *unit,
            (FloatRequest::Parse(q),),
            reply,
        )
}

/// The unit may answer `bits` when asked to widen `i`.
pub open spec fn widens<F: Fn(FloatRequest) -> FloatReply>(unit: &F, i: i32, bits: u32) -> bool {
    exists|reply: FloatReply|
        reply.bits == bits && #[trigger] call_ensures(*unit, (FloatRequest::Widen(i),), reply)
}

/// The unit may answer `bits` when asked to apply `op` to `a` and `b`.
pub open spec fn computes<F: Fn(FloatRequest) -> FloatReply>(
    unit: &F,
    op: Operator,
    a: u32,
    b: u32,
    bits: u32,
) -> bool {
    exists|reply: FloatReply|
        reply.bits == bits && #[trigger] call_ensures(
            *unit,
            (FloatRequest::Arith(op, a, b),),
            reply,
        )
}

/// The unit may answer `text` when asked to render `bits`.
pub open spec fn renders<F: Fn(FloatRequest) -> FloatReply>(
    unit: &F,
    bits: u32,
    text: Seq<char>,
) -> bool {
    exists|reply: FloatReply|
        reply.text@ == text && #[trigger] call_ensures(
            *unit,
            (FloatRequest::Render(bits),),
            reply,
        )
}

/// Whether two requests ask the same thing.
pub open spec fn same_request(a: FloatRequest, b: FloatRequest) -> bool {
    match (a, b) {
        (FloatRequest::Parse(x), FloatRequest::Parse(y)) => x@ == y@,
        (FloatRequest::Widen(i), FloatRequest::Widen(j)) => i == j,
        (FloatRequest::Arith(o, x, y), FloatRequest::Arith(p, v, w)) => o == p && x == v && y == w,
        (FloatRequest::Render(x), FloatRequest::Render(y)) => x == y,
        _ => false,
    }
}

/// Whether the unit is a function of what it is asked: to the same
/// request it always gives the same number and the same text.
pub open spec fn steady<F: Fn(FloatRequest) -> FloatReply>(unit: &F) -> bool {
    forall|q1: FloatRequest, q2: FloatRequest, r1: FloatReply, r2: FloatReply|
        #![trigger call_ensures(*unit, (q1,), r1), call_ensures(*unit, (q2,), r2)]
        same_request(q1, q2) && call_ensures(*unit, (q1,), r1) && call_ensures(*unit, (q2,), r2)
            ==> r1.bits == r2.bits && r1.text@ == r2.text@
}

/// A steady unit reads one number in a text, widens an integer to one
/// float, computes one result and renders a float as one text.
pub proof fn steady_units_answer_once<F: Fn(FloatRequest) -> FloatReply>(unit: &F)
    requires
        steady(unit),
    ensures
        forall|text: Seq<char>, b1: u32, b2: u32|
            reads(unit, text, b1) && reads(unit, text, b2) ==> b1 == b2,
        forall|i: i32, b1: u32, b2: u32| widens(unit, i, b1) && widens(unit, i, b2) ==> b1 == b2,
        forall|op: Operator, x: u32, y: u32, b1: u32, b2: u32|
            computes(unit, op, x, y, b1) && computes(unit, op, x, y, b2) ==> b1 == b2,
        forall|bits: u32, t1: Seq<char>, t2: Seq<char>|
            renders(unit, bits, t1) && renders(unit, bits, t2) ==> t1 == t2,
{
    assert forall|text: Seq<char>, b1: u32, b2: u32|
        reads(unit, text, b1) && reads(unit, text, b2) implies b1 == b2 by {
        let (q1, r1) = choose|q: String, reply: FloatReply|
            q@ == text && reply.bits == b1 && #[trigger] call_ensures(
                *unit,
                (FloatRequest::Parse(q),),
                reply,
            );
        let (q2, r2) = choose|q: String, reply: FloatReply|
            q@ == text && reply.bits == b2 && #[trigger] call_ensures(
                *unit,
                (FloatRequest::Parse(q),),
                reply,
            );
        assert(same_request(FloatRequest::Parse(q1), FloatRequest::Parse(q2)));
    }
    assert forall|i: i32, b1: u32, b2: u32|
        widens(unit, i, b1) && widens(unit, i, b2) implies b1 == b2 by {
        let r1 = choose|reply: FloatReply|
            reply.bits == b1 && #[trigger] call_ensures(*unit, (FloatRequest::Widen(i),), reply);
        let r2 = choose|reply: FloatReply|
            reply.bits == b2 && #[trigger] call_ensures(*unit, (FloatRequest::Widen(i),), reply);
        assert(same_request(FloatRequest::Widen(i), FloatRequest::Widen(i)));
    }
    assert forall|op: Operator, x: u32, y: u32, b1: u32, b2: u32|
        computes(unit, op, x, y, b1) && computes(unit, op, x, y, b2) implies b1 == b2 by {
        let r1 = choose|reply: FloatReply|
            reply.bits == b1 && #[trigger] call_ensures(
                *unit,
                (FloatRequest::Arith(op, x, y),),
                reply,
            );
        let r2 = choose|reply: FloatReply|
            reply.bits == b2 && #[trigger] call_ensures(
                *unit,
                (FloatRequest::Arith(op, x, y),),
                reply,
            );
        assert(same_request(FloatRequest::Arith(op, x, y), FloatRequest::Arith(op, x, y)));
    }
    assert forall|bits: u32, t1: Seq<char>, t2: Seq<char>|
        renders(unit, bits, t1) && renders(unit, bits, t2) implies t1 == t2 by {
        let r1 = choose|reply: FloatReply|
            reply.text@ == t1 && #[trigger] call_ensures(
                *unit,
                (FloatRequest::Render(bits),),
                reply,
            );
        let r2 = choose|reply: FloatReply|
            reply.text@ == t2 && #[trigger] call_ensures(
                *unit,
                (FloatRequest::Render(bits),),
                reply,
            );
        assert(same_request(FloatRequest::Render(bits), FloatRequest::Render(bits)));
    }
}

/// Whether a bit pattern is one of the two zeroes, positive or negative.
pub open spec fn zero_bits(bits: u32) -> bool {
    bits == 0 || bits == 0x8000_0000
}

/// Tells whether a float is zero.
pub fn is_zero(bits: u32) -> (z: bool)
    ensures
        z == zero_bits(bits),
{
    bits == 0 || bits == 0x8000_0000
}

/// Asks the unit for the float that a literal denotes.
pub fn read<F: Fn(FloatRequest) -> FloatReply>(unit: &F, text: &str) -> (bits: u32)
    requires
        serves(unit),
    ensures
        reads(unit, text@, bits),
{
    let reply = unit(FloatRequest::Parse(text.to_owned()));
    reply.bits
}

/// Asks the unit for the float nearest to an integer.
pub fn widen<F: Fn(FloatRequest) -> FloatReply>(unit: &F, i: i32) -> (bits: u32)
    requires
        serves(unit),
    ensures
        widens(unit, i, bits),
{
    let reply = unit(FloatRequest::Widen(i));
    reply.bits
}

/// Asks the unit for the result of an arithmetic operator.
pub fn compute<F: Fn(FloatRequest) -> FloatReply>(unit: &F, op: Operator, a: u32, b: u32) -> (bits:
    u32)
    requires
        serves(unit),
    ensures
        computes(unit, op, a, b, bits),
{
    let reply = unit(FloatRequest::Arith(op, a, b));
    reply.bits
}

/// Asks the unit for the decimal text of a float.
pub fn render<F: Fn(FloatRequest) -> FloatReply>(unit: &F, bits: u32) -> (text: String)
    requires
        serves(unit),
    ensures
        renders(unit, bits, text@),
{
    let reply = unit(FloatRequest::Render(bits));
    reply.text
}

} // verus!
