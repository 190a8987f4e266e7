//! The primitive value model: five value kinds in a fixed coercion order,
//! promotion between them and the binary operators.

use crate::arith::{
    add_wrapping, div_wrapping, mul_wrapping, pow_wrapping, power, quotient, reciprocal_power,
    rem_wrapping, remainder, sub_wrapping, wrap,
};
use crate::error::{Failure, RuntimeErr};
use crate::text::{bool_text, int_text, null_text, render_bool, render_int, render_null};
use crate::unit::{
    compute, computes, is_zero, render, renders, serves, steady, steady_units_answer_once, widen,
    widens, zero_bits, FloatReply, FloatRequest,
};
use vstd::prelude::*;

verus! {

/// The kind of a primitive value.
#[derive(Clone, Copy, Debug, PartialEq, Eq, Structural)]
pub enum Kind {
    Null,
    Bool,
    Int,
    Float,
    String,
}

impl Kind {
    /// The coercion priority of a kind: `Null < Bool < Int < Float < String`.
    pub open spec fn rank(self) -> int {
        match self {
            Kind::Null => 0,
            Kind::Bool => 1,
            Kind::Int => 2,
            Kind::Float => 3,
            Kind::String => 4,
        }
    }

    /// The coercion priority as a number from 0 to 4.
    pub fn priority(self) -> (p: u8)
        ensures
            p == self.rank(),
    {
        match self {
            Kind::Null => 0,
            Kind::Bool => 1,
            Kind::Int => 2,
            Kind::Float => 3,
            Kind::String => 4,
        }
    }

    /// The kind of higher priority among two.
    pub open spec fn join(self, other: Kind) -> Kind {
        if self.rank() >= other.rank() {
            self
        } else {
            other
        }
    }

    /// Computes the kind of higher priority among two.
    pub fn max(self, other: Kind) -> (k: Kind)
        ensures
            k == self.join(other),
    {
        if self.priority() >= other.priority() {
            self
        } else {
            other
        }
    }
}

/// A binary operator of the language.
#[derive(Clone, Copy, Debug, PartialEq, Eq, Structural)]
pub enum Operator {
    Add,
    Sub,
    Mul,
    Div,
    Pow,
    Mod,
    And,
    Or,
    Eq,
    Ne,
}

impl Operator {
    /// Whether the operator is one of the six arithmetic operators.
    pub open spec fn is_arithmetic(self) -> bool {
        self is Add || self is Sub || self is Mul || self is Div || self is Pow || self is Mod
    }
}

/// A primitive value. A `Float` holds the bit pattern of a 32-bit IEEE 754
/// number; the library never interprets the pattern beyond telling the two
/// zeroes apart from the other values.
#[derive(Debug, PartialEq, Eq)]
pub enum Primitive {
    Null,
    Bool(bool),
    Int(i32),
    Float(u32),
    String(String),
}

/// The mathematical model of a [`Primitive`]: text is a sequence of characters.
pub enum Value {
    Null,
    Bool(bool),
    Int(i32),
    Float(u32),
    Text(Seq<char>),
}

impl Value {
    /// The kind of a value.
    pub open spec fn kind(self) -> Kind {
        match self {
            Value::Null => Kind::Null,
            Value::Bool(_) => Kind::Bool,
            Value::Int(_) => Kind::Int,
            Value::Float(_) => Kind::Float,
            Value::Text(_) => Kind::String,
        }
    }

    /// The truth value that a null or a truth value stands for: null is false.
    pub open spec fn truth(self) -> bool {
        match self {
            Value::Bool(b) => b,
            _ => false,
        }
    }

    /// The integer that a null, a truth value or an integer stands for:
    /// null and false are 0, true is 1.
    pub open spec fn number(self) -> i32 {
        match self {
            Value::Bool(b) => if b {
                1
            } else {
                0
            },
            Value::Int(i) => i,
            _ => 0,
        }
    }

    /// The canonical text of a value that is not a float.
    pub open spec fn plain_text(self) -> Seq<char> {
        match self {
            Value::Null => null_text(),
            Value::Bool(b) => bool_text(b),
            Value::Int(i) => int_text(i as int),
            Value::Float(_) => Seq::empty(),
            Value::Text(t) => t,
        }
    }
}

/// The model of what an operation hands back: a value or a failure.
pub open spec fn outcome(r: Result<Primitive, RuntimeErr>) -> Result<Value, Failure> {
    match r {
        Ok(p) => Ok(p@),
        Err(e) => Err(e@),
    }
}

/// Whether `out` is a result of promoting `v` to the kind `target` with the
/// floating-point unit `unit`.
///
/// Narrowing fails. Promotion to the value's own kind keeps the value. Null
/// becomes false, a truth value becomes 0 or 1, an integer is widened by the
/// unit, and any value becomes its canonical text, which for a float is the
/// unit's rendering.
pub open spec fn promotes<F: Fn(FloatRequest) -> FloatReply>(
    unit: &F,
    v: Value,
    target: Kind,
    out: Result<Value, Failure>,
) -> bool {
    if target.rank() < v.kind().rank() {
        out == Err::<Value, Failure>(Failure::InvalidCoercion(v.kind(), target))
    } else if target == v.kind() {
        out == Ok::<Value, Failure>(v)
    } else {
        match target {
            Kind::Null => false,
            Kind::Bool => out == Ok::<Value, Failure>(Value::Bool(v.truth())),
            Kind::Int => out == Ok::<Value, Failure>(Value::Int(v.number())),
            Kind::Float => out matches Ok(Value::Float(bits)) && widens(unit, v.number(), bits),
            Kind::String => match v {
                Value::Float(bits) => out matches Ok(Value::Text(t)) && renders(unit, bits, t),
                _ => out == Ok::<Value, Failure>(Value::Text(v.plain_text())),
            },
        }
    }
}

/// The result of an operator on two nulls.
pub open spec fn null_result(op: Operator) -> Result<Value, Failure> {
    match op {
        Operator::Eq => Ok(Value::Bool(true)),
        Operator::Ne => Ok(Value::Bool(false)),
        _ => Err(Failure::UnsupportedOperator(op, Kind::Null)),
    }
}

/// The result of an operator on two truth values.
pub open spec fn bool_result(op: Operator, a: bool, b: bool) -> Result<Value, Failure> {
    match op {
        Operator::And => Ok(Value::Bool(a && b)),
        Operator::Or => Ok(Value::Bool(a || b)),
        Operator::Eq => Ok(Value::Bool(a == b)),
        Operator::Ne => Ok(Value::Bool(a != b)),
        _ => Err(Failure::UnsupportedOperator(op, Kind::Bool)),
    }
}

/// The result of an operator on two integers; `lk` and `rk` are the kinds
/// that the operands had before promotion.
pub open spec fn int_result(op: Operator, a: i32, b: i32, lk: Kind, rk: Kind) -> Result<
    Value,
    Failure,
> {
    match op {
        Operator::Add => Ok(Value::Int(wrap(a + b))),
        Operator::Sub => Ok(Value::Int(wrap(a - b))),
        Operator::Mul => Ok(Value::Int(wrap(a * b))),
        Operator::Div => if b == 0 {
            Err(Failure::DivisionByZero)
        } else {
            Ok(Value::Int(wrap(quotient(a as int, b as int))))
        },
        Operator::Mod => if b == 0 {
            Err(Failure::DivisionByZero)
        } else {
            Ok(Value::Int(wrap(remainder(a as int, b as int))))
        },
        Operator::Pow => if b >= 0 {
            Ok(Value::Int(wrap(power(a as int, b as nat))))
        } else if a == 0 {
            Err(Failure::DivisionByZero)
        } else {
            Ok(Value::Int(wrap(reciprocal_power(a as int, (-b) as nat))))
        },
        Operator::Eq => Ok(Value::Bool(a == b)),
        Operator::Ne => Ok(Value::Bool(a != b)),
        Operator::And | Operator::Or => Err(Failure::TypeMismatch(op, lk, rk)),
    }
}

/// Whether `out` is a result of an operator on two floats with the unit
/// `unit`; `lk` and `rk` are the kinds that the operands had before
/// promotion. Equality compares the bit patterns.
pub open spec fn float_result<F: Fn(FloatRequest) -> FloatReply>(
    unit: &F,
    op: Operator,
    a: u32,
    b: u32,
    lk: Kind,
    rk: Kind,
    out: Result<Value, Failure>,
) -> bool {
    match op {
        Operator::Eq => out == Ok::<Value, Failure>(Value::Bool(a == b)),
        Operator::Ne => out == Ok::<Value, Failure>(Value::Bool(a != b)),
        Operator::And | Operator::Or => out == Err::<Value, Failure>(
            Failure::TypeMismatch(op, lk, rk),
        ),
        Operator::Div | Operator::Mod => if zero_bits(b) {
            out == Err::<Value, Failure>(Failure::DivisionByZero)
        } else {
            out matches Ok(Value::Float(bits)) && computes(unit, op, a, b, bits)
        },
        _ => out matches Ok(Value::Float(bits)) && computes(unit, op, a, b, bits),
    }
}

/// The result of an operator on two texts.
pub open spec fn text_result(op: Operator, a: Seq<char>, b: Seq<char>) -> Result<Value, Failure> {
    match op {
        Operator::Add => Ok(Value::Text(a + b)),
        Operator::Eq => Ok(Value::Bool(a == b)),
        Operator::Ne => Ok(Value::Bool(a != b)),
        _ => Err(Failure::UnsupportedOperator(op, Kind::String)),
    }
}

/// Whether `out` is a result of an operator on two operands of one kind;
/// `lk` and `rk` are the kinds that the operands had before promotion.
pub open spec fn combines<F: Fn(FloatRequest) -> FloatReply>(
    unit: &F,
    op: Operator,
    a: Value,
    b: Value,
    lk: Kind,
    rk: Kind,
    out: Result<Value, Failure>,
) -> bool {
    match (a, b) {
        (Value::Null, Value::Null) => out == null_result(op),
        (Value::Bool(x), Value::Bool(y)) => out == bool_result(op, x, y),
        (Value::Int(x), Value::Int(y)) => out == int_result(op, x, y, lk, rk),
        (Value::Float(x), Value::Float(y)) => float_result(unit, op, x, y, lk, rk, out),
        (Value::Text(s), Value::Text(t)) => out == text_result(op, s, t),
        _ => false,
    }
}

/// Whether `out` is a result of applying `op` to `l` and `r` with the unit
/// `unit`: both operands are promoted to the kind of higher priority among
/// theirs, and the operator is then taken on that kind.
pub open spec fn applies<F: Fn(FloatRequest) -> FloatReply>(
    unit: &F,
    op: Operator,
    l: Value,
    r: Value,
    out: Result<Value, Failure>,
) -> bool {
    let k = l.kind().join(r.kind());
    exists|a: Value, b: Value|
        promotes(unit, l, k, Ok(a)) && promotes(unit, r, k, Ok(b)) && #[trigger] combines(
            unit,
            op,
            a,
            b,
            l.kind(),
            r.kind(),
            out,
        )
}

impl View for Primitive {
    type V = Value;

    open spec fn view(&self) -> Value {
        match self {
            Primitive::Null => Value::Null,
            Primitive::Bool(b) => Value::Bool(*b),
            Primitive::Int(i) => Value::Int(*i),
            Primitive::Float(f) => Value::Float(*f),
            Primitive::String(s) => Value::Text(s@),
        }
    }
}

impl Clone for Primitive {
    fn clone(&self) -> (copy: Self)
        ensures
            copy == *self,
    {
        match self {
            Primitive::Null => Primitive::Null,
            Primitive::Bool(b) => Primitive::Bool(*b),
            Primitive::Int(i) => Primitive::Int(*i),
            Primitive::Float(f) => Primitive::Float(*f),
            Primitive::String(s) => Primitive::String(s.clone()),
        }
    }
}

impl Primitive {
    /// The kind of this value.
    pub fn kind(&self) -> (k: Kind)
        ensures
            k == self@.kind(),
    {
        match self {
            Primitive::Null => Kind::Null,
            Primitive::Bool(_) => Kind::Bool,
            Primitive::Int(_) => Kind::Int,
            Primitive::Float(_) => Kind::Float,
            Primitive::String(_) => Kind::String,
        }
    }

    /// The truth value that a null or a truth value stands for.
    fn truth(&self) -> (b: bool)
        ensures
            b == self@.truth(),
    {
        match self {
            Primitive::Bool(b) => *b,
            _ => false,
        }
    }

    /// The integer that a null, a truth value or an integer stands for.
    fn number(&self) -> (i: i32)
        ensures
            i == self@.number(),
    {
        match self {
            Primitive::Bool(b) => if *b {
                1
            } else {
                0
            },
            Primitive::Int(i) => *i,
            _ => 0,
        }
    }
}

/// Promotes a value to a kind of higher or equal priority, and fails with
/// `InvalidCoercion` on a kind of lower priority.
pub fn promote<F: Fn(FloatRequest) -> FloatReply>(value: &Primitive, target: Kind, unit: &F) -> (out:
    Result<Primitive, RuntimeErr>)
    requires
        serves(unit),
    ensures
        promotes(unit, value@, target, outcome(out)),
{
    let from = value.kind();
    if target.priority() < from.priority() {
        return Err(RuntimeErr::InvalidCoercion(from, target));
    }
    match target {
        Kind::Null => Ok(Primitive::Null),
        Kind::Bool => Ok(Primitive::Bool(value.truth())),
        Kind::Int => Ok(Primitive::Int(value.number())),
        Kind::Float => match value {
            Primitive::Float(bits) => Ok(Primitive::Float(*bits)),
            _ => Ok(Primitive::Float(widen(unit, value.number()))),
        },
        Kind::String => match value {
            Primitive::Null => Ok(Primitive::String(render_null())),
            Primitive::Bool(b) => Ok(Primitive::String(render_bool(*b))),
            Primitive::Int(i) => Ok(Primitive::String(render_int(*i))),
            Primitive::Float(bits) => Ok(Primitive::String(render(unit, *bits))),
            Primitive::String(t) => Ok(Primitive::String(t.clone())),
        },
    }
}

/// Takes an integer to a negative power: the reciprocal, rounded toward zero.
fn negative_power(a: i32, b: i32) -> (out: Result<Primitive, RuntimeErr>)
    requires
        b < 0,
    ensures
        outcome(out) == int_result(Operator::Pow, a, b, Kind::Int, Kind::Int),
{
    if a == 0 {
        Err(RuntimeErr::DivisionByZero)
    } else if a == 1 {
        Ok(Primitive::Int(1))
    } else if a == -1 {
        if b % 2 == 0 {
            Ok(Primitive::Int(1))
        } else {
            Ok(Primitive::Int(-1))
        }
    } else {
        Ok(Primitive::Int(0))
    }
}

/// Takes an operator on two integers.
fn combine_ints(op: Operator, a: i32, b: i32, lk: Kind, rk: Kind) -> (out: Result<
    Primitive,
    RuntimeErr,
>)
    ensures
        outcome(out) == int_result(op, a, b, lk, rk),
{
    match op {
        Operator::Add => Ok(Primitive::Int(add_wrapping(a, b))),
        Operator::Sub => Ok(Primitive::Int(sub_wrapping(a, b))),
        Operator::Mul => Ok(Primitive::Int(mul_wrapping(a, b))),
        Operator::Div => if b == 0 {
            Err(RuntimeErr::DivisionByZero)
        } else {
            Ok(Primitive::Int(div_wrapping(a, b)))
        },
        Operator::Mod => if b == 0 {
            Err(RuntimeErr::DivisionByZero)
        } else {
            Ok(Primitive::Int(rem_wrapping(a, b)))
        },
        Operator::Pow => if b >= 0 {
            Ok(Primitive::Int(pow_wrapping(a, b as u32)))
        } else {
            negative_power(a, b)
        },
        Operator::Eq => Ok(Primitive::Bool(a == b)),
        Operator::Ne => Ok(Primitive::Bool(a != b)),
        Operator::And => Err(RuntimeErr::TypeMismatch(op, lk, rk)),
        Operator::Or => Err(RuntimeErr::TypeMismatch(op, lk, rk)),
    }
}

/// Takes an operator on two floats.
fn combine_floats<F: Fn(FloatRequest) -> FloatReply>(
    unit: &F,
    op: Operator,
    a: u32,
    b: u32,
    lk: Kind,
    rk: Kind,
) -> (out: Result<Primitive, RuntimeErr>)
    requires
        serves(unit),
    ensures
        float_result(unit, op, a, b, lk, rk, outcome(out)),
{
    match op {
        Operator::Eq => Ok(Primitive::Bool(a == b)),
        Operator::Ne => Ok(Primitive::Bool(a != b)),
        Operator::And => Err(RuntimeErr::TypeMismatch(op, lk, rk)),
        Operator::Or => Err(RuntimeErr::TypeMismatch(op, lk, rk)),
        Operator::Div | Operator::Mod => if is_zero(b) {
            Err(RuntimeErr::DivisionByZero)
        } else {
            Ok(Primitive::Float(compute(unit, op, a, b)))
        },
        _ => Ok(Primitive::Float(compute(unit, op, a, b))),
    }
}

/// Takes an operator on two texts.
fn combine_texts(op: Operator, a: &String, b: &String) -> (out: Result<Primitive, RuntimeErr>)
    ensures
        outcome(out) == text_result(op, a@, b@),
{
    match op {
        Operator::Add => {
            let mut joined = a.clone();
            joined.append(b.as_str());
            Ok(Primitive::String(joined))
        },
        Operator::Eq => Ok(Primitive::Bool(*a == *b)),
        Operator::Ne => Ok(Primitive::Bool(!(*a == *b))),
        _ => Err(RuntimeErr::UnsupportedOperator(op, Kind::String)),
    }
}

/// Takes an operator on two operands of one kind.
fn combine<F: Fn(FloatRequest) -> FloatReply>(
    unit: &F,
    op: Operator,
    a: &Primitive,
    b: &Primitive,
    lk: Kind,
    rk: Kind,
) -> (out: Result<Primitive, RuntimeErr>)
    requires
        serves(unit),
        a@.kind() == b@.kind(),
    ensures
        combines(unit, op, a@, b@, lk, rk, outcome(out)),
{
    match (a, b) {
        (Primitive::Null, Primitive::Null) => match op {
            Operator::Eq => Ok(Primitive::Bool(true)),
            Operator::Ne => Ok(Primitive::Bool(false)),
            _ => Err(RuntimeErr::UnsupportedOperator(op, Kind::Null)),
        },
        (Primitive::Bool(x), Primitive::Bool(y)) => match op {
            Operator::And => Ok(Primitive::Bool(*x && *y)),
            Operator::Or => Ok(Primitive::Bool(*x || *y)),
            Operator::Eq => Ok(Primitive::Bool(*x == *y)),
            Operator::Ne => Ok(Primitive::Bool(*x != *y)),
            _ => Err(RuntimeErr::UnsupportedOperator(op, Kind::Bool)),
        },
        (Primitive::Int(x), Primitive::Int(y)) => combine_ints(op, *x, *y, lk, rk),
        (Primitive::Float(x), Primitive::Float(y)) => combine_floats(unit, op, *x, *y, lk, rk),
        (Primitive::String(s), Primitive::String(t)) => combine_texts(op, s, t),
        _ => {
            assert(false);
            Ok(Primitive::Null)
        },
    }
}

/// Applies a binary operator: both operands are promoted to the kind of
/// higher priority among theirs, and the operator is taken on that kind.
///
/// On integers the arithmetic wraps around, division and remainder round
/// toward zero and fail with `DivisionByZero` on a zero divisor, and the
/// logical operators fail with `TypeMismatch`. On floats the arithmetic is
/// the unit's. On texts `Add` concatenates. Every kind has `Eq` and `Ne`;
/// any other pairing fails with `UnsupportedOperator`.
pub fn apply<F: Fn(FloatRequest) -> FloatReply>(
    op: Operator,
    left: &Primitive,
    right: &Primitive,
    unit: &F,
) -> (out: Result<Primitive, RuntimeErr>)
    requires
        serves(unit),
    ensures
        applies(unit, op, left@, right@, outcome(out)),
{
    let lk = left.kind();
    let rk = right.kind();
    let k = lk.max(rk);
    let a = match promote(left, k, unit) {
        Ok(a) => a,
        Err(e) => {
            assert(false);
            return Err(e);
        },
    };
    let b = match promote(right, k, unit) {
        Ok(b) => b,
        Err(e) => {
            assert(false);
            return Err(e);
        },
    };
    let out = combine(unit, op, &a, &b, lk, rk);
    assert(promotes(unit, left@, k, Ok(a@)));
    assert(promotes(unit, right@, k, Ok(b@)));
    assert(combines(unit, op, a@, b@, lk, rk, outcome(out)));
    out
}

/// The priorities are fixed at `Null < Bool < Int < Float < String`, and they
/// order the kinds totally: two kinds of one priority are the same kind, and
/// of two different kinds one has the lower priority.
pub proof fn priority_is_a_total_order(a: Kind, b: Kind)
    ensures
        Kind::Null.rank() < Kind::Bool.rank() < Kind::Int.rank() < Kind::Float.rank()
            < Kind::String.rank(),
        a.rank() == b.rank() <==> a == b,
        a.rank() < b.rank() || a == b || b.rank() < a.rank(),
{
}

/// Promotion goes one way: toward a kind of lower priority it always fails
/// with `InvalidCoercion` of the value's kind and the target, and toward any
/// other kind it succeeds with a value of exactly the target kind, so that a
/// promoted value never has a lower priority than the value it came from.
pub proof fn promotion_never_narrows<F: Fn(FloatRequest) -> FloatReply>(
    unit: &F,
    v: Value,
    target: Kind,
    out: Result<Value, Failure>,
)
    requires
        promotes(unit, v, target, out),
    ensures
        target.rank() < v.kind().rank() ==> out == Err::<Value, Failure>(
            Failure::InvalidCoercion(v.kind(), target),
        ),
        target.rank() >= v.kind().rank() ==> out is Ok && out->Ok_0.kind() == target,
        out is Ok ==> out->Ok_0.kind().rank() >= v.kind().rank(),
{
}

/// The kind of the result of an operator is decided by the operand of higher
/// priority: an arithmetic result has the kind of higher priority among the
/// operands' kinds, and a comparison or a logical result is a truth value.
pub proof fn result_kind_is_the_higher<F: Fn(FloatRequest) -> FloatReply>(
    unit: &F,
    op: Operator,
    l: Value,
    r: Value,
    out: Result<Value, Failure>,
)
    requires
        applies(unit, op, l, r, out),
        out is Ok,
    ensures
        op.is_arithmetic() ==> out->Ok_0.kind() == l.kind().join(r.kind()),
        !op.is_arithmetic() ==> out->Ok_0.kind() == Kind::Bool,
{
}

/// With a steady unit promotion is a function: a value and a target kind
/// have one result.
pub proof fn promotion_is_a_function<F: Fn(FloatRequest) -> FloatReply>(
    unit: &F,
    v: Value,
    target: Kind,
    first: Result<Value, Failure>,
    second: Result<Value, Failure>,
)
    requires
        steady(unit),
        promotes(unit, v, target, first),
        promotes(unit, v, target, second),
    ensures
        first == second,
{
    steady_units_answer_once(unit);
}

/// With a steady unit the operators are functions: an operator and two
/// operands have one result.
pub proof fn application_is_a_function<F: Fn(FloatRequest) -> FloatReply>(
    unit: &F,
    op: Operator,
    l: Value,
    r: Value,
    first: Result<Value, Failure>,
    second: Result<Value, Failure>,
)
    requires
        steady(unit),
        applies(unit, op, l, r, first),
        applies(unit, op, l, r, second),
    ensures
        first == second,
{
    steady_units_answer_once(unit);
    let k = l.kind().join(r.kind());
    let (a1, b1) = choose|a: Value, b: Value|
        promotes(unit, l, k, Ok(a)) && promotes(unit, r, k, Ok(b)) && #[trigger] combines(
            unit,
            op,
            a,
            b,
            l.kind(),
            r.kind(),
            first,
        );
    let (a2, b2) = choose|a: Value, b: Value|
        promotes(unit, l, k, Ok(a)) && promotes(unit, r, k, Ok(b)) && #[trigger] combines(
            unit,
            op,
            a,
            b,
            l.kind(),
            r.kind(),
            second,
        );
    promotion_is_a_function(unit, l, k, Ok(a1), Ok(a2));
    promotion_is_a_function(unit, r, k, Ok(b1), Ok(b2));
}

} // verus!
