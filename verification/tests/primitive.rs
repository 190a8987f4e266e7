use jamal::primitive::{apply, promote};
use jamal::{FloatReply, FloatRequest, Kind, Operator, Primitive, RuntimeErr};

fn number(x: f32) -> FloatReply {
    FloatReply { bits: x.to_bits(), text: String::new() }
}

fn unit(request: FloatRequest) -> FloatReply {
    match request {
        FloatRequest::Parse(text) => number(text.parse::<f32>().unwrap_or(f32::NAN)),
        FloatRequest::Widen(i) => number(i as f32),
        FloatRequest::Arith(op, a, b) => {
            let x = f32::from_bits(a);
            let y = f32::from_bits(b);
            match op {
                Operator::Add => number(x + y),
                Operator::Sub => number(x - y),
                Operator::Mul => number(x * y),
                Operator::Div => number(x / y),
                Operator::Mod => number(x % y),
                Operator::Pow => number(x.powf(y)),
                _ => number(f32::NAN),
            }
        },
        FloatRequest::Render(bits) => FloatReply { bits, text: f32::from_bits(bits).to_string() },
    }
}

fn float(x: f32) -> Primitive {
    Primitive::Float(x.to_bits())
}

fn text(s: &str) -> Primitive {
    Primitive::String(s.to_string())
}

#[test]
fn priorities_are_fixed() {
    assert_eq!(Kind::Null.priority(), 0);
    assert_eq!(Kind::Bool.priority(), 1);
    assert_eq!(Kind::Int.priority(), 2);
    assert_eq!(Kind::Float.priority(), 3);
    assert_eq!(Kind::String.priority(), 4);
    assert_eq!(Kind::Int.max(Kind::String), Kind::String);
    assert_eq!(Kind::Float.max(Kind::Bool), Kind::Float);
    assert_eq!(Kind::Null.max(Kind::Null), Kind::Null);
}

#[test]
fn kinds_of_values() {
    assert_eq!(Primitive::Null.kind(), Kind::Null);
    assert_eq!(Primitive::Bool(false).kind(), Kind::Bool);
    assert_eq!(Primitive::Int(-3).kind(), Kind::Int);
    assert_eq!(float(1.5).kind(), Kind::Float);
    assert_eq!(text("").kind(), Kind::String);
}

#[test]
fn promotion_toward_lower_priority_fails() {
    assert_eq!(
        promote(&text("a"), Kind::Int, &unit),
        Err(RuntimeErr::InvalidCoercion(Kind::String, Kind::Int))
    );
    assert_eq!(
        promote(&float(1.0), Kind::Int, &unit),
        Err(RuntimeErr::InvalidCoercion(Kind::Float, Kind::Int))
    );
    assert_eq!(
        promote(&Primitive::Int(1), Kind::Bool, &unit),
        Err(RuntimeErr::InvalidCoercion(Kind::Int, Kind::Bool))
    );
    assert_eq!(
        promote(&Primitive::Bool(true), Kind::Null, &unit),
        Err(RuntimeErr::InvalidCoercion(Kind::Bool, Kind::Null))
    );
}

#[test]
fn promotion_widens() {
    assert_eq!(promote(&Primitive::Null, Kind::Null, &unit), Ok(Primitive::Null));
    assert_eq!(promote(&Primitive::Null, Kind::Bool, &unit), Ok(Primitive::Bool(false)));
    assert_eq!(promote(&Primitive::Null, Kind::Int, &unit), Ok(Primitive::Int(0)));
    assert_eq!(promote(&Primitive::Bool(false), Kind::Int, &unit), Ok(Primitive::Int(0)));
    assert_eq!(promote(&Primitive::Bool(true), Kind::Int, &unit), Ok(Primitive::Int(1)));
    assert_eq!(promote(&Primitive::Int(42), Kind::Int, &unit), Ok(Primitive::Int(42)));
    assert_eq!(promote(&Primitive::Int(3), Kind::Float, &unit), Ok(float(3.0)));
    assert_eq!(promote(&Primitive::Bool(true), Kind::Float, &unit), Ok(float(1.0)));
    assert_eq!(promote(&float(2.5), Kind::Float, &unit), Ok(float(2.5)));
}

#[test]
fn promotion_to_text_is_canonical() {
    assert_eq!(promote(&Primitive::Null, Kind::String, &unit), Ok(text("null")));
    assert_eq!(promote(&Primitive::Bool(true), Kind::String, &unit), Ok(text("true")));
    assert_eq!(promote(&Primitive::Bool(false), Kind::String, &unit), Ok(text("false")));
    assert_eq!(promote(&Primitive::Int(0), Kind::String, &unit), Ok(text("0")));
    assert_eq!(promote(&Primitive::Int(1234), Kind::String, &unit), Ok(text("1234")));
    assert_eq!(promote(&Primitive::Int(-70), Kind::String, &unit), Ok(text("-70")));
    assert_eq!(
        promote(&Primitive::Int(i32::MIN), Kind::String, &unit),
        Ok(text("-2147483648"))
    );
    assert_eq!(promote(&Primitive::Int(i32::MAX), Kind::String, &unit), Ok(text("2147483647")));
    assert_eq!(promote(&float(1.5), Kind::String, &unit), Ok(text("1.5")));
    assert_eq!(promote(&text("same"), Kind::String, &unit), Ok(text("same")));
}

#[test]
fn one_plus_one() {
    assert_eq!(
        apply(Operator::Add, &Primitive::Int(1), &Primitive::Int(1), &unit),
        Ok(Primitive::Int(2))
    );
}

#[test]
fn true_equals_true() {
    assert_eq!(
        apply(Operator::Eq, &Primitive::Bool(true), &Primitive::Bool(true), &unit),
        Ok(Primitive::Bool(true))
    );
}

#[test]
fn text_plus_int_concatenates() {
    assert_eq!(apply(Operator::Add, &text("a"), &Primitive::Int(1), &unit), Ok(text("a1")));
    assert_eq!(apply(Operator::Add, &Primitive::Int(1), &text("a"), &unit), Ok(text("1a")));
    assert_eq!(apply(Operator::Add, &text("a"), &Primitive::Null, &unit), Ok(text("anull")));
    assert_eq!(apply(Operator::Add, &text("is "), &Primitive::Bool(true), &unit), Ok(text("is true")));
    assert_eq!(apply(Operator::Add, &text("x"), &float(0.25), &unit), Ok(text("x0.25")));
}

#[test]
fn division_by_zero_fails() {
    assert_eq!(
        apply(Operator::Div, &Primitive::Int(1), &Primitive::Int(0), &unit),
        Err(RuntimeErr::DivisionByZero)
    );
    assert_eq!(
        apply(Operator::Mod, &Primitive::Int(1), &Primitive::Int(0), &unit),
        Err(RuntimeErr::DivisionByZero)
    );
    assert_eq!(
        apply(Operator::Div, &float(1.0), &float(0.0), &unit),
        Err(RuntimeErr::DivisionByZero)
    );
    assert_eq!(
        apply(Operator::Mod, &float(1.0), &float(-0.0), &unit),
        Err(RuntimeErr::DivisionByZero)
    );
    assert_eq!(
        apply(Operator::Div, &Primitive::Int(1), &Primitive::Bool(false), &unit),
        Err(RuntimeErr::DivisionByZero)
    );
    assert_eq!(
        apply(Operator::Pow, &Primitive::Int(0), &Primitive::Int(-1), &unit),
        Err(RuntimeErr::DivisionByZero)
    );
}

#[test]
fn integer_arithmetic() {
    let on = |op, a, b| apply(op, &Primitive::Int(a), &Primitive::Int(b), &unit);
    assert_eq!(on(Operator::Sub, 5, 7), Ok(Primitive::Int(-2)));
    assert_eq!(on(Operator::Mul, -6, 7), Ok(Primitive::Int(-42)));
    assert_eq!(on(Operator::Div, 7, 2), Ok(Primitive::Int(3)));
    assert_eq!(on(Operator::Div, -7, 2), Ok(Primitive::Int(-3)));
    assert_eq!(on(Operator::Div, 7, -2), Ok(Primitive::Int(-3)));
    assert_eq!(on(Operator::Mod, 7, 2), Ok(Primitive::Int(1)));
    assert_eq!(on(Operator::Mod, -7, 2), Ok(Primitive::Int(-1)));
    assert_eq!(on(Operator::Mod, 7, -2), Ok(Primitive::Int(1)));
    assert_eq!(on(Operator::Pow, 2, 10), Ok(Primitive::Int(1024)));
    assert_eq!(on(Operator::Pow, -3, 3), Ok(Primitive::Int(-27)));
    assert_eq!(on(Operator::Pow, 7, 0), Ok(Primitive::Int(1)));
    assert_eq!(on(Operator::Pow, 0, 0), Ok(Primitive::Int(1)));
    assert_eq!(on(Operator::Pow, 2, -1), Ok(Primitive::Int(0)));
    assert_eq!(on(Operator::Pow, 1, -5), Ok(Primitive::Int(1)));
    assert_eq!(on(Operator::Pow, -1, -5), Ok(Primitive::Int(-1)));
    assert_eq!(on(Operator::Pow, -1, -4), Ok(Primitive::Int(1)));
    assert_eq!(on(Operator::Eq, 3, 3), Ok(Primitive::Bool(true)));
    assert_eq!(on(Operator::Ne, 3, 3), Ok(Primitive::Bool(false)));
}

#[test]
fn integer_arithmetic_wraps() {
    let on = |op, a, b| apply(op, &Primitive::Int(a), &Primitive::Int(b), &unit);
    assert_eq!(on(Operator::Add, i32::MAX, 1), Ok(Primitive::Int(i32::MIN)));
    assert_eq!(on(Operator::Sub, i32::MIN, 1), Ok(Primitive::Int(i32::MAX)));
    assert_eq!(on(Operator::Mul, 65536, 65536), Ok(Primitive::Int(0)));
    assert_eq!(on(Operator::Mul, i32::MAX, 2), Ok(Primitive::Int(-2)));
    assert_eq!(on(Operator::Div, i32::MIN, -1), Ok(Primitive::Int(i32::MIN)));
    assert_eq!(on(Operator::Mod, i32::MIN, -1), Ok(Primitive::Int(0)));
    assert_eq!(on(Operator::Pow, 2, 31), Ok(Primitive::Int(i32::MIN)));
    assert_eq!(on(Operator::Pow, 2, 32), Ok(Primitive::Int(0)));
    assert_eq!(on(Operator::Pow, 3, 21), Ok(Primitive::Int(3i32.wrapping_pow(21))));
    assert_eq!(on(Operator::Pow, -7, 13), Ok(Primitive::Int((-7i32).wrapping_pow(13))));
}

#[test]
fn logical_operators_on_numbers_mismatch() {
    assert_eq!(
        apply(Operator::And, &Primitive::Int(1), &Primitive::Int(0), &unit),
        Err(RuntimeErr::TypeMismatch(Operator::And, Kind::Int, Kind::Int))
    );
    assert_eq!(
        apply(Operator::Or, &Primitive::Bool(true), &Primitive::Int(0), &unit),
        Err(RuntimeErr::TypeMismatch(Operator::Or, Kind::Bool, Kind::Int))
    );
    assert_eq!(
        apply(Operator::And, &float(1.0), &Primitive::Null, &unit),
        Err(RuntimeErr::TypeMismatch(Operator::And, Kind::Float, Kind::Null))
    );
}

#[test]
fn unsupported_operators() {
    assert_eq!(
        apply(Operator::Sub, &text("a"), &text("b"), &unit),
        Err(RuntimeErr::UnsupportedOperator(Operator::Sub, Kind::String))
    );
    assert_eq!(
        apply(Operator::And, &text("a"), &Primitive::Bool(true), &unit),
        Err(RuntimeErr::UnsupportedOperator(Operator::And, Kind::String))
    );
    assert_eq!(
        apply(Operator::Add, &Primitive::Bool(true), &Primitive::Bool(true), &unit),
        Err(RuntimeErr::UnsupportedOperator(Operator::Add, Kind::Bool))
    );
    assert_eq!(
        apply(Operator::Pow, &Primitive::Null, &Primitive::Bool(true), &unit),
        Err(RuntimeErr::UnsupportedOperator(Operator::Pow, Kind::Bool))
    );
    assert_eq!(
        apply(Operator::Add, &Primitive::Null, &Primitive::Null, &unit),
        Err(RuntimeErr::UnsupportedOperator(Operator::Add, Kind::Null))
    );
    assert_eq!(
        apply(Operator::Or, &Primitive::Null, &Primitive::Null, &unit),
        Err(RuntimeErr::UnsupportedOperator(Operator::Or, Kind::Null))
    );
}

#[test]
fn nulls_compare_equal() {
    assert_eq!(
        apply(Operator::Eq, &Primitive::Null, &Primitive::Null, &unit),
        Ok(Primitive::Bool(true))
    );
    assert_eq!(
        apply(Operator::Ne, &Primitive::Null, &Primitive::Null, &unit),
        Ok(Primitive::Bool(false))
    );
}

#[test]
fn booleans_combine() {
    let b = |op, x, y| apply(op, &Primitive::Bool(x), &Primitive::Bool(y), &unit);
    assert_eq!(b(Operator::And, true, false), Ok(Primitive::Bool(false)));
    assert_eq!(b(Operator::And, true, true), Ok(Primitive::Bool(true)));
    assert_eq!(b(Operator::Or, false, false), Ok(Primitive::Bool(false)));
    assert_eq!(b(Operator::Or, false, true), Ok(Primitive::Bool(true)));
    assert_eq!(b(Operator::Ne, false, true), Ok(Primitive::Bool(true)));
    assert_eq!(
        apply(Operator::And, &Primitive::Null, &Primitive::Bool(true), &unit),
        Ok(Primitive::Bool(false))
    );
}

#[test]
fn texts_compare() {
    assert_eq!(apply(Operator::Eq, &text("a"), &text("a"), &unit), Ok(Primitive::Bool(true)));
    assert_eq!(apply(Operator::Ne, &text("a"), &text("b"), &unit), Ok(Primitive::Bool(true)));
    assert_eq!(apply(Operator::Eq, &text("1"), &Primitive::Int(1), &unit), Ok(Primitive::Bool(true)));
    assert_eq!(apply(Operator::Eq, &text("null"), &Primitive::Null, &unit), Ok(Primitive::Bool(true)));
}

#[test]
fn float_arithmetic_is_the_units() {
    assert_eq!(apply(Operator::Add, &float(1.5), &float(2.25), &unit), Ok(float(3.75)));
    assert_eq!(apply(Operator::Sub, &float(1.5), &Primitive::Int(2), &unit), Ok(float(-0.5)));
    assert_eq!(apply(Operator::Mul, &Primitive::Int(3), &float(0.5), &unit), Ok(float(1.5)));
    assert_eq!(apply(Operator::Div, &float(1.0), &float(4.0), &unit), Ok(float(0.25)));
    assert_eq!(apply(Operator::Mod, &float(5.5), &float(2.0), &unit), Ok(float(1.5)));
    assert_eq!(apply(Operator::Pow, &float(2.0), &float(3.0), &unit), Ok(float(8.0)));
    assert_eq!(apply(Operator::Add, &Primitive::Bool(true), &float(0.5), &unit), Ok(float(1.5)));
    assert_eq!(apply(Operator::Eq, &float(1.5), &float(1.5), &unit), Ok(Primitive::Bool(true)));
    assert_eq!(apply(Operator::Ne, &float(1.5), &float(2.5), &unit), Ok(Primitive::Bool(true)));
    assert_eq!(apply(Operator::Eq, &float(2.0), &Primitive::Int(2), &unit), Ok(Primitive::Bool(true)));
}

#[test]
fn clone_keeps_the_value() {
    let values = vec![
        Primitive::Null,
        Primitive::Bool(true),
        Primitive::Int(-9),
        float(6.5),
        text("copy"),
    ];
    for v in values.iter() {
        assert_eq!(&v.clone(), v);
    }
}
