use jamal::executor::{execute, run};
use jamal::reader::read_statement;
use jamal::{
    FloatReply, FloatRequest, Jamal, JamalErr, JamalParser, Kind, Operator, Primitive, Rule,
    RuntimeErr, ScopeTree, SyntaxError,
};

fn number(x: f32) -> FloatReply {
    FloatReply { bits: x.to_bits(), text: String::new() }
}

fn unit(request: FloatRequest) -> FloatReply {
    match request {
        FloatRequest::Parse(text) => number(text.parse::<f32>().unwrap_or(f32::NAN)),
        FloatRequest::Widen(i) => number(i as f32),
        FloatRequest::Arith(op, a, b) => {
            let x = f32::from_bits(a);
            let y = f32::from_bits(b);
            match op {
                Operator::Add => number(x + y),
                Operator::Sub => number(x - y),
                Operator::Mul => number(x * y),
                Operator::Div => number(x / y),
                Operator::Mod => number(x % y),
                Operator::Pow => number(x.powf(y)),
                _ => number(f32::NAN),
            }
        },
        FloatRequest::Render(bits) => FloatReply { bits, text: f32::from_bits(bits).to_string() },
    }
}

fn text(s: &str) -> Primitive {
    Primitive::String(s.to_string())
}

/// The value of a program that is one bare expression.
fn value_of(source: &str) -> Result<Option<Primitive>, RuntimeErr> {
    let file = JamalParser::parse(Rule::file, source).unwrap();
    assert_eq!(file.children.len(), 1);
    let statement = read_statement(&file.children[0], &unit)?;
    let mut tree = ScopeTree::create_root();
    execute(&statement, &mut tree, 0, &unit)
}

#[test]
fn declaration_binds_a_string() {
    let tree = Jamal::run("var balls = \"string\";", &unit).unwrap();
    assert_eq!(tree.lookup(0, "balls"), Ok(text("string")));
}

#[test]
fn bare_expression_leaves_the_scope_unchanged() {
    let file = JamalParser::parse(Rule::file, "1 + 1;").unwrap();
    let statement = read_statement(&file.children[0], &unit).unwrap();
    let mut tree = ScopeTree::create_root();
    assert_eq!(execute(&statement, &mut tree, 0, &unit), Ok(Some(Primitive::Int(2))));
    assert_eq!(tree, ScopeTree::create_root());
    let ran = Jamal::run("1 + 1;", &unit).unwrap();
    assert_eq!(ran, ScopeTree::create_root());
}

#[test]
fn last_write_wins() {
    let tree = Jamal::run("var n = 1; n = 2;", &unit).unwrap();
    assert_eq!(tree.lookup(0, "n"), Ok(Primitive::Int(2)));
}

#[test]
fn empty_program_runs() {
    assert_eq!(Jamal::run("", &unit), Ok(ScopeTree::create_root()));
    assert_eq!(Jamal::run("  // nothing here\n/* at all */ ", &unit), Ok(ScopeTree::create_root()));
}

#[test]
fn let_and_const_are_immutable() {
    assert_eq!(
        Jamal::run("let a = 1; a = 2;", &unit),
        Err(JamalErr::Runtime(RuntimeErr::ImmutableBinding("a".to_string())))
    );
    assert_eq!(
        Jamal::run("const a = 1; a = 2;", &unit),
        Err(JamalErr::Runtime(RuntimeErr::ImmutableBinding("a".to_string())))
    );
}

#[test]
fn redeclaration_fails() {
    assert_eq!(
        Jamal::run("var a = 1; let a = 2;", &unit),
        Err(JamalErr::Runtime(RuntimeErr::DuplicateDeclaration("a".to_string())))
    );
}

#[test]
fn unknown_names_fail() {
    assert_eq!(
        Jamal::run("a = 2;", &unit),
        Err(JamalErr::Runtime(RuntimeErr::UndefinedVariable("a".to_string())))
    );
    assert_eq!(
        Jamal::run("var a = b;", &unit),
        Err(JamalErr::Runtime(RuntimeErr::UndefinedVariable("b".to_string())))
    );
    assert_eq!(
        Jamal::run("var a = a;", &unit),
        Err(JamalErr::Runtime(RuntimeErr::UndefinedVariable("a".to_string())))
    );
}

#[test]
fn syntax_errors_carry_the_position() {
    assert_eq!(Jamal::run("var a = ;", &unit), Err(JamalErr::FileParseErr(0)));
    assert_eq!(Jamal::run("var a = 1; b = ", &unit), Err(JamalErr::FileParseErr(11)));
    assert_eq!(Jamal::run("1 + 1", &unit), Err(JamalErr::FileParseErr(0)));
    assert_eq!(Jamal::run("  1; 2; )", &unit), Err(JamalErr::FileParseErr(8)));
}

#[test]
fn first_failure_ends_the_run() {
    let file = JamalParser::parse(Rule::file, "var a = 1; var b = 1 / 0; var c = 3;").unwrap();
    let mut tree = ScopeTree::create_root();
    assert_eq!(run(&file, &mut tree, 0, &unit), Err(RuntimeErr::DivisionByZero));
    assert_eq!(tree.lookup(0, "a"), Ok(Primitive::Int(1)));
    assert_eq!(tree.lookup(0, "b"), Err(RuntimeErr::UndefinedVariable("b".to_string())));
    assert_eq!(tree.lookup(0, "c"), Err(RuntimeErr::UndefinedVariable("c".to_string())));
}

#[test]
fn statements_see_earlier_bindings() {
    let tree = Jamal::run(
        "var a = 2; var b = a * 3; let c = \"n=\" + (a + b); a = a ^ b;",
        &unit,
    ).unwrap();
    assert_eq!(tree.lookup(0, "a"), Ok(Primitive::Int(64)));
    assert_eq!(tree.lookup(0, "b"), Ok(Primitive::Int(6)));
    assert_eq!(tree.lookup(0, "c"), Ok(text("n=8")));
}

#[test]
fn program_runs_from_a_child_scope() {
    let mut tree = ScopeTree::create_root();
    assert_eq!(tree.declare(0, "x", Primitive::Int(1), true), Ok(()));
    assert_eq!(tree.declare(0, "k", Primitive::Int(5), false), Ok(()));
    let child = tree.create_child(0);
    let file = JamalParser::parse(Rule::file, "var x = k + 1; x = x * 2; var y = x;").unwrap();
    assert_eq!(run(&file, &mut tree, child, &unit), Ok(()));
    assert_eq!(tree.lookup(child, "x"), Ok(Primitive::Int(12)));
    assert_eq!(tree.lookup(child, "y"), Ok(Primitive::Int(12)));
    assert_eq!(tree.lookup(0, "x"), Ok(Primitive::Int(1)));
    assert_eq!(tree.lookup(0, "y"), Err(RuntimeErr::UndefinedVariable("y".to_string())));
}

#[test]
fn precedence_follows_the_table() {
    assert_eq!(value_of("1 + 2 * 3;"), Ok(Some(Primitive::Int(7))));
    assert_eq!(value_of("(1 + 2) * 3;"), Ok(Some(Primitive::Int(9))));
    assert_eq!(value_of("2 * 3 ^ 2;"), Ok(Some(Primitive::Int(18))));
    assert_eq!(value_of("2 ^ 3 ^ 2;"), Ok(Some(Primitive::Int(512))));
    assert_eq!(value_of("(2 ^ 3) ^ 2;"), Ok(Some(Primitive::Int(64))));
    assert_eq!(value_of("10 - 4 - 3;"), Ok(Some(Primitive::Int(3))));
    assert_eq!(value_of("100 / 10 / 5;"), Ok(Some(Primitive::Int(2))));
    assert_eq!(value_of("7 % 4 * 2;"), Ok(Some(Primitive::Int(6))));
    assert_eq!(value_of("1 + 1 == 2;"), Ok(Some(Primitive::Bool(true))));
    assert_eq!(value_of("1 + 1 != 2 || true;"), Ok(Some(Primitive::Bool(true))));
    assert_eq!(value_of("true && 1 == 2;"), Ok(Some(Primitive::Bool(false))));
    assert_eq!(value_of("true || false && false;"), Ok(Some(Primitive::Bool(false))));
    assert_eq!(value_of("1 - -1;"), Ok(Some(Primitive::Int(2))));
    assert_eq!(value_of("1 -1;"), Ok(Some(Primitive::Int(0))));
    assert_eq!(value_of("8/2;"), Ok(Some(Primitive::Int(4))));
    assert_eq!(value_of("8 /* eight */ / 2 // halves\n;"), Ok(Some(Primitive::Int(4))));
}

#[test]
fn literals_evaluate_to_themselves() {
    assert_eq!(value_of("42;"), Ok(Some(Primitive::Int(42))));
    assert_eq!(value_of("-42;"), Ok(Some(Primitive::Int(-42))));
    assert_eq!(value_of("+0042;"), Ok(Some(Primitive::Int(42))));
    assert_eq!(value_of("2147483647;"), Ok(Some(Primitive::Int(i32::MAX))));
    assert_eq!(value_of("-2147483648;"), Ok(Some(Primitive::Int(i32::MIN))));
    assert_eq!(value_of("true;"), Ok(Some(Primitive::Bool(true))));
    assert_eq!(value_of("false;"), Ok(Some(Primitive::Bool(false))));
    assert_eq!(value_of("\"two words\";"), Ok(Some(text("two words"))));
    assert_eq!(value_of("'it is \"quoted\"';"), Ok(Some(text("it is \"quoted\""))));
    assert_eq!(value_of("\"\";"), Ok(Some(text(""))));
    assert_eq!(value_of("1.5;"), Ok(Some(Primitive::Float(1.5f32.to_bits()))));
    assert_eq!(value_of(".5;"), Ok(Some(Primitive::Float(0.5f32.to_bits()))));
    assert_eq!(value_of("-2.5e1;"), Ok(Some(Primitive::Float((-25.0f32).to_bits()))));
    assert_eq!(value_of("1e3;"), Ok(Some(Primitive::Float(1000.0f32.to_bits()))));
}

#[test]
fn mixed_kinds_promote_to_the_higher() {
    assert_eq!(value_of("1 + 1.5;"), Ok(Some(Primitive::Float(2.5f32.to_bits()))));
    assert_eq!(value_of("true + 1;"), Ok(Some(Primitive::Int(2))));
    assert_eq!(value_of("\"a\" + 1;"), Ok(Some(text("a1"))));
    assert_eq!(value_of("\"a\" + 1.5;"), Ok(Some(text("a1.5"))));
    assert_eq!(value_of("\"a\" + true + 2;"), Ok(Some(text("atrue2"))));
    assert_eq!(value_of("1 + 2 + \"a\";"), Ok(Some(text("3a"))));
}

#[test]
fn expression_failures_surface() {
    assert_eq!(value_of("1 / 0;"), Err(RuntimeErr::DivisionByZero));
    assert_eq!(value_of("1 % (2 - 2);"), Err(RuntimeErr::DivisionByZero));
    assert_eq!(
        value_of("1 && 2;"),
        Err(RuntimeErr::TypeMismatch(Operator::And, Kind::Int, Kind::Int))
    );
    assert_eq!(
        value_of("\"a\" * 2;"),
        Err(RuntimeErr::UnsupportedOperator(Operator::Mul, Kind::String))
    );
    assert_eq!(
        value_of("true - false;"),
        Err(RuntimeErr::UnsupportedOperator(Operator::Sub, Kind::Bool))
    );
    assert_eq!(value_of("missing + 1 / 0;"), Err(RuntimeErr::UndefinedVariable("missing".to_string())));
    assert_eq!(value_of("1 / 0 + missing;"), Err(RuntimeErr::DivisionByZero));
}

#[test]
fn failures_convert_into_the_failure_of_a_run() {
    assert_eq!(
        JamalErr::from(SyntaxError { position: 7, expected: Rule::statement }),
        JamalErr::FileParseErr(7)
    );
    assert_eq!(
        JamalErr::from(RuntimeErr::DivisionByZero),
        JamalErr::Runtime(RuntimeErr::DivisionByZero)
    );
    assert_eq!(Jamal::run("1 / 0;", &unit), Err(JamalErr::Runtime(RuntimeErr::DivisionByZero)));
}
