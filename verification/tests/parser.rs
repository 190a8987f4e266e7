use jamal::grammar::{binding_of, parse_atom, parse_expression, parse_literal, parse_statement};
use jamal::{JamalParser, Node, Operator, Rule, SyntaxError};

fn node(rule: Rule, text: &str, children: Vec<Node>) -> Node {
    Node { rule, text: text.to_string(), children }
}

fn leaf(rule: Rule, text: &str) -> Node {
    node(rule, text, Vec::new())
}

fn whole(text: &str) -> Node {
    node(Rule::expression, text, vec![node(Rule::literal, text, vec![leaf(Rule::integer, text)])])
}

fn name(text: &str) -> Node {
    node(Rule::expression, text, vec![leaf(Rule::object, text)])
}

fn binary(text: &str, left: Node, op: &str, right: Node) -> Node {
    node(Rule::expression, text, vec![left, leaf(Rule::operator, op), right])
}

fn expression(source: &str) -> Node {
    JamalParser::parse(Rule::expression, source).unwrap()
}

fn failure(rule: Rule, source: &str) -> SyntaxError {
    JamalParser::parse(rule, source).err().unwrap()
}

#[test]
fn tokens_are_leaves_with_their_text() {
    assert_eq!(JamalParser::parse(Rule::WHITESPACE, " \t\n x"), Ok(leaf(Rule::WHITESPACE, " \t\n ")));
    assert_eq!(JamalParser::parse(Rule::COMMENT, "// a\nb"), Ok(leaf(Rule::COMMENT, "// a")));
    assert_eq!(JamalParser::parse(Rule::COMMENT, "/* a */ b"), Ok(leaf(Rule::COMMENT, "/* a */")));
    assert_eq!(JamalParser::parse(Rule::COMMENT, "/**/"), Ok(leaf(Rule::COMMENT, "/**/")));
    assert_eq!(JamalParser::parse(Rule::integer, "-12ab"), Ok(leaf(Rule::integer, "-12")));
    assert_eq!(JamalParser::parse(Rule::integer, "12e3"), Ok(leaf(Rule::integer, "12")));
    assert_eq!(JamalParser::parse(Rule::float, "12e3"), Ok(leaf(Rule::float, "12e3")));
    assert_eq!(JamalParser::parse(Rule::float, "1.5.2"), Ok(leaf(Rule::float, "1.5")));
    assert_eq!(JamalParser::parse(Rule::float, "7."), Ok(leaf(Rule::float, "7")));
    assert_eq!(JamalParser::parse(Rule::float, "7e"), Ok(leaf(Rule::float, "7")));
    assert_eq!(JamalParser::parse(Rule::float, "-.5e-2x"), Ok(leaf(Rule::float, "-.5e-2")));
    assert_eq!(JamalParser::parse(Rule::string, "'a' 'b'"), Ok(leaf(Rule::string, "'a'")));
    assert_eq!(JamalParser::parse(Rule::string, "\"it's\""), Ok(leaf(Rule::string, "\"it's\"")));
    assert_eq!(JamalParser::parse(Rule::boolean, "true;"), Ok(leaf(Rule::boolean, "true")));
    assert_eq!(JamalParser::parse(Rule::operator, "&&&"), Ok(leaf(Rule::operator, "&&")));
    assert_eq!(JamalParser::parse(Rule::operator, "=="), Ok(leaf(Rule::operator, "==")));
    assert_eq!(JamalParser::parse(Rule::object, "a_1 b"), Ok(leaf(Rule::object, "a_1")));
    assert_eq!(JamalParser::parse(Rule::object, "_x"), Ok(leaf(Rule::object, "_x")));
    assert_eq!(JamalParser::parse(Rule::object, "letter"), Ok(leaf(Rule::object, "letter")));
    assert_eq!(JamalParser::parse(Rule::object, "truest"), Ok(leaf(Rule::object, "truest")));
    assert_eq!(JamalParser::parse(Rule::keyword, "const x"), Ok(leaf(Rule::keyword, "const")));
}

#[test]
fn tokens_that_do_not_match_fail_at_the_start() {
    assert_eq!(failure(Rule::integer, "x"), SyntaxError { position: 0, expected: Rule::integer });
    assert_eq!(failure(Rule::integer, "2147483648"), SyntaxError { position: 0, expected: Rule::integer });
    assert_eq!(failure(Rule::integer, "-2147483649"), SyntaxError { position: 0, expected: Rule::integer });
    assert_eq!(failure(Rule::string, "\"open"), SyntaxError { position: 0, expected: Rule::string });
    assert_eq!(failure(Rule::string, "\"mixed'"), SyntaxError { position: 0, expected: Rule::string });
    assert_eq!(failure(Rule::COMMENT, "/* open"), SyntaxError { position: 0, expected: Rule::COMMENT });
    assert_eq!(failure(Rule::COMMENT, "/ / a"), SyntaxError { position: 0, expected: Rule::COMMENT });
    assert_eq!(failure(Rule::boolean, "truest"), SyntaxError { position: 0, expected: Rule::boolean });
    assert_eq!(failure(Rule::keyword, "letter"), SyntaxError { position: 0, expected: Rule::keyword });
    assert_eq!(failure(Rule::keyword, "Var"), SyntaxError { position: 0, expected: Rule::keyword });
    assert_eq!(failure(Rule::object, "var"), SyntaxError { position: 0, expected: Rule::object });
    assert_eq!(failure(Rule::object, "const"), SyntaxError { position: 0, expected: Rule::object });
    assert_eq!(failure(Rule::object, "_"), SyntaxError { position: 0, expected: Rule::object });
    assert_eq!(failure(Rule::object, " a"), SyntaxError { position: 0, expected: Rule::object });
    assert_eq!(failure(Rule::operator, "="), SyntaxError { position: 0, expected: Rule::operator });
    assert_eq!(failure(Rule::operator, "!"), SyntaxError { position: 0, expected: Rule::operator });
    assert_eq!(failure(Rule::literal, "x"), SyntaxError { position: 0, expected: Rule::literal });
    assert_eq!(failure(Rule::expression, ")"), SyntaxError { position: 0, expected: Rule::expression });
    assert_eq!(failure(Rule::expression, "(1"), SyntaxError { position: 0, expected: Rule::expression });
    assert_eq!(failure(Rule::expression, "()"), SyntaxError { position: 0, expected: Rule::expression });
    assert_eq!(failure(Rule::expression, "99999999999"), SyntaxError { position: 0, expected: Rule::expression });
    assert_eq!(failure(Rule::assignment, "a == 1"), SyntaxError { position: 0, expected: Rule::assignment });
    assert_eq!(failure(Rule::assignment, "let = 1"), SyntaxError { position: 0, expected: Rule::assignment });
    assert_eq!(failure(Rule::assignment, "let let = 1"), SyntaxError { position: 0, expected: Rule::assignment });
    assert_eq!(failure(Rule::statement, "a = 1"), SyntaxError { position: 0, expected: Rule::statement });
    assert_eq!(failure(Rule::statement, ";"), SyntaxError { position: 0, expected: Rule::statement });
}

#[test]
fn literals_hold_one_token() {
    assert_eq!(
        JamalParser::parse(Rule::literal, "12"),
        Ok(node(Rule::literal, "12", vec![leaf(Rule::integer, "12")]))
    );
    assert_eq!(
        JamalParser::parse(Rule::literal, "12.5"),
        Ok(node(Rule::literal, "12.5", vec![leaf(Rule::float, "12.5")]))
    );
    assert_eq!(
        JamalParser::parse(Rule::literal, "1e2"),
        Ok(node(Rule::literal, "1e2", vec![leaf(Rule::float, "1e2")]))
    );
    assert_eq!(
        JamalParser::parse(Rule::literal, "'s'"),
        Ok(node(Rule::literal, "'s'", vec![leaf(Rule::string, "'s'")]))
    );
    assert_eq!(
        JamalParser::parse(Rule::literal, "false"),
        Ok(node(Rule::literal, "false", vec![leaf(Rule::boolean, "false")]))
    );
}

#[test]
fn operands_are_expression_nodes() {
    assert_eq!(expression("7"), whole("7"));
    assert_eq!(expression("x"), name("x"));
    assert_eq!(expression("( x )"), node(Rule::expression, "( x )", vec![name("x")]));
    assert_eq!(
        expression("((x))"),
        node(Rule::expression, "((x))", vec![node(Rule::expression, "(x)", vec![name("x")])])
    );
    assert_eq!(expression("x y"), name("x"));
    assert_eq!(expression("x +"), name("x"));
    assert_eq!(expression("x + )"), name("x"));
}

#[test]
fn tighter_operators_lie_deeper() {
    assert_eq!(
        expression("1 + 2 * 3"),
        binary("1 + 2 * 3", whole("1"), "+", binary("2 * 3", whole("2"), "*", whole("3")))
    );
    assert_eq!(
        expression("1 * 2 + 3"),
        binary("1 * 2 + 3", binary("1 * 2", whole("1"), "*", whole("2")), "+", whole("3"))
    );
    assert_eq!(
        expression("a || b && c == d + e * f ^ g"),
        binary(
            "a || b && c == d + e * f ^ g",
            binary("a || b", name("a"), "||", name("b")),
            "&&",
            binary(
                "c == d + e * f ^ g",
                name("c"),
                "==",
                binary(
                    "d + e * f ^ g",
                    name("d"),
                    "+",
                    binary("e * f ^ g", name("e"), "*", binary("f ^ g", name("f"), "^", name("g"))),
                ),
            ),
        )
    );
}

#[test]
fn operators_group_to_the_left_but_the_power() {
    assert_eq!(
        expression("1 - 2 - 3"),
        binary("1 - 2 - 3", binary("1 - 2", whole("1"), "-", whole("2")), "-", whole("3"))
    );
    assert_eq!(
        expression("1 / 2 % 3"),
        binary("1 / 2 % 3", binary("1 / 2", whole("1"), "/", whole("2")), "%", whole("3"))
    );
    assert_eq!(
        expression("a == b != c"),
        binary("a == b != c", binary("a == b", name("a"), "==", name("b")), "!=", name("c"))
    );
    assert_eq!(
        expression("1 ^ 2 ^ 3"),
        binary("1 ^ 2 ^ 3", whole("1"), "^", binary("2 ^ 3", whole("2"), "^", whole("3")))
    );
    assert_eq!(
        expression("1^2*3"),
        binary("1^2*3", binary("1^2", whole("1"), "^", whole("2")), "*", whole("3"))
    );
}

#[test]
fn parentheses_shape_the_tree() {
    let group = node(
        Rule::expression,
        "(1 + 2)",
        vec![binary("1 + 2", whole("1"), "+", whole("2"))],
    );
    assert_eq!(expression("(1 + 2) * 3"), binary("(1 + 2) * 3", group, "*", whole("3")));
}

#[test]
fn comments_stand_between_tokens() {
    assert_eq!(
        expression("1 /* one */ + // and\n 2"),
        binary("1 /* one */ + // and\n 2", whole("1"), "+", whole("2"))
    );
}

#[test]
fn assignments_hold_keyword_name_and_value() {
    assert_eq!(
        JamalParser::parse(Rule::assignment, "var  a = 1 ;"),
        Ok(node(
            Rule::assignment,
            "var  a = 1",
            vec![leaf(Rule::keyword, "var"), leaf(Rule::object, "a"), whole("1")],
        ))
    );
    assert_eq!(
        JamalParser::parse(Rule::assignment, "a=b"),
        Ok(node(Rule::assignment, "a=b", vec![leaf(Rule::object, "a"), name("b")]))
    );
    assert_eq!(
        JamalParser::parse(Rule::assignment, "letter = 1"),
        Ok(node(Rule::assignment, "letter = 1", vec![leaf(Rule::object, "letter"), whole("1")]))
    );
}

#[test]
fn statements_end_with_a_semicolon() {
    assert_eq!(
        JamalParser::parse(Rule::statement, "a == 1 ; b"),
        Ok(node(
            Rule::statement,
            "a == 1 ;",
            vec![binary("a == 1", name("a"), "==", whole("1"))],
        ))
    );
    assert_eq!(
        JamalParser::parse(Rule::statement, "a = 1;"),
        Ok(node(
            Rule::statement,
            "a = 1;",
            vec![node(Rule::assignment, "a = 1", vec![leaf(Rule::object, "a"), whole("1")])],
        ))
    );
}

#[test]
fn files_hold_their_statements() {
    let source = " a = 1; // set\n b; ";
    assert_eq!(
        JamalParser::parse(Rule::file, source),
        Ok(node(
            Rule::file,
            source,
            vec![
                node(
                    Rule::statement,
                    "a = 1;",
                    vec![node(Rule::assignment, "a = 1", vec![leaf(Rule::object, "a"), whole("1")])],
                ),
                node(Rule::statement, "b;", vec![name("b")]),
            ],
        ))
    );
    assert_eq!(JamalParser::parse(Rule::file, ""), Ok(leaf(Rule::file, "")));
    assert_eq!(JamalParser::parse(Rule::file, " \n"), Ok(leaf(Rule::file, " \n")));
}

#[test]
fn files_fail_where_no_statement_starts() {
    assert_eq!(failure(Rule::file, "a"), SyntaxError { position: 0, expected: Rule::statement });
    assert_eq!(failure(Rule::file, "a; b"), SyntaxError { position: 3, expected: Rule::statement });
    assert_eq!(failure(Rule::file, "a;; b;"), SyntaxError { position: 2, expected: Rule::statement });
    assert_eq!(failure(Rule::file, "a; /* open"), SyntaxError { position: 3, expected: Rule::statement });
    assert_eq!(failure(Rule::file, "日本 = 1;"), SyntaxError { position: 0, expected: Rule::statement });
    assert_eq!(failure(Rule::file, "a = '日本'; ?"), SyntaxError { position: 10, expected: Rule::statement });
}

#[test]
fn rules_parse_from_any_position() {
    let source = "ab + (cd)";
    let chars: Vec<char> = source.chars().collect();
    assert_eq!(parse_atom(source, &chars, 0), Some((name("ab"), 2)));
    assert_eq!(parse_atom(source, &chars, 1), Some((name("b"), 2)));
    assert_eq!(parse_atom(source, &chars, 2), None);
    assert_eq!(
        parse_atom(source, &chars, 5),
        Some((node(Rule::expression, "(cd)", vec![name("cd")]), 9))
    );
    assert_eq!(parse_atom(source, &chars, 9), None);
    assert_eq!(
        parse_expression(source, &chars, 1),
        Some((
            binary("b + (cd)", name("b"), "+", node(Rule::expression, "(cd)", vec![name("cd")])),
            9,
        ))
    );
    assert_eq!(parse_literal(source, &chars, 0), None);
    assert_eq!(parse_statement(source, &chars, 0), None);
}

#[test]
fn bindings_follow_the_table() {
    assert_eq!(binding_of(Operator::And), 1);
    assert_eq!(binding_of(Operator::Or), 1);
    assert_eq!(binding_of(Operator::Eq), 2);
    assert_eq!(binding_of(Operator::Ne), 2);
    assert_eq!(binding_of(Operator::Add), 3);
    assert_eq!(binding_of(Operator::Sub), 3);
    assert_eq!(binding_of(Operator::Mul), 4);
    assert_eq!(binding_of(Operator::Div), 4);
    assert_eq!(binding_of(Operator::Mod), 4);
    assert_eq!(binding_of(Operator::Pow), 5);
}
