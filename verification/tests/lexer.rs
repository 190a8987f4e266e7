use jamal::arith::{add_wrapping, div_wrapping, mul_wrapping, pow_wrapping, rem_wrapping, sub_wrapping};
use jamal::lexer::{
    holds_pair, scan_boolean, scan_close, scan_comment, scan_digits, scan_exponent, scan_float,
    scan_integer, scan_keyword, scan_mantissa, scan_object, scan_operator, scan_sign,
    scan_string, scan_until, scan_whitespace, scan_word, skip,
};
use jamal::literal::{chars_of, is_blank, is_digit, is_letter, is_word_char, read_int};
use jamal::text::{render_bool, render_int, render_null};
use jamal::unit::is_zero;
use jamal::words::{keyword_at, operator_at, spells, truth_at};
use jamal::{Keyword, Operator, Primitive, ScopeTree};

fn chars(s: &str) -> Vec<char> {
    s.chars().collect()
}

#[test]
fn characters_are_classified() {
    assert!(is_digit('0') && is_digit('9') && !is_digit('a') && !is_digit('/') && !is_digit(':'));
    assert!(is_letter('a') && is_letter('z') && is_letter('A') && is_letter('Z'));
    assert!(!is_letter('_') && !is_letter('1') && !is_letter('é') && !is_letter('['));
    assert!(is_word_char('_') && is_word_char('a') && is_word_char('5') && !is_word_char('-'));
    assert!(is_blank(' ') && is_blank('\t') && is_blank('\n') && is_blank('\r') && !is_blank('x'));
}

#[test]
fn text_becomes_characters() {
    assert_eq!(chars_of("aé日"), vec!['a', 'é', '日']);
    assert_eq!(chars_of(""), Vec::<char>::new());
}

#[test]
fn integers_are_read_in_range() {
    let read = |s: &str| read_int(&chars(s), 0, s.chars().count());
    assert_eq!(read("0"), Some(0));
    assert_eq!(read("007"), Some(7));
    assert_eq!(read("+15"), Some(15));
    assert_eq!(read("-15"), Some(-15));
    assert_eq!(read("-0"), Some(0));
    assert_eq!(read("2147483647"), Some(i32::MAX));
    assert_eq!(read("2147483648"), None);
    assert_eq!(read("-2147483648"), Some(i32::MIN));
    assert_eq!(read("-2147483649"), None);
    assert_eq!(read("00000000000000000000000000000042"), Some(42));
    assert_eq!(read("99999999999999999999999999999999"), None);
    assert_eq!(read(""), None);
    assert_eq!(read("-"), None);
    assert_eq!(read("1a"), None);
    assert_eq!(read("--1"), None);
    assert_eq!(read_int(&chars("a12b"), 1, 3), Some(12));
}

#[test]
fn runs_end_where_they_should() {
    let source = chars("123abc_ \t x");
    assert_eq!(scan_digits(&source, 0), 3);
    assert_eq!(scan_digits(&source, 3), 3);
    assert_eq!(scan_word(&source, 0), 7);
    assert_eq!(scan_word(&source, 7), 7);
    assert_eq!(scan_until(&source, 0, 'c'), 5);
    assert_eq!(scan_until(&source, 0, '?'), 11);
    assert_eq!(scan_whitespace(&source, 7), Some(10));
    assert_eq!(scan_whitespace(&source, 0), None);
    assert_eq!(scan_sign(&chars("+1"), 0), 1);
    assert_eq!(scan_sign(&chars("1"), 0), 0);
    assert_eq!(scan_sign(&chars(""), 0), 0);
    assert!(holds_pair(&chars("a=="), 1, '=', '=') && !holds_pair(&chars("a=="), 2, '=', '='));
}

#[test]
fn comments_and_blank_space_are_skipped() {
    assert_eq!(scan_comment(&chars("// x\ny"), 0), Some(4));
    assert_eq!(scan_comment(&chars("/* x */y"), 0), Some(7));
    assert_eq!(scan_comment(&chars("/*/ y"), 0), None);
    assert_eq!(scan_comment(&chars("/ * x */"), 0), None);
    assert_eq!(scan_close(&chars("a*/b*/"), 0), Some(3));
    assert_eq!(scan_close(&chars("a*"), 0), None);
    assert_eq!(skip(&chars("  // a\n /* b */\t x"), 0), 17);
    assert_eq!(skip(&chars("x"), 0), 0);
    assert_eq!(skip(&chars(" /* open"), 0), 1);
    assert_eq!(skip(&chars(""), 0), 0);
}

#[test]
fn numbers_are_scanned() {
    assert_eq!(scan_integer(&chars("12+3"), 0), Some(2));
    assert_eq!(scan_integer(&chars("+"), 0), None);
    assert_eq!(scan_mantissa(&chars("12.5e1"), 0), Some(4));
    assert_eq!(scan_mantissa(&chars(".5"), 0), Some(2));
    assert_eq!(scan_mantissa(&chars("12."), 0), Some(2));
    assert_eq!(scan_mantissa(&chars("."), 0), None);
    assert_eq!(scan_exponent(&chars("e-12x"), 0), Some(4));
    assert_eq!(scan_exponent(&chars("e+"), 0), None);
    assert_eq!(scan_exponent(&chars("E1"), 0), None);
    assert_eq!(scan_float(&chars("-12.5e+3;"), 0), Some(8));
    assert_eq!(scan_float(&chars("99999999999999999999"), 0), Some(20));
    assert_eq!(scan_float(&chars("-"), 0), None);
}

#[test]
fn words_are_scanned() {
    assert_eq!(scan_string(&chars("'a\"b' c"), 0), Some(5));
    assert_eq!(scan_string(&chars("''"), 0), Some(2));
    assert_eq!(scan_string(&chars("'"), 0), None);
    assert_eq!(scan_boolean(&chars("false)"), 0), Some(5));
    assert_eq!(scan_boolean(&chars("false_"), 0), None);
    assert_eq!(scan_keyword(&chars("let x"), 0), Some(3));
    assert_eq!(scan_keyword(&chars("lets x"), 0), None);
    assert_eq!(scan_object(&chars("lets x"), 0), Some(4));
    assert_eq!(scan_object(&chars("__a__"), 0), Some(5));
    assert_eq!(scan_object(&chars("__"), 0), None);
    assert_eq!(scan_object(&chars("9a"), 0), None);
    assert_eq!(scan_operator(&chars("!=="), 0), Some(2));
    assert_eq!(scan_operator(&chars("%"), 0), Some(1));
    assert_eq!(scan_operator(&chars("=1"), 0), None);
    let source = chars("x var true ||");
    assert!(spells(&source, 2, 5, "var") && !spells(&source, 2, 6, "var"));
    assert_eq!(keyword_at(&source, 2, 5), Some(Keyword::Var));
    assert_eq!(keyword_at(&source, 0, 1), None);
    assert_eq!(truth_at(&source, 6, 10), Some(true));
    assert_eq!(operator_at(&source, 11, 13), Some(Operator::Or));
    assert_eq!(operator_at(&source, 11, 12), None);
}

#[test]
fn values_are_rendered() {
    assert_eq!(render_int(0), "0");
    assert_eq!(render_int(9), "9");
    assert_eq!(render_int(10), "10");
    assert_eq!(render_int(-1), "-1");
    assert_eq!(render_int(1234567890), "1234567890");
    assert_eq!(render_int(i32::MIN), "-2147483648");
    assert_eq!(render_bool(true), "true");
    assert_eq!(render_bool(false), "false");
    assert_eq!(render_null(), "null");
}

#[test]
fn wrapping_arithmetic() {
    assert_eq!(add_wrapping(2, 3), 5);
    assert_eq!(add_wrapping(i32::MAX, i32::MAX), -2);
    assert_eq!(sub_wrapping(i32::MIN, i32::MAX), 1);
    assert_eq!(mul_wrapping(-4, 5), -20);
    assert_eq!(mul_wrapping(i32::MIN, -1), i32::MIN);
    assert_eq!(div_wrapping(-9, 4), -2);
    assert_eq!(div_wrapping(9, -4), -2);
    assert_eq!(div_wrapping(-9, -4), 2);
    assert_eq!(rem_wrapping(-9, 4), -1);
    assert_eq!(rem_wrapping(9, -4), 1);
    assert_eq!(rem_wrapping(-9, -4), -1);
    assert_eq!(pow_wrapping(3, 4), 81);
    assert_eq!(pow_wrapping(-2, 31), i32::MIN);
    assert_eq!(pow_wrapping(-1, u32::MAX), -1);
    assert_eq!(pow_wrapping(5, 100), 5i32.wrapping_pow(100));
    assert_eq!(pow_wrapping(0, 0), 1);
}

#[test]
fn zeroes_are_told_apart_from_other_floats() {
    assert!(is_zero(0.0f32.to_bits()));
    assert!(is_zero((-0.0f32).to_bits()));
    assert!(!is_zero(1.0f32.to_bits()));
    assert!(!is_zero(f32::MIN_POSITIVE.to_bits()));
    assert!(!is_zero(f32::NAN.to_bits()));
}

#[test]
fn scopes_know_their_relatives() {
    let mut tree = ScopeTree::create_root();
    let a = tree.create_child(0);
    let b = tree.create_child(0);
    let c = tree.create_child(a);
    assert_eq!((a, b, c), (1, 2, 3));
    assert_eq!(tree.parent_of(0), None);
    assert_eq!(tree.parent_of(a), Some(0));
    assert_eq!(tree.parent_of(c), Some(a));
    assert_eq!(tree.children_of(0), vec![a, b]);
    assert_eq!(tree.children_of(a), vec![c]);
    assert_eq!(tree.children_of(b), Vec::<usize>::new());
    assert_eq!(tree.declare(a, "x", Primitive::Null, true), Ok(()));
    assert!(tree.binds(a, "x"));
    assert!(!tree.binds(c, "x"));
    assert!(!tree.binds(0, "x"));
}
