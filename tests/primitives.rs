use mgrep::filter::{Contains, EndsWith, Filter, InvertMatch, InvertMatchRegex, Length, Regex as RegexFilter, StartsWith};
use mgrep::matcher::{Exact, IgnoreCase, Matcher, Number, Regex, WholeWord};
use mgrep::transform::{
    CamelCase, Delete, Insert, KebabCase, LowerCase, Replace, SnakeCase, Transform, Trim, TrimEnd,
    TrimStart, Update, UpperCamelCase, UpperCase, UpperKebabCase, UpperSnakeCase,
};
use mgrep::value::{Op, Value};
use std::ops::Range;

fn r(s: &str, start: usize, end: usize) -> (String, Range<usize>) {
    (s.to_string(), Range { start, end })
}

#[test]
fn exact_finds_every_occurrence() {
    assert_eq!(Exact::new("test".to_string()).find("test_test_string"), vec![r("test", 0, 4), r("test", 5, 9)]);
    assert_eq!(Exact::new("t".to_string()).find("test_string"), vec![r("t", 0, 1), r("t", 3, 4), r("t", 6, 7)]);
    assert_eq!(Exact::new("Test".to_string()).find("test_string"), vec![]);
    assert_eq!(Exact::new("aa".to_string()).find("aaa"), vec![r("aa", 0, 2)]);
}

#[test]
fn ignore_case_finds_whatever_the_case() {
    assert_eq!(IgnoreCase::new("test".to_string()).find("test_TEST_string"), vec![r("test", 0, 4), r("test", 5, 9)]);
    assert_eq!(IgnoreCase::new("string".to_string()).find("test_string"), vec![r("string", 5, 11)]);
    assert_eq!(IgnoreCase::new("TEST".to_string()).find("test_string"), vec![r("TEST", 0, 4)]);
    assert_eq!(IgnoreCase::new("TEt".to_string()).find("test_string"), vec![]);
}

#[test]
fn ignore_case_ranges_index_the_searched_text() {
    // capital sharp s is three bytes, its lowercase two
    assert_eq!(IgnoreCase::new("\u{df}".to_string()).find("x\u{1e9e}y"), vec![r("\u{df}", 1, 4)]);
    // dotted capital I lowercases to two characters
    assert_eq!(IgnoreCase::new("i\u{307}".to_string()).find("a\u{130}b"), vec![r("i\u{307}", 1, 3)]);
    assert_eq!(IgnoreCase::new("".to_string()).find("abc"), vec![]);
}

#[test]
fn whole_word_finds_words() {
    assert_eq!(WholeWord::new("test".to_string()).unwrap().find("test string"), vec![r("test", 0, 4)]);
    assert_eq!(WholeWord::new("string".to_string()).unwrap().find("test string"), vec![r("string", 5, 11)]);
    assert_eq!(WholeWord::new("test".to_string()).unwrap().find("testa_string"), vec![]);
    // the keyword is escaped: a dot matches only a dot
    assert_eq!(WholeWord::new("a.b".to_string()).unwrap().find("axb a.b"), vec![r("a.b", 4, 7)]);
    assert_eq!(WholeWord::new("x+y".to_string()).unwrap().find("xxy x+y"), vec![r("x+y", 4, 7)]);
    assert!(WholeWord::new("(a|b)*".to_string()).unwrap().find("ab").is_empty());
}

#[test]
fn regex_finds_matches() {
    assert_eq!(Regex::new("te.t".to_string()).unwrap().find("test_test_string"), vec![r("test", 0, 4), r("test", 5, 9)]);
    assert_eq!(Regex::new("te.+".to_string()).unwrap().find("tst_string"), vec![]);
    assert!(Regex::new("++".to_string()).is_err());
}

#[test]
fn number_finds_numbers_that_compare() {
    let cases: Vec<(&str, Op, Vec<(String, Range<usize>)>)> = vec![
        ("test1234", Op::Eq(Value::Num(1234)), vec![r("1234", 4, 8)]),
        ("t1234est", Op::Eq(Value::Num(5)), vec![]),
        ("5test", Op::Ne(Value::Num(1234)), vec![r("5", 0, 1)]),
        ("1234test", Op::Ne(Value::Num(1234)), vec![]),
        ("1test", Op::Gt(Value::Num(0)), vec![r("1", 0, 1)]),
        ("1test", Op::Gt(Value::Num(1)), vec![]),
        ("1test", Op::Gte(Value::Num(1)), vec![r("1", 0, 1)]),
        ("0test", Op::Gte(Value::Num(1)), vec![]),
        ("0test", Op::Lt(Value::Num(1)), vec![r("0", 0, 1)]),
        ("1test", Op::Lt(Value::Num(1)), vec![]),
        ("1test", Op::Lte(Value::Num(1)), vec![r("1", 0, 1)]),
        ("2test", Op::Lte(Value::Num(1)), vec![]),
    ];
    for (text, op, expected) in cases {
        assert_eq!(Number::new(op).find(text), expected);
    }
    assert_eq!(Number::new(Op::Gt(Value::Num(10))).find("price=12"), vec![r("12", 6, 8)]);
    assert_eq!(Number::new(Op::Gte(Value::Num(0))).find("a007b99999999999999999999999c3"), vec![r("007", 1, 4), r("3", 29, 30)]);
    assert_eq!(Number::new(Op::Gt(Value::Env("X".to_string()))).find("5"), vec![]);
}

#[test]
fn keyword_filters() {
    assert!(Contains::new("test".to_string()).filter("test_string"));
    assert!(Contains::new("string".to_string()).filter("test_string"));
    assert!(!Contains::new("Test".to_string()).filter("test_string"));
    assert!(StartsWith::new("test".to_string()).filter("test_string"));
    assert!(!StartsWith::new("string".to_string()).filter("test_string"));
    assert!(!StartsWith::new("Test".to_string()).filter("test_string"));
    assert!(!EndsWith::new("test".to_string()).filter("test_string"));
    assert!(EndsWith::new("string".to_string()).filter("test_string"));
    assert!(!EndsWith::new("Test".to_string()).filter("test_string"));
    assert!(!InvertMatch::new("test".to_string()).filter("test_string"));
    assert!(!InvertMatch::new("string".to_string()).filter("test_string"));
    assert!(InvertMatch::new("Test".to_string()).filter("test_string"));
}

#[test]
fn regex_filters() {
    assert!(RegexFilter::new("te.t".to_string()).unwrap().filter("test_string"));
    assert!(!RegexFilter::new("te.+".to_string()).unwrap().filter("tst_string"));
    assert!(RegexFilter::new("++".to_string()).is_err());
    assert!(!InvertMatchRegex::new("te.t".to_string()).unwrap().filter("test_string"));
    assert!(InvertMatchRegex::new("te.+".to_string()).unwrap().filter("tst_string"));
    assert!(InvertMatchRegex::new("++".to_string()).is_err());
}

#[test]
fn length_filter() {
    let cases = vec![
        ("123456", Op::Gt(Value::Num(5)), true),
        ("12345", Op::Gt(Value::Num(5)), false),
        ("12345", Op::Gte(Value::Num(5)), true),
        ("1234", Op::Gte(Value::Num(5)), false),
        ("1234", Op::Lt(Value::Num(5)), true),
        ("12345", Op::Lt(Value::Num(5)), false),
        ("12345", Op::Lte(Value::Num(5)), true),
        ("123456", Op::Lte(Value::Num(5)), false),
        ("12345", Op::Eq(Value::Num(5)), true),
        ("1234", Op::Eq(Value::Num(5)), false),
        ("1234", Op::Ne(Value::Num(5)), true),
        ("12345", Op::Ne(Value::Num(5)), false),
        ("\u{3042}", Op::Eq(Value::Num(1)), true),
    ];
    for (text, op, expected) in cases {
        assert_eq!(Length::new(false, op).filter(text), expected);
    }
    assert!(Length::new(true, Op::Eq(Value::Num(3))).filter("\u{3042}"));
    // an operand without a number holds for no length
    assert!(!Length::new(true, Op::Gt(Value::Env("UNSET".to_string()))).filter("a"));
    assert!(!Length::new(true, Op::Lt(Value::Str("x".to_string()))).filter("a"));
}

fn one(s: &str, end: usize) -> Vec<(String, Range<usize>)> {
    vec![r(s, 0, end)]
}

#[test]
fn case_transforms() {
    assert_eq!(CamelCase::new().transform("test_string"), one("testString", 11));
    assert_eq!(CamelCase::new().transform("testString"), one("testString", 10));
    assert_eq!(KebabCase::new().transform("testString"), one("test-string", 10));
    assert_eq!(KebabCase::new().transform("test_string"), one("test-string", 11));
    assert_eq!(SnakeCase::new().transform("testString"), one("test_string", 10));
    assert_eq!(SnakeCase::new().transform("test_string"), one("test_string", 11));
    assert_eq!(UpperCamelCase::new().transform("test_string"), one("TestString", 11));
    assert_eq!(UpperCamelCase::new().transform("testString"), one("TestString", 10));
    assert_eq!(UpperKebabCase::new().transform("testString"), one("TEST-STRING", 10));
    assert_eq!(UpperKebabCase::new().transform("test_string"), one("TEST-STRING", 11));
    assert_eq!(UpperSnakeCase::new().transform("testString"), one("TEST_STRING", 10));
    assert_eq!(UpperSnakeCase::new().transform("test_string"), one("TEST_STRING", 11));
    assert_eq!(LowerCase::new().transform("TEST_STRING"), one("test_string", 11));
    assert_eq!(LowerCase::new().transform("TESTSTRING"), one("teststring", 10));
    assert_eq!(UpperCase::new().transform("hello"), one("HELLO", 5));
}

#[test]
fn trim_transforms() {
    assert_eq!(Trim::new().transform(" test_string"), one("test_string", 12));
    assert_eq!(Trim::new().transform("test_string "), one("test_string", 12));
    assert_eq!(TrimEnd::new().transform("test_string "), one("test_string", 12));
    assert_eq!(TrimEnd::new().transform(" test_string"), one(" test_string", 12));
    assert_eq!(TrimStart::new().transform(" test_string"), one("test_string", 12));
    assert_eq!(TrimStart::new().transform("test_string "), one("test_string ", 12));
}

#[test]
fn edit_transforms() {
    assert_eq!(Replace::new("test".to_string(), "T".to_string()).transform("test_string"), one("T_string", 11));
    assert_eq!(Replace::new("string".to_string(), "".to_string()).transform("test_string"), one("test_", 11));
    assert_eq!(Insert::new(0, "$".to_string()).transform("testString"), one("$testString", 10));
    assert_eq!(Insert::new(4, "T".to_string()).transform("test_string"), one("testT_string", 11));
    // no character boundary at the offset: the text stays
    assert_eq!(Insert::new(20, "T".to_string()).transform("test"), one("test", 4));
    assert_eq!(Insert::new(1, "T".to_string()).transform("\u{3042}"), one("\u{3042}", 3));
    assert_eq!(Delete::new(Range { start: 0, end: 4 }).transform("testString"), one("String", 10));
    assert_eq!(Delete::new(Range { start: 4, end: 11 }).transform("test_string"), one("test", 11));
    assert_eq!(Update::new("update".to_string()).transform("testString"), one("update", 10));
    assert_eq!(Update::new("update".to_string()).transform("test"), one("update", 4));
}

#[test]
fn replace_edges() {
    assert_eq!(Replace::new("".to_string(), "x".to_string()).transform("ab"), one("xaxbx", 2));
    assert_eq!(Replace::new("".to_string(), "x".to_string()).transform(""), one("x", 0));
    assert_eq!(Replace::new("aa".to_string(), "b".to_string()).transform("aaa"), one("ba", 3));
    assert_eq!(
        Replace::new("\u{3042}".to_string(), "a".to_string()).transform("\u{3042}x\u{3042}"),
        one("axa", 7)
    );
}
