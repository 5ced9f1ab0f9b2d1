use mgrep::search_condition::SearchCondition;
use mgrep::value::{Op, Value};

#[test]
fn test_to_string() {
    assert_eq!(SearchCondition::CamelCase.to_string(), "camel_case()");
    assert_eq!(
        SearchCondition::IgnoreCase("test".to_string()).to_string(),
        "ignore_case(test)"
    );
}

#[test]
fn to_string_of_comparisons_and_arguments() {
    assert_eq!(
        SearchCondition::Number(Some(Op::Gte(Value::Num(10)))).to_string(),
        "number() >= 10"
    );
    assert_eq!(SearchCondition::Number(None).to_string(), "number()");
    assert_eq!(
        SearchCondition::LineLength(Some(Op::Eq(Value::Env("N".to_string())))).to_string(),
        "line.length() == env.N"
    );
    assert_eq!(
        SearchCondition::Replace("a".to_string(), "b".to_string()).to_string(),
        "replace(a, b)"
    );
    assert_eq!(SearchCondition::Insert(3, "x".to_string()).to_string(), "insert(3, x)");
    assert_eq!(SearchCondition::Delete(1, 20).to_string(), "delete(1, 20)");
    assert_eq!(SearchCondition::Exact("foo".to_string()).to_string(), "foo");
    assert_eq!(SearchCondition::Constant.to_string(), "constant()");
}

#[test]
fn roles_are_disjoint() {
    let m = SearchCondition::Regex("a".to_string());
    assert!(m.is_matcher() && !m.is_filter() && !m.is_line_filter() && !m.is_transform());
    let f = SearchCondition::EndsWith("a".to_string());
    assert!(f.is_filter() && !f.is_matcher());
    let l = SearchCondition::LineByteLength(None);
    assert!(l.is_line_filter() && !l.is_filter());
    let t = SearchCondition::Trim;
    assert!(t.is_transform() && !t.is_matcher());
    assert!(t.has_args());
}

#[test]
fn value_of_conditions() {
    assert_eq!(SearchCondition::Exact("a".to_string()).value(), Some("a".to_string()));
    assert_eq!(
        SearchCondition::Number(Some(Op::Lt(Value::Num(7)))).value(),
        Some("7".to_string())
    );
    assert_eq!(SearchCondition::Number(Some(Op::Lt(Value::Env("X".to_string())))).value(), None);
    assert_eq!(
        SearchCondition::Replace("f".to_string(), "t".to_string()).value(),
        Some("f, t".to_string())
    );
    assert_eq!(SearchCondition::Delete(2, 5).value(), Some("2, 5".to_string()));
    assert_eq!(SearchCondition::UpperCase.value(), None);
}

#[test]
fn regex_constructors_check_the_pattern() {
    assert!(SearchCondition::new_regex("te.t").is_ok());
    assert!(SearchCondition::new_regex("++").is_err());
    assert!(SearchCondition::new_line_match_regex("(").is_err());
    assert!(SearchCondition::new_invert_match_regex("a+").is_ok());
    assert!(SearchCondition::new_line_invert_match_regex("[").is_err());
}

#[test]
fn roles_give_primitives() {
    assert!(SearchCondition::Exact("a".to_string()).matcher().is_some());
    assert!(SearchCondition::Number(None).matcher().is_none());
    assert!(SearchCondition::Regex("++".to_string()).matcher().is_none());
    assert!(SearchCondition::Contains("a".to_string()).match_filter().is_some());
    assert!(SearchCondition::Contains("a".to_string()).line_filter().is_none());
    assert!(SearchCondition::LineContains("a".to_string()).line_filter().is_some());
    assert!(SearchCondition::Trim.transform().is_some());
    assert!(SearchCondition::Exact("a".to_string()).transform().is_none());
}
