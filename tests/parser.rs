use mgrep::parser::parse;
use mgrep::search_condition::SearchCondition;
use mgrep::value::{Op, Value};

#[test]
fn test_parser() {
    assert_eq!(
        parse(
            "test | \
             'ignore_case(test)' | \
             test2 | \
             number() | \
             number() == 10 | \
             number() == env.PATH_NAME | \
             number() != 10 | \
             number() > 10 | \
             number() >= 10 | \
             number() < 10 | \
             number() <= 10 | \
             line.length() == 10 | \
             line.length() != 10 | \
             line.length() > 10 | \
             line.length() >= 10 | \
             line.length() < 10 | \
             line.length() <= 10 | \
             line.bytelength() == 10 | \
             line.bytelength() != 10 | \
             line.bytelength() > 10 | \
             line.bytelength() >= 10 | \
             line.bytelength() < 10 | \
             line.bytelength() <= 10 | \
             line.contains(test) | \
             line.regex(test) | \
             line.starts_with(test) | \
             line.ends_with(test) | \
             line.invert_match(test) | \
             line.invert_match_regex(test) | \
             contains(test) | \
             ignore_case(test) | \
             regex(test) | \
             whole_word(test) | \
             starts_with(test) | \
             ends_with(test) | \
             invert_match(test) | \
             invert_match_regex(test) | \
             replace(from, to) | \
             camel_case() | \
             kebab_case() | \
             snake_case() | \
             trim_end() | \
             trim_start() | \
             trim() | \
             lower_case() | \
             constant() | \
             upper_case() | \
             upper_camel_case() | \
             upper_kebab_case() | \
             upper_snake_case() | \
             insert(1, $) | \
             update(value) | \
             delete(1, 3) | \
             test"
        )
        .unwrap(),
        vec![
            SearchCondition::Exact("test".to_string()),
            SearchCondition::Exact("ignore_case(test)".to_string()),
            SearchCondition::Exact("test2".to_string()),
            SearchCondition::Number(None),
            SearchCondition::Number(Some(Op::Eq(Value::Num(10)))),
            SearchCondition::Number(Some(Op::Eq(Value::Env("PATH_NAME".to_string())))),
            SearchCondition::Number(Some(Op::Ne(Value::Num(10)))),
            SearchCondition::Number(Some(Op::Gt(Value::Num(10)))),
            SearchCondition::Number(Some(Op::Gte(Value::Num(10)))),
            SearchCondition::Number(Some(Op::Lt(Value::Num(10)))),
            SearchCondition::Number(Some(Op::Lte(Value::Num(10)))),
            SearchCondition::LineLength(Some(Op::Eq(Value::Num(10)))),
            SearchCondition::LineLength(Some(Op::Ne(Value::Num(10)))),
            SearchCondition::LineLength(Some(Op::Gt(Value::Num(10)))),
            SearchCondition::LineLength(Some(Op::Gte(Value::Num(10)))),
            SearchCondition::LineLength(Some(Op::Lt(Value::Num(10)))),
            SearchCondition::LineLength(Some(Op::Lte(Value::Num(10)))),
            SearchCondition::LineByteLength(Some(Op::Eq(Value::Num(10)))),
            SearchCondition::LineByteLength(Some(Op::Ne(Value::Num(10)))),
            SearchCondition::LineByteLength(Some(Op::Gt(Value::Num(10)))),
            SearchCondition::LineByteLength(Some(Op::Gte(Value::Num(10)))),
            SearchCondition::LineByteLength(Some(Op::Lt(Value::Num(10)))),
            SearchCondition::LineByteLength(Some(Op::Lte(Value::Num(10)))),
            SearchCondition::LineContains("test".to_string()),
            SearchCondition::LineRegex("test".to_string()),
            SearchCondition::LineStartsWith("test".to_string()),
            SearchCondition::LineEndsWith("test".to_string()),
            SearchCondition::LineInvertMatch("test".to_string()),
            SearchCondition::LineInvertMatchRegex("test".to_string()),
            SearchCondition::Contains("test".to_string()),
            SearchCondition::IgnoreCase("test".to_string()),
            SearchCondition::Regex("test".to_string()),
            SearchCondition::WholeWord("test".to_string()),
            SearchCondition::StartsWith("test".to_string()),
            SearchCondition::EndsWith("test".to_string()),
            SearchCondition::InvertMatch("test".to_string()),
            SearchCondition::InvertMatchRegex("test".to_string()),
            SearchCondition::Replace("from".to_string(), "to".to_string()),
            SearchCondition::CamelCase,
            SearchCondition::KebabCase,
            SearchCondition::SnakeCase,
            SearchCondition::TrimEnd,
            SearchCondition::TrimStart,
            SearchCondition::Trim,
            SearchCondition::LowerCase,
            SearchCondition::Constant,
            SearchCondition::UpperCase,
            SearchCondition::UpperCamelCase,
            SearchCondition::UpperKebabCase,
            SearchCondition::UpperSnakeCase,
            SearchCondition::Insert(1, "$".to_string()),
            SearchCondition::Update("value".to_string()),
            SearchCondition::Delete(1, 3),
            SearchCondition::Exact("test".to_string()),
        ]
    );
}

#[test]
fn parse_reports_a_bad_pattern() {
    assert!(parse("foo | regex(++)").is_err());
    let partial = parse("foo | regex(++) | bar").unwrap_err();
    assert_eq!(partial.conditions, vec![
        SearchCondition::Exact("foo".to_string()),
        SearchCondition::Exact("bar".to_string()),
    ]);
    assert_eq!(partial.failed, vec![1]);
    let each = mgrep::parser::parse_each("foo | regex(++) | bar");
    assert_eq!(each.len(), 3);
    assert!(each[0].is_ok());
    assert!(each[1].is_err());
    assert_eq!(each[2].clone().unwrap(), SearchCondition::Exact("bar".to_string()));
}

#[test]
fn parse_edge_cases() {
    assert_eq!(parse("").unwrap(), vec![]);
    assert_eq!(parse("  a  |  | b ").unwrap(), vec![
        SearchCondition::Exact("a".to_string()),
        SearchCondition::Exact("b".to_string()),
    ]);
    assert_eq!(parse("'a|b' | c").unwrap(), vec![
        SearchCondition::Exact("a|b".to_string()),
        SearchCondition::Exact("c".to_string()),
    ]);
    assert_eq!(parse("line.length()").unwrap(), vec![SearchCondition::LineLength(None)]);
    assert_eq!(parse("ts() | te()").unwrap(), vec![SearchCondition::TrimStart, SearchCondition::TrimEnd]);
    assert_eq!(parse("ignore_case(x) y").unwrap(), vec![SearchCondition::Exact("ignore_case(x) y".to_string())]);
    assert_eq!(parse("replace(a)").unwrap(), vec![SearchCondition::Replace("a".to_string(), "".to_string())]);
    assert_eq!(
        parse("number() > abc").unwrap(),
        vec![SearchCondition::Number(Some(Op::Gt(Value::Str("abc".to_string()))))]
    );
}
