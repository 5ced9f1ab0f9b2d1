use mgrep::search::{replace_tabs, split_lines};
use mgrep::value::{parse_usize, usize_to_decimal, Op, Value, ValueError};

#[test]
fn decimal_round_trip() {
    assert_eq!(parse_usize(b"0"), Some(0));
    assert_eq!(parse_usize(b"1234"), Some(1234));
    assert_eq!(parse_usize(b""), None);
    assert_eq!(parse_usize(b"12a"), None);
    assert_eq!(parse_usize(b"99999999999999999999999"), None);
    assert_eq!(usize_to_decimal(0), "0");
    assert_eq!(usize_to_decimal(907), "907");
    assert_eq!(usize_to_decimal(usize::MAX), usize::MAX.to_string());
}

#[test]
fn values_and_comparisons() {
    assert_eq!(Value::Num(4).int_value(), Ok(4));
    assert_eq!(Value::Str("a".to_string()).int_value(), Err(ValueError::NotANumber));
    assert_eq!(Value::Env("X".to_string()).int_value(), Err(ValueError::EnvNotResolved));
    assert_eq!(Value::Env("X".to_string()).resolve(Some("12".to_string())), Value::Num(12));
    assert_eq!(Value::Env("X".to_string()).resolve(Some("no".to_string())), Value::Env("X".to_string()));
    assert_eq!(Value::Env("X".to_string()).resolve(None), Value::Env("X".to_string()));
    assert_eq!(Value::Str("s".to_string()).resolve(Some("1".to_string())), Value::Str("s".to_string()));
    assert_eq!(Value::Num(5).string_value(None), Some("5".to_string()));
    assert_eq!(Value::Env("X".to_string()).to_query(), "env.X");
    assert!(Op::Gte(Value::Num(3)).holds(3));
    assert!(!Op::Lt(Value::Num(3)).holds(3));
    assert!(!Op::Ne(Value::Str("x".to_string())).holds(1));
    assert!(!Op::Eq(Value::Env("X".to_string())).holds(0));
    assert_eq!(Op::Lte(Value::Num(1)).symbol(), "<=");
}

#[test]
fn lines_and_tabs() {
    assert_eq!(split_lines("a\nb\r\nc\n"), vec!["a".to_string(), "b".to_string(), "c".to_string()]);
    assert_eq!(split_lines(""), Vec::<String>::new());
    assert_eq!(split_lines("\n\nx"), vec!["".to_string(), "".to_string(), "x".to_string()]);
    assert_eq!(replace_tabs("\ta\tb"), " a b");
}
