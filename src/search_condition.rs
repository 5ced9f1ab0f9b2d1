use vstd::prelude::*;
use std::ops::Range;
use crate::filter::{self, AnyFilter, Filter};
use crate::matcher::{
    self, exact_found, ignore_case_found, number_runs_from, run_pieces, spelled, AnyMatcher, Matcher,
};
use crate::pattern::{compiles, regex_finds, word_pattern, PatternError};
use crate::text::{contains_bytes, occurs_at, utf8};
use crate::transform::{self, deleted, inserted, replaced_of, AnyTransform, Transform};
use crate::case::{
    camel_of, kebab_of, lower_of, snake_of, trim_end_of, trim_of, trim_start_of, upper_camel_of,
    upper_kebab_of, upper_of, upper_snake_of,
};
use crate::value::{decimal, op_holds, op_model, op_symbol, op_value, usize_to_decimal, Op, OpModel, Value};

verus! {

pub const NUMBER: &'static str = "number";
pub const CONTAINS: &'static str = "contains";
pub const CONSTANT: &'static str = "constant";
pub const IGNORE_CASE: &'static str = "ignore_case";
pub const WHOLE_WORD: &'static str = "whole_word";
pub const REGEX: &'static str = "regex";
pub const STARTS_WITH: &'static str = "starts_with";
pub const ENDS_WITH: &'static str = "ends_with";
pub const INVERT_MATCH: &'static str = "invert_match";
pub const INVERT_MATCH_REGEX: &'static str = "invert_match_regex";
pub const LINE_REGEX: &'static str = "line.regex";
pub const LINE_STARTS_WITH: &'static str = "line.starts_with";
pub const LINE_ENDS_WITH: &'static str = "line.ends_with";
pub const LINE_INVERT_MATCH: &'static str = "line.invert_match";
pub const LINE_INVERT_MATCH_REGEX: &'static str = "line.invert_match_regex";
pub const LINE_LENGTH: &'static str = "line.length";
pub const LINE_BYTE_LENGTH: &'static str = "line.bytelength";
pub const LINE_CONTAINS: &'static str = "line.contains";
pub const REPLACE: &'static str = "replace";
pub const INSERT: &'static str = "insert";
pub const DELETE: &'static str = "delete";
pub const CAMEL_CASE: &'static str = "camel_case";
pub const KEBAB_CASE: &'static str = "kebab_case";
pub const SNAKE_CASE: &'static str = "snake_case";
pub const TRIM_END: &'static str = "trim_end";
pub const TRIM_START: &'static str = "trim_start";
pub const TRIM: &'static str = "trim";
pub const UPDATE: &'static str = "update";
pub const UPPER_CASE: &'static str = "upper_case";
pub const LOWER_CASE: &'static str = "lower_case";
pub const UPPER_CAMEL_CASE: &'static str = "upper_camel_case";
pub const UPPER_KEBAB_CASE: &'static str = "upper_kebab_case";
pub const UPPER_SNAKE_CASE: &'static str = "upper_snake_case";

/// One step of a search pipeline: a matcher, a match-filter, a line-filter or a
/// transform, with its literal arguments.
#[derive(Clone, Debug, PartialEq)]
pub enum SearchCondition {
    Exact(String),
    IgnoreCase(String),
    Number(Option<Op>),
    WholeWord(String),
    Regex(String),
    Contains(String),
    StartsWith(String),
    EndsWith(String),
    InvertMatch(String),
    InvertMatchRegex(String),
    LineContains(String),
    LineRegex(String),
    LineStartsWith(String),
    LineEndsWith(String),
    LineInvertMatch(String),
    LineInvertMatchRegex(String),
    LineLength(Option<Op>),
    LineByteLength(Option<Op>),
    Replace(String, String),
    Insert(usize, String),
    Delete(usize, usize),
    Update(String),
    CamelCase,
    KebabCase,
    SnakeCase,
    TrimEnd,
    TrimStart,
    Trim,
    Constant,
    LowerCase,
    UpperCase,
    UpperCamelCase,
    UpperKebabCase,
    UpperSnakeCase,
}

/// The condition finds fragments.
pub open spec fn spec_is_matcher(c: SearchCondition) -> bool {
    c is Exact
        || c is IgnoreCase
        || c is Number
        || c is WholeWord
        || c is Regex
}

/// The condition keeps or drops fragments.
pub open spec fn spec_is_filter(c: SearchCondition) -> bool {
    c is Contains
        || c is StartsWith
        || c is EndsWith
        || c is InvertMatch
        || c is InvertMatchRegex
}

/// The condition shows or hides lines.
pub open spec fn spec_is_line_filter(c: SearchCondition) -> bool {
    c is LineContains
        || c is LineRegex
        || c is LineStartsWith
        || c is LineEndsWith
        || c is LineInvertMatch
        || c is LineInvertMatchRegex
        || c is LineLength
        || c is LineByteLength
}

/// The condition rewrites fragments.
pub open spec fn spec_is_transform(c: SearchCondition) -> bool {
    c is Replace
        || c is Insert
        || c is Delete
        || c is Update
        || c is CamelCase
        || c is KebabCase
        || c is SnakeCase
        || c is TrimEnd
        || c is TrimStart
        || c is Trim
        || c is Constant
        || c is LowerCase
        || c is UpperCase
        || c is UpperCamelCase
        || c is UpperKebabCase
        || c is UpperSnakeCase
}

/// What the matcher of a condition reports on `t`; `None` where the condition has
/// no matcher (a number condition without a comparison, a pattern that does not
/// compile, or another role).
pub open spec fn cond_found(c: SearchCondition, t: Seq<char>) -> Option<Seq<(Seq<char>, int, int)>> {
    match c {
        SearchCondition::Exact(s) => Some(exact_found(t, s@)),
        SearchCondition::IgnoreCase(s) => Some(ignore_case_found(t, s@)),
        SearchCondition::WholeWord(s) => if compiles(word_pattern(s@)) {
            Some(regex_finds(word_pattern(s@), t).map_values(|se: (int, int)| (s@, se.0, se.1)))
        } else {
            None
        },
        SearchCondition::Regex(s) => if compiles(s@) {
            Some(spelled(regex_finds(s@, t), t))
        } else {
            None
        },
        SearchCondition::Number(Some(op)) => Some(run_pieces(utf8(t), number_runs_from(utf8(t), op, 0, -1))),
        _ => None,
    }
}

/// What a keyword or pattern filter of the given role says of `t`.
pub open spec fn keyword_accepts(c: SearchCondition, t: Seq<char>) -> Option<bool> {
    match c {
        SearchCondition::Contains(s) => Some(contains_bytes(utf8(t), utf8(s@))),
        SearchCondition::LineContains(s) => Some(contains_bytes(utf8(t), utf8(s@))),
        SearchCondition::StartsWith(s) => Some(occurs_at(utf8(t), utf8(s@), 0)),
        SearchCondition::LineStartsWith(s) => Some(occurs_at(utf8(t), utf8(s@), 0)),
        SearchCondition::EndsWith(s) => Some(filter::ends_with(utf8(t), utf8(s@))),
        SearchCondition::LineEndsWith(s) => Some(filter::ends_with(utf8(t), utf8(s@))),
        SearchCondition::InvertMatch(s) => Some(!contains_bytes(utf8(t), utf8(s@))),
        SearchCondition::LineInvertMatch(s) => Some(!contains_bytes(utf8(t), utf8(s@))),
        SearchCondition::InvertMatchRegex(s) => if compiles(s@) {
            Some(regex_finds(s@, t).len() == 0)
        } else {
            None
        },
        SearchCondition::LineInvertMatchRegex(s) => if compiles(s@) {
            Some(regex_finds(s@, t).len() == 0)
        } else {
            None
        },
        SearchCondition::LineRegex(s) => if compiles(s@) {
            Some(regex_finds(s@, t).len() > 0)
        } else {
            None
        },
        SearchCondition::LineLength(Some(op)) => Some(op_holds(op, t.len())),
        SearchCondition::LineByteLength(Some(op)) => Some(op_holds(op, utf8(t).len())),
        _ => None,
    }
}

/// What the match-filter of a condition says of a fragment's text.
pub open spec fn match_accepts(c: SearchCondition, t: Seq<char>) -> Option<bool> {
    if spec_is_filter(c) {
        keyword_accepts(c, t)
    } else {
        None
    }
}

/// What the line-filter of a condition says of a line's text.
pub open spec fn line_accepts(c: SearchCondition, t: Seq<char>) -> Option<bool> {
    if spec_is_line_filter(c) {
        keyword_accepts(c, t)
    } else {
        None
    }
}

/// What the transform of a condition makes of a fragment's text.
pub open spec fn cond_output(c: SearchCondition, t: Seq<char>) -> Option<Seq<char>> {
    match c {
        SearchCondition::Replace(a, b) => Some(replaced_of(t, a@, b@)),
        SearchCondition::Insert(i, v) => Some(inserted(t, i as int, v@)),
        SearchCondition::Delete(a, b) => Some(deleted(t, a as int, b as int)),
        SearchCondition::Update(v) => Some(v@),
        SearchCondition::CamelCase => Some(camel_of(t)),
        SearchCondition::KebabCase => Some(kebab_of(t)),
        SearchCondition::SnakeCase => Some(snake_of(t)),
        SearchCondition::TrimEnd => Some(trim_end_of(t)),
        SearchCondition::TrimStart => Some(trim_start_of(t)),
        SearchCondition::Trim => Some(trim_of(t)),
        SearchCondition::Constant => Some(upper_snake_of(t)),
        SearchCondition::LowerCase => Some(lower_of(t)),
        SearchCondition::UpperCase => Some(upper_of(t)),
        SearchCondition::UpperCamelCase => Some(upper_camel_of(t)),
        SearchCondition::UpperKebabCase => Some(upper_kebab_of(t)),
        SearchCondition::UpperSnakeCase => Some(upper_snake_of(t)),
        _ => None,
    }
}

/// The text that a query writes for a value.
pub open spec fn value_text(v: Value) -> Seq<char> {
    match v {
        Value::Str(s) => s@,
        Value::Num(n) => decimal(n as nat),
        Value::Env(e) => seq!['e', 'n', 'v', '.'] + e@,
    }
}

/// `name()`, followed by the comparison where there is one.
pub open spec fn compare_text(name: Seq<char>, op: Option<Op>) -> Seq<char> {
    match op {
        Some(o) => name + seq!['(', ')', ' '] + op_symbol(o) + seq![' '] + value_text(op_value(o)),
        None => name + seq!['(', ')'],
    }
}

/// `name(arg)`.
pub open spec fn call_text(name: Seq<char>, arg: Seq<char>) -> Seq<char> {
    name + seq!['('] + arg + seq![')']
}

/// `a, b`.
pub open spec fn pair_text(a: Seq<char>, b: Seq<char>) -> Seq<char> {
    a + seq![',', ' '] + b
}

/// The text that a query writes for a condition.
pub open spec fn query_text(c: SearchCondition) -> Seq<char> {
    match c {
        SearchCondition::Exact(s) => s@,
        SearchCondition::IgnoreCase(s) => call_text(IGNORE_CASE@, s@),
        SearchCondition::Number(o) => compare_text(NUMBER@, o),
        SearchCondition::WholeWord(s) => call_text(WHOLE_WORD@, s@),
        SearchCondition::Regex(s) => call_text(REGEX@, s@),
        SearchCondition::Contains(s) => call_text(CONTAINS@, s@),
        SearchCondition::StartsWith(s) => call_text(STARTS_WITH@, s@),
        SearchCondition::EndsWith(s) => call_text(ENDS_WITH@, s@),
        SearchCondition::InvertMatch(s) => call_text(INVERT_MATCH@, s@),
        SearchCondition::InvertMatchRegex(s) => call_text(INVERT_MATCH_REGEX@, s@),
        SearchCondition::LineContains(s) => call_text(LINE_CONTAINS@, s@),
        SearchCondition::LineRegex(s) => call_text(LINE_REGEX@, s@),
        SearchCondition::LineStartsWith(s) => call_text(LINE_STARTS_WITH@, s@),
        SearchCondition::LineEndsWith(s) => call_text(LINE_ENDS_WITH@, s@),
        SearchCondition::LineInvertMatch(s) => call_text(LINE_INVERT_MATCH@, s@),
        SearchCondition::LineInvertMatchRegex(s) => call_text(LINE_INVERT_MATCH_REGEX@, s@),
        SearchCondition::LineLength(o) => compare_text(LINE_LENGTH@, o),
        SearchCondition::LineByteLength(o) => compare_text(LINE_BYTE_LENGTH@, o),
        SearchCondition::Replace(a, b) => call_text(REPLACE@, pair_text(a@, b@)),
        SearchCondition::Insert(i, v) => call_text(INSERT@, pair_text(decimal(i as nat), v@)),
        SearchCondition::Delete(a, b) => call_text(DELETE@, pair_text(decimal(a as nat), decimal(b as nat))),
        SearchCondition::Update(s) => call_text(UPDATE@, s@),
        SearchCondition::CamelCase => call_text(CAMEL_CASE@, Seq::empty()),
        SearchCondition::KebabCase => call_text(KEBAB_CASE@, Seq::empty()),
        SearchCondition::SnakeCase => call_text(SNAKE_CASE@, Seq::empty()),
        SearchCondition::TrimEnd => call_text(TRIM_END@, Seq::empty()),
        SearchCondition::TrimStart => call_text(TRIM_START@, Seq::empty()),
        SearchCondition::Trim => call_text(TRIM@, Seq::empty()),
        SearchCondition::Constant => call_text(CONSTANT@, Seq::empty()),
        SearchCondition::LowerCase => call_text(LOWER_CASE@, Seq::empty()),
        SearchCondition::UpperCase => call_text(UPPER_CASE@, Seq::empty()),
        SearchCondition::UpperCamelCase => call_text(UPPER_CAMEL_CASE@, Seq::empty()),
        SearchCondition::UpperKebabCase => call_text(UPPER_KEBAB_CASE@, Seq::empty()),
        SearchCondition::UpperSnakeCase => call_text(UPPER_SNAKE_CASE@, Seq::empty()),
    }
}

/// The number of a comparison, where it is a literal number.
pub open spec fn compare_value(op: Option<Op>) -> Option<Seq<char>> {
    match op {
        Some(o) => match op_value(o) {
            Value::Num(n) => Some(decimal(n as nat)),
            _ => None,
        },
        None => None,
    }
}

/// The arguments of a condition as the text that an input box shows.
pub open spec fn cond_value(c: SearchCondition) -> Option<Seq<char>> {
    match c {
        SearchCondition::Exact(s) => Some(s@),
        SearchCondition::IgnoreCase(s) => Some(s@),
        SearchCondition::Number(o) => compare_value(o),
        SearchCondition::WholeWord(s) => Some(s@),
        SearchCondition::Regex(s) => Some(s@),
        SearchCondition::Contains(s) => Some(s@),
        SearchCondition::StartsWith(s) => Some(s@),
        SearchCondition::EndsWith(s) => Some(s@),
        SearchCondition::InvertMatch(s) => Some(s@),
        SearchCondition::InvertMatchRegex(s) => Some(s@),
        SearchCondition::LineContains(s) => Some(s@),
        SearchCondition::LineRegex(s) => Some(s@),
        SearchCondition::LineStartsWith(s) => Some(s@),
        SearchCondition::LineEndsWith(s) => Some(s@),
        SearchCondition::LineInvertMatch(s) => Some(s@),
        SearchCondition::LineInvertMatchRegex(s) => Some(s@),
        SearchCondition::LineLength(o) => compare_value(o),
        SearchCondition::LineByteLength(o) => compare_value(o),
        SearchCondition::Replace(a, b) => Some(pair_text(a@, b@)),
        SearchCondition::Insert(i, v) => Some(pair_text(decimal(i as nat), v@)),
        SearchCondition::Delete(a, b) => Some(pair_text(decimal(a as nat), decimal(b as nat))),
        SearchCondition::Update(s) => Some(s@),
        SearchCondition::CamelCase => None,
        SearchCondition::KebabCase => None,
        SearchCondition::SnakeCase => None,
        SearchCondition::TrimEnd => None,
        SearchCondition::TrimStart => None,
        SearchCondition::Trim => None,
        SearchCondition::Constant => None,
        SearchCondition::LowerCase => None,
        SearchCondition::UpperCase => None,
        SearchCondition::UpperCamelCase => None,
        SearchCondition::UpperKebabCase => None,
        SearchCondition::UpperSnakeCase => None,
    }
}

/// `name(arg)`.
fn call_string(name: &str, arg: &str) -> (r: String)
    ensures
        r@ == call_text(name@, arg@),
{
    let mut r = String::from_str(name);
    r.append("(");
    r.append(arg);
    r.append(")");
    proof {
        reveal_strlit("(");
        reveal_strlit(")");
    }
    assert(r@ =~= call_text(name@, arg@));
    r
}

/// `a, b`.
fn pair_string(a: &str, b: &str) -> (r: String)
    ensures
        r@ == pair_text(a@, b@),
{
    let mut r = String::from_str(a);
    r.append(", ");
    r.append(b);
    proof {
        reveal_strlit(", ");
    }
    assert(r@ =~= pair_text(a@, b@));
    r
}

/// `name()` and the comparison, where there is one.
fn compare_string(name: &str, op: &Option<Op>) -> (r: String)
    ensures
        r@ == compare_text(name@, *op),
{
    let mut r = String::from_str(name);
    proof {
        reveal_strlit("()");
        reveal_strlit(" ");
    }
    match op {
        Some(o) => {
            r.append("() ");
            proof {
                reveal_strlit("() ");
            }
            r.append(o.symbol());
            r.append(" ");
            let v = o.value().to_query();
            r.append(v.as_str());
            assert(r@ =~= compare_text(name@, *op));
        },
        None => {
            r.append("()");
            assert(r@ =~= compare_text(name@, *op));
        },
    }
    r
}

/// The number of a comparison, where it is a literal number.
fn compare_number(op: &Option<Op>) -> (r: Option<String>)
    ensures
        match compare_value(*op) {
            Some(t) => r matches Some(x) && x@ == t,
            None => r is None,
        },
{
    match op {
        Some(o) => match o.value() {
            Value::Num(n) => Some(usize_to_decimal(*n)),
            _ => None,
        },
        None => None,
    }
}

impl SearchCondition {
    pub fn is_matcher(&self) -> (r: bool)
        ensures
            r == spec_is_matcher(*self),
    {
        match self {
            SearchCondition::Exact(_) => true,
            SearchCondition::IgnoreCase(_) => true,
            SearchCondition::Number(_) => true,
            SearchCondition::WholeWord(_) => true,
            SearchCondition::Regex(_) => true,
            _ => false,
        }
    }

    pub fn is_filter(&self) -> (r: bool)
        ensures
            r == spec_is_filter(*self),
    {
        match self {
            SearchCondition::Contains(_) => true,
            SearchCondition::StartsWith(_) => true,
            SearchCondition::EndsWith(_) => true,
            SearchCondition::InvertMatch(_) => true,
            SearchCondition::InvertMatchRegex(_) => true,
            _ => false,
        }
    }

    pub fn is_line_filter(&self) -> (r: bool)
        ensures
            r == spec_is_line_filter(*self),
    {
        match self {
            SearchCondition::LineContains(_) => true,
            SearchCondition::LineRegex(_) => true,
            SearchCondition::LineStartsWith(_) => true,
            SearchCondition::LineEndsWith(_) => true,
            SearchCondition::LineInvertMatch(_) => true,
            SearchCondition::LineInvertMatchRegex(_) => true,
            SearchCondition::LineLength(_) => true,
            SearchCondition::LineByteLength(_) => true,
            _ => false,
        }
    }

    pub fn is_transform(&self) -> (r: bool)
        ensures
            r == spec_is_transform(*self),
    {
        match self {
            SearchCondition::Replace(_, _) => true,
            SearchCondition::Insert(_, _) => true,
            SearchCondition::Delete(_, _) => true,
            SearchCondition::Update(_) => true,
            SearchCondition::CamelCase => true,
            SearchCondition::KebabCase => true,
            SearchCondition::SnakeCase => true,
            SearchCondition::TrimEnd => true,
            SearchCondition::TrimStart => true,
            SearchCondition::Trim => true,
            SearchCondition::Constant => true,
            SearchCondition::LowerCase => true,
            SearchCondition::UpperCase => true,
            SearchCondition::UpperCamelCase => true,
            SearchCondition::UpperKebabCase => true,
            SearchCondition::UpperSnakeCase => true,
            _ => false,
        }
    }

    /// Whether the condition takes arguments in the input box.
    pub fn has_args(&self) -> (r: bool)
        ensures
            r == (spec_is_matcher(*self) || spec_is_filter(*self) || spec_is_line_filter(*self)
                || !(*self is Exact) || *self is Replace || *self is Insert || *self is Delete
                || *self is Update),
    {
        self.is_matcher() || self.is_filter() || self.is_line_filter() || !matches!(self, SearchCondition::Exact(_))
            || matches!(self, SearchCondition::Replace(_, _)) || matches!(self, SearchCondition::Insert(_, _))
            || matches!(self, SearchCondition::Delete(_, _)) || matches!(self, SearchCondition::Update(_))
    }

    /// A regex matcher; fails exactly where the pattern does not compile.
    pub fn new_regex(s: &str) -> (r: Result<SearchCondition, PatternError>)
        ensures
            r is Ok <==> compiles(s@),
            r matches Ok(c) ==> c is Regex && c->Regex_0@ == s@,
    {
        match matcher::Regex::new(s.to_owned()) {
            Ok(_) => Ok(SearchCondition::Regex(s.to_owned())),
            Err(e) => Err(e),
        }
    }

    /// A regex line-filter; fails exactly where the pattern does not compile.
    pub fn new_line_match_regex(s: &str) -> (r: Result<SearchCondition, PatternError>)
        ensures
            r is Ok <==> compiles(s@),
            r matches Ok(c) ==> c is LineRegex && c->LineRegex_0@ == s@,
    {
        match filter::Regex::new(s.to_owned()) {
            Ok(_) => Ok(SearchCondition::LineRegex(s.to_owned())),
            Err(e) => Err(e),
        }
    }

    /// An inverted regex match-filter; fails exactly where the pattern does not compile.
    pub fn new_invert_match_regex(s: &str) -> (r: Result<SearchCondition, PatternError>)
        ensures
            r is Ok <==> compiles(s@),
            r matches Ok(c) ==> c is InvertMatchRegex && c->InvertMatchRegex_0@ == s@,
    {
        match filter::InvertMatchRegex::new(s.to_owned()) {
            Ok(_) => Ok(SearchCondition::InvertMatchRegex(s.to_owned())),
            Err(e) => Err(e),
        }
    }

    /// An inverted regex line-filter; fails exactly where the pattern does not compile.
    pub fn new_line_invert_match_regex(s: &str) -> (r: Result<SearchCondition, PatternError>)
        ensures
            r is Ok <==> compiles(s@),
            r matches Ok(c) ==> c is LineInvertMatchRegex && c->LineInvertMatchRegex_0@ == s@,
    {
        match filter::InvertMatchRegex::new(s.to_owned()) {
            Ok(_) => Ok(SearchCondition::LineInvertMatchRegex(s.to_owned())),
            Err(e) => Err(e),
        }
    }

    /// The matcher of the condition, where it has one.
    pub fn matcher(&self) -> (r: Option<AnyMatcher>)
        ensures
            forall|t: Seq<char>| #[trigger] cond_found(*self, t) == match r {
                Some(m) => Some(m.found(t)),
                None => None::<Seq<(Seq<char>, int, int)>>,
            },
    {
        match self {
            SearchCondition::Exact(s) => Some(AnyMatcher::Exact(matcher::Exact::new(s.clone()))),
            SearchCondition::IgnoreCase(s) => Some(AnyMatcher::IgnoreCase(matcher::IgnoreCase::new(s.clone()))),
            SearchCondition::WholeWord(s) => match matcher::WholeWord::new(s.clone()) {
                Ok(m) => Some(AnyMatcher::WholeWord(m)),
                Err(_) => None,
            },
            SearchCondition::Regex(s) => match matcher::Regex::new(s.clone()) {
                Ok(m) => Some(AnyMatcher::Regex(m)),
                Err(_) => None,
            },
            SearchCondition::Number(Some(op)) => Some(AnyMatcher::Number(matcher::Number::new(op.duplicate()))),
            _ => None,
        }
    }

    /// The filter of the condition where it is a keyword, pattern or length filter
    /// of either role.
    fn any_filter(&self) -> (r: Option<AnyFilter>)
        ensures
            forall|t: Seq<char>| #[trigger] keyword_accepts(*self, t) == match r {
                Some(f) => Some(f.accepts(t)),
                None => None::<bool>,
            },
    {
        match self {
            SearchCondition::Contains(s) => Some(AnyFilter::Contains(filter::Contains::new(s.clone()))),
            SearchCondition::LineContains(s) => Some(AnyFilter::Contains(filter::Contains::new(s.clone()))),
            SearchCondition::StartsWith(s) => Some(AnyFilter::StartsWith(filter::StartsWith::new(s.clone()))),
            SearchCondition::LineStartsWith(s) => Some(AnyFilter::StartsWith(filter::StartsWith::new(s.clone()))),
            SearchCondition::EndsWith(s) => Some(AnyFilter::EndsWith(filter::EndsWith::new(s.clone()))),
            SearchCondition::LineEndsWith(s) => Some(AnyFilter::EndsWith(filter::EndsWith::new(s.clone()))),
            SearchCondition::InvertMatch(s) => Some(AnyFilter::InvertMatch(filter::InvertMatch::new(s.clone()))),
            SearchCondition::LineInvertMatch(s) => Some(AnyFilter::InvertMatch(filter::InvertMatch::new(s.clone()))),
            SearchCondition::InvertMatchRegex(s) | SearchCondition::LineInvertMatchRegex(s) => {
                match filter::InvertMatchRegex::new(s.clone()) {
                    Ok(f) => Some(AnyFilter::InvertMatchRegex(f)),
                    Err(_) => None,
                }
            },
            SearchCondition::LineRegex(s) => match filter::Regex::new(s.clone()) {
                Ok(f) => Some(AnyFilter::Regex(f)),
                Err(_) => None,
            },
            SearchCondition::LineLength(Some(op)) => Some(AnyFilter::Length(filter::Length::new(false, op.duplicate()))),
            SearchCondition::LineByteLength(Some(op)) => Some(AnyFilter::Length(filter::Length::new(true, op.duplicate()))),
            _ => None,
        }
    }

    /// The match-filter of the condition, where it is one.
    pub fn match_filter(&self) -> (r: Option<AnyFilter>)
        ensures
            forall|t: Seq<char>| #[trigger] match_accepts(*self, t) == match r {
                Some(f) => Some(f.accepts(t)),
                None => None::<bool>,
            },
    {
        if self.is_filter() {
            self.any_filter()
        } else {
            None
        }
    }

    /// The line-filter of the condition, where it is one.
    pub fn line_filter(&self) -> (r: Option<AnyFilter>)
        ensures
            forall|t: Seq<char>| #[trigger] line_accepts(*self, t) == match r {
                Some(f) => Some(f.accepts(t)),
                None => None::<bool>,
            },
    {
        if self.is_line_filter() {
            self.any_filter()
        } else {
            None
        }
    }

    /// The transform of the condition, where it is one.
    pub fn transform(&self) -> (r: Option<AnyTransform>)
        ensures
            forall|t: Seq<char>| #[trigger] cond_output(*self, t) == match r {
                Some(x) => Some(x.output(t)),
                None => None::<Seq<char>>,
            },
    {
        match self {
            SearchCondition::Replace(f, t) => Some(AnyTransform::Replace(transform::Replace::new(f.clone(), t.clone()))),
            SearchCondition::Insert(i, v) => Some(AnyTransform::Insert(transform::Insert::new(*i, v.clone()))),
            SearchCondition::Delete(s, e) => Some(AnyTransform::Delete(transform::Delete::new(Range { start: *s, end: *e }))),
            SearchCondition::Update(v) => Some(AnyTransform::Update(transform::Update::new(v.clone()))),
            SearchCondition::CamelCase => Some(AnyTransform::CamelCase(transform::CamelCase::new())),
            SearchCondition::KebabCase => Some(AnyTransform::KebabCase(transform::KebabCase::new())),
            SearchCondition::SnakeCase => Some(AnyTransform::SnakeCase(transform::SnakeCase::new())),
            SearchCondition::TrimEnd => Some(AnyTransform::TrimEnd(transform::TrimEnd::new())),
            SearchCondition::TrimStart => Some(AnyTransform::TrimStart(transform::TrimStart::new())),
            SearchCondition::Trim => Some(AnyTransform::Trim(transform::Trim::new())),
            SearchCondition::Constant => Some(AnyTransform::UpperSnakeCase(transform::UpperSnakeCase::new())),
            SearchCondition::LowerCase => Some(AnyTransform::LowerCase(transform::LowerCase::new())),
            SearchCondition::UpperCase => Some(AnyTransform::UpperCase(transform::UpperCase::new())),
            SearchCondition::UpperCamelCase => Some(AnyTransform::UpperCamelCase(transform::UpperCamelCase::new())),
            SearchCondition::UpperKebabCase => Some(AnyTransform::UpperKebabCase(transform::UpperKebabCase::new())),
            SearchCondition::UpperSnakeCase => Some(AnyTransform::UpperSnakeCase(transform::UpperSnakeCase::new())),
            _ => None,
        }
    }

    /// The text that a query writes for the condition.
    pub fn to_string(&self) -> (r: String)
        ensures
            r@ == query_text(*self),
    {
        proof {
            reveal_strlit("");
        }
        match self {
            SearchCondition::Exact(s) => s.clone(),
            SearchCondition::IgnoreCase(s) => call_string(IGNORE_CASE, s.as_str()),
            SearchCondition::Number(o) => compare_string(NUMBER, o),
            SearchCondition::WholeWord(s) => call_string(WHOLE_WORD, s.as_str()),
            SearchCondition::Regex(s) => call_string(REGEX, s.as_str()),
            SearchCondition::Contains(s) => call_string(CONTAINS, s.as_str()),
            SearchCondition::StartsWith(s) => call_string(STARTS_WITH, s.as_str()),
            SearchCondition::EndsWith(s) => call_string(ENDS_WITH, s.as_str()),
            SearchCondition::InvertMatch(s) => call_string(INVERT_MATCH, s.as_str()),
            SearchCondition::InvertMatchRegex(s) => call_string(INVERT_MATCH_REGEX, s.as_str()),
            SearchCondition::LineContains(s) => call_string(LINE_CONTAINS, s.as_str()),
            SearchCondition::LineRegex(s) => call_string(LINE_REGEX, s.as_str()),
            SearchCondition::LineStartsWith(s) => call_string(LINE_STARTS_WITH, s.as_str()),
            SearchCondition::LineEndsWith(s) => call_string(LINE_ENDS_WITH, s.as_str()),
            SearchCondition::LineInvertMatch(s) => call_string(LINE_INVERT_MATCH, s.as_str()),
            SearchCondition::LineInvertMatchRegex(s) => call_string(LINE_INVERT_MATCH_REGEX, s.as_str()),
            SearchCondition::LineLength(o) => compare_string(LINE_LENGTH, o),
            SearchCondition::LineByteLength(o) => compare_string(LINE_BYTE_LENGTH, o),
            SearchCondition::Replace(a, b) => call_string(REPLACE, pair_string(a.as_str(), b.as_str()).as_str()),
            SearchCondition::Insert(i, v) => call_string(INSERT, pair_string(usize_to_decimal(*i).as_str(), v.as_str()).as_str()),
            SearchCondition::Delete(a, b) => call_string(DELETE, pair_string(usize_to_decimal(*a).as_str(), usize_to_decimal(*b).as_str()).as_str()),
            SearchCondition::Update(s) => call_string(UPDATE, s.as_str()),
            SearchCondition::CamelCase => call_string(CAMEL_CASE, ""),
            SearchCondition::KebabCase => call_string(KEBAB_CASE, ""),
            SearchCondition::SnakeCase => call_string(SNAKE_CASE, ""),
            SearchCondition::TrimEnd => call_string(TRIM_END, ""),
            SearchCondition::TrimStart => call_string(TRIM_START, ""),
            SearchCondition::Trim => call_string(TRIM, ""),
            SearchCondition::Constant => call_string(CONSTANT, ""),
            SearchCondition::LowerCase => call_string(LOWER_CASE, ""),
            SearchCondition::UpperCase => call_string(UPPER_CASE, ""),
            SearchCondition::UpperCamelCase => call_string(UPPER_CAMEL_CASE, ""),
            SearchCondition::UpperKebabCase => call_string(UPPER_KEBAB_CASE, ""),
            SearchCondition::UpperSnakeCase => call_string(UPPER_SNAKE_CASE, ""),
        }
    }

    /// The arguments of the condition as the text that an input box shows.
    pub fn value(&self) -> (r: Option<String>)
        ensures
            match cond_value(*self) {
                Some(t) => r matches Some(x) && x@ == t,
                None => r is None,
            },
    {
        match self {
            SearchCondition::Exact(s) => Some(s.clone()),
            SearchCondition::IgnoreCase(s) => Some(s.clone()),
            SearchCondition::Number(o) => compare_number(o),
            SearchCondition::WholeWord(s) => Some(s.clone()),
            SearchCondition::Regex(s) => Some(s.clone()),
            SearchCondition::Contains(s) => Some(s.clone()),
            SearchCondition::StartsWith(s) => Some(s.clone()),
            SearchCondition::EndsWith(s) => Some(s.clone()),
            SearchCondition::InvertMatch(s) => Some(s.clone()),
            SearchCondition::InvertMatchRegex(s) => Some(s.clone()),
            SearchCondition::LineContains(s) => Some(s.clone()),
            SearchCondition::LineRegex(s) => Some(s.clone()),
            SearchCondition::LineStartsWith(s) => Some(s.clone()),
            SearchCondition::LineEndsWith(s) => Some(s.clone()),
            SearchCondition::LineInvertMatch(s) => Some(s.clone()),
            SearchCondition::LineInvertMatchRegex(s) => Some(s.clone()),
            SearchCondition::LineLength(o) => compare_number(o),
            SearchCondition::LineByteLength(o) => compare_number(o),
            SearchCondition::Replace(a, b) => Some(pair_string(a.as_str(), b.as_str())),
            SearchCondition::Insert(i, v) => Some(pair_string(usize_to_decimal(*i).as_str(), v.as_str())),
            SearchCondition::Delete(a, b) => Some(pair_string(usize_to_decimal(*a).as_str(), usize_to_decimal(*b).as_str())),
            SearchCondition::Update(s) => Some(s.clone()),
            SearchCondition::CamelCase => None,
            SearchCondition::KebabCase => None,
            SearchCondition::SnakeCase => None,
            SearchCondition::TrimEnd => None,
            SearchCondition::TrimStart => None,
            SearchCondition::Trim => None,
            SearchCondition::Constant => None,
            SearchCondition::LowerCase => None,
            SearchCondition::UpperCase => None,
            SearchCondition::UpperCamelCase => None,
            SearchCondition::UpperKebabCase => None,
            SearchCondition::UpperSnakeCase => None,
        }
    }

    /// A copy of the condition.
    pub fn duplicate(&self) -> (r: SearchCondition)
        ensures
            r == *self,
    {
        match self {
            SearchCondition::Exact(s) => SearchCondition::Exact(s.clone()),
            SearchCondition::IgnoreCase(s) => SearchCondition::IgnoreCase(s.clone()),
            SearchCondition::Number(o) => SearchCondition::Number(match o { Some(x) => Some(x.duplicate()), None => None }),
            SearchCondition::WholeWord(s) => SearchCondition::WholeWord(s.clone()),
            SearchCondition::Regex(s) => SearchCondition::Regex(s.clone()),
            SearchCondition::Contains(s) => SearchCondition::Contains(s.clone()),
            SearchCondition::StartsWith(s) => SearchCondition::StartsWith(s.clone()),
            SearchCondition::EndsWith(s) => SearchCondition::EndsWith(s.clone()),
            SearchCondition::InvertMatch(s) => SearchCondition::InvertMatch(s.clone()),
            SearchCondition::InvertMatchRegex(s) => SearchCondition::InvertMatchRegex(s.clone()),
            SearchCondition::LineContains(s) => SearchCondition::LineContains(s.clone()),
            SearchCondition::LineRegex(s) => SearchCondition::LineRegex(s.clone()),
            SearchCondition::LineStartsWith(s) => SearchCondition::LineStartsWith(s.clone()),
            SearchCondition::LineEndsWith(s) => SearchCondition::LineEndsWith(s.clone()),
            SearchCondition::LineInvertMatch(s) => SearchCondition::LineInvertMatch(s.clone()),
            SearchCondition::LineInvertMatchRegex(s) => SearchCondition::LineInvertMatchRegex(s.clone()),
            SearchCondition::LineLength(o) => SearchCondition::LineLength(match o { Some(x) => Some(x.duplicate()), None => None }),
            SearchCondition::LineByteLength(o) => SearchCondition::LineByteLength(match o { Some(x) => Some(x.duplicate()), None => None }),
            SearchCondition::Replace(a, b) => SearchCondition::Replace(a.clone(), b.clone()),
            SearchCondition::Insert(i, v) => SearchCondition::Insert(*i, v.clone()),
            SearchCondition::Delete(a, b) => SearchCondition::Delete(*a, *b),
            SearchCondition::Update(s) => SearchCondition::Update(s.clone()),
            SearchCondition::CamelCase => SearchCondition::CamelCase,
            SearchCondition::KebabCase => SearchCondition::KebabCase,
            SearchCondition::SnakeCase => SearchCondition::SnakeCase,
            SearchCondition::TrimEnd => SearchCondition::TrimEnd,
            SearchCondition::TrimStart => SearchCondition::TrimStart,
            SearchCondition::Trim => SearchCondition::Trim,
            SearchCondition::Constant => SearchCondition::Constant,
            SearchCondition::LowerCase => SearchCondition::LowerCase,
            SearchCondition::UpperCase => SearchCondition::UpperCase,
            SearchCondition::UpperCamelCase => SearchCondition::UpperCamelCase,
            SearchCondition::UpperKebabCase => SearchCondition::UpperKebabCase,
            SearchCondition::UpperSnakeCase => SearchCondition::UpperSnakeCase,
        }
    }
}


/// A condition as plain values.
pub enum CondModel {
    Exact(Seq<char>),
    IgnoreCase(Seq<char>),
    Number(Option<OpModel>),
    WholeWord(Seq<char>),
    Regex(Seq<char>),
    Contains(Seq<char>),
    StartsWith(Seq<char>),
    EndsWith(Seq<char>),
    InvertMatch(Seq<char>),
    InvertMatchRegex(Seq<char>),
    LineContains(Seq<char>),
    LineRegex(Seq<char>),
    LineStartsWith(Seq<char>),
    LineEndsWith(Seq<char>),
    LineInvertMatch(Seq<char>),
    LineInvertMatchRegex(Seq<char>),
    LineLength(Option<OpModel>),
    LineByteLength(Option<OpModel>),
    Replace(Seq<char>, Seq<char>),
    Insert(usize, Seq<char>),
    Delete(usize, usize),
    Update(Seq<char>),
    CamelCase,
    KebabCase,
    SnakeCase,
    TrimEnd,
    TrimStart,
    Trim,
    Constant,
    LowerCase,
    UpperCase,
    UpperCamelCase,
    UpperKebabCase,
    UpperSnakeCase,
}

/// The plain values of a condition.
pub open spec fn cond_model(c: SearchCondition) -> CondModel {
    match c {
        SearchCondition::Exact(s) => CondModel::Exact(s@),
        SearchCondition::IgnoreCase(s) => CondModel::IgnoreCase(s@),
        SearchCondition::Number(o) => CondModel::Number(match o { Some(x) => Some(op_model(x)), None => None }),
        SearchCondition::WholeWord(s) => CondModel::WholeWord(s@),
        SearchCondition::Regex(s) => CondModel::Regex(s@),
        SearchCondition::Contains(s) => CondModel::Contains(s@),
        SearchCondition::StartsWith(s) => CondModel::StartsWith(s@),
        SearchCondition::EndsWith(s) => CondModel::EndsWith(s@),
        SearchCondition::InvertMatch(s) => CondModel::InvertMatch(s@),
        SearchCondition::InvertMatchRegex(s) => CondModel::InvertMatchRegex(s@),
        SearchCondition::LineContains(s) => CondModel::LineContains(s@),
        SearchCondition::LineRegex(s) => CondModel::LineRegex(s@),
        SearchCondition::LineStartsWith(s) => CondModel::LineStartsWith(s@),
        SearchCondition::LineEndsWith(s) => CondModel::LineEndsWith(s@),
        SearchCondition::LineInvertMatch(s) => CondModel::LineInvertMatch(s@),
        SearchCondition::LineInvertMatchRegex(s) => CondModel::LineInvertMatchRegex(s@),
        SearchCondition::LineLength(o) => CondModel::LineLength(match o { Some(x) => Some(op_model(x)), None => None }),
        SearchCondition::LineByteLength(o) => CondModel::LineByteLength(match o { Some(x) => Some(op_model(x)), None => None }),
        SearchCondition::Replace(a, b) => CondModel::Replace(a@, b@),
        SearchCondition::Insert(i, v) => CondModel::Insert(i, v@),
        SearchCondition::Delete(a, b) => CondModel::Delete(a, b),
        SearchCondition::Update(s) => CondModel::Update(s@),
        SearchCondition::CamelCase => CondModel::CamelCase,
        SearchCondition::KebabCase => CondModel::KebabCase,
        SearchCondition::SnakeCase => CondModel::SnakeCase,
        SearchCondition::TrimEnd => CondModel::TrimEnd,
        SearchCondition::TrimStart => CondModel::TrimStart,
        SearchCondition::Trim => CondModel::Trim,
        SearchCondition::Constant => CondModel::Constant,
        SearchCondition::LowerCase => CondModel::LowerCase,
        SearchCondition::UpperCase => CondModel::UpperCase,
        SearchCondition::UpperCamelCase => CondModel::UpperCamelCase,
        SearchCondition::UpperKebabCase => CondModel::UpperKebabCase,
        SearchCondition::UpperSnakeCase => CondModel::UpperSnakeCase,
    }
}

} // verus!
