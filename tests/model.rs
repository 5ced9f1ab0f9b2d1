use mgrep::file_result::{FileResult, LineResult};
use mgrep::filter::{AnyFilter, InvertMatch};
use mgrep::line::Line;
use mgrep::match_result::MatchResult;
use mgrep::search_condition::SearchCondition;
use mgrep::search_result::SearchResult;
use std::ops::Range;

fn rg(start: usize, end: usize) -> Range<usize> {
    Range { start, end }
}

#[test]
fn line_new_sorts_by_start_then_index() {
    let matches = vec![
        MatchResult::Found("string".to_string(), rg(5, 11), 1),
        MatchResult::Transformed("test".to_string(), rg(0, 4), 2),
        MatchResult::Filtered("test".to_string(), rg(0, 4), 3),
        MatchResult::Found("test".to_string(), rg(0, 4), 1),
    ];
    let expected = vec![
        MatchResult::Found("test".to_string(), rg(0, 4), 1),
        MatchResult::Transformed("test".to_string(), rg(0, 4), 2),
        MatchResult::Filtered("test".to_string(), rg(0, 4), 3),
        MatchResult::Found("string".to_string(), rg(5, 11), 1),
    ];
    assert_eq!(Line::new(0, "".to_string(), matches, false).matches().clone(), expected);
}

#[test]
fn line_filter_hides_rejected_lines() {
    let line = Line::new(
        1,
        "test string".to_string(),
        vec![
            MatchResult::Found("test".to_string(), rg(0, 4), 1),
            MatchResult::Found("string".to_string(), rg(5, 11), 1),
        ],
        false,
    );
    let f = AnyFilter::InvertMatch(InvertMatch::new("string".to_string()));
    assert!(line.filter(&f).is_filtered());
    assert_eq!(line.count_matches(), 2);
    assert!(!line.contains_transformed());
    assert!(line.filtered(true).is_filtered());
}

#[test]
fn apply_match_test() {
    let cases = vec![
        (vec![MatchResult::Transformed("transform".to_string(), rg(0, 4), 1)], "test_string", "transform_string"),
        (
            vec![
                MatchResult::Transformed("transform".to_string(), rg(0, 4), 1),
                MatchResult::Transformed("test".to_string(), rg(0, 4), 1),
            ],
            "test_string",
            "testsform_string",
        ),
        (vec![MatchResult::Found("trqansform".to_string(), rg(0, 4), 1)], "test_string", "test_string"),
        (vec![MatchResult::Filtered("trqansform".to_string(), rg(0, 4), 1)], "test_string", "test_string"),
    ];
    for (m, text, expected) in cases {
        assert_eq!(m.iter().fold(text.to_string(), |acc, x| x.apply(acc)), expected);
    }
    // a range off the character boundaries leaves the text
    let m = MatchResult::Transformed("x".to_string(), rg(1, 2), 1);
    assert_eq!(m.apply("\u{3042}b".to_string()), "\u{3042}b");
}

fn one_line(text: &str, matches: Vec<MatchResult>) -> SearchResult {
    SearchResult::new(
        vec![FileResult {
            file_path: "test".to_string(),
            lines: vec![LineResult::Line(Line::new(1, text.to_string(), matches, false))],
        }],
        vec![],
    )
}

fn all_matches(r: &SearchResult) -> Vec<MatchResult> {
    r.files
        .iter()
        .flat_map(|f| f.lines.iter().flat_map(|l| l.line().map(|l| l.matches().clone()).unwrap_or_default()))
        .collect()
}

fn first_line(r: &SearchResult) -> Option<Line> {
    r.files.iter().flat_map(|f| f.lines.iter()).next().and_then(|l| l.line())
}

#[test]
fn apply_test1() {
    let empty = SearchResult::new(vec![], vec![]);
    assert_eq!(all_matches(&empty.apply(SearchCondition::Exact("test".to_string()), 1)), vec![]);
    let r = one_line("test string", vec![]);
    assert_eq!(
        all_matches(&r.apply(SearchCondition::Exact("test".to_string()), 1)),
        vec![MatchResult::Found("test".to_string(), rg(0, 4), 1)]
    );
}

#[test]
fn apply_line_filter_test() {
    let empty = SearchResult::new(vec![], vec![]);
    assert_eq!(first_line(&empty.apply(SearchCondition::StartsWith("test".to_string()), 1)), None);
    let r = one_line("test string", vec![]);
    assert_eq!(
        first_line(&r.apply(SearchCondition::LineStartsWith("te".to_string()), 1)),
        Some(Line::new(1, "test string".to_string(), vec![], false))
    );
    assert_eq!(
        first_line(&r.apply(SearchCondition::LineEndsWith("st".to_string()), 1)),
        Some(Line::new(1, "test string".to_string(), vec![], true))
    );
    assert_eq!(
        first_line(&r.apply(SearchCondition::LineInvertMatch("st".to_string()), 1)),
        Some(Line::new(1, "test string".to_string(), vec![], true))
    );
}

#[test]
fn apply_match_filter_test() {
    let empty = SearchResult::new(vec![], vec![]);
    assert_eq!(all_matches(&empty.apply(SearchCondition::StartsWith("test".to_string()), 1)), vec![]);
    let found = vec![MatchResult::Found("test".to_string(), rg(0, 4), 1)];
    let r = SearchResult::new(
        one_line("test string", found.clone()).files,
        vec![SearchCondition::Exact("test".to_string())],
    );
    assert_eq!(
        all_matches(&r.apply(SearchCondition::StartsWith("te".to_string()), 1)),
        vec![MatchResult::Filtered("test".to_string(), rg(0, 4), 1)]
    );
    assert_eq!(
        all_matches(&r.apply(SearchCondition::EndsWith("st".to_string()), 1)),
        vec![MatchResult::Filtered("test".to_string(), rg(0, 4), 1)]
    );
    assert_eq!(all_matches(&r.apply(SearchCondition::EndsWith("x".to_string()), 2)), vec![]);
}

#[test]
fn apply_transform_rewrites_fragments() {
    let r = one_line("hello world", vec![MatchResult::Found("hello".to_string(), rg(0, 5), 1)]);
    let t = r.apply(SearchCondition::UpperCase, 2);
    assert_eq!(all_matches(&t), vec![MatchResult::Transformed("HELLO".to_string(), rg(0, 5), 2)]);
    assert!(t.files[0].contains_transformed());
    assert_eq!(
        t.to_conditions_string(),
        "upper_case()"
    );
}

#[test]
fn a_matcher_that_finds_nothing_hides_the_line() {
    let r = one_line("abc", vec![]);
    let a = r.apply(SearchCondition::Exact("zzz".to_string()), 1);
    assert!(first_line(&a).unwrap().is_filtered());
    let b = r.apply(SearchCondition::Exact("b".to_string()), 1);
    assert!(!first_line(&b).unwrap().is_filtered());
}

#[test]
fn line_result_accessors() {
    let l = LineResult::Line(Line::new(3, "x".to_string(), vec![], false));
    assert!(l.is_line());
    assert_eq!(l.line().unwrap().line_no, 3);
    assert!(!LineResult::Separator.is_line());
    assert_eq!(LineResult::Separator.line(), None);
    let f = FileResult { file_path: "p".to_string(), lines: vec![l] };
    let v = f.display_vimgrep();
    assert_eq!(v.file_path, "p");
    assert_eq!(v.lines.len(), 1);
}

#[test]
fn match_result_accessors() {
    let m = MatchResult::Filtered("ab".to_string(), rg(2, 4), 3);
    assert_eq!(m.index(), 3);
    assert_eq!(m.range(), rg(2, 4));
    assert_eq!(m.column(), 2);
    assert!(!m.is_found() && !m.is_transformed());
    assert_ne!(m, MatchResult::Filtered("ab".to_string(), rg(2, 4), 4));
}

#[test]
fn ties_keep_their_order() {
    let matches = vec![
        MatchResult::Found("b".to_string(), rg(0, 1), 1),
        MatchResult::Filtered("a".to_string(), rg(0, 2), 1),
        MatchResult::Found("c".to_string(), rg(0, 3), 1),
    ];
    let sorted = Line::new(1, "abc".to_string(), matches.clone(), false).matches().clone();
    assert_eq!(sorted, matches);
}
