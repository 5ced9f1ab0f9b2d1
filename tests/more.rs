use mgrep::colors::MatchColors;
use mgrep::file_preview::FilePreview;
use mgrep::file_result::{FileResult, LineResult};
use mgrep::line::Line;
use mgrep::match_result::MatchResult;
use mgrep::search_condition::SearchCondition;
use mgrep::search_result::SearchResult;
use std::ops::Range;

#[test]
fn test_tokens() {
    let line = Line::new(
        1,
        "test string end\u{1F604}".to_string(),
        vec![
            MatchResult::Found("test".to_string(), Range { start: 0, end: 4 }, 1),
            MatchResult::Found("string".to_string(), Range { start: 5, end: 11 }, 1),
        ],
        false,
    );
    assert_eq!(
        line.tokens(),
        vec![
            ("test".to_string(), Some(MatchResult::Found("test".to_string(), Range { start: 0, end: 4 }, 1))),
            (" ".to_string(), None),
            ("string".to_string(), Some(MatchResult::Found("string".to_string(), Range { start: 5, end: 11 }, 1))),
            (" end\u{1F604}".to_string(), None),
        ]
    );
    let bare = Line::new(2, "plain".to_string(), vec![], false);
    assert_eq!(bare.tokens(), vec![("plain".to_string(), None)]);
}

#[test]
fn with_value_takes_the_input() {
    assert_eq!(
        SearchCondition::Exact("a".to_string()).with_value("b".to_string()),
        SearchCondition::Exact("b".to_string())
    );
    assert_eq!(
        SearchCondition::Replace("".to_string(), "".to_string()).with_value("x,y".to_string()),
        SearchCondition::Replace("x".to_string(), "y".to_string())
    );
    assert_eq!(
        SearchCondition::Replace("".to_string(), "".to_string()).with_value("x,y,z".to_string()),
        SearchCondition::Replace("x,y,z".to_string(), "".to_string())
    );
    assert_eq!(
        SearchCondition::Insert(0, "".to_string()).with_value("3,v".to_string()),
        SearchCondition::Insert(3, "v".to_string())
    );
    assert_eq!(
        SearchCondition::Insert(0, "".to_string()).with_value("q,v".to_string()),
        SearchCondition::Insert(0, "v".to_string())
    );
    assert_eq!(SearchCondition::Delete(9, 9).with_value("1,4".to_string()), SearchCondition::Delete(1, 4));
    assert_eq!(SearchCondition::Delete(9, 9).with_value("14".to_string()), SearchCondition::Delete(0, 0));
    assert_eq!(SearchCondition::Trim.with_value("x".to_string()), SearchCondition::Trim);
}

#[test]
fn committed_line_leaves_the_result() {
    let file = |p: &str| FileResult {
        file_path: p.to_string(),
        lines: vec![
            LineResult::Line(Line::new(1, "a".to_string(), vec![], false)),
            LineResult::Separator,
            LineResult::Line(Line::new(2, "b".to_string(), vec![], false)),
        ],
    };
    let mut r = SearchResult::new(vec![file("x"), file("y")], vec![]);
    r.remove_line(&"x".to_string(), 2);
    assert_eq!(r.files[0].lines.len(), 2);
    assert_eq!(r.files[1].lines.len(), 3);
    assert_eq!(r.files.iter().map(|f| f.lines.len()).sum::<usize>(), 5);
    assert_eq!(r.count_lines(), 0);
}

#[test]
fn colour_slots_wrap() {
    assert_eq!(MatchColors::slot(0), 0);
    assert_eq!(MatchColors::slot(1), 0);
    assert_eq!(MatchColors::slot(12), 11);
    assert_eq!(MatchColors::slot(13), 0);
}

#[test]
fn preview_shows_a_window_of_lines() {
    let p = FilePreview::new("f.txt".to_string(), "a\tb\nc\nd\ne");
    assert_eq!(p.lines(Range { start: 0, end: 1 }), "a    b");
    assert_eq!(p.lines(Range { start: 1, end: 3 }), "c\nd");
    assert_eq!(p.lines(Range { start: 3, end: 10 }), "e");
    assert_eq!(p.lines(Range { start: 7, end: 9 }), "");
    assert!(p.is_same_file("f.txt".to_string()));
    assert!(!p.is_same_file("g.txt".to_string()));
}
