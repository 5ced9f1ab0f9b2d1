use mgrep::commit::{commit_file_text, commit_line, join_lines};
use mgrep::event::{CommitTracker, Event};
use mgrep::file_result::LineResult;
use mgrep::match_result::MatchResult;
use mgrep::parser::parse;
use mgrep::search::{run_pipeline, split_lines, Search, SearchConfig, SearchError};
use mgrep::search_condition::SearchCondition;
use mgrep::search_result::SearchResult;
use std::ops::Range;

fn run(path: &str, content: &str, query: &str) -> SearchResult {
    let sources = vec![(path.to_string(), content.to_string())];
    run_pipeline(&sources, &SearchConfig::default(), &parse(query).unwrap()).unwrap()
}

fn lines_of(r: &SearchResult) -> Vec<(usize, bool, Vec<MatchResult>)> {
    r.files
        .iter()
        .flat_map(|f| f.lines.iter())
        .filter_map(|l| l.line())
        .map(|l| (l.line_no, l.is_filtered(), l.matches().clone()))
        .collect()
}

fn commit(content: &str, r: &SearchResult) -> String {
    commit_file_text(content, &r.files[0])
}

#[test]
fn scenario_exact_keyword() {
    let r = run("a.txt", "hello world\nHELLO", "hello");
    assert_eq!(r.files.len(), 1);
    assert_eq!(r.files[0].file_path, "a.txt");
    assert_eq!(
        lines_of(&r),
        vec![(1, false, vec![MatchResult::Found("hello".to_string(), Range { start: 0, end: 5 }, 1)])]
    );
    assert_eq!(r.count_lines(), 1);
    assert_eq!(r.count_matches(), 1);
}

#[test]
fn scenario_ignore_case() {
    let r = run("a.txt", "hello world\nHELLO", "ignore_case(hello)");
    let ls = lines_of(&r);
    assert_eq!(ls.iter().map(|l| l.0).collect::<Vec<_>>(), vec![1, 2]);
    assert_eq!(r.count_matches(), 2);
    assert_eq!(r.stat().match_count, 2);
}

#[test]
fn scenario_number_comparison() {
    let r = run("b.txt", "price=12\nprice=9", "number() > 10");
    assert_eq!(
        lines_of(&r),
        vec![(1, false, vec![MatchResult::Found("12".to_string(), Range { start: 6, end: 8 }, 1)])]
    );
}

#[test]
fn scenario_line_filter() {
    let r = run("c.txt", "foo\nbar\nfoo", "foo | line.ends_with(o)");
    let ls = lines_of(&r);
    assert_eq!(ls.iter().map(|l| (l.0, l.1)).collect::<Vec<_>>(), vec![(1, false), (3, false)]);
}

#[test]
fn scenario_transform_and_commit() {
    let r = run("d.txt", "helloHello", "hello | upper_case()");
    assert_eq!(
        lines_of(&r),
        vec![(1, false, vec![MatchResult::Transformed("HELLO".to_string(), Range { start: 0, end: 5 }, 2)])]
    );
    // the keyword is matched byte for byte, so "Hello" stays
    assert_eq!(commit("helloHello", &r), "HELLOHello");
    let r2 = run("d.txt", "helloHello", "ignore_case(hello) | upper_case()");
    assert_eq!(commit("helloHello", &r2), "HELLOHELLO");
}

#[test]
fn scenario_replace_and_commit() {
    let r = run("e.txt", "a b c", "'a' | replace(a, X)");
    assert_eq!(commit("a b c", &r), "X b c");
    assert_eq!(r.stat().file_count, 1);
}

#[test]
fn pipeline_refuses_a_leading_transform() {
    let sources = vec![("f".to_string(), "x".to_string())];
    let conds = vec![SearchCondition::UpperCase, SearchCondition::Exact("x".to_string())];
    assert_eq!(run_pipeline(&sources, &SearchConfig::default(), &conds).err(), Some(SearchError::InvalidCondition));
    assert_eq!(run_pipeline(&sources, &SearchConfig::default(), &vec![]).err(), Some(SearchError::InvalidCondition));
}

#[test]
fn files_without_hits_are_left_out() {
    let sources = vec![("a".to_string(), "x\ny".to_string()), ("b".to_string(), "zzz".to_string())];
    let r = run_pipeline(&sources, &SearchConfig::default(), &parse("y").unwrap()).unwrap();
    assert_eq!(r.files.len(), 1);
    assert_eq!(r.files[0].file_path, "a");
}

#[test]
fn context_lines_and_separator() {
    let sources = vec![("a".to_string(), "l1\nl2\nhit\nl4\nl5".to_string())];
    let config = SearchConfig { before_context: Some(1), after_context: Some(1), ..SearchConfig::default() };
    let r = run_pipeline(&sources, &config, &parse("hit").unwrap()).unwrap();
    let ls = &r.files[0].lines;
    assert_eq!(ls.len(), 4);
    assert_eq!(ls[0].line().unwrap().line_no, 2);
    assert_eq!(ls[1].line().unwrap().line_no, 3);
    assert_eq!(ls[2].line().unwrap().line_no, 4);
    assert_eq!(ls[3], LineResult::Separator);
}

#[test]
fn tabs_become_spaces() {
    let r = run("t", "a\tb", "b");
    assert_eq!(r.files[0].lines[0].line().unwrap().text, "a b");
}

#[test]
fn replay_equivalence_on_values() {
    let r = run("a", "foo bar\nfoo baz\nqux", "foo | contains(f) | upper_case()");
    let again = r.reapply();
    assert_eq!(lines_of(&again), lines_of(&r));
    assert_eq!(again.stat(), r.stat());
}

#[test]
fn pop_inverse_on_values() {
    let r = run("a", "foo bar\nfoo baz", "foo | ba");
    let mut applied = r.apply(SearchCondition::Exact("zzz".to_string()), 3);
    assert!(lines_of(&applied).iter().all(|l| !l.1));
    let popped = applied.delete_last_condition();
    assert_eq!(lines_of(&popped), lines_of(&r));
    assert_eq!(popped.stat(), r.stat());
}

#[test]
fn idempotent_matcher_on_values() {
    let r = run("a", "foo foo\nfoo", "foo");
    let once = r.apply(SearchCondition::Exact("o".to_string()), 2);
    let twice = once.apply(SearchCondition::Exact("o".to_string()), 2);
    assert_eq!(once.stat().match_count, twice.stat().match_count);
    assert_eq!(once.stat().match_count, 3 + 6);
}

#[test]
fn count_sanity_on_values() {
    let sources = vec![("a".to_string(), "x x\ny\nx".to_string()), ("b".to_string(), "xx".to_string())];
    let r = run_pipeline(&sources, &SearchConfig::default(), &parse("x").unwrap()).unwrap();
    assert_eq!(r.count_matches(), 5);
    assert_eq!(r.count_lines(), 3);
    assert_eq!(r.stat().file_count, 2);
    assert!(r.count_matches() >= r.count_lines() && r.count_lines() >= r.stat().file_count);
}

#[test]
fn single_line_commit_touches_one_line() {
    let r = run("a", "ab\nab\nab", "a | update(Z)");
    let line = r.files[0].lines[1].line().unwrap();
    assert_eq!(line.line_no, 2);
    let out = commit_line(split_lines("ab\nab\nab"), &line);
    assert_eq!(out, vec!["ab".to_string(), "Zb".to_string(), "ab".to_string()]);
    let mut live = r;
    let text = live.reflect_on_selected_row(&"a".to_string(), &line, "ab\r\nab\r\nab\n");
    assert_eq!(text, "ab\r\nZb\r\nab\n");
    assert_eq!(live.count_lines(), 2);
    assert_eq!(join_lines(&vec!["x".to_string(), "y".to_string()]), "x\ny");
}

#[test]
fn whole_commit_keeps_line_endings() {
    let r = run("a", "ab\r\nb\nab\n", "a | upper_case()");
    assert_eq!(commit("ab\r\nb\nab\n", &r), "Ab\r\nb\nAb\n");
}

#[test]
fn transform_after_transform_spans_the_match() {
    let r = run("a", "hello x", "hello | replace(hello, hi) | upper_case()");
    assert_eq!(
        lines_of(&r)[0].2,
        vec![MatchResult::Transformed("HI".to_string(), Range { start: 0, end: 5 }, 3)]
    );
    assert_eq!(commit("hello x", &r), "HI x");
}

#[test]
fn counts_take_every_fragment_and_shown_lines() {
    let r = run("a", "tea\ntoe\nsky", "t | starts_with(t)");
    assert_eq!(r.count_matches(), 2);
    assert_eq!(r.count_lines(), 2);
    let hidden = r.apply(SearchCondition::LineContains("zzz".to_string()), 3);
    assert_eq!(hidden.count_lines(), 0);
    assert_eq!(hidden.count_matches(), 2);
    let ctx = SearchConfig { before_context: Some(1), ..SearchConfig::default() };
    let sources = vec![("c".to_string(), "x\nhit".to_string())];
    let with_context = run_pipeline(&sources, &ctx, &parse("hit").unwrap()).unwrap();
    assert_eq!(with_context.count_lines(), 1);
    assert_eq!(with_context.count_matches(), 1);
}

#[test]
fn unresolved_variable_matches_nothing() {
    let sources = vec![("n".to_string(), "5 and 12".to_string())];
    let conds = parse("number() > env.SURELY_UNSET_VARIABLE_X").unwrap();
    let r = run_pipeline(&sources, &SearchConfig::default(), &conds).unwrap();
    assert_eq!(r.files.len(), 0);
}

#[test]
fn commit_applies_right_to_left() {
    let r = run("a", "aa aa", "aa | replace(a, bbb)");
    assert_eq!(commit("aa aa", &r), "bbbbbb bbbbbb");
}

#[test]
fn ranges_lie_within_the_line() {
    let r = run("a", "x1 22 x333", "number() >= 0");
    let len = "x1 22 x333".len();
    for (_, _, ms) in lines_of(&r) {
        for m in ms {
            let rg = m.range();
            assert!(rg.start <= rg.end && rg.end <= len);
        }
    }
}

#[test]
fn sorted_matches_after_apply() {
    let r = run("a", "abcabc", "c | a");
    let ms = &lines_of(&r)[0].2;
    let keys: Vec<(usize, usize)> = ms.iter().map(|m| (m.column(), m.index())).collect();
    let mut sorted = keys.clone();
    sorted.sort();
    assert_eq!(keys, sorted);
    assert_eq!(keys, vec![(0, 2), (2, 1), (3, 2), (5, 1)]);
}

#[test]
fn scenario_commit_events() {
    let r = run("e.txt", "a b c", "'a' | replace(a, X)");
    let mut tracker = CommitTracker::new(r.files.len());
    let mut events = Vec::new();
    for _ in &r.files {
        events.extend(tracker.file_done(None));
    }
    let progress: usize = events.iter().map(|e| if let Event::Progress(n) = e { *n } else { 0 }).sum();
    let finished = events.iter().filter(|e| matches!(e, Event::ReplaceFinished)).count();
    assert_eq!(progress, 1);
    assert_eq!(finished, 1);
    assert!(matches!(events.last(), Some(Event::ReplaceFinished)));
    assert!(tracker.is_finished());
}

#[test]
fn failed_file_reports_an_error() {
    let mut tracker = CommitTracker::new(2);
    let first = tracker.file_done(Some("denied".to_string()));
    assert!(matches!(first.as_slice(), [Event::Error(e)] if e == "denied"));
    let second = tracker.file_done(None);
    assert!(matches!(second.as_slice(), [Event::Progress(1), Event::ReplaceFinished]));
}

#[test]
fn search_over_piped_input() {
    let s = Search::new(vec![(String::new(), "one\ntwo\nthree".to_string())]);
    let initial = s.search(&SearchConfig::default(), &parse("t").unwrap());
    assert_eq!(initial.files.len(), 1);
    assert_eq!(initial.files[0].file_path, "");
    assert_eq!(initial.count_lines(), 2);
    let full = s.search_sync(&SearchConfig::default(), &parse("t | starts_with(t)").unwrap()).unwrap();
    assert_eq!(full.count_matches(), 2);
    assert_eq!(full.count_lines(), 2);
    assert_eq!(full.stat().match_count, 2);
}
