use vstd::prelude::*;
use crate::file_result::{FileModel, LineModel};
use crate::line::{lemma_sort_frags, sort_frags, sorted};
use crate::match_result::{tag_found, Frag};
use crate::matcher::{exact_found, folded_end, folded_from, keeps, number_runs_from, run_pieces};
use crate::case::lower_of;
use crate::text::{lemma_occurrences_are_occurrences, lemma_utf8_prefix, occurrences, occurs_at, utf8};
use crate::value::{is_digit, Op};
use crate::search::{content_entries, context_line, line_hits, lines_of, search_model, untab, window_end, window_start};
use crate::search_condition::{
    cond_found, cond_output, line_accepts, match_accepts, spec_is_matcher, SearchCondition,
};
use crate::search_result::{
    apply_files, apply_line, clear_entry, clear_files, counted, entries_frags, entries_lines, filter_stage,
    fresh, matched, replay, total_frags, total_lines, transform_stage,
};

verus! {

broadcast use vstd::seq_lib::group_to_multiset_ensures;

/// Every line that applying a condition yields has its fragments in order, by
/// start and then by the producing condition.
pub proof fn lemma_apply_keeps_order(l: LineModel, c: SearchCondition, index: int)
    ensures
        sorted(apply_line(l, c, index).frags),
{
    lemma_sort_frags(transform_stage(filter_stage(matched(l, c, index), c, index), c, index));
}

/// Nothing is fresh against an empty list.
proof fn lemma_fresh_empty(s: Seq<Frag>)
    ensures
        fresh(s, Seq::empty()) == s,
    decreases s.len(),
{
    if s.len() > 0 {
        lemma_fresh_empty(s.drop_last());
        assert(s.drop_last().push(s.last()) =~= s);
    }
}

/// A fragment of `s` that `e` lacks is fresh.
proof fn lemma_fresh_member(s: Seq<Frag>, e: Seq<Frag>, x: Frag)
    requires
        s.contains(x),
        !e.contains(x),
    ensures
        fresh(s, e).contains(x),
    decreases s.len(),
{
    if s.last() == x {
        assert(fresh(s, e).last() == x);
    } else {
        let k = choose|k: int| 0 <= k < s.len() && s[k] == x;
        assert(s.drop_last()[k] == x);
        lemma_fresh_member(s.drop_last(), e, x);
        let f = fresh(s.drop_last(), e);
        let j = choose|j: int| 0 <= j < f.len() && f[j] == x;
        if !e.contains(s.last()) {
            assert(fresh(s, e)[j] == x);
        }
    }
}

/// Nothing is fresh where `e` holds all of `s`.
proof fn lemma_fresh_none(s: Seq<Frag>, e: Seq<Frag>)
    requires
        forall|i: int| 0 <= i < s.len() ==> e.contains(#[trigger] s[i]),
    ensures
        fresh(s, e) == Seq::<Frag>::empty(),
    decreases s.len(),
{
    if s.len() > 0 {
        assert(e.contains(s[s.len() - 1]));
        lemma_fresh_none(s.drop_last(), e);
    }
}

/// A condition without a match-filter keeps the fragments as they are.
proof fn lemma_no_match_filter(s: Seq<Frag>, c: SearchCondition, index: int)
    requires
        forall|t: Seq<char>| #[trigger] match_accepts(c, t) is None,
    ensures
        filter_stage(s, c, index) == s,
    decreases s.len(),
{
    if s.len() > 0 {
        lemma_no_match_filter(s.drop_last(), c, index);
        assert(match_accepts(c, s.last().text) is None);
        assert(s.drop_last() + seq![s.last()] =~= s);
    }
}

/// A condition without a transform keeps the fragments as they are.
proof fn lemma_no_transform(s: Seq<Frag>, c: SearchCondition, index: int)
    requires
        forall|t: Seq<char>| #[trigger] cond_output(c, t) is None,
    ensures
        transform_stage(s, c, index) == s,
{
    assert forall|i: int| 0 <= i < s.len() implies transform_stage(s, c, index)[i] == s[i] by {
        assert(cond_output(c, s[i].text) is None);
    }
    assert(transform_stage(s, c, index) =~= s);
}

/// A matcher has neither a match-filter, a transform nor a line-filter.
proof fn lemma_matcher_roles(c: SearchCondition)
    requires
        spec_is_matcher(c),
    ensures
        forall|t: Seq<char>| #[trigger] match_accepts(c, t) is None,
        forall|t: Seq<char>| #[trigger] cond_output(c, t) is None,
        forall|t: Seq<char>| #[trigger] line_accepts(c, t) is None,
{
}

/// The fragments of a line that the initial search kept: what the pipeline's
/// first condition, a matcher, found on it at index 1, at least one, in order.
pub open spec fn initial_line(l: LineModel, c0: SearchCondition) -> bool {
    &&& cond_found(c0, l.text) is Some
    &&& l.frags == sort_frags(tag_found(cond_found(c0, l.text)->Some_0, 1))
    &&& l.frags.len() > 0
    &&& !l.hidden
}

/// Every line of the files is one that the initial search kept.
pub open spec fn initial_files(s: Seq<FileModel>, c0: SearchCondition) -> bool {
    forall|i: int, j: int|
        0 <= i < s.len() && 0 <= j < s[i].entries.len() ==> match #[trigger] s[i].entries[j] {
            Some(l) => initial_line(l, c0),
            None => true,
        }
}

/// The conditions after the first applied in turn to the initial search, the
/// `i`-th with index `i`: the result as a user builds it.
pub open spec fn refine(s: Seq<FileModel>, conds: Seq<SearchCondition>, k: int) -> Seq<FileModel>
    decreases k,
{
    if k <= 1 {
        s
    } else {
        apply_files(refine(s, conds, k - 1), conds[k - 1], k)
    }
}

/// A line that the initial search kept comes back as it was when its cleared
/// copy meets the first condition again.
proof fn lemma_initial_line_again(l: LineModel, c0: SearchCondition)
    requires
        spec_is_matcher(c0),
        initial_line(l, c0),
    ensures
        apply_line(clear_entry(Some(l))->Some_0, c0, 1) == l,
{
    let cl = clear_entry(Some(l))->Some_0;
    let t = tag_found(cond_found(c0, l.text)->Some_0, 1);
    lemma_fresh_empty(t);
    assert(cl.frags + t =~= t);
    assert(matched(cl, c0, 1) == t);
    lemma_sort_frags(t);
    lemma_matcher_roles(c0);
    lemma_no_match_filter(t, c0, 1);
    lemma_no_transform(t, c0, 1);
    assert(line_accepts(c0, l.text) is None);
}

/// Files that the initial search kept come back as they were.
proof fn lemma_initial_files_again(s: Seq<FileModel>, c0: SearchCondition)
    requires
        spec_is_matcher(c0),
        initial_files(s, c0),
    ensures
        apply_files(clear_files(s), c0, 1) == s,
{
    assert forall|i: int| 0 <= i < s.len() implies #[trigger] apply_files(clear_files(s), c0, 1)[i] == s[i] by {
        let f = s[i];
        let g = apply_files(clear_files(s), c0, 1)[i];
        assert forall|j: int| 0 <= j < f.entries.len() implies #[trigger] g.entries[j] == f.entries[j] by {
            match f.entries[j] {
                Some(l) => {
                    assert(initial_line(l, c0));
                    lemma_initial_line_again(l, c0);
                },
                None => {},
            }
        }
        assert(g.entries =~= f.entries);
    }
    assert(apply_files(clear_files(s), c0, 1) =~= s);
}

/// Clearing forgets what a condition did.
proof fn lemma_clear_after_apply(s: Seq<FileModel>, c: SearchCondition, index: int)
    ensures
        clear_files(apply_files(s, c, index)) == clear_files(s),
{
    assert forall|i: int| 0 <= i < s.len() implies #[trigger] clear_files(apply_files(s, c, index))[i] == clear_files(s)[i] by {
        let a = clear_files(apply_files(s, c, index))[i];
        let b = clear_files(s)[i];
        assert forall|j: int| 0 <= j < b.entries.len() implies #[trigger] a.entries[j] == b.entries[j] by {
            match s[i].entries[j] {
                Some(l) => {},
                None => {},
            }
        }
        assert(a.entries =~= b.entries);
    }
    assert(clear_files(apply_files(s, c, index)) =~= clear_files(s));
}

/// Clearing forgets what the refinements did.
proof fn lemma_clear_after_refine(s: Seq<FileModel>, conds: Seq<SearchCondition>, k: int)
    ensures
        clear_files(refine(s, conds, k)) == clear_files(s),
    decreases k,
{
    if k > 1 {
        lemma_clear_after_refine(s, conds, k - 1);
        lemma_clear_after_apply(refine(s, conds, k - 1), conds[k - 1], k);
    }
}

/// Replaying every condition on the cleared lines equals the refinement of the
/// initial search.
proof fn lemma_replay_is_refine(s: Seq<FileModel>, conds: Seq<SearchCondition>, k: int)
    requires
        conds.len() > 0,
        spec_is_matcher(conds[0]),
        initial_files(s, conds[0]),
        k >= 1,
    ensures
        replay(clear_files(s), conds, k) == refine(s, conds, k),
    decreases k,
{
    if k == 1 {
        lemma_initial_files_again(s, conds[0]);
        assert(replay(clear_files(s), conds, 0) == clear_files(s));
    } else {
        lemma_replay_is_refine(s, conds, k - 1);
    }
}

/// Replay equivalence: deriving afresh a result that the user built from an initial
/// search by applying the later conditions one by one gives that same result,
/// and so the same counts.
pub proof fn lemma_replay_equivalence(s: Seq<FileModel>, conds: Seq<SearchCondition>)
    requires
        conds.len() > 0,
        spec_is_matcher(conds[0]),
        initial_files(s, conds[0]),
    ensures
        replay(clear_files(refine(s, conds, conds.len() as int)), conds, conds.len() as int)
            == refine(s, conds, conds.len() as int),
{
    lemma_clear_after_refine(s, conds, conds.len() as int);
    lemma_replay_is_refine(s, conds, conds.len() as int);
}

/// Pop inverse: applying one more condition and then removing it again gives back
/// the result as it was derived from the initial search.
pub proof fn lemma_pop_inverse(s: Seq<FileModel>, conds: Seq<SearchCondition>, c: SearchCondition)
    requires
        conds.len() > 0,
        spec_is_matcher(conds[0]),
        initial_files(s, conds[0]),
    ensures
        replay(
            clear_files(apply_files(refine(s, conds, conds.len() as int), c, conds.len() as int + 1)),
            conds,
            conds.len() as int,
        ) == refine(s, conds, conds.len() as int),
{
    lemma_clear_after_apply(refine(s, conds, conds.len() as int), c, conds.len() as int + 1);
    lemma_replay_equivalence(s, conds);
}

/// A fragment of a list is a fragment of the sorted list.
proof fn lemma_sorted_contains(s: Seq<Frag>, x: Frag)
    requires
        s.contains(x),
    ensures
        sort_frags(s).contains(x),
{
    lemma_sort_frags(s);
    assert(s.to_multiset().count(x) > 0);
    assert(sort_frags(s).to_multiset().count(x) > 0);
}

/// Idempotent matchers: applying a matcher a second time with the same index adds
/// no fragment to a line.
pub proof fn lemma_matcher_idempotent(l: LineModel, c: SearchCondition, index: int)
    requires
        spec_is_matcher(c),
    ensures
        apply_line(apply_line(l, c, index), c, index).frags.len() == apply_line(l, c, index).frags.len(),
        matched(apply_line(l, c, index), c, index) == apply_line(l, c, index).frags,
{
    lemma_matcher_roles(c);
    let l1 = apply_line(l, c, index);
    let m1 = matched(l, c, index);
    lemma_no_match_filter(m1, c, index);
    lemma_no_transform(m1, c, index);
    assert(l1.frags == sort_frags(m1));
    match cond_found(c, l.text) {
        Some(p) => {
            let t = tag_found(p, index);
            assert forall|i: int| 0 <= i < t.len() implies l1.frags.contains(#[trigger] t[i]) by {
                assert(t.contains(t[i]));
                if l.frags.contains(t[i]) {
                    let k = choose|k: int| 0 <= k < l.frags.len() && l.frags[k] == t[i];
                    assert(m1[k] == t[i]);
                } else {
                    lemma_fresh_member(t, l.frags, t[i]);
                    let f = fresh(t, l.frags);
                    let k = choose|k: int| 0 <= k < f.len() && f[k] == t[i];
                    assert(m1[l.frags.len() + k] == t[i]);
                }
                assert(m1.contains(t[i]));
                lemma_sorted_contains(m1, t[i]);
            }
            lemma_fresh_none(t, l1.frags);
        },
        None => {},
    }
    assert(matched(l1, c, index) =~= l1.frags);
    lemma_no_match_filter(l1.frags, c, index);
    lemma_no_transform(l1.frags, c, index);
    lemma_sort_frags(l1.frags);
}

/// Some entry is a shown line that holds a fragment.
pub open spec fn has_counted(es: Seq<Option<LineModel>>) -> bool {
    exists|j: int| 0 <= j < es.len() && #[trigger] counted(es[j])
}

/// Every file has a shown line that holds a fragment.
pub open spec fn each_file_counted(s: Seq<FileModel>) -> bool {
    forall|i: int| 0 <= i < s.len() ==> has_counted(#[trigger] s[i].entries)
}

/// Within one file's entries, fragments are at least the counted lines, and a
/// counted line makes the count at least one.
proof fn lemma_entries_counts(es: Seq<Option<LineModel>>)
    ensures
        entries_frags(es) >= entries_lines(es),
        has_counted(es) ==> entries_lines(es) >= 1,
    decreases es.len(),
{
    if es.len() > 0 {
        lemma_entries_counts(es.drop_last());
        if has_counted(es) {
            let j = choose|j: int| 0 <= j < es.len() && #[trigger] counted(es[j]);
            if j < es.len() - 1 {
                assert(es.drop_last()[j] == es[j]);
                assert(counted(es.drop_last()[j]));
            }
        }
    }
}

/// Count sanity: the fragments are at least the shown lines that hold one; and
/// where each file has such a line, those lines are at least the files.
pub proof fn lemma_count_sanity(s: Seq<FileModel>)
    ensures
        total_frags(s) >= total_lines(s),
        each_file_counted(s) ==> total_lines(s) >= s.len(),
    decreases s.len(),
{
    if s.len() > 0 {
        let t = s.drop_last();
        lemma_count_sanity(t);
        lemma_entries_counts(s.last().entries);
        if each_file_counted(s) {
            assert forall|i: int| 0 <= i < t.len() implies has_counted(#[trigger] t[i].entries) by {
                assert(t[i] == s[i]);
                assert(has_counted(s[i].entries));
            }
            assert(has_counted(s[s.len() - 1].entries));
        }
    }
}

/// The digit runs that the number matcher keeps lie within the text.
proof fn lemma_runs_within(t: Seq<u8>, op: Op, i: int, start: int)
    requires
        0 <= i <= t.len(),
        start < 0 || start <= i,
    ensures
        forall|j: int| 0 <= j < number_runs_from(t, op, i, start).len() ==> 0 <= (#[trigger] number_runs_from(t, op, i, start)[j]).0
            && number_runs_from(t, op, i, start)[j].0 <= number_runs_from(t, op, i, start)[j].1
            && number_runs_from(t, op, i, start)[j].1 <= t.len(),
    decreases t.len() - i,
{
    if i >= t.len() {
        if start >= 0 && keeps(t, op, start, t.len() as int) {
            assert(number_runs_from(t, op, i, start) == seq![(start, t.len() as int)]);
        } else {
            assert(number_runs_from(t, op, i, start) == Seq::<(int, int)>::empty());
        }
    } else if is_digit(t[i]) {
        let ns = if start >= 0 { start } else { i };
        lemma_runs_within(t, op, i + 1, ns);
        assert(number_runs_from(t, op, i, start) == number_runs_from(t, op, i + 1, ns));
    } else if start >= 0 && keeps(t, op, start, i) {
        lemma_runs_within(t, op, i + 1, -1);
        let rest = number_runs_from(t, op, i + 1, -1);
        assert(number_runs_from(t, op, i, start) == seq![(start, i)] + rest);
        assert forall|j: int| 0 <= j < number_runs_from(t, op, i, start).len() implies 0 <= (#[trigger] number_runs_from(t, op, i, start)[j]).0
            && number_runs_from(t, op, i, start)[j].0 <= number_runs_from(t, op, i, start)[j].1
            && number_runs_from(t, op, i, start)[j].1 <= t.len() by {
            if j > 0 {
                assert(number_runs_from(t, op, i, start)[j] == rest[j - 1]);
            }
        }
    } else {
        lemma_runs_within(t, op, i + 1, -1);
        assert(number_runs_from(t, op, i, start) == number_runs_from(t, op, i + 1, -1));
    }
}

/// The fragments of a search that ignores case lie within the text.
proof fn lemma_folded_within(t: Seq<char>, k: Seq<char>, i: int)
    requires
        0 <= i <= t.len(),
    ensures
        forall|j: int| 0 <= j < folded_from(t, k, i).len() ==> 0 <= (#[trigger] folded_from(t, k, i)[j]).1
            && folded_from(t, k, i)[j].1 <= folded_from(t, k, i)[j].2
            && folded_from(t, k, i)[j].2 <= utf8(t).len(),
    decreases t.len() - i,
{
    if i >= t.len() || k.len() == 0 {
    } else {
        let e = folded_end(t, lower_of(k), i, i + 1);
        if e > i && e <= t.len() {
            lemma_folded_within(t, k, e);
            lemma_utf8_prefix(t, i, e);
            let rest = folded_from(t, k, e);
            assert(folded_from(t, k, i) == seq![(k, utf8(t.take(i)).len() as int, utf8(t.take(e)).len() as int)] + rest);
            assert forall|j: int| 0 <= j < folded_from(t, k, i).len() implies 0 <= (#[trigger] folded_from(t, k, i)[j]).1
                && folded_from(t, k, i)[j].1 <= folded_from(t, k, i)[j].2
                && folded_from(t, k, i)[j].2 <= utf8(t).len() by {
                if j > 0 {
                    assert(folded_from(t, k, i)[j] == rest[j - 1]);
                }
            }
        } else {
            lemma_folded_within(t, k, i + 1);
            assert(folded_from(t, k, i) == folded_from(t, k, i + 1));
        }
    }
}

/// Range validity: each fragment that an exact-keyword, ignore-case or number
/// matcher finds in a text spans `0 <= start <= end <= len` of the text's bytes.
pub proof fn lemma_found_ranges_valid(c: SearchCondition, t: Seq<char>)
    requires
        c is Exact || c is IgnoreCase || c is Number,
        utf8(t).len() <= usize::MAX,
    ensures
        cond_found(c, t) matches Some(p) ==> forall|j: int|
            0 <= j < p.len() ==> 0 <= (#[trigger] p[j]).1 <= p[j].2 <= utf8(t).len(),
{
    match c {
        SearchCondition::Exact(k) => {
            let p = exact_found(t, k@);
            lemma_occurrences_are_occurrences(utf8(t), utf8(k@), 0);
            assert forall|j: int| 0 <= j < p.len() implies 0 <= (#[trigger] p[j]).1 <= p[j].2 <= utf8(t).len() by {
                let o = occurrences(utf8(t), utf8(k@))[j];
                assert(occurs_at(utf8(t), utf8(k@), o));
            }
        },
        SearchCondition::IgnoreCase(k) => {
            lemma_folded_within(t, k@, 0);
        },
        SearchCondition::Number(Some(op)) => {
            lemma_runs_within(utf8(t), op, 0, -1);
            let runs = number_runs_from(utf8(t), op, 0, -1);
            let p = run_pieces(utf8(t), runs);
            assert forall|j: int| 0 <= j < p.len() implies 0 <= (#[trigger] p[j]).1 <= p[j].2 <= utf8(t).len() by {
                assert(p[j].1 == runs[j].0);
            }
        },
        _ => {},
    }
}

/// Without context windows, every entry that the initial search makes of a text is
/// a line that the matcher found fragments on.
proof fn lemma_content_initial(
    lines: Seq<Seq<char>>,
    k: int,
    m: SearchCondition,
    lf: Option<SearchCondition>,
)
    requires
        0 <= k <= lines.len(),
    ensures
        forall|j: int|
            0 <= j < content_entries(lines, k, None, None, m, lf).len() ==> match #[trigger] content_entries(
                lines,
                k,
                None,
                None,
                m,
                lf,
            )[j] {
                Some(l) => initial_line(l, m),
                None => false,
            },
    decreases k,
{
    if k > 0 {
        lemma_content_initial(lines, k - 1, m, lf);
        let prev = content_entries(lines, k - 1, None, None, m, lf);
        let here = line_hits(lines, k - 1, None, None, m, lf);
        let all = content_entries(lines, k, None, None, m, lf);
        assert(all == prev + here);
        let i = k - 1;
        if !(lf matches Some(f) && line_accepts(f, lines[i]) == Some(false)) {
            match cond_found(m, untab(lines[i])) {
                Some(p) => {
                    if p.len() > 0 {
                        let t = tag_found(p, 1);
                        lemma_sort_frags(t);
                        let hit = Some(LineModel { no: (i + 1) as usize, text: untab(lines[i]), frags: sort_frags(t), hidden: false });
                        assert(here =~= seq![hit]);
                        assert(initial_line(hit->Some_0, m));
                    }
                },
                None => {},
            }
        }
        assert forall|j: int| 0 <= j < all.len() implies match #[trigger] all[j] {
            Some(l) => initial_line(l, m),
            None => false,
        } by {
            if j < prev.len() {
                assert(all[j] == prev[j]);
            } else {
                assert(all[j] == here[j - prev.len()]);
            }
        }
    }
}

/// Without context windows, the initial search keeps only lines that its matcher
/// found fragments on.
pub proof fn lemma_search_initial(
    srcs: Seq<(Seq<char>, Seq<char>)>,
    k: int,
    m: SearchCondition,
    lf: Option<SearchCondition>,
)
    requires
        0 <= k <= srcs.len(),
    ensures
        initial_files(search_model(srcs, k, None, None, m, lf), m),
        forall|i: int, j: int|
            0 <= i < search_model(srcs, k, None, None, m, lf).len() && 0 <= j < search_model(srcs, k, None, None, m, lf)[i].entries.len()
                ==> (#[trigger] search_model(srcs, k, None, None, m, lf)[i].entries[j]) is Some,
    decreases k,
{
    if k > 0 {
        lemma_search_initial(srcs, k - 1, m, lf);
        let prev = search_model(srcs, k - 1, None, None, m, lf);
        let s = search_model(srcs, k, None, None, m, lf);
        let ls = lines_of(srcs[k - 1].1);
        lemma_content_initial(ls, ls.len() as int, m, lf);
        assert forall|i: int, j: int| 0 <= i < s.len() && 0 <= j < s[i].entries.len() implies match #[trigger] s[i].entries[j] {
            Some(l) => initial_line(l, m),
            None => true,
        } by {
            if i < prev.len() {
                assert(s[i] == prev[i]);
            }
        }
        assert forall|i: int, j: int| 0 <= i < s.len() && 0 <= j < s[i].entries.len() implies (#[trigger] s[i].entries[j]) is Some by {
            if i < prev.len() {
                assert(s[i] == prev[i]);
            } else {
                assert(match s[i].entries[j] {
                    Some(l) => initial_line(l, m),
                    None => false,
                });
            }
        }
    }
}

/// Replay equivalence from the search itself: a result that the initial search
/// without context windows produced with the pipeline's first condition, a
/// matcher, and that the later conditions refined one by one, comes back the same
/// when derived afresh.
pub proof fn lemma_replay_after_search(
    srcs: Seq<(Seq<char>, Seq<char>)>,
    conds: Seq<SearchCondition>,
    lf: Option<SearchCondition>,
)
    requires
        conds.len() > 0,
        spec_is_matcher(conds[0]),
    ensures
        ({
            let s = search_model(srcs, srcs.len() as int, None, None, conds[0], lf);
            replay(clear_files(refine(s, conds, conds.len() as int)), conds, conds.len() as int)
                == refine(s, conds, conds.len() as int)
        }),
{
    lemma_search_initial(srcs, srcs.len() as int, conds[0], lf);
    lemma_replay_equivalence(search_model(srcs, srcs.len() as int, None, None, conds[0], lf), conds);
}

/// A text from which the initial search keeps entries holds a shown line with a
/// fragment: the line the matcher found fragments on.
proof fn lemma_content_counted(
    lines: Seq<Seq<char>>,
    k: int,
    before: Option<usize>,
    after: Option<usize>,
    m: SearchCondition,
    lf: Option<SearchCondition>,
)
    requires
        0 <= k <= lines.len(),
    ensures
        content_entries(lines, k, before, after, m, lf).len() > 0 ==> has_counted(content_entries(lines, k, before, after, m, lf)),
    decreases k,
{
    if k > 0 {
        lemma_content_counted(lines, k - 1, before, after, m, lf);
        let prev = content_entries(lines, k - 1, before, after, m, lf);
        let here = line_hits(lines, k - 1, before, after, m, lf);
        let all = content_entries(lines, k, before, after, m, lf);
        assert(all == prev + here);
        let i = k - 1;
        if here.len() > 0 {
            let p = cond_found(m, untab(lines[i]))->Some_0;
            let t = tag_found(p, 1);
            lemma_sort_frags(t);
            let b = window_start(i, before);
            let e = window_end(i, after, lines.len() as int);
            let pre = Seq::new((i - b) as nat, |q: int| context_line(lines, b + q));
            let hit = Some(LineModel { no: (i + 1) as usize, text: untab(lines[i]), frags: sort_frags(t), hidden: false });
            assert(here == pre + seq![hit] + Seq::new((e - i - 1) as nat, |q: int| context_line(lines, i + 1 + q))
                + if (i - b) + (e - i - 1) > 1 { seq![None] } else { Seq::empty() });
            assert(here[i - b] == hit);
            assert(all[prev.len() + i - b] == hit);
            assert(counted(all[prev.len() + i - b]));
        } else if prev.len() > 0 {
            assert(has_counted(prev));
            let j = choose|j: int| 0 <= j < prev.len() && #[trigger] counted(prev[j]);
            assert(all[j] == prev[j]);
        }
    }
}

/// Each file that the initial search keeps has a shown line with a fragment.
proof fn lemma_search_counted(
    srcs: Seq<(Seq<char>, Seq<char>)>,
    k: int,
    before: Option<usize>,
    after: Option<usize>,
    m: SearchCondition,
    lf: Option<SearchCondition>,
)
    requires
        0 <= k <= srcs.len(),
    ensures
        each_file_counted(search_model(srcs, k, before, after, m, lf)),
    decreases k,
{
    if k > 0 {
        lemma_search_counted(srcs, k - 1, before, after, m, lf);
        let prev = search_model(srcs, k - 1, before, after, m, lf);
        let s = search_model(srcs, k, before, after, m, lf);
        let ls = lines_of(srcs[k - 1].1);
        lemma_content_counted(ls, ls.len() as int, before, after, m, lf);
        assert forall|i: int| 0 <= i < s.len() implies has_counted(#[trigger] s[i].entries) by {
            if i < prev.len() {
                assert(s[i] == prev[i]);
                assert(has_counted(prev[i].entries));
            }
        }
    }
}

/// Count sanity from the search itself: after an initial search, with or without
/// context windows, the fragments are at least the shown lines that hold one, and
/// those lines at least the files.
pub proof fn lemma_count_sanity_after_search(
    srcs: Seq<(Seq<char>, Seq<char>)>,
    before: Option<usize>,
    after: Option<usize>,
    m: SearchCondition,
    lf: Option<SearchCondition>,
)
    ensures
        ({
            let s = search_model(srcs, srcs.len() as int, before, after, m, lf);
            total_frags(s) >= total_lines(s) && total_lines(s) >= s.len()
        }),
{
    lemma_search_counted(srcs, srcs.len() as int, before, after, m, lf);
    lemma_count_sanity(search_model(srcs, srcs.len() as int, before, after, m, lf));
}

} // verus!
