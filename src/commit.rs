use vstd::prelude::*;
use crate::file_result::{file_model, FileResult, LineModel, LineResult};
use crate::line::Line;
use crate::match_result::{apply_frag, frags, Frag, MatchResult};
use crate::search::split_nl;

verus! {

/// The fragments committed to a line's text, the last first, so that the ranges of
/// earlier ones still hold.
pub open spec fn apply_all(s: Seq<Frag>, t: Seq<char>) -> Seq<char>
    decreases s.len(),
{
    if s.len() == 0 {
        t
    } else {
        apply_all(s.drop_last(), apply_frag(s.last(), t))
    }
}

/// Commits the fragments `v`, the last first, to a text.
pub fn apply_matches(v: &Vec<MatchResult>, text: String) -> (r: String)
    ensures
        r@ == apply_all(frags(v@), text@),
{
    let ghost s = frags(v@);
    let mut t = text;
    let mut k: usize = v.len();
    assert(s.take(k as int) =~= s);
    while k > 0
        invariant
            k <= v@.len(),
            s == frags(v@),
            apply_all(s, text@) == apply_all(s.take(k as int), t@),
        decreases k,
    {
        assert(s.take(k as int).drop_last() =~= s.take(k - 1));
        assert(s.take(k as int).last() == v@[k - 1]@);
        t = v[k - 1].apply(t);
        k = k - 1;
    }
    t
}

/// The lines with `line`'s fragments committed to the line of its number; every
/// other line stays as it was.
pub fn commit_line(lines: Vec<String>, line: &Line) -> (r: Vec<String>)
    ensures
        r@.len() == lines@.len(),
        forall|k: int| 0 <= k < lines@.len() && k != line.number() - 1 ==> (#[trigger] r@[k])@ == lines@[k]@,
        1 <= line.number() <= lines@.len() ==> r@[line.number() - 1]@ == apply_all(
            line.frags(),
            lines@[line.number() - 1]@,
        ),
{
    let mut lines = lines;
    let no = line.get_line_no();
    if no >= 1 && no <= lines.len() {
        let t = lines[no - 1].clone();
        let u = apply_matches(line.matches(), t);
        lines.set(no - 1, u);
    }
    lines
}

/// The text of a line that a file's commit leaves: its rewritten fragments
/// committed, for each entry of the file that bears its number.
pub open spec fn commit_text(es: Seq<Option<LineModel>>, no: int, t: Seq<char>) -> Seq<char>
    decreases es.len(),
{
    if es.len() == 0 {
        t
    } else {
        let prev = commit_text(es.drop_last(), no, t);
        match es.last() {
            Some(l) => if l.no == no { apply_all(l.frags, prev) } else { prev },
            None => prev,
        }
    }
}

/// The lines of a file with every line of its result committed; a line that no
/// entry names stays as it was.
pub fn commit_file(lines: Vec<String>, file: &FileResult) -> (r: Vec<String>)
    ensures
        r@.len() == lines@.len(),
        forall|k: int| 0 <= k < lines@.len() ==> (#[trigger] r@[k])@ == commit_text(
            file_model(*file).entries,
            k + 1,
            lines@[k]@,
        ),
{
    let ghost es = file_model(*file).entries;
    let ghost orig = lines@;
    let mut lines = lines;
    let mut i: usize = 0;
    while i < file.lines.len()
        invariant
            i <= file.lines@.len(),
            es == file_model(*file).entries,
            lines@.len() == orig.len(),
            forall|k: int| 0 <= k < orig.len() ==> (#[trigger] lines@[k])@ == commit_text(es.take(i as int), k + 1, orig[k]@),
        decreases file.lines@.len() - i,
    {
        assert(es.take(i + 1).drop_last() =~= es.take(i as int));
        match &file.lines[i] {
            LineResult::Line(l) => {
                let no = l.get_line_no();
                if no >= 1 && no <= lines.len() {
                    let t = lines[no - 1].clone();
                    let u = apply_matches(l.matches(), t);
                    lines.set(no - 1, u);
                }
            },
            LineResult::Separator => {},
        }
        i = i + 1;
    }
    assert(es.take(i as int) =~= es);
    lines
}

/// The lines joined, each after the first preceded by a line feed.
pub open spec fn joined(s: Seq<Seq<char>>) -> Seq<char>
    decreases s.len(),
{
    if s.len() == 0 {
        Seq::empty()
    } else if s.len() == 1 {
        s[0]
    } else {
        joined(s.drop_last()) + seq!['\n'] + s.last()
    }
}

/// The lines joined by line feeds.
pub fn join_lines(lines: &Vec<String>) -> (r: String)
    ensures
        r@ == joined(lines@.map_values(|s: String| s@)),
{
    let ghost ls = lines@.map_values(|s: String| s@);
    let mut r = String::new();
    let mut i: usize = 0;
    while i < lines.len()
        invariant
            i <= lines@.len(),
            ls == lines@.map_values(|s: String| s@),
            r@ == joined(ls.take(i as int)),
        decreases lines@.len() - i,
    {
        assert(ls.take(i + 1).drop_last() =~= ls.take(i as int));
        if i > 0 {
            r.append("\n");
            proof {
                reveal_strlit("\n");
            }
        }
        r.append(lines[i].as_str());
        assert(r@ =~= joined(ls.take(i + 1)));
        i = i + 1;
    }
    assert(ls.take(i as int) =~= ls);
    r
}

/// Joining two non-empty lists is joining each, with a line feed between.
pub proof fn lemma_joined_concat(a: Seq<Seq<char>>, b: Seq<Seq<char>>)
    requires
        a.len() > 0,
        b.len() > 0,
    ensures
        joined(a + b) == joined(a) + seq!['\n'] + joined(b),
    decreases b.len(),
{
    if b.len() == 1 {
        assert((a + b).drop_last() =~= a);
        assert((a + b).last() == b[0]);
    } else {
        lemma_joined_concat(a, b.drop_last());
        assert((a + b).drop_last() =~= a + b.drop_last());
        assert((a + b).last() == b.last());
        assert(joined(a + b) =~= joined(a) + seq!['\n'] + joined(b));
    }
}

/// Joining the pieces between line feeds gives back the text.
pub proof fn lemma_joined_split(t: Seq<char>)
    ensures
        joined(split_nl(t)) == t,
        split_nl(t).len() >= 1,
    decreases t.len(),
{
    if t.len() > 0 {
        let u = t.drop_last();
        lemma_joined_split(u);
        let r = split_nl(u);
        assert(t =~= u.push(t.last()));
        if t.last() == '\n' {
            assert(r.push(Seq::empty()).drop_last() =~= r);
            assert(joined(r.push(Seq::empty())) =~= joined(r) + seq!['\n'] + Seq::empty());
        } else {
            let x = r.update(r.len() - 1, r.last().push(t.last()));
            if r.len() == 1 {
                assert(joined(x) =~= t);
            } else {
                assert(x.drop_last() =~= r.drop_last());
                assert(joined(x) =~= joined(r.drop_last()) + seq!['\n'] + r.last().push(t.last()));
                assert(joined(r) == joined(r.drop_last()) + seq!['\n'] + r.last());
                assert(joined(x) =~= t);
            }
        }
    }
}

/// The text before line `k` of `s`, its line feed included.
pub open spec fn before_line(s: Seq<Seq<char>>, k: int) -> Seq<char> {
    if k == 0 { Seq::empty() } else { joined(s.take(k)) + seq!['\n'] }
}

/// The text after line `k` of `s`, its line feed included.
pub open spec fn after_line(s: Seq<Seq<char>>, k: int) -> Seq<char> {
    if k + 1 >= s.len() { Seq::empty() } else { seq!['\n'] + joined(s.skip(k + 1)) }
}

/// The joined lines are the text before line `k`, line `k`, and the text after.
pub proof fn lemma_joined_parts(s: Seq<Seq<char>>, k: int)
    requires
        0 <= k < s.len(),
    ensures
        joined(s) == before_line(s, k) + s[k] + after_line(s, k),
{
    let mid = seq![s[k]];
    if k > 0 {
        lemma_joined_concat(s.take(k), mid);
    }
    let head = s.take(k) + mid;
    assert(joined(mid) == s[k]);
    assert(joined(head) == before_line(s, k) + s[k]) by {
        if k == 0 {
            assert(head =~= mid);
        }
    }
    if k + 1 < s.len() {
        lemma_joined_concat(head, s.skip(k + 1));
        assert(head + s.skip(k + 1) =~= s);
    } else {
        assert(head =~= s);
    }
}

/// Transform locality: committing line `k` of a text changes only that line; the
/// bytes before and after it stay as they were.
pub proof fn lemma_commit_locality(t: Seq<char>, k: int, x: Seq<char>)
    requires
        0 <= k < split_nl(t).len(),
    ensures
        t == before_line(split_nl(t), k) + split_nl(t)[k] + after_line(split_nl(t), k),
        joined(split_nl(t).update(k, x)) == before_line(split_nl(t), k) + x + after_line(split_nl(t), k),
{
    let s = split_nl(t);
    lemma_joined_split(t);
    lemma_joined_parts(s, k);
    lemma_joined_parts(s.update(k, x), k);
    assert(s.update(k, x).take(k) =~= s.take(k));
    assert(s.update(k, x).skip(k + 1) =~= s.skip(k + 1));
}

/// The pieces of a text between line feeds, carriage returns kept.
pub fn split_raw(text: &str) -> (r: Vec<String>)
    ensures
        r@.map_values(|s: String| s@) == split_nl(text@),
{
    let c = crate::transform::chars_of(text);
    let mut pieces: Vec<String> = Vec::new();
    let mut cur: Vec<char> = Vec::new();
    let mut i: usize = 0;
    while i < c.len()
        invariant
            i <= c@.len(),
            c@ == text@,
            pieces@.map_values(|s: String| s@).push(cur@) == split_nl(text@.take(i as int)),
        decreases c@.len() - i,
    {
        let ghost before = pieces@.map_values(|s: String| s@).push(cur@);
        proof {
            lemma_joined_split(text@.take(i as int));
        }
        assert(text@.take(i + 1).drop_last() =~= text@.take(i as int));
        assert(text@.take(i + 1).last() == c@[i as int]);
        if c[i] == '\n' {
            let done = crate::transform::string_of(&cur, 0, cur.len());
            assert(cur@.subrange(0, cur@.len() as int) =~= cur@);
            pieces.push(done);
            cur = Vec::new();
            assert(pieces@.map_values(|s: String| s@).push(cur@) =~= before.push(Seq::empty()));
        } else {
            cur.push(c[i]);
            assert(pieces@.map_values(|s: String| s@).push(cur@) =~= before.update(before.len() - 1, before.last().push(c@[i as int])));
        }
        i = i + 1;
    }
    assert(text@.take(i as int) =~= text@);
    let last = crate::transform::string_of(&cur, 0, cur.len());
    assert(cur@.subrange(0, cur@.len() as int) =~= cur@);
    let ghost before = pieces@.map_values(|s: String| s@);
    pieces.push(last);
    assert(pieces@.map_values(|s: String| s@) =~= before.push(cur@));
    pieces
}

/// The text of a file with one line's fragments committed to the line of its
/// number; every other byte stays.
pub open spec fn line_committed(t: Seq<char>, no: int, fs: Seq<Frag>) -> Seq<char> {
    if 1 <= no <= split_nl(t).len() {
        joined(split_nl(t).update(no - 1, apply_all(fs, split_nl(t)[no - 1])))
    } else {
        t
    }
}

/// Commits one line's fragments to the text of its file.
pub fn commit_line_text(text: &str, line: &Line) -> (r: String)
    ensures
        r@ == line_committed(text@, line.number() as int, line.frags()),
{
    let pieces = split_raw(text);
    let ghost s = split_nl(text@);
    let out = commit_line(pieces, line);
    let no = line.get_line_no();
    let r = join_lines(&out);
    proof {
        lemma_joined_split(text@);
        if 1 <= no && no <= s.len() {
            assert(out@.map_values(|x: String| x@) =~= s.update(no - 1, apply_all(line.frags(), s[no - 1])));
        } else {
            assert(out@.map_values(|x: String| x@) =~= s);
        }
    }
    r
}

/// The text of a file with every line of its result committed.
pub open spec fn file_committed(t: Seq<char>, es: Seq<Option<LineModel>>) -> Seq<char> {
    joined(Seq::new(split_nl(t).len(), |k: int| commit_text(es, k + 1, split_nl(t)[k])))
}

/// Commits every line of a file's result to the file's text; lines that no entry
/// names, and the line feeds, stay.
pub fn commit_file_text(text: &str, file: &FileResult) -> (r: String)
    ensures
        r@ == file_committed(text@, file_model(*file).entries),
{
    let pieces = split_raw(text);
    let out = commit_file(pieces, file);
    let r = join_lines(&out);
    assert(out@.map_values(|x: String| x@) =~= Seq::new(
        split_nl(text@).len(),
        |k: int| commit_text(file_model(*file).entries, k + 1, split_nl(text@)[k]),
    ));
    r
}

} // verus!
