use vstd::prelude::*;
use crate::file_result::{entry_model, file_model, files_model, FileModel, FileResult, LineModel, LineResult, line_model};
use crate::line::{copy_matches, sort_frags, Line};
use crate::match_result::{frags, tag_found, Frag, FragState, MatchResult};
use crate::search_condition::{cond_found, cond_output, line_accepts, match_accepts, spec_is_matcher, SearchCondition};
use crate::filter::Filter;
use crate::matcher::Matcher;
use crate::transform::Transform;

verus! {

/// The fragments of `s` that `existing` does not hold yet.
pub open spec fn fresh(s: Seq<Frag>, existing: Seq<Frag>) -> Seq<Frag>
    decreases s.len(),
{
    if s.len() == 0 {
        s
    } else if existing.contains(s.last()) {
        fresh(s.drop_last(), existing)
    } else {
        fresh(s.drop_last(), existing).push(s.last())
    }
}

/// What a match-filter makes of one fragment.
pub open spec fn filter_one(m: Frag, c: SearchCondition, index: int) -> Seq<Frag> {
    match match_accepts(c, m.text) {
        Some(true) => seq![Frag { state: FragState::Filtered, text: m.text, start: m.start, end: m.end, index }],
        Some(false) => Seq::empty(),
        None => seq![m],
    }
}

/// What a match-filter makes of the fragments.
pub open spec fn filter_stage(s: Seq<Frag>, c: SearchCondition, index: int) -> Seq<Frag>
    decreases s.len(),
{
    if s.len() == 0 {
        s
    } else {
        filter_stage(s.drop_last(), c, index) + filter_one(s.last(), c, index)
    }
}

/// What a transform makes of one fragment.
pub open spec fn transform_one(m: Frag, c: SearchCondition, index: int) -> Frag {
    match cond_output(c, m.text) {
        Some(o) => Frag {
            state: FragState::Transformed,
            text: o,
            start: m.start,
            end: m.end,
            index,
        },
        None => m,
    }
}

/// What a transform makes of the fragments.
pub open spec fn transform_stage(s: Seq<Frag>, c: SearchCondition, index: int) -> Seq<Frag> {
    s.map_values(|m: Frag| transform_one(m, c, index))
}

/// The fragments after the matcher step: the old ones and the new ones found.
pub open spec fn matched(l: LineModel, c: SearchCondition, index: int) -> Seq<Frag> {
    l.frags + match cond_found(c, l.text) {
        Some(p) => fresh(tag_found(p, index), l.frags),
        None => Seq::empty(),
    }
}

/// One condition, the `index`-th of the pipeline, applied to a line.
pub open spec fn apply_line(l: LineModel, c: SearchCondition, index: int) -> LineModel {
    let m1 = matched(l, c, index);
    let h1 = if !l.hidden { spec_is_matcher(c) && m1.len() == 0 } else { true };
    let m3 = transform_stage(filter_stage(m1, c, index), c, index);
    LineModel {
        no: l.no,
        text: l.text,
        frags: sort_frags(m3),
        hidden: h1 || line_accepts(c, l.text) == Some(false),
    }
}

/// Whether `v` holds a fragment equal to `m`.
fn holds_frag(v: &Vec<MatchResult>, m: &MatchResult) -> (r: bool)
    ensures
        r == frags(v@).contains(m@),
{
    let mut i: usize = 0;
    while i < v.len()
        invariant
            i <= v@.len(),
            forall|k: int| 0 <= k < i ==> frags(v@)[k] != m@,
        decreases v@.len() - i,
    {
        if v[i].eq(m) {
            assert(frags(v@)[i as int] == m@);
            return true;
        }
        i = i + 1;
    }
    false
}

/// The line with one more condition applied.
pub fn apply_to_line(line: &Line, c: &SearchCondition, index: usize) -> (r: Line)
    ensures
        line_model(r) == apply_line(line_model(*line), *c, index as int),
{
    let ghost l = line_model(*line);
    let old_frags = line.matches();
    let mut m1 = copy_matches(old_frags);
    match c.matcher() {
        Some(m) => {
            let found = MatchResult::find(line.get_text(), &m, index);
            let ghost t = tag_found(m.found(line.text_view()), index as int);
            assert(cond_found(*c, l.text) == Some(m.found(line.text_view())));
            let mut i: usize = 0;
            while i < found.len()
                invariant
                    i <= found@.len(),
                    frags(found@) == t,
                    frags(old_frags@) == l.frags,
                    frags(m1@) == l.frags + fresh(t.take(i as int), l.frags),
                decreases found@.len() - i,
            {
                assert(t.take(i + 1).drop_last() =~= t.take(i as int));
                if !holds_frag(old_frags, &found[i]) {
                    let ghost before = frags(m1@);
                    m1.push(found[i].duplicate());
                    assert(frags(m1@) =~= before.push(t[i as int]));
                }
                i = i + 1;
            }
            assert(t.take(i as int) =~= t);
        },
        None => {
            assert(frags(m1@) =~= l.frags + Seq::<Frag>::empty());
        },
    }
    let ghost s1 = frags(m1@);
    assert(s1 == matched(l, *c, index as int));
    let hidden1 = if !line.is_filtered() {
        c.is_matcher() && m1.len() == 0
    } else {
        true
    };
    // the match-filter step
    let mut m2: Vec<MatchResult> = Vec::new();
    let mf = c.match_filter();
    let mut i: usize = 0;
    while i < m1.len()
        invariant
            i <= m1@.len(),
            frags(m1@) == s1,
            frags(m2@) == filter_stage(s1.take(i as int), *c, index as int),
            forall|t: Seq<char>| #[trigger] match_accepts(*c, t) == match mf {
                Some(f) => Some(f.accepts(t)),
                None => None::<bool>,
            },
        decreases m1@.len() - i,
    {
        assert(s1.take(i + 1).drop_last() =~= s1.take(i as int));
        assert(s1.take(i + 1).last() == s1[i as int]);
        let ghost before = frags(m2@);
        let ghost mt = m1@[i as int]@.text;
        assert(match_accepts(*c, mt) == match mf { Some(f) => Some(f.accepts(mt)), None => None::<bool> });
        match &mf {
            Some(f) => {
                match m1[i].filter(f, index) {
                    Some(x) => {
                        m2.push(x);
                        assert(frags(m2@) =~= before + filter_one(s1[i as int], *c, index as int));
                    },
                    None => {
                        assert(frags(m2@) =~= before + filter_one(s1[i as int], *c, index as int));
                    },
                }
            },
            None => {
                m2.push(m1[i].duplicate());
                assert(frags(m2@) =~= before + filter_one(s1[i as int], *c, index as int));
            },
        }
        i = i + 1;
    }
    assert(s1.take(i as int) =~= s1);
    let ghost s2 = frags(m2@);
    // the transform step
    let mut m3: Vec<MatchResult> = Vec::new();
    let tf = c.transform();
    let mut j: usize = 0;
    while j < m2.len()
        invariant
            j <= m2@.len(),
            frags(m2@) == s2,
            frags(m3@) == transform_stage(s2, *c, index as int).take(j as int),
            forall|t: Seq<char>| #[trigger] cond_output(*c, t) == match tf {
                Some(x) => Some(x.output(t)),
                None => None::<Seq<char>>,
            },
        decreases m2@.len() - j,
    {
        let ghost before = frags(m3@);
        let ghost mt = m2@[j as int]@.text;
        assert(cond_output(*c, mt) == match tf { Some(x) => Some(x.output(mt)), None => None::<Seq<char>> });
        match &tf {
            Some(x) => {
                let mut out = m2[j].transform(x, index);
                assert(frags(out@).len() == 1);
                assert(out@[0]@ == frags(out@)[0]);
                match out.pop() {
                    Some(y) => m3.push(y),
                    None => {},
                }
            },
            None => {
                m3.push(m2[j].duplicate());
            },
        }
        assert(frags(m3@) =~= before.push(transform_one(s2[j as int], *c, index as int)));
        assert(frags(m3@) =~= transform_stage(s2, *c, index as int).take(j + 1));
        j = j + 1;
    }
    assert(transform_stage(s2, *c, index as int).take(j as int) =~= transform_stage(s2, *c, index as int));
    let lf = c.line_filter();
    let rejected = match &lf {
        Some(f) => !f.filter(line.get_text().as_str()),
        None => false,
    };
    Line::new(line.get_line_no(), line.get_text().clone(), m3, hidden1 || rejected)
}

/// An entry with one more condition applied.
pub open spec fn apply_entry(e: Option<LineModel>, c: SearchCondition, index: int) -> Option<LineModel> {
    match e {
        Some(l) => Some(apply_line(l, c, index)),
        None => None,
    }
}

/// A file's result with one more condition applied.
pub open spec fn apply_file(f: FileModel, c: SearchCondition, index: int) -> FileModel {
    FileModel { path: f.path, entries: f.entries.map_values(|e: Option<LineModel>| apply_entry(e, c, index)) }
}

/// The files' results with one more condition applied.
pub open spec fn apply_files(s: Seq<FileModel>, c: SearchCondition, index: int) -> Seq<FileModel> {
    s.map_values(|f: FileModel| apply_file(f, c, index))
}

/// A line with no fragment, shown.
pub open spec fn clear_entry(e: Option<LineModel>) -> Option<LineModel> {
    match e {
        Some(l) => Some(LineModel { no: l.no, text: l.text, frags: Seq::empty(), hidden: false }),
        None => None,
    }
}

/// The files' results with every line cleared.
pub open spec fn clear_files(s: Seq<FileModel>) -> Seq<FileModel> {
    s.map_values(
        |f: FileModel| FileModel { path: f.path, entries: f.entries.map_values(|e: Option<LineModel>| clear_entry(e)) },
    )
}

/// The first `k` conditions applied in turn to `s`, the `i`-th with index `i`.
pub open spec fn replay(s: Seq<FileModel>, conds: Seq<SearchCondition>, k: int) -> Seq<FileModel>
    decreases k,
{
    if k <= 0 {
        s
    } else {
        apply_files(replay(s, conds, k - 1), conds[k - 1], k)
    }
}

/// The number of fragments of an entry.
pub open spec fn entry_frags(e: Option<LineModel>) -> nat {
    match e {
        Some(l) => l.frags.len(),
        None => 0,
    }
}

/// The number of fragments of a list of entries.
pub open spec fn entries_frags(s: Seq<Option<LineModel>>) -> nat
    decreases s.len(),
{
    if s.len() == 0 {
        0
    } else {
        entries_frags(s.drop_last()) + entry_frags(s.last())
    }
}

/// The number of fragments over all files.
pub open spec fn total_frags(s: Seq<FileModel>) -> nat
    decreases s.len(),
{
    if s.len() == 0 {
        0
    } else {
        total_frags(s.drop_last()) + entries_frags(s.last().entries)
    }
}

/// The counts of a result.
#[derive(Clone, Copy, Debug, Default, PartialEq, Eq, Structural)]
pub struct Stat {
    pub file_count: usize,
    pub match_count: usize,
}

/// The counts of a model: files, and fragments capped at the largest `usize`.
pub open spec fn stat_of(s: Seq<FileModel>) -> Stat {
    Stat {
        file_count: s.len() as usize,
        match_count: if total_frags(s) > usize::MAX { usize::MAX } else { total_frags(s) as usize },
    }
}

/// The files of a search and the conditions that produced them.
pub struct SearchResult {
    pub files: Vec<FileResult>,
    conditions: Vec<SearchCondition>,
}

impl SearchResult {
    /// The conditions, in order.
    pub closed spec fn conds(&self) -> Seq<SearchCondition> {
        self.conditions@
    }

    /// The files' results as plain values.
    pub closed spec fn model(&self) -> Seq<FileModel> {
        files_model(self.files@)
    }

    pub fn new(files: Vec<FileResult>, conditions: Vec<SearchCondition>) -> (r: SearchResult)
        ensures
            r.model() == files_model(files@),
            r.conds() == conditions@,
    {
        SearchResult { files, conditions }
    }

    /// The files' results.
    pub fn files(&self) -> (r: &Vec<FileResult>)
        ensures
            files_model(r@) == self.model(),
    {
        &self.files
    }

    /// The files' results, taken out of the result.
    pub fn into_files(self) -> (r: Vec<FileResult>)
        ensures
            files_model(r@) == self.model(),
    {
        self.files
    }

    /// The conditions.
    pub fn conditions(&self) -> (r: &Vec<SearchCondition>)
        ensures
            r@ == self.conds(),
    {
        &self.conditions
    }

    /// The counts of the result; the fragment count stops at the largest `usize`.
    pub fn stat(&self) -> (r: Stat)
        ensures
            r == stat_of(self.model()),
    {
        let ghost m = self.model();
        let mut total: usize = 0;
        let mut i: usize = 0;
        while i < self.files.len()
            invariant
                i <= self.files@.len(),
                m == files_model(self.files@),
                total == if total_frags(m.take(i as int)) > usize::MAX { usize::MAX } else { total_frags(m.take(i as int)) as usize },
            decreases self.files@.len() - i,
        {
            assert(m.take(i + 1).drop_last() =~= m.take(i as int));
            let f = &self.files[i];
            let ghost es = file_model(*f).entries;
            let mut j: usize = 0;
            let mut sub: usize = 0;
            while j < f.lines.len()
                invariant
                    j <= f.lines@.len(),
                    es == f.lines@.map_values(|e: LineResult| entry_model(e)),
                    sub == if entries_frags(es.take(j as int)) > usize::MAX { usize::MAX } else { entries_frags(es.take(j as int)) as usize },
                decreases f.lines@.len() - j,
            {
                assert(es.take(j + 1).drop_last() =~= es.take(j as int));
                match &f.lines[j] {
                    LineResult::Line(l) => {
                        let ms = l.matches();
                        let n = ms.len();
                        assert(frags(ms@).len() == n);
                        sub = if sub > usize::MAX - n { usize::MAX } else { sub + n };
                    },
                    LineResult::Separator => {},
                }
                j = j + 1;
            }
            assert(es.take(j as int) =~= es);
            total = if total > usize::MAX - sub { usize::MAX } else { total + sub };
            i = i + 1;
        }
        assert(m.take(i as int) =~= m);
        Stat { file_count: self.files.len(), match_count: total }
    }

    /// The result with one more condition, the `index`-th of the pipeline, applied.
    pub fn apply(&self, c: SearchCondition, index: usize) -> (r: SearchResult)
        ensures
            r.model() == apply_files(self.model(), c, index as int),
            r.conds() == self.conds().push(c),
    {
        let mut files: Vec<FileResult> = Vec::new();
        let mut i: usize = 0;
        while i < self.files.len()
            invariant
                i <= self.files@.len(),
                files_model(files@) == apply_files(self.model(), c, index as int).take(i as int),
            decreases self.files@.len() - i,
        {
            let f = &self.files[i];
            let ghost fm = file_model(*f);
            let mut lines: Vec<LineResult> = Vec::new();
            let mut j: usize = 0;
            while j < f.lines.len()
                invariant
                    j <= f.lines@.len(),
                    fm == file_model(*f),
                    lines@.map_values(|e: LineResult| entry_model(e)) == apply_file(fm, c, index as int).entries.take(j as int),
                decreases f.lines@.len() - j,
            {
                let ghost before = lines@.map_values(|e: LineResult| entry_model(e));
                match &f.lines[j] {
                    LineResult::Line(l) => {
                        lines.push(LineResult::Line(apply_to_line(l, &c, index)));
                    },
                    LineResult::Separator => {
                        lines.push(LineResult::Separator);
                    },
                }
                assert(lines@.map_values(|e: LineResult| entry_model(e)) =~= before.push(apply_entry(fm.entries[j as int], c, index as int)));
                assert(lines@.map_values(|e: LineResult| entry_model(e)) =~= apply_file(fm, c, index as int).entries.take(j + 1));
                j = j + 1;
            }
            assert(apply_file(fm, c, index as int).entries.take(j as int) =~= apply_file(fm, c, index as int).entries);
            let ghost before_files = files_model(files@);
            files.push(FileResult { file_path: f.file_path.clone(), lines });
            assert(files_model(files@) =~= before_files.push(apply_file(fm, c, index as int)));
            assert(files_model(files@) =~= apply_files(self.model(), c, index as int).take(i + 1));
            i = i + 1;
        }
        assert(apply_files(self.model(), c, index as int).take(i as int) =~= apply_files(self.model(), c, index as int));
        let mut conditions = copy_conditions(&self.conditions);
        conditions.push(c);
        SearchResult { files, conditions }
    }

    /// The result with every line cleared and no condition.
    fn clear(&self) -> (r: SearchResult)
        ensures
            r.model() == clear_files(self.model()),
            r.conds() == Seq::<SearchCondition>::empty(),
    {
        let mut files: Vec<FileResult> = Vec::new();
        let mut i: usize = 0;
        while i < self.files.len()
            invariant
                i <= self.files@.len(),
                files_model(files@) == clear_files(self.model()).take(i as int),
            decreases self.files@.len() - i,
        {
            let f = &self.files[i];
            let ghost fm = file_model(*f);
            let ghost cleared = fm.entries.map_values(|e: Option<LineModel>| clear_entry(e));
            let mut lines: Vec<LineResult> = Vec::new();
            let mut j: usize = 0;
            while j < f.lines.len()
                invariant
                    j <= f.lines@.len(),
                    fm == file_model(*f),
                    cleared == fm.entries.map_values(|e: Option<LineModel>| clear_entry(e)),
                    lines@.map_values(|e: LineResult| entry_model(e)) == cleared.take(j as int),
                decreases f.lines@.len() - j,
            {
                let ghost before = lines@.map_values(|e: LineResult| entry_model(e));
                match &f.lines[j] {
                    LineResult::Line(l) => {
                        let fresh_line = Line::new(l.get_line_no(), l.get_text().clone(), Vec::new(), false);
                        assert(frags(Seq::<MatchResult>::empty()) =~= Seq::<Frag>::empty());
                        assert(line_model(fresh_line).frags =~= Seq::<Frag>::empty());
                        lines.push(LineResult::Line(fresh_line));
                    },
                    LineResult::Separator => {
                        lines.push(LineResult::Separator);
                    },
                }
                assert(lines@.map_values(|e: LineResult| entry_model(e)) =~= before.push(clear_entry(fm.entries[j as int])));
                assert(lines@.map_values(|e: LineResult| entry_model(e)) =~= cleared.take(j + 1));
                j = j + 1;
            }
            assert(cleared.take(j as int) =~= cleared);
            let ghost before_files = files_model(files@);
            files.push(FileResult { file_path: f.file_path.clone(), lines });
            assert(files_model(files@) =~= before_files.push(clear_files(self.model())[i as int]));
            assert(files_model(files@) =~= clear_files(self.model()).take(i + 1));
            i = i + 1;
        }
        assert(clear_files(self.model()).take(i as int) =~= clear_files(self.model()));
        SearchResult { files, conditions: Vec::new() }
    }

    /// The result derived afresh: every line cleared, then each condition applied in
    /// turn, the `i`-th with index `i`.
    pub fn reapply(&self) -> (r: SearchResult)
        ensures
            r.model() == replay(clear_files(self.model()), self.conds(), self.conds().len() as int),
            r.conds() == self.conds(),
    {
        let mut acc = self.clear();
        let ghost start = acc.model();
        let mut k: usize = 0;
        while k < self.conditions.len()
            invariant
                k <= self.conditions@.len(),
                start == clear_files(self.model()),
                acc.model() == replay(start, self.conds(), k as int),
                acc.conds() == self.conds().take(k as int),
            decreases self.conditions@.len() - k,
        {
            let c = self.conditions[k].duplicate();
            acc = acc.apply(c, k + 1);
            assert(acc.conds() =~= self.conds().take(k + 1));
            k = k + 1;
        }
        assert(self.conds().take(k as int) =~= self.conds());
        acc
    }

    /// Removes the last condition and derives the result afresh from the others.
    pub fn delete_last_condition(&mut self) -> (r: SearchResult)
        ensures
            final(self).model() == old(self).model(),
            final(self).conds() == if old(self).conds().len() > 0 {
                old(self).conds().drop_last()
            } else {
                old(self).conds()
            },
            r.model() == replay(clear_files(final(self).model()), final(self).conds(), final(self).conds().len() as int),
            r.conds() == final(self).conds(),
    {
        let _ = self.conditions.pop();
        self.reapply()
    }

    /// The number of shown lines that hold a fragment, over all files, capped at the
    /// largest `usize`.
    pub fn count_lines(&self) -> (r: usize)
        ensures
            r == capped_count(total_lines(self.model())),
    {
        let ghost m = self.model();
        let mut total: usize = 0;
        let mut i: usize = 0;
        while i < self.files.len()
            invariant
                i <= self.files@.len(),
                m == files_model(self.files@),
                total == capped_count(total_lines(m.take(i as int))),
            decreases self.files@.len() - i,
        {
            assert(m.take(i + 1).drop_last() =~= m.take(i as int));
            let f = &self.files[i];
            let ghost es = file_model(*f).entries;
            let mut j: usize = 0;
            let mut sub: usize = 0;
            while j < f.lines.len()
                invariant
                    j <= f.lines@.len(),
                    es == f.lines@.map_values(|e: LineResult| entry_model(e)),
                    sub == capped_count(entries_lines(es.take(j as int))),
                decreases f.lines@.len() - j,
            {
                assert(es.take(j + 1).drop_last() =~= es.take(j as int));
                match &f.lines[j] {
                    LineResult::Line(l) => {
                        if !l.is_filtered() && l.count_matches() > 0 {
                            sub = if sub == usize::MAX { usize::MAX } else { sub + 1 };
                        }
                    },
                    LineResult::Separator => {},
                }
                j = j + 1;
            }
            assert(es.take(j as int) =~= es);
            total = if total > usize::MAX - sub { usize::MAX } else { total + sub };
            i = i + 1;
        }
        assert(m.take(i as int) =~= m);
        total
    }

    /// The number of fragments over all files, whatever their state, capped at the
    /// largest `usize`.
    pub fn count_matches(&self) -> (r: usize)
        ensures
            r == capped_count(total_frags(self.model())),
    {
        self.stat().match_count
    }

    /// Drops the line numbered `line_no` from the file at `file_path`, once its
    /// fragments were committed, so that it is not committed twice.
    pub fn remove_line(&mut self, file_path: &String, line_no: usize)
        ensures
            final(self).model() == drop_committed(old(self).model(), file_path@, line_no),
            final(self).conds() == old(self).conds(),
    {
        let ghost m = self.model();
        let mut files: Vec<FileResult> = Vec::new();
        let mut i: usize = 0;
        while i < self.files.len()
            invariant
                i <= self.files@.len(),
                m == files_model(self.files@),
                files_model(files@) == drop_committed(m, file_path@, line_no).take(i as int),
            decreases self.files@.len() - i,
        {
            let f = &self.files[i];
            let ghost fm = file_model(*f);
            let ghost before = files_model(files@);
            if f.file_path.eq(file_path) {
                let mut lines: Vec<LineResult> = Vec::new();
                let mut j: usize = 0;
                while j < f.lines.len()
                    invariant
                        j <= f.lines@.len(),
                        fm == file_model(*f),
                        lines@.map_values(|e: LineResult| entry_model(e)) == drop_line(fm.entries.take(j as int), line_no),
                    decreases f.lines@.len() - j,
                {
                    assert(fm.entries.take(j + 1).drop_last() =~= fm.entries.take(j as int));
                    let ghost lb = lines@.map_values(|e: LineResult| entry_model(e));
                    let keep = match &f.lines[j] {
                        LineResult::Line(l) => l.get_line_no() != line_no,
                        LineResult::Separator => true,
                    };
                    if keep {
                        lines.push(f.lines[j].duplicate());
                        assert(lines@.map_values(|e: LineResult| entry_model(e)) =~= lb.push(fm.entries[j as int]));
                    }
                    j = j + 1;
                }
                assert(fm.entries.take(j as int) =~= fm.entries);
                files.push(FileResult { file_path: f.file_path.clone(), lines });
            } else {
                files.push(f.duplicate());
            }
            assert(files_model(files@) =~= before.push(drop_committed(m, file_path@, line_no)[i as int]));
            assert(files_model(files@) =~= drop_committed(m, file_path@, line_no).take(i + 1));
            i = i + 1;
        }
        assert(drop_committed(m, file_path@, line_no).take(i as int) =~= drop_committed(m, file_path@, line_no));
        self.files = files;
    }

    /// Commits one selected line: the file's text, as read by the caller, with the
    /// line's fragments committed to the line of its number and every other byte
    /// kept; the line then leaves the file's result, so that it is not committed
    /// twice.
    pub fn reflect_on_selected_row(&mut self, file_path: &String, line: &Line, text: &str) -> (r: String)
        ensures
            r@ == crate::commit::line_committed(text@, line.number() as int, line.frags()),
            final(self).model() == drop_committed(old(self).model(), file_path@, line.number()),
            final(self).conds() == old(self).conds(),
    {
        let r = crate::commit::commit_line_text(text, line);
        self.remove_line(file_path, line.get_line_no());
        r
    }

    /// The conditions as a query: each condition's text, joined by " | ".
    pub fn to_conditions_string(&self) -> (r: String)
        ensures
            r@ == conditions_text(self.conds()),
    {
        let mut r = String::new();
        let mut i: usize = 0;
        while i < self.conditions.len()
            invariant
                i <= self.conditions@.len(),
                r@ == conditions_text(self.conds().take(i as int)),
            decreases self.conditions@.len() - i,
        {
            assert(self.conds().take(i + 1).drop_last() =~= self.conds().take(i as int));
            if i > 0 {
                r.append(" | ");
            }
            let t = self.conditions[i].to_string();
            r.append(t.as_str());
            proof {
                reveal_strlit(" | ");
            }
            assert(r@ =~= conditions_text(self.conds().take(i + 1)));
            i = i + 1;
        }
        assert(self.conds().take(i as int) =~= self.conds());
        r
    }
}

/// The entries without the lines numbered `no`.
pub open spec fn drop_line(es: Seq<Option<LineModel>>, no: usize) -> Seq<Option<LineModel>>
    decreases es.len(),
{
    if es.len() == 0 {
        es
    } else {
        let prev = drop_line(es.drop_last(), no);
        match es.last() {
            Some(l) => if l.no == no { prev } else { prev.push(es.last()) },
            None => prev.push(es.last()),
        }
    }
}

/// The files with the line numbered `no` gone from the file at `path`.
pub open spec fn drop_committed(s: Seq<FileModel>, path: Seq<char>, no: usize) -> Seq<FileModel> {
    s.map_values(
        |f: FileModel| if f.path == path { FileModel { path: f.path, entries: drop_line(f.entries, no) } } else { f },
    )
}

/// The entry is a shown line that holds a fragment.
pub open spec fn counted(e: Option<LineModel>) -> bool {
    match e {
        Some(l) => !l.hidden && l.frags.len() > 0,
        None => false,
    }
}

/// The number of shown lines with a fragment in a list of entries.
pub open spec fn entries_lines(s: Seq<Option<LineModel>>) -> nat
    decreases s.len(),
{
    if s.len() == 0 {
        0
    } else {
        entries_lines(s.drop_last()) + if counted(s.last()) { 1nat } else { 0nat }
    }
}

/// The number of shown lines with a fragment over all files.
pub open spec fn total_lines(s: Seq<FileModel>) -> nat
    decreases s.len(),
{
    if s.len() == 0 {
        0
    } else {
        total_lines(s.drop_last()) + entries_lines(s.last().entries)
    }
}

/// A count, capped at the largest `usize`.
pub open spec fn capped_count(n: nat) -> usize {
    if n > usize::MAX {
        usize::MAX
    } else {
        n as usize
    }
}

/// The conditions as a query: each condition's text, joined by " | ".
pub open spec fn conditions_text(s: Seq<SearchCondition>) -> Seq<char>
    decreases s.len(),
{
    if s.len() == 0 {
        Seq::empty()
    } else if s.len() == 1 {
        crate::search_condition::query_text(s[0])
    } else {
        conditions_text(s.drop_last()) + seq![' ', '|', ' '] + crate::search_condition::query_text(s.last())
    }
}

/// A copy of a list of conditions.
pub fn copy_conditions(v: &Vec<SearchCondition>) -> (r: Vec<SearchCondition>)
    ensures
        r@ == v@,
{
    let mut r: Vec<SearchCondition> = Vec::new();
    let mut i: usize = 0;
    while i < v.len()
        invariant
            i <= v@.len(),
            r@ == v@.take(i as int),
        decreases v@.len() - i,
    {
        r.push(v[i].duplicate());
        assert(r@ =~= v@.take(i + 1));
        i = i + 1;
    }
    assert(v@.take(i as int) =~= v@);
    r
}

} // verus!
