use vstd::prelude::*;
use crate::file_result::{entry_model, FileResult, LineModel, LineResult};
use crate::line::{sort_frags, Line};
use crate::match_result::{frags, tag_found, MatchResult};
use crate::matcher::Matcher;
use crate::filter::{AnyFilter, Filter};
use crate::search_condition::{cond_found, line_accepts, spec_is_line_filter, spec_is_matcher, spec_is_transform, SearchCondition};
use crate::search_result::{apply_files, copy_conditions, SearchResult};
use crate::file_result::{files_model, FileModel};

verus! {

/// How a search runs: context windows, the walk over the tree, and how results print.
#[derive(Clone, Debug, Default)]
pub struct SearchConfig {
    pub after_context: Option<usize>,
    pub before_context: Option<usize>,
    pub context_separator: String,
    pub exclude_path: Option<String>,
    pub hide_help: bool,
    pub no_git_exclude: bool,
    pub no_git_ignore: bool,
    pub no_file_name: bool,
    pub no_line_no: bool,
    pub hidden: bool,
    pub max_depth: Option<usize>,
    pub vimgrep: bool,
}

/// How a result prints.
#[derive(Clone, Debug, Default)]
pub struct SearchResultConfig {
    pub after_context: Option<usize>,
    pub before_context: Option<usize>,
    pub context_separator: String,
    pub no_file_name: bool,
    pub no_line_no: bool,
    pub vimgrep: bool,
}

impl SearchConfig {
    /// The part of the configuration that printing needs.
    pub fn to_search_result_config(&self) -> (r: SearchResultConfig)
        ensures
            r.after_context == self.after_context,
            r.before_context == self.before_context,
            r.context_separator@ == self.context_separator@,
            r.no_file_name == self.no_file_name,
            r.no_line_no == self.no_line_no,
            r.vimgrep == self.vimgrep,
    {
        SearchResultConfig {
            after_context: self.after_context,
            before_context: self.before_context,
            context_separator: self.context_separator.clone(),
            no_file_name: self.no_file_name,
            no_line_no: self.no_line_no,
            vimgrep: self.vimgrep,
        }
    }
}

/// Why a pipeline cannot run.
#[derive(Clone, Copy, Debug, PartialEq, Eq, Structural)]
pub enum SearchError {
    InvalidCondition,
}

/// The text split at each '\n'; there is always one piece more than line feeds.
pub open spec fn split_nl(t: Seq<char>) -> Seq<Seq<char>>
    decreases t.len(),
{
    if t.len() == 0 {
        seq![Seq::empty()]
    } else {
        let r = split_nl(t.drop_last());
        if t.last() == '\n' {
            r.push(Seq::empty())
        } else {
            r.update(r.len() - 1, r.last().push(t.last()))
        }
    }
}

/// A line without the carriage return that may end it.
pub open spec fn strip_cr(l: Seq<char>) -> Seq<char> {
    if l.len() > 0 && l.last() == '\r' {
        l.drop_last()
    } else {
        l
    }
}

/// The lines of a text: split at line feeds, each without a final carriage return,
/// and no empty line after a final line feed.
pub open spec fn lines_of(t: Seq<char>) -> Seq<Seq<char>> {
    let p = split_nl(t);
    let q = if p.last().len() == 0 { p.drop_last() } else { p };
    q.map_values(|l: Seq<char>| strip_cr(l))
}

/// The text with each tab made a space.
pub open spec fn untab(t: Seq<char>) -> Seq<char> {
    t.map_values(|c: char| if c == '\t' { ' ' } else { c })
}

proof fn lemma_split_nl_len(t: Seq<char>)
    ensures
        split_nl(t).len() >= 1,
    decreases t.len(),
{
    if t.len() > 0 {
        lemma_split_nl_len(t.drop_last());
    }
}

/// The lines of a text.
pub fn split_lines(text: &str) -> (r: Vec<String>)
    ensures
        r@.map_values(|s: String| s@) == lines_of(text@),
{
    let c = crate::transform::chars_of(text);
    let mut pieces: Vec<Vec<char>> = Vec::new();
    let mut cur: Vec<char> = Vec::new();
    let mut i: usize = 0;
    while i < c.len()
        invariant
            i <= c@.len(),
            c@ == text@,
            pieces@.map_values(|v: Vec<char>| v@).push(cur@) == split_nl(text@.take(i as int)),
        decreases c@.len() - i,
    {
        let ghost before = pieces@.map_values(|v: Vec<char>| v@).push(cur@);
        proof {
            lemma_split_nl_len(text@.take(i as int));
        }
        assert(text@.take(i + 1).drop_last() =~= text@.take(i as int));
        assert(text@.take(i + 1).last() == c@[i as int]);
        if c[i] == '\n' {
            let done = cur;
            pieces.push(done);
            cur = Vec::new();
            assert(pieces@.map_values(|v: Vec<char>| v@).push(cur@) =~= before.push(Seq::empty()));
        } else {
            cur.push(c[i]);
            assert(pieces@.map_values(|v: Vec<char>| v@).push(cur@) =~= before.update(before.len() - 1, before.last().push(c@[i as int])));
        }
        i = i + 1;
    }
    assert(text@.take(i as int) =~= text@);
    let ghost p = split_nl(text@);
    let ghost q = if p.last().len() == 0 { p.drop_last() } else { p };
    if cur.len() > 0 {
        pieces.push(cur);
    }
    assert(pieces@.map_values(|v: Vec<char>| v@) =~= q);
    let mut r: Vec<String> = Vec::new();
    let mut k: usize = 0;
    while k < pieces.len()
        invariant
            k <= pieces@.len(),
            pieces@.map_values(|v: Vec<char>| v@) == q,
            r@.map_values(|s: String| s@) == q.map_values(|l: Seq<char>| strip_cr(l)).take(k as int),
        decreases pieces@.len() - k,
    {
        let v = &pieces[k];
        let n = v.len();
        let e = if n > 0 && v[n - 1] == '\r' { n - 1 } else { n };
        let s = crate::transform::string_of(v, 0, e);
        assert(v@.subrange(0, e as int) =~= strip_cr(q[k as int]));
        let ghost before = r@.map_values(|s: String| s@);
        r.push(s);
        assert(r@.map_values(|s: String| s@) =~= before.push(strip_cr(q[k as int])));
        assert(r@.map_values(|s: String| s@) =~= q.map_values(|l: Seq<char>| strip_cr(l)).take(k + 1));
        k = k + 1;
    }
    assert(q.map_values(|l: Seq<char>| strip_cr(l)).take(k as int) =~= q.map_values(|l: Seq<char>| strip_cr(l)));
    r
}

/// The text with each tab made a space.
pub fn replace_tabs(text: &str) -> (r: String)
    ensures
        r@ == untab(text@),
{
    let c = crate::transform::chars_of(text);
    let mut out: Vec<char> = Vec::new();
    let mut i: usize = 0;
    while i < c.len()
        invariant
            i <= c@.len(),
            c@ == text@,
            out@ == untab(text@).take(i as int),
        decreases c@.len() - i,
    {
        out.push(if c[i] == '\t' { ' ' } else { c[i] });
        assert(out@ =~= untab(text@).take(i + 1));
        i = i + 1;
    }
    assert(untab(text@).take(i as int) =~= untab(text@));
    crate::transform::string_of(&out, 0, out.len())
}

/// A context line: the `k`-th line as it stands, numbered from 1, with no fragment.
pub open spec fn context_line(lines: Seq<Seq<char>>, k: int) -> Option<LineModel> {
    Some(LineModel { no: (k + 1) as usize, text: lines[k], frags: Seq::empty(), hidden: false })
}

/// The first line of the window before line `i`.
pub open spec fn window_start(i: int, before: Option<usize>) -> int {
    match before {
        Some(n) => if i < n { 0 } else { i - n },
        None => i,
    }
}

/// The end of the window after line `i`.
pub open spec fn window_end(i: int, after: Option<usize>, len: int) -> int {
    match after {
        Some(n) => if i + n >= len { len } else { i + n + 1 },
        None => i + 1,
    }
}

/// The entries for a line `i` on which the matcher found `found`: the context
/// before, the line with its tabs made spaces, the context after, and a separator
/// where the context holds more than one line.
pub open spec fn hit_entries(
    lines: Seq<Seq<char>>,
    i: int,
    before: Option<usize>,
    after: Option<usize>,
    found: Seq<(Seq<char>, int, int)>,
) -> Seq<Option<LineModel>> {
    let b = window_start(i, before);
    let e = window_end(i, after, lines.len() as int);
    Seq::new((i - b) as nat, |k: int| context_line(lines, b + k))
        + seq![Some(LineModel { no: (i + 1) as usize, text: untab(lines[i]), frags: sort_frags(tag_found(found, 1)), hidden: false })]
        + Seq::new((e - i - 1) as nat, |k: int| context_line(lines, i + 1 + k))
        + if (i - b) + (e - i - 1) > 1 { seq![None] } else { Seq::empty() }
}

/// The entries that the initial search makes of line `i`.
pub open spec fn line_hits(
    lines: Seq<Seq<char>>,
    i: int,
    before: Option<usize>,
    after: Option<usize>,
    m: SearchCondition,
    lf: Option<SearchCondition>,
) -> Seq<Option<LineModel>> {
    if lf matches Some(f) && line_accepts(f, lines[i]) == Some(false) {
        Seq::empty()
    } else {
        match cond_found(m, untab(lines[i])) {
            Some(p) => if p.len() > 0 { hit_entries(lines, i, before, after, p) } else { Seq::empty() },
            None => Seq::empty(),
        }
    }
}

/// The entries that the initial search makes of the first `k` lines.
pub open spec fn content_entries(
    lines: Seq<Seq<char>>,
    k: int,
    before: Option<usize>,
    after: Option<usize>,
    m: SearchCondition,
    lf: Option<SearchCondition>,
) -> Seq<Option<LineModel>>
    decreases k,
{
    if k <= 0 {
        Seq::empty()
    } else {
        content_entries(lines, k - 1, before, after, m, lf) + line_hits(lines, k - 1, before, after, m, lf)
    }
}

/// The entries of a list.
pub open spec fn entries(v: Seq<LineResult>) -> Seq<Option<LineModel>> {
    v.map_values(|e: LineResult| entry_model(e))
}

/// Adds the context lines `lines[from..to]` to `out`.
fn push_context(lines: &Vec<String>, from: usize, to: usize, out: &mut Vec<LineResult>)
    requires
        from <= to <= lines@.len(),
    ensures
        entries(final(out)@) == entries(old(out)@) + Seq::new(
            (to - from) as nat,
            |k: int| context_line(lines@.map_values(|s: String| s@), from + k),
        ),
{
    let ghost ls = lines@.map_values(|s: String| s@);
    let ghost start = entries(out@);
    let mut k: usize = from;
    while k < to
        invariant
            from <= k <= to <= lines@.len(),
            ls == lines@.map_values(|s: String| s@),
            entries(out@) == start + Seq::new((k - from) as nat, |j: int| context_line(ls, from + j)),
        decreases to - k,
    {
        let l = Line::new(k + 1, lines[k].clone(), Vec::new(), false);
        assert(frags(Seq::<MatchResult>::empty()) =~= Seq::<crate::match_result::Frag>::empty());
        let ghost before = entries(out@);
        out.push(LineResult::Line(l));
        assert(entries(out@) =~= before.push(context_line(ls, k as int)));
        assert(entries(out@) =~= start + Seq::new((k + 1 - from) as nat, |j: int| context_line(ls, from + j)));
        k = k + 1;
    }
}

/// Adds the entries for line `i`, on which the matcher found `found`.
#[verifier::rlimit(80)]
fn push_hit(
    lines: &Vec<String>,
    i: usize,
    before_context: Option<usize>,
    after_context: Option<usize>,
    text: String,
    found: Vec<MatchResult>,
    p: Ghost<Seq<(Seq<char>, int, int)>>,
    out: &mut Vec<LineResult>,
)
    requires
        i < lines@.len(),
        text@ == untab(lines@[i as int]@),
        frags(found@) == tag_found(p@, 1),
    ensures
        entries(final(out)@) == entries(old(out)@) + hit_entries(
            lines@.map_values(|s: String| s@),
            i as int,
            before_context,
            after_context,
            p@,
        ),
{
    let ghost ls = lines@.map_values(|s: String| s@);
    let ghost start = entries(out@);
    let n = lines.len();
    let b: usize = match before_context {
        Some(k) => if i < k { 0 } else { i - k },
        None => i,
    };
    let e: usize = match after_context {
        Some(k) => if k >= n - i { n } else { i + k + 1 },
        None => i + 1,
    };
    assert(b as int == window_start(i as int, before_context));
    assert(e as int == window_end(i as int, after_context, n as int));
    let ghost hit = Some(LineModel {
        no: (i + 1) as usize,
        text: untab(ls[i as int]),
        frags: sort_frags(tag_found(p@, 1)),
        hidden: false,
    });
    let ghost pre = Seq::new((i - b) as nat, |k: int| context_line(ls, b + k));
    let ghost post = Seq::new((e - i - 1) as nat, |k: int| context_line(ls, i + 1 + k));
    push_context(lines, b, i, out);
    let ghost mid = entries(out@);
    out.push(LineResult::Line(Line::new(i + 1, text, found, false)));
    assert(entries(out@) =~= mid.push(hit));
    push_context(lines, i + 1, e, out);
    let ghost before_sep = entries(out@);
    assert(before_sep =~= start + pre + seq![hit] + post);
    if (i - b) + (e - i - 1) > 1 {
        out.push(LineResult::Separator);
        assert(entries(out@) =~= before_sep + seq![None::<LineModel>]);
    } else {
        assert(entries(out@) =~= before_sep + Seq::<Option<LineModel>>::empty());
    }
    assert(entries(out@) =~= start + hit_entries(ls, i as int, before_context, after_context, p@));
}

/// The entries that the initial search makes of the lines of one text: each line
/// that the line-filter, if any, accepts and on which the matcher finds fragments,
/// with its context.
pub fn search_content(
    lines: &Vec<String>,
    before_context: Option<usize>,
    after_context: Option<usize>,
    find: &SearchCondition,
    line_filter: &Option<SearchCondition>,
) -> (r: Vec<LineResult>)
    ensures
        entries(r@) == content_entries(
            lines@.map_values(|s: String| s@),
            lines@.len() as int,
            before_context,
            after_context,
            *find,
            *line_filter,
        ),
{
    let ghost ls = lines@.map_values(|s: String| s@);
    let m = find.matcher();
    let lf: Option<AnyFilter> = match line_filter {
        Some(c) => c.line_filter(),
        None => None,
    };
    let mut out: Vec<LineResult> = Vec::new();
    let mut i: usize = 0;
    while i < lines.len()
        invariant
            i <= lines@.len(),
            ls == lines@.map_values(|s: String| s@),
            entries(out@) == content_entries(ls, i as int, before_context, after_context, *find, *line_filter),
            forall|t: Seq<char>| #[trigger] cond_found(*find, t) == match m {
                Some(x) => Some(x.found(t)),
                None => None::<Seq<(Seq<char>, int, int)>>,
            },
            forall|t: Seq<char>| #[trigger] line_accepts_opt(*line_filter, t) == match lf {
                Some(f) => Some(f.accepts(t)),
                None => None::<bool>,
            },
        decreases lines@.len() - i,
    {
        let ghost start = entries(out@);
        let rejected = match &lf {
            Some(f) => !f.filter(lines[i].as_str()),
            None => false,
        };
        proof {
            assert(line_accepts_opt(*line_filter, ls[i as int]) == match lf { Some(f) => Some(f.accepts(ls[i as int])), None => None::<bool> });
        }
        if !rejected {
            match &m {
                Some(mm) => {
                    let text = replace_tabs(lines[i].as_str());
                    assert(cond_found(*find, untab(ls[i as int])) == Some(mm.found(text@)));
                    let found = MatchResult::find(&text, mm, 1);
                    if found.len() > 0 {
                        push_hit(lines, i, before_context, after_context, text, found, Ghost(mm.found(untab(ls[i as int]))), &mut out);
                    } else {
                        assert(entries(out@) =~= start + Seq::<Option<LineModel>>::empty());
                    }
                },
                None => {
                    assert(entries(out@) =~= start + Seq::<Option<LineModel>>::empty());
                },
            }
        } else {
            assert(entries(out@) =~= start + Seq::<Option<LineModel>>::empty());
        }
        assert(entries(out@) == content_entries(ls, i + 1, before_context, after_context, *find, *line_filter));
        i = i + 1;
    }
    out
}

/// What the line-filter condition, if any, says of a text.
pub open spec fn line_accepts_opt(lf: Option<SearchCondition>, t: Seq<char>) -> Option<bool> {
    match lf {
        Some(c) => line_accepts(c, t),
        None => None,
    }
}

/// The first matcher (or, where `matcher` is false, the first line-filter) of a list.
pub open spec fn first_of(s: Seq<SearchCondition>, matcher: bool) -> Option<SearchCondition>
    decreases s.len(),
{
    if s.len() == 0 {
        None
    } else if (matcher && spec_is_matcher(s[0])) || (!matcher && spec_is_line_filter(s[0])) {
        Some(s[0])
    } else {
        first_of(s.drop_first(), matcher)
    }
}

/// The first matcher, or the first line-filter, of a list.
fn find_first(v: &Vec<SearchCondition>, matcher: bool) -> (r: Option<SearchCondition>)
    ensures
        r == first_of(v@, matcher),
{
    let mut i: usize = 0;
    assert(v@.skip(0) =~= v@);
    while i < v.len()
        invariant
            i <= v@.len(),
            first_of(v@, matcher) == first_of(v@.skip(i as int), matcher),
        decreases v@.len() - i,
    {
        assert(v@.skip(i as int).drop_first() =~= v@.skip(i + 1));
        let hit = if matcher { v[i].is_matcher() } else { v[i].is_line_filter() };
        if hit {
            return Some(v[i].duplicate());
        }
        i = i + 1;
    }
    assert(v@.skip(i as int).len() == 0);
    None
}

/// A text to search as plain values: its path and content.
pub open spec fn source_view(p: (String, String)) -> (Seq<char>, Seq<char>) {
    (p.0@, p.1@)
}

/// What the initial search makes of one text: its lines with hits and context, or
/// nothing where no line is left.
pub open spec fn source_model(
    src: (Seq<char>, Seq<char>),
    before: Option<usize>,
    after: Option<usize>,
    m: SearchCondition,
    lf: Option<SearchCondition>,
) -> Option<FileModel> {
    let ls = lines_of(src.1);
    let es = content_entries(ls, ls.len() as int, before, after, m, lf);
    if es.len() > 0 {
        Some(FileModel { path: src.0, entries: es })
    } else {
        None
    }
}

/// What the initial search makes of the first `k` texts.
pub open spec fn search_model(
    srcs: Seq<(Seq<char>, Seq<char>)>,
    k: int,
    before: Option<usize>,
    after: Option<usize>,
    m: SearchCondition,
    lf: Option<SearchCondition>,
) -> Seq<FileModel>
    decreases k,
{
    if k <= 0 {
        Seq::empty()
    } else {
        let prev = search_model(srcs, k - 1, before, after, m, lf);
        match source_model(srcs[k - 1], before, after, m, lf) {
            Some(f) => prev.push(f),
            None => prev,
        }
    }
}

/// What the initial search with the given conditions makes of the texts: nothing
/// where the conditions hold no matcher.
pub open spec fn initial_model(
    srcs: Seq<(Seq<char>, Seq<char>)>,
    before: Option<usize>,
    after: Option<usize>,
    conds: Seq<SearchCondition>,
) -> Seq<FileModel> {
    match first_of(conds, true) {
        Some(m) => search_model(srcs, srcs.len() as int, before, after, m, first_of(conds, false)),
        None => Seq::empty(),
    }
}

/// The initial search: the first matcher of `conditions` over each text, the first
/// line-filter, if any, screening the lines first; texts with no line left are
/// omitted.
pub fn search(sources: &Vec<(String, String)>, config: &SearchConfig, conditions: &Vec<SearchCondition>) -> (r: SearchResult)
    ensures
        r.model() == initial_model(
            sources@.map_values(|p: (String, String)| source_view(p)),
            config.before_context,
            config.after_context,
            conditions@,
        ),
        r.conds() == conditions@,
{
    let ghost srcs = sources@.map_values(|p: (String, String)| source_view(p));
    let conds = copy_conditions(conditions);
    let find = find_first(conditions, true);
    let line_filter = find_first(conditions, false);
    let mut files: Vec<FileResult> = Vec::new();
    match &find {
        Some(m) => {
            let mut i: usize = 0;
            while i < sources.len()
                invariant
                    i <= sources@.len(),
                    srcs == sources@.map_values(|p: (String, String)| source_view(p)),
                    files_model(files@) == search_model(srcs, i as int, config.before_context, config.after_context, *m, line_filter),
                decreases sources@.len() - i,
            {
                let lines = split_lines(sources[i].1.as_str());
                let es = search_content(&lines, config.before_context, config.after_context, m, &line_filter);
                let ghost before = files_model(files@);
                if es.len() > 0 {
                    let f = FileResult { file_path: sources[i].0.clone(), lines: es };
                    files.push(f);
                    assert(files_model(files@) =~= before.push(source_model(srcs[i as int], config.before_context, config.after_context, *m, line_filter)->Some_0));
                } else {
                    assert(entries(es@).len() == 0);
                }
                i = i + 1;
            }
        },
        None => {},
    }
    SearchResult::new(files, conds)
}

/// The texts that a search runs over: each a path and its content, read by the
/// caller (piped input has an empty path).
pub struct Search {
    sources: Vec<(String, String)>,
}

impl Search {
    pub closed spec fn sources_view(&self) -> Seq<(Seq<char>, Seq<char>)> {
        self.sources@.map_values(|p: (String, String)| source_view(p))
    }

    pub fn new(sources: Vec<(String, String)>) -> (r: Search)
        ensures
            r.sources_view() == sources@.map_values(|p: (String, String)| source_view(p)),
    {
        Search { sources }
    }

    /// The initial search over the texts.
    pub fn search(&self, config: &SearchConfig, conditions: &Vec<SearchCondition>) -> (r: SearchResult)
        ensures
            r.model() == initial_model(self.sources_view(), config.before_context, config.after_context, conditions@),
            r.conds() == conditions@,
    {
        search(&self.sources, config, conditions)
    }

    /// The whole pipeline over the texts.
    pub fn search_sync(&self, config: &SearchConfig, conditions: &Vec<SearchCondition>) -> (r: Result<SearchResult, SearchError>)
        ensures
            r is Err <==> conditions@.len() == 0 || spec_is_transform(conditions@[0]),
            r matches Ok(res) ==> res.conds() == conditions@ && res.model() == fold_except(
                initial_model(self.sources_view(), config.before_context, config.after_context, conditions@),
                conditions@,
                first_pos(conditions@, true, 0),
                first_pos(conditions@, false, 0),
                conditions@.len() as int,
            ),
    {
        run_pipeline(&self.sources, config, conditions)
    }
}

/// The position of the first matcher (or, where `matcher` is false, the first
/// line-filter) from position `i` on; -1 where there is none.
pub open spec fn first_pos(s: Seq<SearchCondition>, matcher: bool, i: int) -> int
    decreases s.len() - i,
{
    if i < 0 || i >= s.len() {
        -1
    } else if (matcher && spec_is_matcher(s[i])) || (!matcher && spec_is_line_filter(s[i])) {
        i
    } else {
        first_pos(s, matcher, i + 1)
    }
}

/// The position of the first matcher, or of the first line-filter.
fn find_first_pos(v: &Vec<SearchCondition>, matcher: bool) -> (r: Option<usize>)
    ensures
        match r {
            Some(p) => p as int == first_pos(v@, matcher, 0),
            None => first_pos(v@, matcher, 0) == -1,
        },
{
    let mut i: usize = 0;
    while i < v.len()
        invariant
            i <= v@.len(),
            first_pos(v@, matcher, 0) == first_pos(v@, matcher, i as int),
        decreases v@.len() - i,
    {
        let hit = if matcher { v[i].is_matcher() } else { v[i].is_line_filter() };
        if hit {
            return Some(i);
        }
        i = i + 1;
    }
    None
}

/// The first `k` conditions applied in turn, the one at position `j` with index
/// `j + 1`, but for those at the positions `skip1` and `skip2`.
pub open spec fn fold_except(s: Seq<FileModel>, conds: Seq<SearchCondition>, skip1: int, skip2: int, k: int) -> Seq<FileModel>
    decreases k,
{
    if k <= 0 {
        s
    } else if k - 1 == skip1 || k - 1 == skip2 {
        fold_except(s, conds, skip1, skip2, k - 1)
    } else {
        apply_files(fold_except(s, conds, skip1, skip2, k - 1), conds[k - 1], k)
    }
}

/// Runs a pipeline: the initial search with the first matcher and the first
/// line-filter, then every other condition applied in turn with its 1-based
/// position as index. Fails where there is no condition or the first is a
/// transform.
pub fn run_pipeline(sources: &Vec<(String, String)>, config: &SearchConfig, conditions: &Vec<SearchCondition>) -> (r: Result<SearchResult, SearchError>)
    ensures
        r is Err <==> conditions@.len() == 0 || spec_is_transform(conditions@[0]),
        r matches Ok(res) ==> res.conds() == conditions@ && res.model() == fold_except(
            initial_model(
                sources@.map_values(|p: (String, String)| source_view(p)),
                config.before_context,
                config.after_context,
                conditions@,
            ),
            conditions@,
            first_pos(conditions@, true, 0),
            first_pos(conditions@, false, 0),
            conditions@.len() as int,
        ),
{
    if conditions.len() == 0 || conditions[0].is_transform() {
        return Err(SearchError::InvalidCondition);
    }
    let n = conditions.len();
    let mpos = find_first_pos(conditions, true);
    let lpos = find_first_pos(conditions, false);
    let ghost s1 = first_pos(conditions@, true, 0);
    let ghost s2 = first_pos(conditions@, false, 0);
    let mut acc = search(sources, config, conditions);
    let ghost start = acc.model();
    let mut k: usize = 0;
    while k < n
        invariant
            k <= n == conditions@.len(),
            match mpos { Some(p) => p as int == s1, None => s1 == -1 },
            match lpos { Some(p) => p as int == s2, None => s2 == -1 },
            acc.model() == fold_except(start, conditions@, s1, s2, k as int),
            acc.conds() == conditions@,
        decreases n - k,
    {
        let skip = match mpos { Some(p) => p == k, None => false } || match lpos { Some(p) => p == k, None => false };
        if !skip {
            let next = acc.apply(conditions[k].duplicate(), k + 1);
            acc = SearchResult::new(next.into_files(), copy_conditions(conditions));
        }
        k = k + 1;
    }
    Ok(acc)
}

} // verus!
