use vstd::prelude::*;
use crate::filter::{AnyFilter, Filter};
use crate::match_result::{frags, Frag, FragState, MatchResult};
use crate::text::{substring, utf8};
use vstd::utf8::{decode_utf8, encode_utf8_decode_utf8, is_char_boundary};

verus! {

/// `a` comes no later than `b`: by start, then by the producing condition.
pub open spec fn frag_le(a: Frag, b: Frag) -> bool {
    a.start < b.start || (a.start == b.start && a.index <= b.index)
}

/// The fragments are in order.
pub open spec fn sorted(s: Seq<Frag>) -> bool {
    forall|i: int, j: int| 0 <= i < j < s.len() ==> frag_le(#[trigger] s[i], #[trigger] s[j])
}

/// `m` placed into `s` after every fragment that comes no later than it.
pub open spec fn insert_sorted(s: Seq<Frag>, m: Frag) -> Seq<Frag>
    decreases s.len(),
{
    if s.len() == 0 {
        seq![m]
    } else if frag_le(s.last(), m) {
        s.push(m)
    } else {
        insert_sorted(s.drop_last(), m).push(s.last())
    }
}

/// The fragments in order; fragments that tie keep their order.
pub open spec fn sort_frags(s: Seq<Frag>) -> Seq<Frag>
    decreases s.len(),
{
    if s.len() == 0 {
        s
    } else {
        insert_sorted(sort_frags(s.drop_last()), s.last())
    }
}

/// Inserting keeps the fragments and adds `m`, in order.
pub proof fn lemma_insert_sorted(s: Seq<Frag>, m: Frag)
    requires
        sorted(s),
    ensures
        sorted(insert_sorted(s, m)),
        insert_sorted(s, m).len() == s.len() + 1,
        insert_sorted(s, m).to_multiset() == s.to_multiset().insert(m),
    decreases s.len(),
{
    broadcast use vstd::seq_lib::group_to_multiset_ensures;
    if s.len() == 0 {
        assert(seq![m] =~= s.push(m));
    } else if frag_le(s.last(), m) {
    } else {
        let t = s.drop_last();
        assert(sorted(t));
        lemma_insert_sorted(t, m);
        let u = insert_sorted(t, m);
        assert(s =~= t.push(s.last()));
        assert forall|i: int| 0 <= i < u.len() implies frag_le(#[trigger] u[i], s.last()) by {
            assert(u.to_multiset().count(u[i]) > 0);
            if u[i] != m {
                assert(t.to_multiset().count(u[i]) > 0);
                let k = choose|k: int| 0 <= k < t.len() && t[k] == u[i];
                assert(frag_le(s[k], s[s.len() - 1]));
            }
        }
        assert(sorted(u.push(s.last())));
    }
}

/// Sorting keeps the fragments, in order.
pub proof fn lemma_sort_frags(s: Seq<Frag>)
    ensures
        sorted(sort_frags(s)),
        sort_frags(s).len() == s.len(),
        sort_frags(s).to_multiset() == s.to_multiset(),
    decreases s.len(),
{
    broadcast use vstd::seq_lib::group_to_multiset_ensures;
    if s.len() > 0 {
        lemma_sort_frags(s.drop_last());
        lemma_insert_sorted(sort_frags(s.drop_last()), s.last());
        assert(s =~= s.drop_last().push(s.last()));
    }
}

/// Whether `a` comes strictly after `b`.
fn after(a: &MatchResult, b: &MatchResult) -> (r: bool)
    ensures
        r == !frag_le(a@, b@),
{
    let sa = a.column();
    let sb = b.column();
    sa > sb || (sa == sb && a.index() > b.index())
}

/// Places `m` into the sorted fragments `v`.
fn insert_in_order(v: &mut Vec<MatchResult>, m: MatchResult)
    ensures
        frags(final(v)@) == insert_sorted(frags(old(v)@), m@),
{
    let ghost s = frags(v@);
    let mut p: usize = v.len();
    assert(s.take(p as int) =~= s);
    assert(s.skip(p as int) =~= Seq::<Frag>::empty());
    assert(insert_sorted(s, m@) =~= insert_sorted(s.take(p as int), m@) + s.skip(p as int));
    while p > 0 && after(&v[p - 1], &m)
        invariant
            p <= v@.len(),
            frags(v@) == s,
            insert_sorted(s, m@) == insert_sorted(s.take(p as int), m@) + s.skip(p as int),
        decreases p,
    {
        let ghost q = p as int;
        assert(s.take(q).drop_last() =~= s.take(q - 1));
        assert(s.take(q).last() == s[q - 1]);
        assert(s.skip(q - 1) =~= seq![s[q - 1]] + s.skip(q));
        assert(insert_sorted(s.take(q), m@) == insert_sorted(s.take(q - 1), m@).push(s[q - 1]));
        assert(insert_sorted(s.take(q - 1), m@).push(s[q - 1]) + s.skip(q) =~= insert_sorted(s.take(q - 1), m@) + s.skip(q - 1));
        p = p - 1;
    }
    proof {
        if p > 0 {
            assert(insert_sorted(s.take(p as int), m@) == s.take(p as int).push(m@));
        } else {
            assert(insert_sorted(s.take(0), m@) == seq![m@]);
        }
    }
    let ghost mv = m@;
    v.insert(p, m);
    assert(frags(v@) =~= s.take(p as int).push(mv) + s.skip(p as int));
}

/// Sorts fragments by start, then by the producing condition.
pub fn sort_matches(v: Vec<MatchResult>) -> (r: Vec<MatchResult>)
    ensures
        frags(r@) == sort_frags(frags(v@)),
{
    let mut r: Vec<MatchResult> = Vec::new();
    let mut i: usize = 0;
    while i < v.len()
        invariant
            i <= v@.len(),
            frags(r@) == sort_frags(frags(v@).take(i as int)),
        decreases v@.len() - i,
    {
        let m = v[i].duplicate();
        assert(frags(v@).take(i + 1).drop_last() =~= frags(v@).take(i as int));
        insert_in_order(&mut r, m);
        i = i + 1;
    }
    assert(frags(v@).take(i as int) =~= frags(v@));
    r
}

/// A copy of a list of fragments.
pub fn copy_matches(v: &Vec<MatchResult>) -> (r: Vec<MatchResult>)
    ensures
        frags(r@) == frags(v@),
{
    let mut r: Vec<MatchResult> = Vec::new();
    let mut i: usize = 0;
    while i < v.len()
        invariant
            i <= v@.len(),
            frags(r@) == frags(v@).take(i as int),
        decreases v@.len() - i,
    {
        let ghost old_r = frags(r@);
        r.push(v[i].duplicate());
        assert(frags(r@) =~= old_r.push(v@[i as int]@));
        assert(frags(r@) =~= frags(v@).take(i + 1));
        i = i + 1;
    }
    assert(frags(v@).take(i as int) =~= frags(v@));
    r
}

/// A line of a searched text with the fragments that the conditions left on it.
#[derive(Debug, PartialEq)]
pub struct Line {
    pub line_no: usize,
    pub text: String,
    matches: Vec<MatchResult>,
    filtered: bool,
}

impl Clone for Line {
    fn clone(&self) -> (r: Line)
        ensures
            r.number() == self.number(),
            r.text_view() == self.text_view(),
            r.frags() == self.frags(),
            r.hidden() == self.hidden(),
    {
        self.duplicate()
    }
}


impl Line {
    /// The fragments of every line are in order.
    #[verifier::type_invariant]
    spec fn in_order(self) -> bool {
        sorted(frags(self.matches@))
    }

    /// The fragments as plain values.
    pub closed spec fn frags(&self) -> Seq<Frag> {
        frags(self.matches@)
    }

    /// The line's number.
    pub closed spec fn number(&self) -> usize {
        self.line_no
    }

    /// The line's text.
    pub closed spec fn text_view(&self) -> Seq<char> {
        self.text@
    }

    /// Whether the line is hidden.
    pub closed spec fn hidden(&self) -> bool {
        self.filtered
    }

    /// A line with its fragments sorted by start, then by the producing condition.
    pub fn new(line_no: usize, text: String, matches: Vec<MatchResult>, filtered: bool) -> (r: Line)
        ensures
            r.number() == line_no,
            r.text_view() == text@,
            r.frags() == sort_frags(frags(matches@)),
            sorted(r.frags()),
            r.frags().to_multiset() == frags(matches@).to_multiset(),
            r.hidden() == filtered,
    {
        proof {
            lemma_sort_frags(frags(matches@));
        }
        Line { line_no, text, matches: sort_matches(matches), filtered }
    }

    /// The line's text.
    pub fn get_text(&self) -> (r: &String)
        ensures
            r@ == self.text_view(),
    {
        &self.text
    }

    /// The line's number.
    pub fn get_line_no(&self) -> (r: usize)
        ensures
            r == self.number(),
    {
        self.line_no
    }

    pub fn is_filtered(&self) -> (r: bool)
        ensures
            r == self.hidden(),
    {
        self.filtered
    }

    pub fn matches(&self) -> (r: &Vec<MatchResult>)
        ensures
            frags(r@) == self.frags(),
            sorted(frags(r@)),
    {
        proof {
            use_type_invariant(self);
        }
        &self.matches
    }

    /// A copy of the line.
    pub fn duplicate(&self) -> (r: Line)
        ensures
            r.number() == self.number(),
            r.text_view() == self.text_view(),
            r.frags() == self.frags(),
            r.hidden() == self.hidden(),
    {
        proof {
            use_type_invariant(self);
        }
        Line { line_no: self.line_no, text: self.text.clone(), matches: copy_matches(&self.matches), filtered: self.filtered }
    }

    /// The rewritten fragments, in order.
    pub fn transforms(&self) -> (r: Vec<MatchResult>)
        ensures
            frags(r@) == self.frags().filter(|m: Frag| m.state == FragState::Transformed),
    {
        let ghost s = self.frags();
        let mut r: Vec<MatchResult> = Vec::new();
        let mut i: usize = 0;
        while i < self.matches.len()
            invariant
                i <= self.matches@.len(),
                s == frags(self.matches@),
                frags(r@) == s.take(i as int).filter(|m: Frag| m.state == FragState::Transformed),
            decreases self.matches@.len() - i,
        {
            proof {
                assert(s.take(i + 1).drop_last() =~= s.take(i as int));
                reveal(Seq::filter);
            }
            if self.matches[i].is_transformed() {
                let ghost old_r = frags(r@);
                r.push(self.matches[i].duplicate());
                assert(frags(r@) =~= old_r.push(s[i as int]));
            }
            i = i + 1;
        }
        assert(s.take(i as int) =~= s);
        r
    }

    /// Whether a fragment of the line was rewritten.
    pub fn contains_transformed(&self) -> (r: bool)
        ensures
            r == exists|i: int| 0 <= i < self.frags().len() && (#[trigger] self.frags()[i]).state == FragState::Transformed,
    {
        let mut i: usize = 0;
        while i < self.matches.len()
            invariant
                i <= self.matches@.len(),
                forall|k: int| 0 <= k < i ==> (#[trigger] self.frags()[k]).state != FragState::Transformed,
            decreases self.matches@.len() - i,
        {
            if self.matches[i].is_transformed() {
                assert(self.frags()[i as int].state == FragState::Transformed);
                return true;
            }
            i = i + 1;
        }
        false
    }

    /// The line, hidden exactly where `filter` rejects its text.
    pub fn filter(&self, filter: &AnyFilter) -> (r: Line)
        ensures
            r.number() == self.number(),
            r.text_view() == self.text_view(),
            r.frags() == self.frags(),
            r.hidden() == !filter.accepts(self.text_view()),
    {
        let keep = filter.filter(self.text.as_str());
        proof {
            use_type_invariant(self);
        }
        Line { line_no: self.line_no, text: self.text.clone(), matches: copy_matches(&self.matches), filtered: !keep }
    }

    /// The line, hidden or shown as `filtered` says.
    pub fn filtered(&self, filtered: bool) -> (r: Line)
        ensures
            r.number() == self.number(),
            r.text_view() == self.text_view(),
            r.frags() == self.frags(),
            r.hidden() == filtered,
    {
        proof {
            use_type_invariant(self);
        }
        Line { line_no: self.line_no, text: self.text.clone(), matches: copy_matches(&self.matches), filtered }
    }

    /// The number of fragments on the line, whatever their state.
    pub fn count_matches(&self) -> (r: usize)
        ensures
            r == self.frags().len(),
    {
        self.matches.len()
    }
}

/// The text between two byte offsets where both are character boundaries in order;
/// nothing elsewhere.
pub open spec fn piece(t: Seq<char>, a: int, b: int) -> Seq<char> {
    if a <= b && is_char_boundary(utf8(t), a) && is_char_boundary(utf8(t), b) {
        decode_utf8(utf8(t).subrange(a, b))
    } else {
        Seq::empty()
    }
}

/// A token of a line: a piece of its text, and the fragment that the piece shows.
pub open spec fn token_view(p: (String, Option<MatchResult>)) -> (Seq<char>, Option<Frag>) {
    (p.0@, match p.1 {
        Some(m) => Some(m@),
        None => None,
    })
}

/// The tokens that one fragment adds after offset `cur`, and the offset after it.
pub open spec fn token_step(t: Seq<char>, m: Frag, cur: int) -> (Seq<(Seq<char>, Option<Frag>)>, int) {
    let pre: Seq<(Seq<char>, Option<Frag>)> = if cur < m.start { seq![(piece(t, cur, m.start), None)] } else { Seq::empty() };
    let body = if m.state == FragState::Found && cur > m.start && cur <= m.end {
        piece(t, cur, m.end)
    } else {
        piece(t, m.start, m.end)
    };
    (pre.push((body, Some(m))), m.end)
}

/// The tokens of the first `n` fragments, and the offset after them.
pub open spec fn tokens_upto(t: Seq<char>, ms: Seq<Frag>, n: int) -> (Seq<(Seq<char>, Option<Frag>)>, int)
    decreases n,
{
    if n <= 0 {
        (Seq::empty(), 0)
    } else {
        let prev = tokens_upto(t, ms, n - 1);
        let step = token_step(t, ms[n - 1], prev.1);
        (prev.0 + step.0, step.1)
    }
}

/// The tokens of a line: the text before, between and after its fragments, and
/// each fragment's piece of text; the whole text where it has no fragment.
pub open spec fn line_tokens(t: Seq<char>, ms: Seq<Frag>) -> Seq<(Seq<char>, Option<Frag>)> {
    let r = tokens_upto(t, ms, ms.len() as int);
    if ms.len() == 0 {
        seq![(t, None)]
    } else if t.len() > 0 && r.1 < utf8(t).len() {
        r.0.push((piece(t, r.1, utf8(t).len() as int), None))
    } else {
        r.0
    }
}

/// The text between two byte offsets, or nothing where they are not character
/// boundaries in order.
fn cut(text: &String, a: usize, b: usize) -> (r: String)
    ensures
        r@ == piece(text@, a as int, b as int),
{
    let t = text.as_str();
    if a <= b && t.is_char_boundary(a) && t.is_char_boundary(b) {
        proof {
            vstd::utf8::encode_utf8_valid_utf8(text@);
            if b > 0 {
                assert(b <= utf8(text@).len());
            }
        }
        let r = substring(t, a, b);
        proof {
            encode_utf8_decode_utf8(r@);
        }
        r
    } else {
        String::new()
    }
}

impl Line {
    /// The line cut into tokens for display.
    pub fn tokens(&self) -> (r: Vec<(String, Option<MatchResult>)>)
        ensures
            r@.map_values(|p: (String, Option<MatchResult>)| token_view(p)) == line_tokens(self.text_view(), self.frags()),
    {
        let ghost t = self.text_view();
        let ghost ms = self.frags();
        let mut toks: Vec<(String, Option<MatchResult>)> = Vec::new();
        let mut cur: usize = 0;
        let mut i: usize = 0;
        while i < self.matches.len()
            invariant
                i <= self.matches@.len(),
                t == self.text_view(),
                ms == frags(self.matches@),
                toks@.map_values(|p: (String, Option<MatchResult>)| token_view(p)) == tokens_upto(t, ms, i as int).0,
                cur as int == tokens_upto(t, ms, i as int).1,
            decreases self.matches@.len() - i,
        {
            let m = &self.matches[i];
            let rg = m.range();
            let ghost before = toks@.map_values(|p: (String, Option<MatchResult>)| token_view(p));
            let ghost mv = m@;
            assert(ms[i as int] == mv);
            if cur < rg.start {
                toks.push((cut(&self.text, cur, rg.start), None));
            }
            let body = if m.is_found() && cur > rg.start && cur <= rg.end {
                cut(&self.text, cur, rg.end)
            } else {
                cut(&self.text, rg.start, rg.end)
            };
            toks.push((body, Some(m.duplicate())));
            assert(toks@.map_values(|p: (String, Option<MatchResult>)| token_view(p)) =~= before + token_step(t, mv, cur as int).0);
            cur = rg.end;
            i = i + 1;
        }
        let n = self.text.as_str().as_bytes().len();
        if self.matches.len() == 0 {
            let mut r: Vec<(String, Option<MatchResult>)> = Vec::new();
            r.push((self.text.clone(), None));
            assert(r@.map_values(|p: (String, Option<MatchResult>)| token_view(p)) =~= seq![(t, None::<Frag>)]);
            return r;
        }
        if self.text.as_str().as_bytes().len() > 0 && cur < n {
            let ghost before = toks@.map_values(|p: (String, Option<MatchResult>)| token_view(p));
            toks.push((cut(&self.text, cur, n), None));
            assert(toks@.map_values(|p: (String, Option<MatchResult>)| token_view(p)) =~= before.push((piece(t, cur as int, utf8(t).len() as int), None::<Frag>)));
        }
        toks
    }
}

} // verus!
