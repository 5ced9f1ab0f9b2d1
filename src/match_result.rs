use vstd::prelude::*;
use std::ops::Range;
use crate::filter::{AnyFilter, Filter};
use crate::matcher::{AnyMatcher, Matcher};
use crate::text::{utf8, pieces_view};
use crate::transform::{AnyTransform, Transform};
use vstd::utf8::{decode_utf8, encode_utf8_decode_utf8, encode_utf8_valid_utf8, is_char_boundary};

verus! {

/// The state of a fragment.
#[derive(Clone, Copy, Debug, PartialEq, Eq, Structural)]
pub enum FragState {
    Found,
    Filtered,
    Transformed,
}

/// A fragment as plain values: state, text, byte range and the 1-based position of
/// the condition that produced it.
pub struct Frag {
    pub state: FragState,
    pub text: Seq<char>,
    pub start: int,
    pub end: int,
    pub index: int,
}

/// A fragment of a line that a condition found, kept, or rewrote.
#[derive(Debug)]
pub enum MatchResult {
    Found(String, Range<usize>, usize),
    Filtered(String, Range<usize>, usize),
    Transformed(String, Range<usize>, usize),
}

impl View for MatchResult {
    type V = Frag;

    open spec fn view(&self) -> Frag {
        match self {
            MatchResult::Found(t, r, i) => Frag {
                state: FragState::Found,
                text: t@,
                start: r.start as int,
                end: r.end as int,
                index: *i as int,
            },
            MatchResult::Filtered(t, r, i) => Frag {
                state: FragState::Filtered,
                text: t@,
                start: r.start as int,
                end: r.end as int,
                index: *i as int,
            },
            MatchResult::Transformed(t, r, i) => Frag {
                state: FragState::Transformed,
                text: t@,
                start: r.start as int,
                end: r.end as int,
                index: *i as int,
            },
        }
    }
}

/// The plain values of a list of fragments.
pub open spec fn frags(s: Seq<MatchResult>) -> Seq<Frag> {
    s.map_values(|m: MatchResult| m@)
}

/// Found pieces as fragments tagged with `index`.
pub open spec fn tag_found(p: Seq<(Seq<char>, int, int)>, index: int) -> Seq<Frag> {
    p.map_values(
        |p: (Seq<char>, int, int)| Frag { state: FragState::Found, text: p.0, start: p.1, end: p.2, index },
    )
}

/// The fragments that a matcher finds in `text`, tagged with `index`.
pub open spec fn found_frags(m: AnyMatcher, text: Seq<char>, index: int) -> Seq<Frag> {
    tag_found(m.found(text), index)
}

/// What a match-filter makes of a fragment: kept as filtered, or dropped.
pub open spec fn filter_frag(m: Frag, f: AnyFilter, index: int) -> Option<Frag> {
    if f.accepts(m.text) {
        Some(Frag { state: FragState::Filtered, text: m.text, start: m.start, end: m.end, index })
    } else {
        None
    }
}

/// What a transform makes of a fragment: its output, over the whole range of the
/// fragment it replaces.
pub open spec fn transform_frag(m: Frag, t: AnyTransform, index: int) -> Frag {
    Frag {
        state: FragState::Transformed,
        text: t.output(m.text),
        start: m.start,
        end: m.end,
        index,
    }
}

/// `token` in place of the bytes `[s, e)` of `t`, where both are character
/// boundaries in order; `t` unchanged elsewhere.
pub open spec fn spliced(t: Seq<char>, s: int, e: int, token: Seq<char>) -> Seq<char> {
    if s <= e && is_char_boundary(utf8(t), s) && is_char_boundary(utf8(t), e) {
        decode_utf8(utf8(t).subrange(0, s)) + token + decode_utf8(utf8(t).subrange(e, utf8(t).len() as int))
    } else {
        t
    }
}

/// What committing a fragment does to the text of its line.
pub open spec fn apply_frag(m: Frag, t: Seq<char>) -> Seq<char> {
    if m.state == FragState::Transformed {
        spliced(t, m.start, m.end, m.text)
    } else {
        t
    }
}

impl MatchResult {
    /// A copy of the fragment.
    pub fn duplicate(&self) -> (r: MatchResult)
        ensures
            r@ == self@,
    {
        match self {
            MatchResult::Found(t, r, i) => MatchResult::Found(t.clone(), Range { start: r.start, end: r.end }, *i),
            MatchResult::Filtered(t, r, i) => MatchResult::Filtered(t.clone(), Range { start: r.start, end: r.end }, *i),
            MatchResult::Transformed(t, r, i) => MatchResult::Transformed(t.clone(), Range { start: r.start, end: r.end }, *i),
        }
    }

    pub fn is_found(&self) -> (r: bool)
        ensures
            r == (self@.state == FragState::Found),
    {
        matches!(self, MatchResult::Found(_, _, _))
    }

    pub fn is_transformed(&self) -> (r: bool)
        ensures
            r == (self@.state == FragState::Transformed),
    {
        matches!(self, MatchResult::Transformed(_, _, _))
    }

    /// The position of the condition that produced the fragment.
    pub fn index(&self) -> (r: usize)
        ensures
            r as int == self@.index,
    {
        match self {
            MatchResult::Found(_, _, i) => *i,
            MatchResult::Filtered(_, _, i) => *i,
            MatchResult::Transformed(_, _, i) => *i,
        }
    }

    /// The byte range of the fragment in its line.
    pub fn range(&self) -> (r: Range<usize>)
        ensures
            r.start as int == self@.start,
            r.end as int == self@.end,
    {
        match self {
            MatchResult::Found(_, r, _) => Range { start: r.start, end: r.end },
            MatchResult::Filtered(_, r, _) => Range { start: r.start, end: r.end },
            MatchResult::Transformed(_, r, _) => Range { start: r.start, end: r.end },
        }
    }

    /// The byte offset where the fragment begins.
    pub fn column(&self) -> (r: usize)
        ensures
            r as int == self@.start,
    {
        match self {
            MatchResult::Found(_, r, _) => r.start,
            MatchResult::Filtered(_, r, _) => r.start,
            MatchResult::Transformed(_, r, _) => r.start,
        }
    }

    /// The text of the fragment.
    pub fn text(&self) -> (r: &String)
        ensures
            r@ == self@.text,
    {
        match self {
            MatchResult::Found(t, _, _) => t,
            MatchResult::Filtered(t, _, _) => t,
            MatchResult::Transformed(t, _, _) => t,
        }
    }

    /// Every fragment that `f` finds in `text`, tagged with `index`.
    pub fn find(text: &String, f: &AnyMatcher, index: usize) -> (r: Vec<MatchResult>)
        ensures
            frags(r@) == found_frags(*f, text@, index as int),
    {
        let found = f.find(text.as_str());
        let ghost fv = pieces_view(found@);
        let mut r: Vec<MatchResult> = Vec::new();
        let mut j: usize = 0;
        while j < found.len()
            invariant
                j <= found@.len(),
                fv == f.found(text@),
                fv == pieces_view(found@),
                frags(r@) == found_frags(*f, text@, index as int).take(j as int),
            decreases found@.len() - j,
        {
            let t = found[j].0.clone();
            let rg = Range { start: found[j].1.start, end: found[j].1.end };
            let ghost old_r = frags(r@);
            assert(fv[j as int] == crate::text::piece_view(found@[j as int]));
            r.push(MatchResult::Found(t, rg, index));
            assert(frags(r@) =~= old_r.push(r@[j as int]@));
            assert(frags(r@) =~= found_frags(*f, text@, index as int).take(j + 1));
            j = j + 1;
        }
        assert(found_frags(*f, text@, index as int).take(j as int) =~= found_frags(*f, text@, index as int));
        r
    }

    /// The fragment kept as filtered where `f` accepts its text.
    pub fn filter(&self, f: &AnyFilter, index: usize) -> (r: Option<MatchResult>)
        ensures
            match filter_frag(self@, *f, index as int) {
                Some(m) => r matches Some(x) && x@ == m,
                None => r is None,
            },
    {
        let t = self.text();
        if f.filter(t.as_str()) {
            Some(MatchResult::Filtered(t.clone(), self.range(), index))
        } else {
            None
        }
    }

    /// What `t` makes of the fragment: one replacement spanning the fragment's range.
    pub fn transform(&self, t: &AnyTransform, index: usize) -> (r: Vec<MatchResult>)
        ensures
            frags(r@) == seq![transform_frag(self@, *t, index as int)],
    {
        let text = self.text();
        let out = t.transform(text.as_str());
        let mut r: Vec<MatchResult> = Vec::new();
        r.push(MatchResult::Transformed(out[0].0.clone(), self.range(), index));
        assert(frags(r@) =~= seq![transform_frag(self@, *t, index as int)]);
        r
    }

    /// The text with a rewritten fragment committed; other fragments leave it as is.
    pub fn apply(&self, text: String) -> (r: String)
        ensures
            r@ == apply_frag(self@, text@),
    {
        match self {
            MatchResult::Transformed(token, range, _) => splice(text, range.start, range.end, token),
            _ => text,
        }
    }
}

/// `token` in place of the bytes `[s, e)` of `text`, where both are character
/// boundaries in order; `text` unchanged elsewhere.
pub fn splice(text: String, s: usize, e: usize, token: &String) -> (r: String)
    ensures
        r@ == spliced(text@, s as int, e as int, token@),
{
    let t = text.as_str();
    if s <= e && t.is_char_boundary(s) && t.is_char_boundary(e) {
        proof {
            encode_utf8_valid_utf8(text@);
        }
        let (a, _) = t.split_at(s);
        let (_, b) = t.split_at(e);
        proof {
            encode_utf8_decode_utf8(a@);
            encode_utf8_decode_utf8(b@);
        }
        let mut out = a.to_owned();
        out.append(token.as_str());
        out.append(b);
        out
    } else {
        text
    }
}

impl Clone for MatchResult {
    fn clone(&self) -> (r: MatchResult)
        ensures
            r@ == self@,
    {
        self.duplicate()
    }
}

impl PartialEq for MatchResult {
    fn eq(&self, o: &MatchResult) -> (r: bool) {
        let a = self.range();
        let b = o.range();
        let same_text = self.text().eq(o.text());
        let r = self.state() == o.state() && same_text && a.start == b.start && a.end == b.end
            && self.index() == o.index();
        proof {
            if r {
                assert(self@ == o@);
            }
        }
        r
    }
}

impl vstd::std_specs::cmp::PartialEqSpecImpl for MatchResult {
    open spec fn obeys_eq_spec() -> bool {
        true
    }

    open spec fn eq_spec(&self, o: &MatchResult) -> bool {
        self@ == o@
    }
}

impl MatchResult {
    /// The state of the fragment.
    pub fn state(&self) -> (r: FragState)
        ensures
            r == self@.state,
    {
        match self {
            MatchResult::Found(_, _, _) => FragState::Found,
            MatchResult::Filtered(_, _, _) => FragState::Filtered,
            MatchResult::Transformed(_, _, _) => FragState::Transformed,
        }
    }
}

} // verus!
