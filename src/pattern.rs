use vstd::prelude::*;
use vstd::utf8::is_char_boundary;
use std::ops::Range;
use crate::text::utf8;
use regex::Regex as RegexEngine;
use regex::Error as RegexError;

verus! {

#[verifier::external_type_specification]
#[verifier::external_body]
pub struct ExRegex(RegexEngine);

#[verifier::external_type_specification]
#[verifier::external_body]
pub struct ExRegexError(RegexError);

/// Why a pattern was refused.
#[derive(Clone, Copy, Debug, PartialEq, Eq, Structural)]
pub enum PatternError {
    Invalid,
}

/// Whether the regex crate accepts a pattern: a function of the pattern alone.
pub uninterp spec fn compiles(p: Seq<char>) -> bool;

/// A character with a meaning in a pattern, which escaping quotes with a backslash.
pub open spec fn is_meta(c: char) -> bool {
    c == '\\' || c == '.' || c == '+' || c == '*' || c == '?' || c == '(' || c == ')' || c == '|'
        || c == '[' || c == ']' || c == '{' || c == '}' || c == '^' || c == '$' || c == '#' || c == '&'
        || c == '-' || c == '~'
}

/// The text with a backslash before each meta character, as the regex crate's
/// escaping writes it.
pub open spec fn escaped(s: Seq<char>) -> Seq<char>
    decreases s.len(),
{
    if s.len() == 0 {
        s
    } else {
        escaped(s.drop_last()) + if is_meta(s.last()) { seq!['\\', s.last()] } else { seq![s.last()] }
    }
}

/// The spans lie in order, apart, on character boundaries of the text `t`.
pub open spec fn spans_ordered(s: Seq<Range<usize>>, t: Seq<u8>) -> bool {
    &&& forall|i: int|
        0 <= i < s.len() ==> (#[trigger] s[i]).start <= s[i].end && s[i].end <= t.len()
            && is_char_boundary(t, s[i].start as int) && is_char_boundary(t, s[i].end as int)
    &&& forall|i: int, j: int| 0 <= i < j < s.len() ==> (#[trigger] s[i]).end <= (#[trigger] s[j]).start
}

/// Relies on regex::Regex::new: it compiles the pattern or says why not.
#[verifier::external_body]
fn compile_regex(p: &str) -> (r: Result<RegexEngine, RegexError>)
    ensures
        r is Ok <==> compiles(p@),
{
    RegexEngine::new(p)
}

/// The spans where the regex crate finds the pattern `p` in the text `t`: a
/// function of the two alone.
pub uninterp spec fn regex_finds(p: Seq<char>, t: Seq<char>) -> Seq<(int, int)>;

/// The spans as pairs of offsets.
pub open spec fn spans_view(s: Seq<Range<usize>>) -> Seq<(int, int)> {
    s.map_values(|r: Range<usize>| (r.start as int, r.end as int))
}

/// Relies on regex::Regex::find_iter and Match::range: successive non-overlapping
/// matches, each a range of the text on character boundaries. The engine was
/// compiled from the pattern's source, which is never changed.
#[verifier::external_body]
fn regex_spans(p: &Pattern, text: &str) -> (r: Vec<Range<usize>>)
    ensures
        spans_ordered(r@, utf8(text@)),
        spans_view(r@) == regex_finds(p.source_view(), text@),
{
    p.re.find_iter(text).map(|m| m.range()).collect()
}

/// The text with a backslash before each meta character, so that a pattern
/// matches it literally.
fn regex_escape(s: &str) -> (r: String)
    ensures
        r@ == escaped(s@),
{
    let c = crate::transform::chars_of(s);
    let mut out: Vec<char> = Vec::new();
    let mut i: usize = 0;
    while i < c.len()
        invariant
            i <= c@.len(),
            c@ == s@,
            out@ == escaped(s@.take(i as int)),
        decreases c@.len() - i,
    {
        assert(s@.take(i + 1).drop_last() =~= s@.take(i as int));
        let ch = c[i];
        let meta = ch == '\\' || ch == '.' || ch == '+' || ch == '*' || ch == '?' || ch == '(' || ch == ')'
            || ch == '|' || ch == '[' || ch == ']' || ch == '{' || ch == '}' || ch == '^' || ch == '$'
            || ch == '#' || ch == '&' || ch == '-' || ch == '~';
        let ghost before = out@;
        if meta {
            out.push('\\');
        }
        out.push(ch);
        assert(out@ =~= escaped(s@.take(i + 1)));
        i = i + 1;
    }
    assert(s@.take(i as int) =~= s@);
    crate::transform::string_of(&out, 0, out.len())
}

/// A compiled regular expression together with its source.
pub struct Pattern {
    source: String,
    re: RegexEngine,
}

impl Pattern {
    /// The pattern's source text.
    pub closed spec fn source_view(&self) -> Seq<char> {
        self.source@
    }

    /// Compiles `p`; fails exactly where the regex crate refuses it.
    pub fn compile(p: &str) -> (r: Result<Pattern, PatternError>)
        ensures
            r is Ok <==> compiles(p@),
            r matches Ok(pat) ==> pat.source_view() == p@,
    {
        match compile_regex(p) {
            Ok(re) => Ok(Pattern { source: p.to_owned(), re }),
            Err(_) => Err(PatternError::Invalid),
        }
    }

    /// The pattern that matches `k` literally between word boundaries.
    pub fn whole_word(k: &str) -> (r: Result<Pattern, PatternError>)
        ensures
            r is Ok <==> compiles(word_pattern(k@)),
            r matches Ok(pat) ==> pat.source_view() == word_pattern(k@),
    {
        let mut p = String::from_str("\\b");
        proof { reveal_strlit("\\b"); }
        let e = regex_escape(k);
        p.append(e.as_str());
        p.append("\\b");
        assert(p@ =~= word_pattern(k@));
        Pattern::compile(p.as_str())
    }

    /// The source text.
    pub fn as_str(&self) -> (r: &str)
        ensures
            r@ == self.source_view(),
    {
        self.source.as_str()
    }

    /// The spans where the pattern matches `text`.
    pub fn spans(&self, text: &str) -> (r: Vec<Range<usize>>)
        ensures
            spans_ordered(r@, utf8(text@)),
            spans_view(r@) == regex_finds(self.source_view(), text@),
    {
        regex_spans(self, text)
    }
}

/// The pattern of a whole-word search for `k`.
pub open spec fn word_pattern(k: Seq<char>) -> Seq<char> {
    seq!['\\', 'b'] + escaped(k) + seq!['\\', 'b']
}

} // verus!
