use vstd::prelude::*;
use crate::pattern::{compiles, regex_finds, Pattern, PatternError};
use crate::text::{contains_at_all, contains_bytes, ends_with_bytes, occurs_at, starts_with_bytes, utf8};
use crate::value::{op_holds, Op};

verus! {

/// A primitive that accepts or rejects a text.
pub trait Filter {
    /// Whether the filter accepts `text`.
    spec fn accepts(&self, text: Seq<char>) -> bool;

    fn filter(&self, text: &str) -> (r: bool)
        ensures
            r == self.accepts(text@),
    ;
}

/// Accepts a text that holds the keyword.
pub struct Contains {
    keyword: String,
}

impl Contains {
    pub fn new(keyword: String) -> (r: Contains)
        ensures
            r.keyword() == keyword@,
    {
        Contains { keyword }
    }

    pub closed spec fn keyword(&self) -> Seq<char> {
        self.keyword@
    }
}

impl Filter for Contains {
    open spec fn accepts(&self, text: Seq<char>) -> bool {
        contains_bytes(utf8(text), utf8(self.keyword()))
    }

    fn filter(&self, text: &str) -> (r: bool) {
        contains_at_all(text.as_bytes(), self.keyword.as_str().as_bytes())
    }
}

/// Accepts a text that begins with the keyword.
pub struct StartsWith {
    keyword: String,
}

impl StartsWith {
    pub fn new(keyword: String) -> (r: StartsWith)
        ensures
            r.keyword() == keyword@,
    {
        StartsWith { keyword }
    }

    pub closed spec fn keyword(&self) -> Seq<char> {
        self.keyword@
    }
}

impl Filter for StartsWith {
    open spec fn accepts(&self, text: Seq<char>) -> bool {
        occurs_at(utf8(text), utf8(self.keyword()), 0)
    }

    fn filter(&self, text: &str) -> (r: bool) {
        starts_with_bytes(text.as_bytes(), self.keyword.as_str().as_bytes())
    }
}

/// Accepts a text that ends with the keyword.
pub struct EndsWith {
    keyword: String,
}

impl EndsWith {
    pub fn new(keyword: String) -> (r: EndsWith)
        ensures
            r.keyword() == keyword@,
    {
        EndsWith { keyword }
    }

    pub closed spec fn keyword(&self) -> Seq<char> {
        self.keyword@
    }
}

/// `t` ends with `k`.
pub open spec fn ends_with(t: Seq<u8>, k: Seq<u8>) -> bool {
    k.len() <= t.len() && occurs_at(t, k, t.len() - k.len())
}

impl Filter for EndsWith {
    open spec fn accepts(&self, text: Seq<char>) -> bool {
        ends_with(utf8(text), utf8(self.keyword()))
    }

    fn filter(&self, text: &str) -> (r: bool) {
        ends_with_bytes(text.as_bytes(), self.keyword.as_str().as_bytes())
    }
}

/// Accepts a text that does not hold the keyword.
pub struct InvertMatch {
    keyword: String,
}

impl InvertMatch {
    pub fn new(keyword: String) -> (r: InvertMatch)
        ensures
            r.keyword() == keyword@,
    {
        InvertMatch { keyword }
    }

    pub closed spec fn keyword(&self) -> Seq<char> {
        self.keyword@
    }
}

impl Filter for InvertMatch {
    open spec fn accepts(&self, text: Seq<char>) -> bool {
        !contains_bytes(utf8(text), utf8(self.keyword()))
    }

    fn filter(&self, text: &str) -> (r: bool) {
        !contains_at_all(text.as_bytes(), self.keyword.as_str().as_bytes())
    }
}

/// Accepts a text that a regular expression matches somewhere.
pub struct Regex {
    re: Pattern,
}

impl Regex {
    /// Fails exactly where the regex crate refuses the pattern.
    pub fn new(pattern: String) -> (r: Result<Regex, PatternError>)
        ensures
            r is Ok <==> compiles(pattern@),
            r matches Ok(f) ==> f.source() == pattern@,
    {
        match Pattern::compile(pattern.as_str()) {
            Ok(re) => Ok(Regex { re }),
            Err(e) => Err(e),
        }
    }

    pub closed spec fn source(&self) -> Seq<char> {
        self.re.source_view()
    }
}

impl Filter for Regex {
    open spec fn accepts(&self, text: Seq<char>) -> bool {
        regex_finds(self.source(), text).len() > 0
    }

    fn filter(&self, text: &str) -> (r: bool) {
        let sp = self.re.spans(text);
        sp.len() > 0
    }
}

/// Accepts a text that a regular expression matches nowhere.
pub struct InvertMatchRegex {
    re: Pattern,
}

impl InvertMatchRegex {
    /// Fails exactly where the regex crate refuses the pattern.
    pub fn new(pattern: String) -> (r: Result<InvertMatchRegex, PatternError>)
        ensures
            r is Ok <==> compiles(pattern@),
            r matches Ok(f) ==> f.source() == pattern@,
    {
        match Pattern::compile(pattern.as_str()) {
            Ok(re) => Ok(InvertMatchRegex { re }),
            Err(e) => Err(e),
        }
    }

    pub closed spec fn source(&self) -> Seq<char> {
        self.re.source_view()
    }
}

impl Filter for InvertMatchRegex {
    open spec fn accepts(&self, text: Seq<char>) -> bool {
        regex_finds(self.source(), text).len() == 0
    }

    fn filter(&self, text: &str) -> (r: bool) {
        let sp = self.re.spans(text);
        sp.len() == 0
    }
}

/// Accepts a text whose length, in bytes or in characters, meets a comparison.
pub struct Length {
    is_byte: bool,
    op: Op,
}

impl Length {
    pub fn new(is_byte: bool, op: Op) -> (r: Length)
        ensures
            r.is_byte() == is_byte,
            r.op() == op,
    {
        Length { is_byte, op }
    }

    pub closed spec fn is_byte(&self) -> bool {
        self.is_byte
    }

    pub closed spec fn op(&self) -> Op {
        self.op
    }
}

/// Relies on str::chars and Iterator::count: the number of characters.
#[verifier::external_body]
fn char_count(s: &str) -> (r: usize)
    ensures
        r == s@.len(),
{
    s.chars().count()
}

impl Filter for Length {
    open spec fn accepts(&self, text: Seq<char>) -> bool {
        op_holds(self.op(), if self.is_byte() { utf8(text).len() } else { text.len() })
    }

    fn filter(&self, text: &str) -> (r: bool) {
        let n = if self.is_byte {
            text.as_bytes().len()
        } else {
            char_count(text)
        };
        self.op.holds(n)
    }
}

/// One of the filters.
pub enum AnyFilter {
    Contains(Contains),
    StartsWith(StartsWith),
    EndsWith(EndsWith),
    InvertMatch(InvertMatch),
    InvertMatchRegex(InvertMatchRegex),
    Regex(Regex),
    Length(Length),
}

impl Filter for AnyFilter {
    open spec fn accepts(&self, text: Seq<char>) -> bool {
        match self {
            AnyFilter::Contains(f) => f.accepts(text),
            AnyFilter::StartsWith(f) => f.accepts(text),
            AnyFilter::EndsWith(f) => f.accepts(text),
            AnyFilter::InvertMatch(f) => f.accepts(text),
            AnyFilter::InvertMatchRegex(f) => f.accepts(text),
            AnyFilter::Regex(f) => f.accepts(text),
            AnyFilter::Length(f) => f.accepts(text),
        }
    }

    fn filter(&self, text: &str) -> (r: bool) {
        match self {
            AnyFilter::Contains(f) => f.filter(text),
            AnyFilter::StartsWith(f) => f.filter(text),
            AnyFilter::EndsWith(f) => f.filter(text),
            AnyFilter::InvertMatch(f) => f.filter(text),
            AnyFilter::InvertMatchRegex(f) => f.filter(text),
            AnyFilter::Regex(f) => f.filter(text),
            AnyFilter::Length(f) => f.filter(text),
        }
    }
}

} // verus!
