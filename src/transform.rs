use vstd::prelude::*;
use std::ops::Range;
use crate::case::{
    camel_of, kebab_of, lower_of, lowercase, snake_of, to_camel, to_kebab, to_snake, to_upper_camel,
    to_upper_kebab, to_upper_snake, trim, trim_end, trim_end_of, trim_of, trim_start, trim_start_of,
    upper_camel_of, upper_kebab_of, upper_of, upper_snake_of, uppercase,
};
use crate::text::utf8;
use vstd::utf8::{decode_utf8, encode_utf8_decode_utf8, encode_utf8_valid_utf8, is_char_boundary};

verus! {

/// A primitive that rewrites a fragment.
pub trait Transform {
    /// The text that replaces `text`.
    spec fn output(&self, text: Seq<char>) -> Seq<char>;

    /// One replacement, spanning the whole of `text`.
    fn transform(&self, text: &str) -> (r: Vec<(String, Range<usize>)>)
        ensures
            r@.len() == 1,
            r@[0].0@ == self.output(text@),
            r@[0].1.start == 0,
            r@[0].1.end == utf8(text@).len(),
    ;
}

/// `out` as the one replacement of the whole of `text`.
fn whole(out: String, text: &str) -> (r: Vec<(String, Range<usize>)>)
    ensures
        r@.len() == 1,
        r@[0].0@ == out@,
        r@[0].1.start == 0,
        r@[0].1.end == utf8(text@).len(),
{
    let n = text.as_bytes().len();
    let mut r: Vec<(String, Range<usize>)> = Vec::new();
    r.push((out, Range { start: 0, end: n }));
    r
}

/// Rewrites a fragment as camelCase.
pub struct CamelCase {}

impl CamelCase {
    pub fn new() -> (r: CamelCase) {
        CamelCase {}
    }
}

impl Transform for CamelCase {
    open spec fn output(&self, text: Seq<char>) -> Seq<char> {
        camel_of(text)
    }

    fn transform(&self, text: &str) -> (r: Vec<(String, Range<usize>)>) {
        whole(to_camel(text), text)
    }
}

/// Rewrites a fragment as kebab-case.
pub struct KebabCase {}

impl KebabCase {
    pub fn new() -> (r: KebabCase) {
        KebabCase {}
    }
}

impl Transform for KebabCase {
    open spec fn output(&self, text: Seq<char>) -> Seq<char> {
        kebab_of(text)
    }

    fn transform(&self, text: &str) -> (r: Vec<(String, Range<usize>)>) {
        whole(to_kebab(text), text)
    }
}

/// Rewrites a fragment as snake_case.
pub struct SnakeCase {}

impl SnakeCase {
    pub fn new() -> (r: SnakeCase) {
        SnakeCase {}
    }
}

impl Transform for SnakeCase {
    open spec fn output(&self, text: Seq<char>) -> Seq<char> {
        snake_of(text)
    }

    fn transform(&self, text: &str) -> (r: Vec<(String, Range<usize>)>) {
        whole(to_snake(text), text)
    }
}

/// Rewrites a fragment as UpperCamelCase.
pub struct UpperCamelCase {}

impl UpperCamelCase {
    pub fn new() -> (r: UpperCamelCase) {
        UpperCamelCase {}
    }
}

impl Transform for UpperCamelCase {
    open spec fn output(&self, text: Seq<char>) -> Seq<char> {
        upper_camel_of(text)
    }

    fn transform(&self, text: &str) -> (r: Vec<(String, Range<usize>)>) {
        whole(to_upper_camel(text), text)
    }
}

/// Rewrites a fragment as UPPER-KEBAB-CASE.
pub struct UpperKebabCase {}

impl UpperKebabCase {
    pub fn new() -> (r: UpperKebabCase) {
        UpperKebabCase {}
    }
}

impl Transform for UpperKebabCase {
    open spec fn output(&self, text: Seq<char>) -> Seq<char> {
        upper_kebab_of(text)
    }

    fn transform(&self, text: &str) -> (r: Vec<(String, Range<usize>)>) {
        whole(to_upper_kebab(text), text)
    }
}

/// Rewrites a fragment as UPPER_SNAKE_CASE.
pub struct UpperSnakeCase {}

impl UpperSnakeCase {
    pub fn new() -> (r: UpperSnakeCase) {
        UpperSnakeCase {}
    }
}

impl Transform for UpperSnakeCase {
    open spec fn output(&self, text: Seq<char>) -> Seq<char> {
        upper_snake_of(text)
    }

    fn transform(&self, text: &str) -> (r: Vec<(String, Range<usize>)>) {
        whole(to_upper_snake(text), text)
    }
}

/// Rewrites a fragment as lower case.
pub struct LowerCase {}

impl LowerCase {
    pub fn new() -> (r: LowerCase) {
        LowerCase {}
    }
}

impl Transform for LowerCase {
    open spec fn output(&self, text: Seq<char>) -> Seq<char> {
        lower_of(text)
    }

    fn transform(&self, text: &str) -> (r: Vec<(String, Range<usize>)>) {
        whole(lowercase(text), text)
    }
}

/// Rewrites a fragment as upper case.
pub struct UpperCase {}

impl UpperCase {
    pub fn new() -> (r: UpperCase) {
        UpperCase {}
    }
}

impl Transform for UpperCase {
    open spec fn output(&self, text: Seq<char>) -> Seq<char> {
        upper_of(text)
    }

    fn transform(&self, text: &str) -> (r: Vec<(String, Range<usize>)>) {
        whole(uppercase(text), text)
    }
}

/// Rewrites a fragment as its white space trimmed at both ends.
pub struct Trim {}

impl Trim {
    pub fn new() -> (r: Trim) {
        Trim {}
    }
}

impl Transform for Trim {
    open spec fn output(&self, text: Seq<char>) -> Seq<char> {
        trim_of(text)
    }

    fn transform(&self, text: &str) -> (r: Vec<(String, Range<usize>)>) {
        whole(trim(text), text)
    }
}

/// Rewrites a fragment as its leading white space trimmed.
pub struct TrimStart {}

impl TrimStart {
    pub fn new() -> (r: TrimStart) {
        TrimStart {}
    }
}

impl Transform for TrimStart {
    open spec fn output(&self, text: Seq<char>) -> Seq<char> {
        trim_start_of(text)
    }

    fn transform(&self, text: &str) -> (r: Vec<(String, Range<usize>)>) {
        whole(trim_start(text), text)
    }
}

/// Rewrites a fragment as its trailing white space trimmed.
pub struct TrimEnd {}

impl TrimEnd {
    pub fn new() -> (r: TrimEnd) {
        TrimEnd {}
    }
}

impl Transform for TrimEnd {
    open spec fn output(&self, text: Seq<char>) -> Seq<char> {
        trim_end_of(text)
    }

    fn transform(&self, text: &str) -> (r: Vec<(String, Range<usize>)>) {
        whole(trim_end(text), text)
    }
}

/// `k` occurs in `t` at position `i`.
pub open spec fn occurs_in(t: Seq<char>, k: Seq<char>, i: int) -> bool {
    0 <= i && i + k.len() <= t.len() && t.subrange(i, i + k.len()) == k
}

/// `t` from position `i` on, with each leftmost non-overlapping occurrence of the
/// non-empty `k` replaced by `v`.
pub open spec fn replace_from(t: Seq<char>, k: Seq<char>, v: Seq<char>, i: int) -> Seq<char>
    decreases t.len() - i,
{
    if i < 0 || i >= t.len() || k.len() == 0 {
        Seq::empty()
    } else if occurs_in(t, k, i) {
        v + replace_from(t, k, v, i + k.len())
    } else {
        seq![t[i]] + replace_from(t, k, v, i + 1)
    }
}

/// `v` before, between and after the characters of `t`.
pub open spec fn interleave(t: Seq<char>, v: Seq<char>) -> Seq<char>
    decreases t.len(),
{
    if t.len() == 0 {
        v
    } else {
        v + seq![t[0]] + interleave(t.drop_first(), v)
    }
}

/// `t` with every occurrence of `k` replaced by `v`, scanning from the left; an
/// empty `k` matches before and after each character.
pub open spec fn replaced_of(t: Seq<char>, k: Seq<char>, v: Seq<char>) -> Seq<char> {
    if k.len() == 0 {
        interleave(t, v)
    } else {
        replace_from(t, k, v, 0)
    }
}

/// Whether `k` occurs in `t` at position `i`.
fn chars_at(t: &Vec<char>, k: &Vec<char>, i: usize) -> (r: bool)
    ensures
        r == occurs_in(t@, k@, i as int),
{
    if i > t.len() || k.len() > t.len() - i {
        return false;
    }
    let n = t.len();
    let mut j: usize = 0;
    while j < k.len()
        invariant
            n == t@.len(),
            i + k@.len() <= t@.len(),
            j <= k@.len(),
            forall|m: int| 0 <= m < j ==> t@[i + m] == k@[m],
        decreases k@.len() - j,
    {
        if t[i + j] != k[j] {
            assert(t@.subrange(i as int, i + k@.len())[j as int] != k@[j as int]);
            return false;
        }
        j = j + 1;
    }
    assert(t@.subrange(i as int, i + k@.len()) =~= k@);
    true
}

/// Appends the characters of `v` to `out`.
fn push_all(out: &mut Vec<char>, v: &Vec<char>)
    ensures
        final(out)@ == old(out)@ + v@,
{
    let mut j: usize = 0;
    let ghost start = out@;
    while j < v.len()
        invariant
            j <= v@.len(),
            out@ == start + v@.take(j as int),
        decreases v@.len() - j,
    {
        out.push(v[j]);
        assert(out@ =~= start + v@.take(j + 1));
        j = j + 1;
    }
    assert(v@.take(j as int) =~= v@);
}

/// `s` with every occurrence of `from` replaced by `to`.
fn replace_all(s: &str, from: &str, to: &str) -> (r: String)
    ensures
        r@ == replaced_of(s@, from@, to@),
{
    let t = chars_of(s);
    let k = chars_of(from);
    let v = chars_of(to);
    let mut out: Vec<char> = Vec::new();
    if k.len() == 0 {
        let mut i: usize = 0;
        assert(t@.skip(0) =~= t@);
        assert(out@ + interleave(t@, v@) =~= interleave(t@, v@));
        while i < t.len()
            invariant
                i <= t@.len(),
                t@ == s@,
                k@.len() == 0,
                out@ + interleave(t@.skip(i as int), v@) == interleave(t@, v@),
            decreases t@.len() - i,
        {
            let ghost before = out@;
            assert(t@.skip(i as int).drop_first() =~= t@.skip(i + 1));
            push_all(&mut out, &v);
            out.push(t[i]);
            assert(out@ + interleave(t@.skip(i + 1), v@) =~= before + interleave(t@.skip(i as int), v@));
            i = i + 1;
        }
        assert(t@.skip(i as int).len() == 0);
        push_all(&mut out, &v);
        assert(out@ =~= interleave(t@, v@));
    } else {
        let mut i: usize = 0;
        assert(out@ + replace_from(t@, k@, v@, 0) =~= replace_from(t@, k@, v@, 0));
        while i < t.len()
            invariant
                i <= t@.len(),
                t@ == s@,
                k@ == from@,
                k@.len() > 0,
                out@ + replace_from(t@, k@, v@, i as int) == replace_from(t@, k@, v@, 0),
            decreases t@.len() - i,
        {
            let ghost before = out@;
            if chars_at(&t, &k, i) {
                push_all(&mut out, &v);
                assert(out@ + replace_from(t@, k@, v@, i + k@.len()) =~= before + replace_from(t@, k@, v@, i as int));
                i = i + k.len();
            } else {
                out.push(t[i]);
                assert(out@ + replace_from(t@, k@, v@, i + 1) =~= before + replace_from(t@, k@, v@, i as int));
                i = i + 1;
            }
        }
        assert(out@ =~= out@ + replace_from(t@, k@, v@, i as int));
    }
    string_of(&out, 0, out.len())
}

/// Replaces every occurrence of one text by another.
pub struct Replace {
    from: String,
    to: String,
}

impl Replace {
    pub fn new(from: String, to: String) -> (r: Replace)
        ensures
            r.from() == from@,
            r.to() == to@,
    {
        Replace { from, to }
    }

    pub closed spec fn from(&self) -> Seq<char> {
        self.from@
    }

    pub closed spec fn to(&self) -> Seq<char> {
        self.to@
    }
}

impl Transform for Replace {
    open spec fn output(&self, text: Seq<char>) -> Seq<char> {
        replaced_of(text, self.from(), self.to())
    }

    fn transform(&self, text: &str) -> (r: Vec<(String, Range<usize>)>) {
        whole(replace_all(text, self.from.as_str(), self.to.as_str()), text)
    }
}

/// Replaces the whole fragment by a value.
pub struct Update {
    value: String,
}

impl Update {
    pub fn new(value: String) -> (r: Update)
        ensures
            r.value() == value@,
    {
        Update { value }
    }

    pub closed spec fn value(&self) -> Seq<char> {
        self.value@
    }
}

impl Transform for Update {
    open spec fn output(&self, text: Seq<char>) -> Seq<char> {
        self.value()
    }

    fn transform(&self, text: &str) -> (r: Vec<(String, Range<usize>)>) {
        whole(self.value.clone(), text)
    }
}

/// Relies on str::chars and collect: the characters of a text.
#[verifier::external_body]
pub(crate) fn chars_of(s: &str) -> (r: Vec<char>)
    ensures
        r@ == s@,
{
    s.chars().collect()
}

/// The text of the characters `c[s..e]`.
pub(crate) fn string_of(c: &Vec<char>, s: usize, e: usize) -> (r: String)
    requires
        s <= e <= c@.len(),
    ensures
        r@ == c@.subrange(s as int, e as int),
{
    let mut out = String::new();
    let mut i: usize = s;
    while i < e
        invariant
            s <= i <= e <= c@.len(),
            out@ == c@.subrange(s as int, i as int),
        decreases e - i,
    {
        let piece = crate::value::char_string(c[i]);
        out.append(piece.as_str());
        assert(out@ =~= c@.subrange(s as int, i + 1));
        i = i + 1;
    }
    out
}

/// Inserts a value at a byte offset.
pub struct Insert {
    index: usize,
    value: String,
}

impl Insert {
    pub fn new(index: usize, value: String) -> (r: Insert)
        ensures
            r.index() == index,
            r.value() == value@,
    {
        Insert { index, value }
    }

    pub closed spec fn index(&self) -> usize {
        self.index
    }

    pub closed spec fn value(&self) -> Seq<char> {
        self.value@
    }
}

/// `v` inserted into `t` at the byte offset `i`, where a character boundary stands
/// there; `t` unchanged elsewhere.
pub open spec fn inserted(t: Seq<char>, i: int, v: Seq<char>) -> Seq<char> {
    if is_char_boundary(utf8(t), i) {
        decode_utf8(utf8(t).subrange(0, i)) + v + decode_utf8(utf8(t).subrange(i, utf8(t).len() as int))
    } else {
        t
    }
}

impl Transform for Insert {
    open spec fn output(&self, text: Seq<char>) -> Seq<char> {
        inserted(text, self.index() as int, self.value())
    }

    fn transform(&self, text: &str) -> (r: Vec<(String, Range<usize>)>) {
        if text.is_char_boundary(self.index) {
            proof {
                encode_utf8_valid_utf8(text@);
                if self.index > 0 {
                    assert(self.index <= utf8(text@).len());
                }
            }
            let (a, b) = text.split_at(self.index);
            proof {
                encode_utf8_decode_utf8(a@);
                encode_utf8_decode_utf8(b@);
            }
            let mut out = a.to_owned();
            out.append(self.value.as_str());
            out.append(b);
            whole(out, text)
        } else {
            whole(text.to_owned(), text)
        }
    }
}

/// Deletes the characters from one position up to another.
pub struct Delete {
    range: Range<usize>,
}

impl Delete {
    pub fn new(range: Range<usize>) -> (r: Delete)
        ensures
            r.range() == range,
    {
        Delete { range }
    }

    pub closed spec fn range(&self) -> Range<usize> {
        self.range
    }
}

/// The first `s` characters of `t` followed by those after the first `e`.
pub open spec fn deleted(t: Seq<char>, s: int, e: int) -> Seq<char> {
    let head = if s <= t.len() { t.take(s) } else { t };
    let tail = if e <= t.len() { t.skip(e) } else { Seq::empty() };
    head + tail
}

impl Transform for Delete {
    open spec fn output(&self, text: Seq<char>) -> Seq<char> {
        deleted(text, self.range().start as int, self.range().end as int)
    }

    fn transform(&self, text: &str) -> (r: Vec<(String, Range<usize>)>) {
        let c = chars_of(text);
        let n = c.len();
        let s = if self.range.start <= n { self.range.start } else { n };
        let e = if self.range.end <= n { self.range.end } else { n };
        let mut out = string_of(&c, 0, s);
        let tail = string_of(&c, e, n);
        out.append(tail.as_str());
        proof {
            assert(c@.subrange(0, s as int) =~= if self.range.start <= n { text@.take(self.range.start as int) } else { text@ });
            assert(c@.subrange(e as int, n as int) =~= if self.range.end <= n { text@.skip(self.range.end as int) } else { Seq::<char>::empty() });
        }
        whole(out, text)
    }
}

/// One of the transforms.
pub enum AnyTransform {
    CamelCase(CamelCase),
    KebabCase(KebabCase),
    SnakeCase(SnakeCase),
    UpperCamelCase(UpperCamelCase),
    UpperKebabCase(UpperKebabCase),
    UpperSnakeCase(UpperSnakeCase),
    LowerCase(LowerCase),
    UpperCase(UpperCase),
    Trim(Trim),
    TrimStart(TrimStart),
    TrimEnd(TrimEnd),
    Replace(Replace),
    Update(Update),
    Insert(Insert),
    Delete(Delete),
}

impl Transform for AnyTransform {
    open spec fn output(&self, text: Seq<char>) -> Seq<char> {
        match self {
            AnyTransform::CamelCase(t) => t.output(text),
            AnyTransform::KebabCase(t) => t.output(text),
            AnyTransform::SnakeCase(t) => t.output(text),
            AnyTransform::UpperCamelCase(t) => t.output(text),
            AnyTransform::UpperKebabCase(t) => t.output(text),
            AnyTransform::UpperSnakeCase(t) => t.output(text),
            AnyTransform::LowerCase(t) => t.output(text),
            AnyTransform::UpperCase(t) => t.output(text),
            AnyTransform::Trim(t) => t.output(text),
            AnyTransform::TrimStart(t) => t.output(text),
            AnyTransform::TrimEnd(t) => t.output(text),
            AnyTransform::Replace(t) => t.output(text),
            AnyTransform::Update(t) => t.output(text),
            AnyTransform::Insert(t) => t.output(text),
            AnyTransform::Delete(t) => t.output(text),
        }
    }

    fn transform(&self, text: &str) -> (r: Vec<(String, Range<usize>)>) {
        match self {
            AnyTransform::CamelCase(t) => t.transform(text),
            AnyTransform::KebabCase(t) => t.transform(text),
            AnyTransform::SnakeCase(t) => t.transform(text),
            AnyTransform::UpperCamelCase(t) => t.transform(text),
            AnyTransform::UpperKebabCase(t) => t.transform(text),
            AnyTransform::UpperSnakeCase(t) => t.transform(text),
            AnyTransform::LowerCase(t) => t.transform(text),
            AnyTransform::UpperCase(t) => t.transform(text),
            AnyTransform::Trim(t) => t.transform(text),
            AnyTransform::TrimStart(t) => t.transform(text),
            AnyTransform::TrimEnd(t) => t.transform(text),
            AnyTransform::Replace(t) => t.transform(text),
            AnyTransform::Update(t) => t.transform(text),
            AnyTransform::Insert(t) => t.transform(text),
            AnyTransform::Delete(t) => t.transform(text),
        }
    }
}

} // verus!
