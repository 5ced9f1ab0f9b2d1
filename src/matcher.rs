use vstd::prelude::*;
use std::ops::Range;
use crate::case::{lower_of, lowercase};
use crate::pattern::{compiles, regex_finds, spans_view, word_pattern, Pattern, PatternError};
use vstd::utf8::{decode_utf8, encode_utf8_decode_utf8};
use crate::text::{
    find_bytes, occurrences, piece_view, pieces_view,
    substring, utf8,
};
use crate::value::{all_digits, digits_value, is_digit, op_holds, parse_usize, Op};

verus! {

/// The end of a fragment of width `w` at `i`, capped at the largest offset.
pub open spec fn end_at(i: int, w: int) -> int {
    if i + w > usize::MAX {
        usize::MAX as int
    } else {
        i + w
    }
}

/// Each offset labelled `label`, with a range of width `w`.
pub open spec fn labelled(offs: Seq<int>, label: Seq<char>, w: int) -> Seq<(Seq<char>, int, int)> {
    offs.map_values(|i: int| (label, i, end_at(i, w)))
}

/// A primitive that finds fragments of a line.
pub trait Matcher {
    /// What the matcher reports on `text`: each fragment's text and byte range.
    spec fn found(&self, text: Seq<char>) -> Seq<(Seq<char>, int, int)>;

    /// Every fragment of `text` that the matcher finds, in order.
    fn find(&self, text: &str) -> (r: Vec<(String, Range<usize>)>)
        ensures
            pieces_view(r@) == self.found(text@),
    ;
}

/// The occurrences of `k` in `t`, each labelled `label` with a range of width `w`.
pub fn find_labelled(t: &[u8], k: &[u8], label: &String, w: usize) -> (r: Vec<(String, Range<usize>)>)
    ensures
        pieces_view(r@) == labelled(occurrences(t@, k@), label@, w as int),
{
    let offs = find_bytes(t, k);
    let ghost occ = occurrences(t@, k@);
    let mut r: Vec<(String, Range<usize>)> = Vec::new();
    let mut j: usize = 0;
    while j < offs.len()
        invariant
            j <= offs@.len(),
            offs@.map_values(|x: usize| x as int) == occ,
            pieces_view(r@) == labelled(occ, label@, w as int).take(j as int),
        decreases offs@.len() - j,
    {
        let i = offs[j];
        assert(occ[j as int] == i as int);
        let end: usize = if i > usize::MAX - w { usize::MAX } else { i + w };
        let l = label.clone();
        assert(l@ == label@);
        let ghost old_r = r@;
        r.push((l, Range { start: i, end }));
        assert(pieces_view(r@) =~= pieces_view(old_r).push((label@, i as int, end_at(i as int, w as int))));
        assert(pieces_view(r@) =~= labelled(occ, label@, w as int).take(j + 1));
        j = j + 1;
    }
    assert(labelled(occ, label@, w as int).take(j as int) =~= labelled(occ, label@, w as int));
    r
}

/// Finds a keyword byte for byte.
pub struct Exact {
    keyword: String,
}

impl Exact {
    pub fn new(keyword: String) -> (r: Exact)
        ensures
            r.keyword() == keyword@,
    {
        Exact { keyword }
    }

    pub closed spec fn keyword(&self) -> Seq<char> {
        self.keyword@
    }
}

/// What an exact search for `k` reports on `t`.
pub open spec fn exact_found(t: Seq<char>, k: Seq<char>) -> Seq<(Seq<char>, int, int)> {
    labelled(occurrences(utf8(t), utf8(k)), k, utf8(k).len() as int)
}

impl Matcher for Exact {
    open spec fn found(&self, text: Seq<char>) -> Seq<(Seq<char>, int, int)> {
        exact_found(text, self.keyword())
    }

    fn find(&self, text: &str) -> (r: Vec<(String, Range<usize>)>) {
        let k = self.keyword.as_str().as_bytes();
        find_labelled(text.as_bytes(), k, &self.keyword, k.len())
    }
}

/// Finds a keyword whatever the case of its letters.
pub struct IgnoreCase {
    keyword: String,
}

/// The first end from `j` on, at most `lk.len()` characters after `i`, where the
/// characters `t[i..end]` lowercase to `lk`; -1 where there is none.
pub open spec fn folded_end(t: Seq<char>, lk: Seq<char>, i: int, j: int) -> int
    decreases t.len() + 1 - j,
{
    if j < 0 || j > t.len() || j > i + lk.len() {
        -1
    } else if lower_of(t.subrange(i, j)) == lk {
        j
    } else {
        folded_end(t, lk, i, j + 1)
    }
}

/// The fragments of a search that ignores case, scanning `t` from character `i`:
/// at each position the shortest piece whose lowercase is the keyword's, labelled
/// with the keyword, its range the piece's byte offsets in `t`.
pub open spec fn folded_from(t: Seq<char>, k: Seq<char>, i: int) -> Seq<(Seq<char>, int, int)>
    decreases t.len() - i,
{
    if i < 0 || i >= t.len() || k.len() == 0 {
        Seq::empty()
    } else {
        let e = folded_end(t, lower_of(k), i, i + 1);
        if e > i && e <= t.len() {
            seq![(k, utf8(t.take(i)).len() as int, utf8(t.take(e)).len() as int)] + folded_from(t, k, e)
        } else {
            folded_from(t, k, i + 1)
        }
    }
}

/// What a search for `k` that ignores case reports on `t`.
pub open spec fn ignore_case_found(t: Seq<char>, k: Seq<char>) -> Seq<(Seq<char>, int, int)> {
    folded_from(t, k, 0)
}

impl IgnoreCase {
    pub fn new(keyword: String) -> (r: IgnoreCase)
        ensures
            r.keyword() == keyword@,
    {
        IgnoreCase { keyword }
    }

    pub closed spec fn keyword(&self) -> Seq<char> {
        self.keyword@
    }
}

/// The number of UTF-8 bytes of the characters `c[..i]`.
fn byte_offset(c: &Vec<char>, i: usize) -> (r: usize)
    requires
        i <= c@.len(),
    ensures
        r as int == utf8(c@.take(i as int)).len(),
{
    let s = crate::transform::string_of(c, 0, i);
    assert(c@.subrange(0, i as int) =~= c@.take(i as int));
    s.as_str().as_bytes().len()
}

impl Matcher for IgnoreCase {
    open spec fn found(&self, text: Seq<char>) -> Seq<(Seq<char>, int, int)> {
        ignore_case_found(text, self.keyword())
    }

    fn find(&self, text: &str) -> (r: Vec<(String, Range<usize>)>) {
        let c = crate::transform::chars_of(text);
        let lk = lowercase(self.keyword.as_str());
        let lkn = crate::transform::chars_of(lk.as_str()).len();
        let kn = crate::transform::chars_of(self.keyword.as_str()).len();
        let n = c.len();
        let ghost t = text@;
        let ghost k = self.keyword@;
        let mut r: Vec<(String, Range<usize>)> = Vec::new();
        if kn == 0 {
            return r;
        }
        let mut i: usize = 0;
        while i < n
            invariant
                i <= n == c@.len(),
                c@ == t,
                t == text@,
                k == self.keyword@,
                k.len() > 0,
                lk@ == lower_of(k),
                lkn == lk@.len(),
                pieces_view(r@) + folded_from(t, k, i as int) == folded_from(t, k, 0),
            decreases n - i,
        {
            let bound: usize = if lkn > n - i { n } else { i + lkn };
            let mut j: usize = i;
            let mut end: usize = 0;
            let mut hit = false;
            while j < bound && !hit
                invariant
                    i < n,
                    i <= j <= bound,
                    bound <= n,
                    n == c@.len(),
                    lkn == lk@.len(),
                    bound as int == if i + lkn > n { n as int } else { i + lkn },
                    c@ == t,
                    lk@ == lower_of(k),
                    !hit ==> folded_end(t, lower_of(k), i as int, i + 1) == folded_end(t, lower_of(k), i as int, j + 1),
                    hit ==> folded_end(t, lower_of(k), i as int, i + 1) == end as int && i < end <= bound,
                decreases (bound - j) * 2 + if hit { 0int } else { 1int },
            {
                let piece = crate::transform::string_of(&c, i, j + 1);
                let low = lowercase(piece.as_str());
                if low.eq(&lk) {
                    assert(piece@ == t.subrange(i as int, j + 1));
                    assert(folded_end(t, lower_of(k), i as int, j + 1) == j + 1);
                    end = j + 1;
                    hit = true;
                } else {
                    j = j + 1;
                }
            }
            let ghost before = pieces_view(r@);
            if hit {
                assert(folded_end(t, lower_of(k), i as int, i + 1) == end as int);
                let s = byte_offset(&c, i);
                let e = byte_offset(&c, end);
                r.push((self.keyword.clone(), Range { start: s, end: e }));
                assert(pieces_view(r@) =~= before.push((k, s as int, e as int)));
                assert(folded_from(t, k, i as int) == seq![(k, s as int, e as int)] + folded_from(t, k, end as int));
                assert(pieces_view(r@) + folded_from(t, k, end as int) =~= before + folded_from(t, k, i as int));
                i = end;
            } else {
                assert(folded_end(t, lower_of(k), i as int, j + 1) == -1);
                assert(folded_from(t, k, i as int) == folded_from(t, k, i + 1));
                i = i + 1;
            }
        }
        assert(folded_from(t, k, i as int) == Seq::<(Seq<char>, int, int)>::empty());
        assert(pieces_view(r@) =~= pieces_view(r@) + folded_from(t, k, i as int));
        r
    }
}

/// Finds a keyword standing as a whole word.
pub struct WholeWord {
    keyword: String,
    re: Pattern,
}

impl WholeWord {
    /// Fails only where the regex crate refuses the escaped keyword.
    pub fn new(keyword: String) -> (r: Result<WholeWord, PatternError>)
        ensures
            r is Ok <==> compiles(word_pattern(keyword@)),
            r matches Ok(w) ==> w.keyword() == keyword@ && w.pattern_source() == word_pattern(keyword@),
    {
        match Pattern::whole_word(keyword.as_str()) {
            Ok(re) => Ok(WholeWord { keyword, re }),
            Err(e) => Err(e),
        }
    }

    pub closed spec fn keyword(&self) -> Seq<char> {
        self.keyword@
    }

    /// The source of the compiled pattern.
    pub closed spec fn pattern_source(&self) -> Seq<char> {
        self.re.source_view()
    }
}

impl Matcher for WholeWord {
    open spec fn found(&self, text: Seq<char>) -> Seq<(Seq<char>, int, int)> {
        regex_finds(self.pattern_source(), text).map_values(|se: (int, int)| (self.keyword(), se.0, se.1))
    }

    fn find(&self, text: &str) -> (r: Vec<(String, Range<usize>)>) {
        let sp = self.re.spans(text);
        let mut r: Vec<(String, Range<usize>)> = Vec::new();
        let mut j: usize = 0;
        while j < sp.len()
            invariant
                j <= sp@.len(),
                crate::pattern::spans_ordered(sp@, utf8(text@)),
                r@.len() == j,
                forall|i: int| 0 <= i < j ==> piece_view(#[trigger] r@[i]) == (self.keyword(), sp@[i].start as int, sp@[i].end as int),
            decreases sp@.len() - j,
        {
            let rg = Range { start: sp[j].start, end: sp[j].end };
            r.push((self.keyword.clone(), rg));
            j = j + 1;
        }
        proof {
            let p = pieces_view(r@);
            assert forall|i: int, k: int| 0 <= i < k < p.len() implies (#[trigger] p[i]).2 <= (#[trigger] p[k]).1 by {
                assert(piece_view(r@[i]) == p[i]);
                assert(piece_view(r@[k]) == p[k]);
                assert(sp@[i].end <= sp@[k].start);
            }
            assert forall|i: int| 0 <= i < p.len() implies 0 <= (#[trigger] p[i]).1 <= p[i].2 <= utf8(text@).len() && p[i].0 == self.keyword() by {
                assert(piece_view(r@[i]) == p[i]);
                assert(sp@[i].start <= sp@[i].end);
            }
            assert(p =~= regex_finds(self.pattern_source(), text@).map_values(|se: (int, int)| (self.keyword(), se.0, se.1)));
        }
        r
    }
}

/// Each span of `t` as a fragment spelled by the text it covers.
pub open spec fn spelled(spans: Seq<(int, int)>, t: Seq<char>) -> Seq<(Seq<char>, int, int)> {
    spans.map_values(|se: (int, int)| (decode_utf8(utf8(t).subrange(se.0, se.1)), se.0, se.1))
}

/// Finds what a regular expression matches.
pub struct Regex {
    re: Pattern,
}

impl Regex {
    /// Fails exactly where the regex crate refuses the pattern.
    pub fn new(pattern: String) -> (r: Result<Regex, PatternError>)
        ensures
            r is Ok <==> compiles(pattern@),
            r matches Ok(m) ==> m.source() == pattern@,
    {
        match Pattern::compile(pattern.as_str()) {
            Ok(re) => Ok(Regex { re }),
            Err(e) => Err(e),
        }
    }

    pub closed spec fn source(&self) -> Seq<char> {
        self.re.source_view()
    }
}

impl Matcher for Regex {
    open spec fn found(&self, text: Seq<char>) -> Seq<(Seq<char>, int, int)> {
        spelled(regex_finds(self.source(), text), text)
    }

    fn find(&self, text: &str) -> (r: Vec<(String, Range<usize>)>) {
        let sp = self.re.spans(text);
        let mut r: Vec<(String, Range<usize>)> = Vec::new();
        let mut j: usize = 0;
        while j < sp.len()
            invariant
                j <= sp@.len(),
                crate::pattern::spans_ordered(sp@, utf8(text@)),
                r@.len() == j,
                forall|i: int| 0 <= i < j ==> (#[trigger] r@[i]).1 == sp@[i] && utf8(r@[i].0@)
                    == utf8(text@).subrange(sp@[i].start as int, sp@[i].end as int),
            decreases sp@.len() - j,
        {
            let s = sp[j].start;
            let e = sp[j].end;
            let piece = substring(text, s, e);
            r.push((piece, Range { start: s, end: e }));
            j = j + 1;
        }
        proof {
            let p = pieces_view(r@);
            assert forall|i: int, k: int| 0 <= i < k < p.len() implies (#[trigger] p[i]).2 <= (#[trigger] p[k]).1 by {
                assert(r@[i].1 == sp@[i]);
                assert(r@[k].1 == sp@[k]);
                assert(sp@[i].end <= sp@[k].start);
            }
            assert forall|i: int| 0 <= i < p.len() implies 0 <= (#[trigger] p[i]).1 <= p[i].2 <= utf8(text@).len()
                && utf8(p[i].0) == utf8(text@).subrange(p[i].1, p[i].2) by {
                assert(r@[i].1 == sp@[i]);
                assert(sp@[i].start <= sp@[i].end);
            }
            assert forall|i: int| 0 <= i < p.len() implies p[i] == spelled(spans_view(sp@), text@)[i] by {
                assert(r@[i].1 == sp@[i]);
                encode_utf8_decode_utf8(r@[i].0@);
            }
            assert(p =~= spelled(regex_finds(self.source(), text@), text@));
        }
        r
    }
}

/// The runs of decimal digits of `t` from offset `i` on, where a run that began
/// at `start` (or none, where `start` is negative) is still open, each kept where
/// its number fits in `usize` and meets `op`.
pub open spec fn number_runs_from(t: Seq<u8>, op: Op, i: int, start: int) -> Seq<(int, int)>
    decreases t.len() - i,
{
    if i < 0 || i >= t.len() {
        if start >= 0 && keeps(t, op, start, t.len() as int) {
            seq![(start, t.len() as int)]
        } else {
            Seq::empty()
        }
    } else if is_digit(t[i]) {
        number_runs_from(t, op, i + 1, if start >= 0 { start } else { i })
    } else if start >= 0 && keeps(t, op, start, i) {
        seq![(start, i)] + number_runs_from(t, op, i + 1, -1)
    } else {
        number_runs_from(t, op, i + 1, -1)
    }
}

/// The run `t[s..e]` writes a number that fits and meets `op`.
pub open spec fn keeps(t: Seq<u8>, op: Op, s: int, e: int) -> bool {
    digits_value(t.subrange(s, e)) <= usize::MAX && op_holds(op, digits_value(t.subrange(s, e)))
}

/// The characters of ASCII bytes.
pub open spec fn ascii_chars(b: Seq<u8>) -> Seq<char> {
    b.map_values(|c: u8| c as char)
}

/// Finds the numbers that meet a comparison.
pub struct Number {
    op: Op,
}

impl Number {
    pub fn new(op: Op) -> (r: Number)
        ensures
            r.op() == op,
    {
        Number { op }
    }

    pub closed spec fn op(&self) -> Op {
        self.op
    }
}

/// The characters of the ASCII bytes `t[s..e]`.
fn ascii_string(t: &[u8], s: usize, e: usize) -> (r: String)
    requires
        s <= e <= t@.len(),
    ensures
        r@ == ascii_chars(t@.subrange(s as int, e as int)),
{
    let mut out = String::new();
    let mut i: usize = s;
    while i < e
        invariant
            s <= i <= e <= t@.len(),
            out@ == ascii_chars(t@.subrange(s as int, i as int)),
        decreases e - i,
    {
        let c = t[i] as char;
        let piece = crate::value::char_string(c);
        out.append(piece.as_str());
        assert(out@ =~= ascii_chars(t@.subrange(s as int, i + 1)));
        i = i + 1;
    }
    out
}

/// A digit run as a found fragment.
pub open spec fn run_piece(t: Seq<u8>, se: (int, int)) -> (Seq<char>, int, int) {
    (ascii_chars(t.subrange(se.0, se.1)), se.0, se.1)
}

/// Reports the closed run `t[s..e]` where its number fits and meets `op`.
fn emit_run(t: &[u8], op: &Op, s: usize, e: usize, r: &mut Vec<(String, Range<usize>)>)
    requires
        s < e <= t@.len(),
        all_digits(t@.subrange(s as int, e as int)),
    ensures
        pieces_view(final(r)@) == pieces_view(old(r)@) + if keeps(t@, *op, s as int, e as int) {
            seq![run_piece(t@, (s as int, e as int))]
        } else {
            Seq::empty()
        },
{
    let ghost old_r = r@;
    match parse_usize(slice_of(t, s, e)) {
        Some(n) => {
            if op.holds(n) {
                let piece = ascii_string(t, s, e);
                r.push((piece, Range { start: s, end: e }));
                assert(pieces_view(r@) =~= pieces_view(old_r) + seq![run_piece(t@, (s as int, e as int))]);
            } else {
                assert(pieces_view(r@) =~= pieces_view(old_r) + Seq::empty());
            }
        },
        None => {
            assert(pieces_view(r@) =~= pieces_view(old_r) + Seq::empty());
        },
    }
}

/// The fragments of a list of digit runs.
pub open spec fn run_pieces(t: Seq<u8>, runs: Seq<(int, int)>) -> Seq<(Seq<char>, int, int)> {
    runs.map_values(|se: (int, int)| run_piece(t, se))
}

impl Matcher for Number {
    open spec fn found(&self, text: Seq<char>) -> Seq<(Seq<char>, int, int)> {
        run_pieces(utf8(text), number_runs_from(utf8(text), self.op(), 0, -1))
    }

    fn find(&self, text: &str) -> (r: Vec<(String, Range<usize>)>) {
        let t = text.as_bytes();
        let ghost full = run_pieces(t@, number_runs_from(t@, self.op, 0, -1));
        let mut r: Vec<(String, Range<usize>)> = Vec::new();
        let mut i: usize = 0;
        let mut open: bool = false;
        let mut start: usize = 0;
        while i < t.len()
            invariant
                i <= t@.len(),
                open ==> start < i && all_digits(t@.subrange(start as int, i as int)),
                pieces_view(r@) + run_pieces(t@, number_runs_from(t@, self.op, i as int, if open { start as int } else { -1 })) == full,
            decreases t@.len() - i,
        {
            let ghost st = if open { start as int } else { -1 };
            let ghost r0 = pieces_view(r@);
            if t[i] >= 48 && t[i] <= 57 {
                if !open {
                    open = true;
                    start = i;
                }
                assert(number_runs_from(t@, self.op, i as int, st) == number_runs_from(t@, self.op, i + 1, start as int));
                assert forall|k: int| 0 <= k < t@.subrange(start as int, i + 1).len() implies is_digit(#[trigger] t@.subrange(start as int, i + 1)[k]) by {
                    if start + k < i {
                        assert(t@.subrange(start as int, i + 1)[k] == t@.subrange(start as int, i as int)[k]);
                    }
                }
            } else {
                let ghost rest = number_runs_from(t@, self.op, i + 1, -1);
                if open {
                    emit_run(t, &self.op, start, i, &mut r);
                    proof {
                        if keeps(t@, self.op, start as int, i as int) {
                            assert(number_runs_from(t@, self.op, i as int, st) == seq![(start as int, i as int)] + rest);
                            assert(run_pieces(t@, seq![(start as int, i as int)] + rest) =~= seq![run_piece(t@, (start as int, i as int))] + run_pieces(t@, rest));
                            assert(pieces_view(r@) + run_pieces(t@, rest) =~= r0 + run_pieces(t@, number_runs_from(t@, self.op, i as int, st)));
                        } else {
                            assert(number_runs_from(t@, self.op, i as int, st) == rest);
                            assert(pieces_view(r@) =~= r0);
                        }
                    }
                } else {
                    assert(number_runs_from(t@, self.op, i as int, st) == rest);
                }
                open = false;
            }
            i = i + 1;
        }
        let ghost st = if open { start as int } else { -1 };
        let ghost r0 = pieces_view(r@);
        if open {
            emit_run(t, &self.op, start, i, &mut r);
            proof {
                if keeps(t@, self.op, start as int, i as int) {
                    assert(run_pieces(t@, seq![(start as int, i as int)]) =~= seq![run_piece(t@, (start as int, i as int))]);
                } else {
                    assert(run_pieces(t@, Seq::<(int, int)>::empty()) =~= Seq::empty());
                }
            }
        } else {
            assert(run_pieces(t@, Seq::<(int, int)>::empty()) =~= Seq::empty());
        }
        assert(pieces_view(r@) =~= r0 + run_pieces(t@, number_runs_from(t@, self.op, i as int, st)));
        r
    }
}

/// The bytes `t[s..e]`.
fn slice_of(t: &[u8], s: usize, e: usize) -> (r: &[u8])
    requires
        s <= e <= t@.len(),
    ensures
        r@ == t@.subrange(s as int, e as int),
{
    let (a, _) = t.split_at(e);
    let (_, b) = a.split_at(s);
    b
}

/// One of the matchers.
pub enum AnyMatcher {
    Exact(Exact),
    IgnoreCase(IgnoreCase),
    WholeWord(WholeWord),
    Regex(Regex),
    Number(Number),
}

impl Matcher for AnyMatcher {
    open spec fn found(&self, text: Seq<char>) -> Seq<(Seq<char>, int, int)> {
        match self {
            AnyMatcher::Exact(m) => m.found(text),
            AnyMatcher::IgnoreCase(m) => m.found(text),
            AnyMatcher::WholeWord(m) => m.found(text),
            AnyMatcher::Regex(m) => m.found(text),
            AnyMatcher::Number(m) => m.found(text),
        }
    }

    fn find(&self, text: &str) -> (r: Vec<(String, Range<usize>)>) {
        match self {
            AnyMatcher::Exact(m) => m.find(text),
            AnyMatcher::IgnoreCase(m) => m.find(text),
            AnyMatcher::WholeWord(m) => m.find(text),
            AnyMatcher::Regex(m) => m.find(text),
            AnyMatcher::Number(m) => m.find(text),
        }
    }
}

} // verus!
