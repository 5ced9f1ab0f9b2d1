use vstd::prelude::*;
use vstd::utf8::*;
use std::ops::Range;

verus! {

/// The UTF-8 bytes of a text.
pub open spec fn utf8(s: Seq<char>) -> Seq<u8> {
    encode_utf8(s)
}

/// `k` occurs in `t` at byte offset `i`.
pub open spec fn occurs_at(t: Seq<u8>, k: Seq<u8>, i: int) -> bool {
    0 <= i && i + k.len() <= t.len() && t.subrange(i, i + k.len()) == k
}

/// The offsets of the leftmost non-overlapping occurrences of `k` in `t`, scanning
/// from offset `i`. An empty keyword occurs nowhere.
pub open spec fn occurrences_from(t: Seq<u8>, k: Seq<u8>, i: int) -> Seq<int>
    decreases t.len() - i,
{
    if k.len() == 0 || i < 0 || i + k.len() > t.len() {
        Seq::empty()
    } else if occurs_at(t, k, i) {
        seq![i].add(occurrences_from(t, k, i + k.len()))
    } else {
        occurrences_from(t, k, i + 1)
    }
}

/// The offsets of the leftmost non-overlapping occurrences of `k` in `t`.
pub open spec fn occurrences(t: Seq<u8>, k: Seq<u8>) -> Seq<int> {
    occurrences_from(t, k, 0)
}

/// `k` occurs somewhere in `t`.
pub open spec fn contains_bytes(t: Seq<u8>, k: Seq<u8>) -> bool {
    exists|i: int| occurs_at(t, k, i)
}

/// A found fragment as plain values: its text and its byte range.
pub open spec fn piece_view(p: (String, Range<usize>)) -> (Seq<char>, int, int) {
    (p.0@, p.1.start as int, p.1.end as int)
}

/// The plain values of a list of found fragments.
pub open spec fn pieces_view(s: Seq<(String, Range<usize>)>) -> Seq<(Seq<char>, int, int)> {
    s.map_values(|p: (String, Range<usize>)| piece_view(p))
}

/// The bytes of two texts one after the other are the bytes of each in turn.
pub proof fn lemma_utf8_concat(a: Seq<char>, b: Seq<char>)
    ensures
        utf8(a + b) == utf8(a) + utf8(b),
    decreases a.len(),
{
    if a.len() == 0 {
        assert(a + b =~= b);
        assert(utf8(a) + utf8(b) =~= utf8(b));
    } else {
        lemma_utf8_concat(a.drop_first(), b);
        assert((a + b).drop_first() =~= a.drop_first() + b);
        assert((a + b)[0] == a[0]);
        assert(utf8(a + b) =~= utf8(a) + utf8(b));
    }
}

/// A longer prefix has at least as many bytes, and no prefix more than the whole.
pub proof fn lemma_utf8_prefix(t: Seq<char>, i: int, j: int)
    requires
        0 <= i <= j <= t.len(),
    ensures
        utf8(t.take(i)).len() <= utf8(t.take(j)).len() <= utf8(t).len(),
{
    lemma_utf8_concat(t.take(i), t.subrange(i, j));
    assert(t.take(i) + t.subrange(i, j) =~= t.take(j));
    lemma_utf8_concat(t.take(j), t.subrange(j, t.len() as int));
    assert(t.take(j) + t.subrange(j, t.len() as int) =~= t);
}

/// Every offset that the scan reports is an occurrence at or after its start.
pub proof fn lemma_occurrences_are_occurrences(t: Seq<u8>, k: Seq<u8>, i: int)
    ensures
        forall|j: int|
            0 <= j < occurrences_from(t, k, i).len() ==> occurs_at(t, k, #[trigger] occurrences_from(t, k, i)[j])
                && occurrences_from(t, k, i)[j] >= i,
    decreases t.len() - i,
{
    if k.len() == 0 || i < 0 || i + k.len() > t.len() {
    } else if occurs_at(t, k, i) {
        lemma_occurrences_are_occurrences(t, k, i + k.len());
        let rest = occurrences_from(t, k, i + k.len());
        assert(occurrences_from(t, k, i) == seq![i].add(rest));
        assert forall|j: int| 0 <= j < occurrences_from(t, k, i).len() implies occurs_at(t, k, #[trigger] occurrences_from(t, k, i)[j])
            && occurrences_from(t, k, i)[j] >= i by {
            if j > 0 {
                assert(occurrences_from(t, k, i)[j] == rest[j - 1]);
                assert(occurs_at(t, k, rest[j - 1]));
            }
        }
    } else {
        lemma_occurrences_are_occurrences(t, k, i + 1);
        assert(occurrences_from(t, k, i) == occurrences_from(t, k, i + 1));
    }
}

/// Whether `k` occurs in `t` at offset `i`.
pub fn bytes_at(t: &[u8], k: &[u8], i: usize) -> (r: bool)
    ensures
        r == occurs_at(t@, k@, i as int),
{
    if i > t.len() || k.len() > t.len() - i {
        return false;
    }
    let n = t.len();
    let mut j: usize = 0;
    while j < k.len()
        invariant
            n == t@.len(),
            i + k@.len() <= t@.len(),
            j <= k@.len(),
            forall|m: int| 0 <= m < j ==> t@[i + m] == k@[m],
        decreases k@.len() - j,
    {
        if t[i + j] != k[j] {
            assert(t@.subrange(i as int, i + k@.len())[j as int] != k@[j as int]);
            return false;
        }
        j = j + 1;
    }
    assert(t@.subrange(i as int, i + k@.len()) =~= k@);
    true
}

/// The offsets of the leftmost non-overlapping occurrences of `k` in `t`.
pub fn find_bytes(t: &[u8], k: &[u8]) -> (r: Vec<usize>)
    ensures
        r@.map_values(|x: usize| x as int) == occurrences(t@, k@),
{
    let mut r: Vec<usize> = Vec::new();
    if k.len() == 0 || k.len() > t.len() {
        return r;
    }
    let mut i: usize = 0;
    while i <= t.len() - k.len()
        invariant
            0 < k@.len() <= t@.len(),
            i <= t@.len() - k@.len() + k@.len(),
            r@.map_values(|x: usize| x as int) + occurrences_from(t@, k@, i as int)
                == occurrences(t@, k@),
        decreases t@.len() - i,
    {
        let old_r = Ghost(r@);
        if bytes_at(t, k, i) {
            r.push(i);
            assert(r@.map_values(|x: usize| x as int) =~= old_r@.map_values(|x: usize| x as int).push(i as int));
            assert(seq![i as int].add(occurrences_from(t@, k@, i + k@.len())) == occurrences_from(t@, k@, i as int));
            assert(r@.map_values(|x: usize| x as int) + occurrences_from(t@, k@, i + k@.len())
                =~= old_r@.map_values(|x: usize| x as int) + occurrences_from(t@, k@, i as int));
            i = i + k.len();
        } else {
            i = i + 1;
        }
    }
    assert(occurrences_from(t@, k@, i as int) == Seq::<int>::empty());
    assert(r@.map_values(|x: usize| x as int) + Seq::<int>::empty() =~= r@.map_values(|x: usize| x as int));
    r
}

/// Whether `k` occurs anywhere in `t`.
pub fn contains_at_all(t: &[u8], k: &[u8]) -> (r: bool)
    ensures
        r == contains_bytes(t@, k@),
{
    if k.len() == 0 {
        assert(t@.subrange(0, 0) =~= k@);
        assert(occurs_at(t@, k@, 0));
        return true;
    }
    if k.len() > t.len() {
        assert forall|i: int| !occurs_at(t@, k@, i) by {}
        return false;
    }
    let n = t.len();
    let mut i: usize = 0;
    while i <= n - k.len()
        invariant
            n == t@.len(),
            0 < k@.len() <= t@.len(),
            i <= t@.len() - k@.len() + 1,
            forall|m: int| 0 <= m < i ==> !occurs_at(t@, k@, m),
        decreases t@.len() - k@.len() + 1 - i,
    {
        if bytes_at(t, k, i) {
            return true;
        }
        i = i + 1;
    }
    assert forall|m: int| !occurs_at(t@, k@, m) by {
        if 0 <= m && m < i {
        }
    }
    false
}

/// Whether `t` begins with `k`.
pub fn starts_with_bytes(t: &[u8], k: &[u8]) -> (r: bool)
    ensures
        r == occurs_at(t@, k@, 0),
{
    bytes_at(t, k, 0)
}

/// Whether `t` ends with `k`.
pub fn ends_with_bytes(t: &[u8], k: &[u8]) -> (r: bool)
    ensures
        r == (k@.len() <= t@.len() && occurs_at(t@, k@, t@.len() - k@.len())),
{
    if k.len() > t.len() {
        return false;
    }
    bytes_at(t, k, t.len() - k.len())
}

/// A boundary inside a prefix that ends on a boundary is a boundary of the prefix.
proof fn lemma_boundary_in_prefix(b: Seq<u8>, end: int, start: int)
    requires
        valid_utf8(b),
        0 <= start <= end <= b.len(),
        is_char_boundary(b, end),
        is_char_boundary(b, start),
    ensures
        valid_utf8(b.subrange(0, end)),
        is_char_boundary(b.subrange(0, end), start),
{
    valid_utf8_split(b, end);
    let a = b.subrange(0, end);
    is_char_boundary_start_end_of_seq(a);
    if 0 < start < end {
        is_char_boundary_iff_not_is_continuation_byte(b, start);
        is_char_boundary_iff_not_is_continuation_byte(a, start);
    }
}

/// The part of `text` between two character boundaries.
pub fn substring(text: &str, start: usize, end: usize) -> (r: String)
    requires
        start <= end <= utf8(text@).len(),
        is_char_boundary(utf8(text@), start as int),
        is_char_boundary(utf8(text@), end as int),
    ensures
        utf8(r@) == utf8(text@).subrange(start as int, end as int),
{
    proof {
        encode_utf8_valid_utf8(text@);
        lemma_boundary_in_prefix(utf8(text@), end as int, start as int);
    }
    let (a, _) = text.split_at(end);
    let (_, c) = a.split_at(start);
    assert(utf8(c@) =~= utf8(text@).subrange(start as int, end as int));
    c.to_owned()
}

} // verus!
