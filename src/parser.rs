use vstd::prelude::*;
use crate::pattern::{compiles, PatternError};
use crate::search_condition::{
    cond_model, CondModel, SearchCondition, CAMEL_CASE, CONSTANT, CONTAINS, DELETE, ENDS_WITH,
    IGNORE_CASE, INSERT, INVERT_MATCH, INVERT_MATCH_REGEX, KEBAB_CASE, LINE_BYTE_LENGTH, LINE_CONTAINS,
    LINE_ENDS_WITH, LINE_INVERT_MATCH, LINE_INVERT_MATCH_REGEX, LINE_LENGTH, LINE_REGEX,
    LINE_STARTS_WITH, LOWER_CASE, NUMBER, REGEX, REPLACE, SNAKE_CASE, STARTS_WITH, TRIM, TRIM_END,
    TRIM_START, UPDATE, UPPER_CAMEL_CASE, UPPER_CASE, UPPER_KEBAB_CASE, UPPER_SNAKE_CASE, WHOLE_WORD,
};
use crate::transform::{chars_of, string_of};
use crate::value::{digits_value, is_digit, op_model, parse_usize, value_model, Op, OpModel, Value, ValueModel};

verus! {

/// White space between the parts of a query.
pub open spec fn is_ws(c: char) -> bool {
    c == ' ' || c == '\t' || c == '\n' || c == '\r'
}

/// The first position from `i` on that is not white space.
pub open spec fn lead(s: Seq<char>, i: int) -> int
    decreases s.len() - i,
{
    if 0 <= i < s.len() && is_ws(s[i]) {
        lead(s, i + 1)
    } else {
        i
    }
}

/// The end of `s[..j]` without its trailing white space.
pub open spec fn trail(s: Seq<char>, j: int) -> int
    decreases j,
{
    if 0 < j <= s.len() && is_ws(s[j - 1]) {
        trail(s, j - 1)
    } else {
        j
    }
}

/// The text without leading white space.
pub open spec fn trim_start_ws(s: Seq<char>) -> Seq<char> {
    s.subrange(lead(s, 0), s.len() as int)
}

/// The text without leading and trailing white space.
pub open spec fn trim_ws(s: Seq<char>) -> Seq<char> {
    let a = lead(s, 0);
    let b = trail(s, s.len() as int);
    if a < b {
        s.subrange(a, b)
    } else {
        Seq::empty()
    }
}

/// The first position from `i` on that holds `c`, or the length.
pub open spec fn find_from(s: Seq<char>, c: char, i: int) -> int
    decreases s.len() - i,
{
    if i < 0 || i >= s.len() {
        s.len() as int
    } else if s[i] == c {
        i
    } else {
        find_from(s, c, i + 1)
    }
}

/// Where the condition that starts at `p` ends: after a quoted text that only
/// white space separates from the next '|' or the end, or else at the next '|'.
pub open spec fn raw_segment_end(s: Seq<char>, p: int) -> int {
    let q = lead(s, p);
    let close = find_from(s, '\'', q + 1);
    let after = lead(s, close + 1);
    if q < s.len() && s[q] == '\'' && close < s.len() && close > q + 1 && (after == s.len() || s[after] == '|') {
        after
    } else {
        find_from(s, '|', p)
    }
}

/// The end of the condition that starts at `p`, never before `p`.
pub open spec fn segment_end(s: Seq<char>, p: int) -> int {
    if raw_segment_end(s, p) < p { p } else if raw_segment_end(s, p) > s.len() { s.len() as int } else { raw_segment_end(s, p) }
}

/// The texts of the conditions from position `p` on; blank ones are skipped.
pub open spec fn segments_from(s: Seq<char>, p: int) -> Seq<Seq<char>>
    decreases s.len() - p,
{
    if p < 0 || p >= s.len() {
        Seq::empty()
    } else {
        let e = segment_end(s, p);
        let seg = s.subrange(p, e);
        let rest = if e < s.len() { segments_from(s, e + 1) } else { Seq::empty() };
        if trim_ws(seg).len() == 0 { rest } else { seq![seg] + rest }
    }
}

/// The inner text of a text in single quotes.
pub open spec fn quoted_inner(s: Seq<char>) -> Option<Seq<char>> {
    if s.len() >= 3 && s[0] == '\'' && s.last() == '\'' && find_from(s, '\'', 1) == s.len() - 1 {
        Some(s.subrange(1, s.len() - 1))
    } else {
        None
    }
}

/// A text `name(arg)tail`: the name before the first '(', the argument up to the
/// next ')', and what follows, without white space at its ends.
pub open spec fn call_split(s: Seq<char>) -> Option<(Seq<char>, Seq<char>, Seq<char>)> {
    let p = find_from(s, '(', 0);
    let q = find_from(s, ')', p + 1);
    if p < s.len() && q < s.len() {
        Some((s.subrange(0, p), s.subrange(p + 1, q), trim_ws(s.subrange(q + 1, s.len() as int))))
    } else {
        None
    }
}

/// A character of a variable name.
pub open spec fn is_name_char(c: char) -> bool {
    ('a' <= c <= 'z') || ('A' <= c <= 'Z') || ('0' <= c <= '9') || c == '_'
}

/// The digits of a text as bytes, where all its characters are ASCII digits.
pub open spec fn digit_bytes(s: Seq<char>) -> Seq<u8> {
    s.map_values(|c: char| c as u8)
}

/// All characters are ASCII digits.
pub open spec fn is_number_text(s: Seq<char>) -> bool {
    s.len() > 0 && forall|i: int| 0 <= i < s.len() ==> '0' <= #[trigger] s[i] <= '9'
}

/// The value that a comparison's right side writes: a number that fits, a
/// variable `env.NAME`, or else the text itself.
pub open spec fn value_of(v: Seq<char>) -> ValueModel {
    if is_number_text(v) && digits_value(digit_bytes(v)) <= usize::MAX {
        ValueModel::Num(digits_value(digit_bytes(v)) as usize)
    } else if v.len() > 4 && v.subrange(0, 4) == seq!['e', 'n', 'v', '.'] && forall|i: int|
        4 <= i < v.len() ==> is_name_char(#[trigger] v[i]) {
        ValueModel::Env(v.subrange(4, v.len() as int))
    } else {
        ValueModel::Str(v)
    }
}

/// The comparison that a tail such as `>= 10` writes.
pub open spec fn op_of(t: Seq<char>) -> Option<OpModel> {
    let two = if t.len() >= 2 { t.subrange(0, 2) } else { t };
    let (k, w) = if two == seq!['=', '='] {
        (0int, 2int)
    } else if two == seq!['!', '='] {
        (1, 2)
    } else if two == seq!['>', '='] {
        (2, 2)
    } else if two == seq!['<', '='] {
        (3, 2)
    } else if t.len() >= 1 && t[0] == '>' {
        (4, 1)
    } else if t.len() >= 1 && t[0] == '<' {
        (5, 1)
    } else {
        (6, 0)
    };
    let v = trim_ws(t.subrange(w, t.len() as int));
    if k == 6 || v.len() == 0 {
        None
    } else {
        let val = value_of(v);
        Some(
            if k == 0 {
                OpModel::Eq(val)
            } else if k == 1 {
                OpModel::Ne(val)
            } else if k == 2 {
                OpModel::Gte(val)
            } else if k == 3 {
                OpModel::Lte(val)
            } else if k == 4 {
                OpModel::Gt(val)
            } else {
                OpModel::Lt(val)
            },
        )
    }
}

/// The run of ASCII digits at the start of a text.
pub open spec fn digit_run(s: Seq<char>, i: int) -> int
    decreases s.len() - i,
{
    if 0 <= i < s.len() && '0' <= s[i] <= '9' {
        digit_run(s, i + 1)
    } else {
        i
    }
}

/// A number and what follows a comma after it: `12 , rest`.
pub open spec fn number_comma(a: Seq<char>) -> Option<(usize, Seq<char>)> {
    let d = digit_run(a, 0);
    let r = trim_start_ws(a.subrange(d, a.len() as int));
    if d > 0 && digits_value(digit_bytes(a.subrange(0, d))) <= usize::MAX && r.len() > 0 && r[0] == ',' {
        Some((digits_value(digit_bytes(a.subrange(0, d))) as usize, trim_start_ws(r.subrange(1, r.len() as int))))
    } else {
        None
    }
}

/// The two sides of a text with exactly one comma, or the text and nothing.
pub open spec fn replace_args(a: Seq<char>) -> (Seq<char>, Seq<char>) {
    let k = find_from(a, ',', 0);
    if k < a.len() && find_from(a, ',', k + 1) == a.len() {
        (trim_ws(a.subrange(0, k)), trim_ws(a.subrange(k + 1, a.len() as int)))
    } else {
        (trim_ws(a), Seq::empty())
    }
}

/// The condition that `name(arg)` writes, where the name is one that takes that form.
pub open spec fn named(name: Seq<char>, arg: Seq<char>) -> Option<Result<CondModel, PatternError>> {
    let a = trim_start_ws(arg);
    if name == IGNORE_CASE@ && a.len() > 0 {
        Some(Ok(CondModel::IgnoreCase(a)))
    } else     if name == WHOLE_WORD@ && a.len() > 0 {
        Some(Ok(CondModel::WholeWord(a)))
    } else     if name == STARTS_WITH@ && a.len() > 0 {
        Some(Ok(CondModel::StartsWith(a)))
    } else     if name == ENDS_WITH@ && a.len() > 0 {
        Some(Ok(CondModel::EndsWith(a)))
    } else     if name == INVERT_MATCH@ && a.len() > 0 {
        Some(Ok(CondModel::InvertMatch(a)))
    } else     if name == CONTAINS@ && a.len() > 0 {
        Some(Ok(CondModel::Contains(a)))
    } else     if name == LINE_CONTAINS@ && a.len() > 0 {
        Some(Ok(CondModel::LineContains(a)))
    } else     if name == LINE_STARTS_WITH@ && a.len() > 0 {
        Some(Ok(CondModel::LineStartsWith(a)))
    } else     if name == LINE_ENDS_WITH@ && a.len() > 0 {
        Some(Ok(CondModel::LineEndsWith(a)))
    } else     if name == LINE_INVERT_MATCH@ && a.len() > 0 {
        Some(Ok(CondModel::LineInvertMatch(a)))
    } else     if name == UPDATE@ && a.len() > 0 {
        Some(Ok(CondModel::Update(a)))
    } else     if name == REGEX@ && a.len() > 0 {
        Some(if compiles(a) { Ok(CondModel::Regex(a)) } else { Err(PatternError::Invalid) })
    } else     if name == INVERT_MATCH_REGEX@ && a.len() > 0 {
        Some(if compiles(a) { Ok(CondModel::InvertMatchRegex(a)) } else { Err(PatternError::Invalid) })
    } else     if name == LINE_REGEX@ && a.len() > 0 {
        Some(if compiles(a) { Ok(CondModel::LineRegex(a)) } else { Err(PatternError::Invalid) })
    } else     if name == LINE_INVERT_MATCH_REGEX@ && a.len() > 0 {
        Some(if compiles(a) { Ok(CondModel::LineInvertMatchRegex(a)) } else { Err(PatternError::Invalid) })
    } else     if name == REPLACE@ && a.len() > 0 {
        Some(Ok(CondModel::Replace(replace_args(a).0, replace_args(a).1)))
    } else if name == INSERT@ && number_comma(arg) is Some && number_comma(arg)->Some_0.1.len() > 0 {
        Some(Ok(CondModel::Insert(number_comma(arg)->Some_0.0, number_comma(arg)->Some_0.1)))
    } else if name == DELETE@ && number_comma(arg) is Some && is_number_text(number_comma(arg)->Some_0.1)
        && digits_value(digit_bytes(number_comma(arg)->Some_0.1)) <= usize::MAX {
        Some(Ok(CondModel::Delete(number_comma(arg)->Some_0.0, digits_value(digit_bytes(number_comma(arg)->Some_0.1)) as usize)))
    } else if arg.len() != 0 {
        None
    } else if name == NUMBER@ {
        Some(Ok(CondModel::Number(None)))
    } else if name == LINE_LENGTH@ {
        Some(Ok(CondModel::LineLength(None)))
    } else if name == LINE_BYTE_LENGTH@ {
        Some(Ok(CondModel::LineByteLength(None)))
    } else if name == CAMEL_CASE@ {
        Some(Ok(CondModel::CamelCase))
    } else if name == KEBAB_CASE@ {
        Some(Ok(CondModel::KebabCase))
    } else if name == SNAKE_CASE@ {
        Some(Ok(CondModel::SnakeCase))
    } else if name == TRIM_END@ {
        Some(Ok(CondModel::TrimEnd))
    } else if name == TRIM_START@ {
        Some(Ok(CondModel::TrimStart))
    } else if name == TRIM@ {
        Some(Ok(CondModel::Trim))
    } else if name == CONSTANT@ {
        Some(Ok(CondModel::Constant))
    } else if name == LOWER_CASE@ {
        Some(Ok(CondModel::LowerCase))
    } else if name == UPPER_CASE@ {
        Some(Ok(CondModel::UpperCase))
    } else if name == UPPER_CAMEL_CASE@ {
        Some(Ok(CondModel::UpperCamelCase))
    } else if name == UPPER_KEBAB_CASE@ {
        Some(Ok(CondModel::UpperKebabCase))
    } else if name == UPPER_SNAKE_CASE@ {
        Some(Ok(CondModel::UpperSnakeCase))
    } else if name == seq!['t', 'e'] {
        Some(Ok(CondModel::TrimEnd))
    } else if name == seq!['t', 's'] {
        Some(Ok(CondModel::TrimStart))
    } else {
        None
    }
}

/// The comparison condition that `name() tail` writes.
pub open spec fn compared(name: Seq<char>, tail: Seq<char>) -> Option<CondModel> {
    match op_of(tail) {
        Some(op) => if name == NUMBER@ {
            Some(CondModel::Number(Some(op)))
        } else if name == LINE_LENGTH@ {
            Some(CondModel::LineLength(Some(op)))
        } else if name == LINE_BYTE_LENGTH@ {
            Some(CondModel::LineByteLength(Some(op)))
        } else {
            None
        },
        None => None,
    }
}

/// The condition that one part of a query writes; a part of no other form is an
/// exact keyword.
pub open spec fn condition_of(seg: Seq<char>) -> Result<CondModel, PatternError> {
    let s = trim_ws(seg);
    match quoted_inner(s) {
        Some(inner) => Ok(CondModel::Exact(trim_ws(inner))),
        None => match call_split(s) {
            Some(parts) => if parts.2.len() == 0 {
                match named(parts.0, parts.1) {
                    Some(r) => r,
                    None => Ok(CondModel::Exact(s)),
                }
            } else if parts.1.len() == 0 {
                match compared(parts.0, parts.2) {
                    Some(c) => Ok(c),
                    None => Ok(CondModel::Exact(s)),
                }
            } else {
                Ok(CondModel::Exact(s))
            },
            None => Ok(CondModel::Exact(s)),
        },
    }
}


/// A condition, or the error of its pattern, as plain values.
pub open spec fn result_model(r: Result<SearchCondition, PatternError>) -> Result<CondModel, PatternError> {
    match r {
        Ok(c) => Ok(cond_model(c)),
        Err(e) => Err(e),
    }
}

/// Whether `c` is white space between the parts of a query.
fn ws(c: char) -> (r: bool)
    ensures
        r == is_ws(c),
{
    c == ' ' || c == '\t' || c == '\n' || c == '\r'
}

/// The first position from `i` on that is not white space.
fn lead_at(s: &Vec<char>, i: usize) -> (r: usize)
    requires
        i <= s@.len(),
    ensures
        r as int == lead(s@, i as int),
        i <= r <= s@.len(),
{
    let mut j = i;
    while j < s.len() && ws(s[j])
        invariant
            i <= j <= s@.len(),
            lead(s@, i as int) == lead(s@, j as int),
        decreases s@.len() - j,
    {
        j = j + 1;
    }
    j
}

/// The end of `s[..j]` without its trailing white space.
fn trail_at(s: &Vec<char>, j: usize) -> (r: usize)
    requires
        j <= s@.len(),
    ensures
        r as int == trail(s@, j as int),
        r <= j,
{
    let mut k = j;
    while k > 0 && ws(s[k - 1])
        invariant
            k <= j <= s@.len(),
            trail(s@, j as int) == trail(s@, k as int),
        decreases k,
    {
        k = k - 1;
    }
    k
}

/// The first position from `i` on that holds `c`, or the length.
fn find_at(s: &Vec<char>, c: char, i: usize) -> (r: usize)
    ensures
        r as int == find_from(s@, c, i as int),
        r <= s@.len(),
        i <= s@.len() ==> i <= r,
{
    if i >= s.len() {
        return s.len();
    }
    let mut j = i;
    while j < s.len() && s[j] != c
        invariant
            i <= j <= s@.len(),
            find_from(s@, c, i as int) == find_from(s@, c, j as int),
        decreases s@.len() - j,
    {
        j = j + 1;
    }
    j
}

/// The characters `s[lo..hi]`.
fn slice_chars(s: &Vec<char>, lo: usize, hi: usize) -> (r: Vec<char>)
    requires
        lo <= hi <= s@.len(),
    ensures
        r@ == s@.subrange(lo as int, hi as int),
{
    let mut r: Vec<char> = Vec::new();
    let mut i = lo;
    while i < hi
        invariant
            lo <= i <= hi <= s@.len(),
            r@ == s@.subrange(lo as int, i as int),
        decreases hi - i,
    {
        r.push(s[i]);
        assert(r@ =~= s@.subrange(lo as int, i + 1));
        i = i + 1;
    }
    r
}

/// The characters without white space at their ends.
fn trimmed(s: &Vec<char>) -> (r: Vec<char>)
    ensures
        r@ == trim_ws(s@),
{
    let a = lead_at(s, 0);
    let b = trail_at(s, s.len());
    if a < b {
        slice_chars(s, a, b)
    } else {
        Vec::new()
    }
}

/// The characters without leading white space.
fn trimmed_start(s: &Vec<char>) -> (r: Vec<char>)
    ensures
        r@ == trim_start_ws(s@),
{
    let a = lead_at(s, 0);
    slice_chars(s, a, s.len())
}

/// Whether the characters spell `name`.
fn same(s: &Vec<char>, name: &str) -> (r: bool)
    ensures
        r == (s@ == name@),
{
    let n = chars_of(name);
    if n.len() != s.len() {
        return false;
    }
    let mut i: usize = 0;
    while i < s.len()
        invariant
            i <= s@.len() == n@.len(),
            n@ == name@,
            forall|k: int| 0 <= k < i ==> s@[k] == n@[k],
        decreases s@.len() - i,
    {
        if s[i] != n[i] {
            return false;
        }
        i = i + 1;
    }
    assert(s@ =~= n@);
    true
}

/// The text of the characters.
fn text(s: &Vec<char>) -> (r: String)
    ensures
        r@ == s@,
{
    let r = string_of(s, 0, s.len());
    assert(s@.subrange(0, s@.len() as int) =~= s@);
    r
}

/// Whether all characters are ASCII digits, at least one.
fn number_text(v: &Vec<char>) -> (r: bool)
    ensures
        r == is_number_text(v@),
{
    if v.len() == 0 {
        return false;
    }
    let mut i: usize = 0;
    while i < v.len()
        invariant
            i <= v@.len(),
            forall|k: int| 0 <= k < i ==> '0' <= #[trigger] v@[k] <= '9',
        decreases v@.len() - i,
    {
        if !('0' <= v[i] && v[i] <= '9') {
            return false;
        }
        i = i + 1;
    }
    true
}

/// The number that ASCII digits write, where it fits.
fn digits_number(v: &Vec<char>) -> (r: Option<usize>)
    requires
        is_number_text(v@),
    ensures
        r matches Some(n) ==> n as nat == digits_value(digit_bytes(v@)),
        r is None ==> digits_value(digit_bytes(v@)) > usize::MAX,
{
    let mut b: Vec<u8> = Vec::new();
    let mut i: usize = 0;
    while i < v.len()
        invariant
            i <= v@.len(),
            is_number_text(v@),
            b@ == digit_bytes(v@).take(i as int),
        decreases v@.len() - i,
    {
        b.push(v[i] as u8);
        assert(b@ =~= digit_bytes(v@).take(i + 1));
        i = i + 1;
    }
    assert(b@ =~= digit_bytes(v@));
    assert forall|k: int| 0 <= k < b@.len() implies is_digit(#[trigger] b@[k]) by {
        assert('0' <= v@[k] <= '9');
    }
    parse_usize(b.as_slice())
}

/// The value that a comparison's right side writes.
fn parse_value(v: Vec<char>) -> (r: Value)
    ensures
        value_model(r) == value_of(v@),
{
    if number_text(&v) {
        match digits_number(&v) {
            Some(n) => {
                return Value::Num(n);
            },
            None => {},
        }
    }
    if v.len() > 4 {
        let head = slice_chars(&v, 0, 4);
        assert(head@ == v@.subrange(0, 4));
        proof {
            reveal_strlit("env.");
            assert("env."@ =~= seq!['e', 'n', 'v', '.']);
        }
        if same(&head, "env.") {
            assert(v@.subrange(0, 4) =~= seq!['e', 'n', 'v', '.']);
            let mut all = true;
            let mut i: usize = 4;
            while i < v.len()
                invariant
                    4 <= i <= v@.len(),
                    all == forall|k: int| 4 <= k < i ==> is_name_char(#[trigger] v@[k]),
                decreases v@.len() - i,
            {
                let c = v[i];
                let ok = ('a' <= c && c <= 'z') || ('A' <= c && c <= 'Z') || ('0' <= c && c <= '9') || c == '_';
                if !ok {
                    all = false;
                }
                i = i + 1;
            }
            if all {
                return Value::Env(text(&slice_chars(&v, 4, v.len())));
            }
        }
    }
    Value::Str(text(&v))
}

/// The comparison that a tail such as `>= 10` writes.
fn parse_op(t: &Vec<char>) -> (r: Option<Op>)
    ensures
        match op_of(t@) {
            Some(m) => r matches Some(x) && op_model(x) == m,
            None => r is None,
        },
{
    let two = if t.len() >= 2 { slice_chars(t, 0, 2) } else { slice_chars(t, 0, t.len()) };
    assert(t@.subrange(0, t@.len() as int) =~= t@);
    let ghost twov = two@;
    let (k, w): (u8, usize) = if two.len() == 2 && two[0] == '=' && two[1] == '=' {
        assert(twov =~= seq!['=', '=']);
        (0, 2)
    } else if two.len() == 2 && two[0] == '!' && two[1] == '=' {
        assert(twov =~= seq!['!', '=']);
        (1, 2)
    } else if two.len() == 2 && two[0] == '>' && two[1] == '=' {
        assert(twov =~= seq!['>', '=']);
        (2, 2)
    } else if two.len() == 2 && two[0] == '<' && two[1] == '=' {
        assert(twov =~= seq!['<', '=']);
        (3, 2)
    } else if t.len() >= 1 && t[0] == '>' {
        (4, 1)
    } else if t.len() >= 1 && t[0] == '<' {
        (5, 1)
    } else {
        (6, 0)
    };
    let v = trimmed(&slice_chars(t, w, t.len()));
    if k == 6 || v.len() == 0 {
        return None;
    }
    let val = parse_value(v);
    Some(
        if k == 0 {
            Op::Eq(val)
        } else if k == 1 {
            Op::Ne(val)
        } else if k == 2 {
            Op::Gte(val)
        } else if k == 3 {
            Op::Lte(val)
        } else if k == 4 {
            Op::Gt(val)
        } else {
            Op::Lt(val)
        },
    )
}

/// The run of ASCII digits from position `i` on.
fn digit_run_at(s: &Vec<char>, i: usize) -> (r: usize)
    requires
        i <= s@.len(),
    ensures
        r as int == digit_run(s@, i as int),
        i <= r <= s@.len(),
{
    let mut j = i;
    while j < s.len() && '0' <= s[j] && s[j] <= '9'
        invariant
            i <= j <= s@.len(),
            digit_run(s@, i as int) == digit_run(s@, j as int),
        decreases s@.len() - j,
    {
        j = j + 1;
    }
    j
}

/// A number and what follows a comma after it.
fn parse_number_comma(a: &Vec<char>) -> (r: Option<(usize, Vec<char>)>)
    ensures
        match number_comma(a@) {
            Some(p) => r matches Some(x) && x.0 == p.0 && x.1@ == p.1,
            None => r is None,
        },
{
    let d = digit_run_at(a, 0);
    let rr = trimmed_start(&slice_chars(a, d, a.len()));
    if d == 0 || rr.len() == 0 || rr[0] != ',' {
        return None;
    }
    let digits = slice_chars(a, 0, d);
    assert forall|k: int| 0 <= k < digits@.len() implies '0' <= #[trigger] digits@[k] <= '9' by {
        lemma_digit_run(a@, 0, k);
    }
    match digits_number(&digits) {
        Some(n) => Some((n, trimmed_start(&slice_chars(&rr, 1, rr.len())))),
        None => None,
    }
}

proof fn lemma_digit_run(s: Seq<char>, i: int, k: int)
    requires
        0 <= i <= k < digit_run(s, i),
    ensures
        '0' <= s[k] <= '9',
    decreases s.len() - i,
{
    if i < k {
        lemma_digit_run(s, i + 1, k);
    }
}

/// The two sides of a text with exactly one comma, or the text and nothing.
fn split_replace(a: &Vec<char>) -> (r: (Vec<char>, Vec<char>))
    ensures
        r.0@ == replace_args(a@).0,
        r.1@ == replace_args(a@).1,
{
    let k = find_at(a, ',', 0);
    if k < a.len() && find_at(a, ',', k + 1) == a.len() {
        (trimmed(&slice_chars(a, 0, k)), trimmed(&slice_chars(a, k + 1, a.len())))
    } else {
        (trimmed(a), Vec::new())
    }
}

/// The condition that `name(arg)` writes, where the name is one that takes that form.
fn parse_named(name: &Vec<char>, arg: &Vec<char>) -> (r: Option<Result<SearchCondition, PatternError>>)
    ensures
        match named(name@, arg@) {
            Some(m) => r matches Some(x) && result_model(x) == m,
            None => r is None,
        },
{
    let a = trimmed_start(arg);
    if same(name, IGNORE_CASE) && a.len() > 0 {
        return Some(Ok(SearchCondition::IgnoreCase(text(&a))));
    }
    if same(name, WHOLE_WORD) && a.len() > 0 {
        return Some(Ok(SearchCondition::WholeWord(text(&a))));
    }
    if same(name, STARTS_WITH) && a.len() > 0 {
        return Some(Ok(SearchCondition::StartsWith(text(&a))));
    }
    if same(name, ENDS_WITH) && a.len() > 0 {
        return Some(Ok(SearchCondition::EndsWith(text(&a))));
    }
    if same(name, INVERT_MATCH) && a.len() > 0 {
        return Some(Ok(SearchCondition::InvertMatch(text(&a))));
    }
    if same(name, CONTAINS) && a.len() > 0 {
        return Some(Ok(SearchCondition::Contains(text(&a))));
    }
    if same(name, LINE_CONTAINS) && a.len() > 0 {
        return Some(Ok(SearchCondition::LineContains(text(&a))));
    }
    if same(name, LINE_STARTS_WITH) && a.len() > 0 {
        return Some(Ok(SearchCondition::LineStartsWith(text(&a))));
    }
    if same(name, LINE_ENDS_WITH) && a.len() > 0 {
        return Some(Ok(SearchCondition::LineEndsWith(text(&a))));
    }
    if same(name, LINE_INVERT_MATCH) && a.len() > 0 {
        return Some(Ok(SearchCondition::LineInvertMatch(text(&a))));
    }
    if same(name, UPDATE) && a.len() > 0 {
        return Some(Ok(SearchCondition::Update(text(&a))));
    }
    if same(name, REGEX) && a.len() > 0 {
        return Some(SearchCondition::new_regex(text(&a).as_str()));
    }
    if same(name, INVERT_MATCH_REGEX) && a.len() > 0 {
        return Some(SearchCondition::new_invert_match_regex(text(&a).as_str()));
    }
    if same(name, LINE_REGEX) && a.len() > 0 {
        return Some(SearchCondition::new_line_match_regex(text(&a).as_str()));
    }
    if same(name, LINE_INVERT_MATCH_REGEX) && a.len() > 0 {
        return Some(SearchCondition::new_line_invert_match_regex(text(&a).as_str()));
    }
    if same(name, REPLACE) && a.len() > 0 {
        let (f, t) = split_replace(&a);
        return Some(Ok(SearchCondition::Replace(text(&f), text(&t))));
    }
    let nc = parse_number_comma(arg);
    if same(name, INSERT) {
        match &nc {
            Some(p) => {
                if p.1.len() > 0 {
                    return Some(Ok(SearchCondition::Insert(p.0, text(&p.1))));
                }
            },
            None => {},
        }
    }
    if same(name, DELETE) {
        match &nc {
            Some(p) => {
                if number_text(&p.1) {
                    match digits_number(&p.1) {
                        Some(e) => {
                            return Some(Ok(SearchCondition::Delete(p.0, e)));
                        },
                        None => {},
                    }
                }
            },
            None => {},
        }
    }
    if arg.len() != 0 {
        return None;
    }
    if same(name, NUMBER) {
        return Some(Ok(SearchCondition::Number(None)));
    }
    if same(name, LINE_LENGTH) {
        return Some(Ok(SearchCondition::LineLength(None)));
    }
    if same(name, LINE_BYTE_LENGTH) {
        return Some(Ok(SearchCondition::LineByteLength(None)));
    }
    if same(name, CAMEL_CASE) {
        return Some(Ok(SearchCondition::CamelCase));
    }
    if same(name, KEBAB_CASE) {
        return Some(Ok(SearchCondition::KebabCase));
    }
    if same(name, SNAKE_CASE) {
        return Some(Ok(SearchCondition::SnakeCase));
    }
    if same(name, TRIM_END) {
        return Some(Ok(SearchCondition::TrimEnd));
    }
    if same(name, TRIM_START) {
        return Some(Ok(SearchCondition::TrimStart));
    }
    if same(name, TRIM) {
        return Some(Ok(SearchCondition::Trim));
    }
    if same(name, CONSTANT) {
        return Some(Ok(SearchCondition::Constant));
    }
    if same(name, LOWER_CASE) {
        return Some(Ok(SearchCondition::LowerCase));
    }
    if same(name, UPPER_CASE) {
        return Some(Ok(SearchCondition::UpperCase));
    }
    if same(name, UPPER_CAMEL_CASE) {
        return Some(Ok(SearchCondition::UpperCamelCase));
    }
    if same(name, UPPER_KEBAB_CASE) {
        return Some(Ok(SearchCondition::UpperKebabCase));
    }
    if same(name, UPPER_SNAKE_CASE) {
        return Some(Ok(SearchCondition::UpperSnakeCase));
    }
    if same(name, "te") {
        proof {
            reveal_strlit("te");
        }
        assert("te"@ =~= seq!['t', 'e']);
        assert(name@ =~= seq!['t', 'e']);
        return Some(Ok(SearchCondition::TrimEnd));
    }
    if same(name, "ts") {
        proof {
            reveal_strlit("ts");
        }
        assert("ts"@ =~= seq!['t', 's']);
        assert(name@ =~= seq!['t', 's']);
        return Some(Ok(SearchCondition::TrimStart));
    }
    proof {
        reveal_strlit("te");
        reveal_strlit("ts");
        assert("te"@ =~= seq!['t', 'e']);
        assert("ts"@ =~= seq!['t', 's']);
        assert(name@ != seq!['t', 'e']);
        assert(name@ != seq!['t', 's']);
    }
    None
}

/// The comparison condition that `name() tail` writes.
fn parse_compared(name: &Vec<char>, tail: &Vec<char>) -> (r: Option<SearchCondition>)
    ensures
        match compared(name@, tail@) {
            Some(m) => r matches Some(x) && cond_model(x) == m,
            None => r is None,
        },
{
    match parse_op(tail) {
        Some(op) => {
            if same(name, NUMBER) {
                return Some(SearchCondition::Number(Some(op)));
            }
            if same(name, LINE_LENGTH) {
                return Some(SearchCondition::LineLength(Some(op)));
            }
            if same(name, LINE_BYTE_LENGTH) {
                return Some(SearchCondition::LineByteLength(Some(op)));
            }
            None
        },
        None => None,
    }
}

/// The condition that one part of a query writes.
pub fn parse_condition(seg: &Vec<char>) -> (r: Result<SearchCondition, PatternError>)
    ensures
        result_model(r) == condition_of(seg@),
{
    let s = trimmed(seg);
    let n = s.len();
    if n >= 3 && s[0] == '\'' && s[n - 1] == '\'' && find_at(&s, '\'', 1) == n - 1 {
        let inner = trimmed(&slice_chars(&s, 1, n - 1));
        return Ok(SearchCondition::Exact(text(&inner)));
    }
    let p = find_at(&s, '(', 0);
    let q = if p < n { find_at(&s, ')', p + 1) } else { n };
    if p < n && q < n {
        let name = slice_chars(&s, 0, p);
        let arg = slice_chars(&s, p + 1, q);
        let tail = trimmed(&slice_chars(&s, q + 1, n));
        if tail.len() == 0 {
            match parse_named(&name, &arg) {
                Some(r) => {
                    return r;
                },
                None => {},
            }
        } else if arg.len() == 0 {
            match parse_compared(&name, &tail) {
                Some(c) => {
                    return Ok(c);
                },
                None => {},
            }
        }
    }
    Ok(SearchCondition::Exact(text(&s)))
}

/// The condition that each part of a query writes, in order; blank parts are
/// skipped, and a part whose pattern does not compile gives its error.
pub fn parse_each(query: &str) -> (r: Vec<Result<SearchCondition, PatternError>>)
    ensures
        r@.map_values(|x: Result<SearchCondition, PatternError>| result_model(x))
            == segments_from(query@, 0).map_values(|g: Seq<char>| condition_of(g)),
{
    let s = chars_of(query);
    let ghost all = segments_from(query@, 0).map_values(|g: Seq<char>| condition_of(g));
    let mut r: Vec<Result<SearchCondition, PatternError>> = Vec::new();
    let mut p: usize = 0;
    while p < s.len()
        invariant
            s@ == query@,
            r@.map_values(|x: Result<SearchCondition, PatternError>| result_model(x))
                + segments_from(query@, p as int).map_values(|g: Seq<char>| condition_of(g)) == all,
        decreases s@.len() - p,
    {
        let e = segment_end_at(&s, p);
        let seg = slice_chars(&s, p, e);
        let ghost rest = if e < s@.len() { segments_from(query@, e + 1) } else { Seq::empty() };
        let ghost before = r@.map_values(|x: Result<SearchCondition, PatternError>| result_model(x));
        assert(segments_from(query@, p as int) == if trim_ws(seg@).len() == 0 { rest } else { seq![seg@] + rest });
        let t = trimmed(&seg);
        if t.len() > 0 {
            r.push(parse_condition(&seg));
            assert(r@.map_values(|x: Result<SearchCondition, PatternError>| result_model(x)) =~= before.push(condition_of(seg@)));
            assert((seq![seg@] + rest).map_values(|g: Seq<char>| condition_of(g)) =~= seq![condition_of(seg@)] + rest.map_values(|g: Seq<char>| condition_of(g)));
        }
        if e >= s.len() {
            assert(rest.map_values(|g: Seq<char>| condition_of(g)) =~= Seq::empty());
            assert(segments_from(query@, s@.len() as int) == Seq::<Seq<char>>::empty());
            p = s.len();
            assert(r@.map_values(|x: Result<SearchCondition, PatternError>| result_model(x)) + segments_from(query@, p as int).map_values(|g: Seq<char>| condition_of(g)) =~= all);
        } else {
            p = e + 1;
        }
    }
    assert(segments_from(query@, p as int) == Seq::<Seq<char>>::empty());
    assert(r@.map_values(|x: Result<SearchCondition, PatternError>| result_model(x)) =~= all);
    r
}

/// The end of the condition that starts at `p`.
fn segment_end_at(s: &Vec<char>, p: usize) -> (r: usize)
    requires
        p < s@.len(),
    ensures
        r as int == segment_end(s@, p as int),
        p <= r <= s@.len(),
{
    let q = lead_at(s, p);
    let close = if q < s.len() { find_at(s, '\'', q + 1) } else { s.len() };
    let raw: usize = if q < s.len() && s[q] == '\'' && close < s.len() && close > q + 1 {
        let after = lead_at(s, close + 1);
        if after == s.len() || s[after] == '|' {
            after
        } else {
            find_at(s, '|', p)
        }
    } else {
        find_at(s, '|', p)
    };
    assert(raw as int == raw_segment_end(s@, p as int));
    raw
}

/// The conditions of a query whose parts did not all parse: those that did, in
/// order, and the positions, among the parts, of those that did not.
#[derive(Debug)]
pub struct QueryError {
    pub conditions: Vec<SearchCondition>,
    pub failed: Vec<usize>,
}

/// The conditions that parsed, in order.
pub open spec fn parsed_ok(s: Seq<Result<CondModel, PatternError>>) -> Seq<CondModel>
    decreases s.len(),
{
    if s.len() == 0 {
        Seq::empty()
    } else {
        parsed_ok(s.drop_last()) + match s.last() {
            Ok(c) => seq![c],
            Err(_) => Seq::empty(),
        }
    }
}

/// The positions of the parts that did not parse.
pub open spec fn parse_failures(s: Seq<Result<CondModel, PatternError>>) -> Seq<int>
    decreases s.len(),
{
    if s.len() == 0 {
        Seq::empty()
    } else {
        parse_failures(s.drop_last()) + if s.last() is Err { seq![s.len() - 1] } else { Seq::<int>::empty() }
    }
}

/// The conditions as plain values.
pub open spec fn conds_model(v: Seq<SearchCondition>) -> Seq<CondModel> {
    v.map_values(|c: SearchCondition| cond_model(c))
}

/// Parses a query into its conditions, in order. A part whose pattern does not
/// compile is reported by its position while the others are kept: the result is
/// `Ok` exactly where every part parsed.
pub fn parse(query: &str) -> (r: Result<Vec<SearchCondition>, QueryError>)
    ensures
        ({
            let all = segments_from(query@, 0).map_values(|g: Seq<char>| condition_of(g));
            match r {
                Ok(v) => parse_failures(all).len() == 0 && conds_model(v@) == parsed_ok(all),
                Err(e) => parse_failures(all).len() > 0 && conds_model(e.conditions@) == parsed_ok(all)
                    && e.failed@.map_values(|i: usize| i as int) == parse_failures(all),
            }
        }),
{
    let each = parse_each(query);
    let ghost all = segments_from(query@, 0).map_values(|g: Seq<char>| condition_of(g));
    let mut out: Vec<SearchCondition> = Vec::new();
    let mut failed: Vec<usize> = Vec::new();
    let mut i: usize = 0;
    while i < each.len()
        invariant
            i <= each@.len(),
            all == segments_from(query@, 0).map_values(|g: Seq<char>| condition_of(g)),
            each@.map_values(|x: Result<SearchCondition, PatternError>| result_model(x)) == all,
            conds_model(out@) == parsed_ok(all.take(i as int)),
            failed@.map_values(|k: usize| k as int) == parse_failures(all.take(i as int)),
        decreases each@.len() - i,
    {
        assert(all.len() == each@.map_values(|x: Result<SearchCondition, PatternError>| result_model(x)).len());
        assert(all[i as int] == result_model(each@[i as int]));
        assert(all.take(i + 1).drop_last() =~= all.take(i as int));
        assert(all.take(i + 1).last() == all[i as int]);
        assert(all.take(i + 1).len() == i + 1);
        let ghost before = conds_model(out@);
        let ghost fb = failed@.map_values(|k: usize| k as int);
        match &each[i] {
            Ok(c) => {
                out.push(c.duplicate());
                assert(conds_model(out@) =~= before.push(cond_model(*c)));
                assert(failed@.map_values(|k: usize| k as int) =~= fb + Seq::<int>::empty());
            },
            Err(_) => {
                failed.push(i);
                assert(failed@.map_values(|k: usize| k as int) =~= fb + seq![i as int]);
                assert(conds_model(out@) =~= before + Seq::<CondModel>::empty());
            },
        }
        i = i + 1;
    }
    assert(all.take(i as int) =~= all);
    if failed.len() == 0 {
        Ok(out)
    } else {
        Err(QueryError { conditions: out, failed })
    }
}


/// The two sides of a text with exactly one comma.
pub open spec fn comma_pair(s: Seq<char>) -> Option<(Seq<char>, Seq<char>)> {
    let k = find_from(s, ',', 0);
    if k < s.len() && find_from(s, ',', k + 1) == s.len() {
        Some((s.subrange(0, k), s.subrange(k + 1, s.len() as int)))
    } else {
        None
    }
}

/// The number that a text writes, zero where it writes none that fits.
pub open spec fn number_or_zero(s: Seq<char>) -> usize {
    if is_number_text(s) && digits_value(digit_bytes(s)) <= usize::MAX {
        digits_value(digit_bytes(s)) as usize
    } else {
        0
    }
}

/// The condition with its arguments taken from the text of an input box.
pub open spec fn with_value_model(c: SearchCondition, s: Seq<char>) -> CondModel {
    match c {
        SearchCondition::Exact(_) => CondModel::Exact(s),
        SearchCondition::IgnoreCase(_) => CondModel::IgnoreCase(s),
        SearchCondition::WholeWord(_) => CondModel::WholeWord(s),
        SearchCondition::Regex(_) => CondModel::Regex(s),
        SearchCondition::Contains(_) => CondModel::Contains(s),
        SearchCondition::StartsWith(_) => CondModel::StartsWith(s),
        SearchCondition::EndsWith(_) => CondModel::EndsWith(s),
        SearchCondition::InvertMatch(_) => CondModel::InvertMatch(s),
        SearchCondition::InvertMatchRegex(_) => CondModel::InvertMatchRegex(s),
        SearchCondition::LineContains(_) => CondModel::LineContains(s),
        SearchCondition::LineRegex(_) => CondModel::LineRegex(s),
        SearchCondition::LineStartsWith(_) => CondModel::LineStartsWith(s),
        SearchCondition::LineEndsWith(_) => CondModel::LineEndsWith(s),
        SearchCondition::LineInvertMatch(_) => CondModel::LineInvertMatch(s),
        SearchCondition::LineInvertMatchRegex(_) => CondModel::LineInvertMatchRegex(s),
        SearchCondition::Update(_) => CondModel::Update(s),
        SearchCondition::Replace(_, _) => match comma_pair(s) {
            Some(p) => CondModel::Replace(p.0, p.1),
            None => CondModel::Replace(s, Seq::empty()),
        },
        SearchCondition::Insert(_, _) => match comma_pair(s) {
            Some(p) => CondModel::Insert(number_or_zero(p.0), p.1),
            None => CondModel::Insert(0, s),
        },
        SearchCondition::Delete(_, _) => match comma_pair(s) {
            Some(p) => CondModel::Delete(number_or_zero(p.0), number_or_zero(p.1)),
            None => CondModel::Delete(0, 0),
        },
        _ => cond_model(c),
    }
}

/// The number that the characters write, zero where they write none that fits.
fn number_or_zero_of(v: &Vec<char>) -> (r: usize)
    ensures
        r == number_or_zero(v@),
{
    if number_text(v) {
        match digits_number(v) {
            Some(n) => n,
            None => 0,
        }
    } else {
        0
    }
}

impl SearchCondition {
    /// The condition with its arguments taken from the text of an input box: a
    /// keyword as it is; two arguments split at the one comma; a number that does
    /// not parse counts as zero. Conditions without arguments stay as they are.
    pub fn with_value(&self, s: String) -> (r: SearchCondition)
        ensures
            cond_model(r) == with_value_model(*self, s@),
    {
        let v = chars_of(s.as_str());
        let k = find_at(&v, ',', 0);
        let pair: Option<(Vec<char>, Vec<char>)> = if k < v.len() && find_at(&v, ',', k + 1) == v.len() {
            Some((slice_chars(&v, 0, k), slice_chars(&v, k + 1, v.len())))
        } else {
            None
        };
        proof {
            assert(match pair {
                Some(p) => comma_pair(s@) == Some((p.0@, p.1@)),
                None => comma_pair(s@) is None,
            });
        }
        match self {
            SearchCondition::Exact(_) => SearchCondition::Exact(s),
            SearchCondition::IgnoreCase(_) => SearchCondition::IgnoreCase(s),
            SearchCondition::WholeWord(_) => SearchCondition::WholeWord(s),
            SearchCondition::Regex(_) => SearchCondition::Regex(s),
            SearchCondition::Contains(_) => SearchCondition::Contains(s),
            SearchCondition::StartsWith(_) => SearchCondition::StartsWith(s),
            SearchCondition::EndsWith(_) => SearchCondition::EndsWith(s),
            SearchCondition::InvertMatch(_) => SearchCondition::InvertMatch(s),
            SearchCondition::InvertMatchRegex(_) => SearchCondition::InvertMatchRegex(s),
            SearchCondition::LineContains(_) => SearchCondition::LineContains(s),
            SearchCondition::LineRegex(_) => SearchCondition::LineRegex(s),
            SearchCondition::LineStartsWith(_) => SearchCondition::LineStartsWith(s),
            SearchCondition::LineEndsWith(_) => SearchCondition::LineEndsWith(s),
            SearchCondition::LineInvertMatch(_) => SearchCondition::LineInvertMatch(s),
            SearchCondition::LineInvertMatchRegex(_) => SearchCondition::LineInvertMatchRegex(s),
            SearchCondition::Update(_) => SearchCondition::Update(s),
            SearchCondition::Replace(_, _) => match pair {
                Some(p) => SearchCondition::Replace(text(&p.0), text(&p.1)),
                None => SearchCondition::Replace(s, String::new()),
            },
            SearchCondition::Insert(_, _) => match pair {
                Some(p) => SearchCondition::Insert(number_or_zero_of(&p.0), text(&p.1)),
                None => SearchCondition::Insert(0, s),
            },
            SearchCondition::Delete(_, _) => match pair {
                Some(p) => SearchCondition::Delete(number_or_zero_of(&p.0), number_or_zero_of(&p.1)),
                None => SearchCondition::Delete(0, 0),
            },
            _ => self.duplicate(),
        }
    }
}

} // verus!
