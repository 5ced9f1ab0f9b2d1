use vstd::prelude::*;
use crate::text::utf8;

verus! {

/// A literal on the right of a comparison.
#[derive(Clone, Debug, PartialEq)]
pub enum Value {
    Str(String),
    Num(usize),
    Env(String),
}

/// A comparison between a quantity and a value.
#[derive(Clone, Debug, PartialEq)]
pub enum Op {
    Eq(Value),
    Ne(Value),
    Gt(Value),
    Gte(Value),
    Lt(Value),
    Lte(Value),
}

/// A value as plain values.
pub enum ValueModel {
    Str(Seq<char>),
    Num(usize),
    Env(Seq<char>),
}

/// A comparison as plain values.
pub enum OpModel {
    Eq(ValueModel),
    Ne(ValueModel),
    Gt(ValueModel),
    Gte(ValueModel),
    Lt(ValueModel),
    Lte(ValueModel),
}

/// The plain values of a value.
pub open spec fn value_model(v: Value) -> ValueModel {
    match v {
        Value::Str(s) => ValueModel::Str(s@),
        Value::Num(n) => ValueModel::Num(n),
        Value::Env(e) => ValueModel::Env(e@),
    }
}

/// The plain values of a comparison.
pub open spec fn op_model(o: Op) -> OpModel {
    match o {
        Op::Eq(v) => OpModel::Eq(value_model(v)),
        Op::Ne(v) => OpModel::Ne(value_model(v)),
        Op::Gt(v) => OpModel::Gt(value_model(v)),
        Op::Gte(v) => OpModel::Gte(value_model(v)),
        Op::Lt(v) => OpModel::Lt(value_model(v)),
        Op::Lte(v) => OpModel::Lte(value_model(v)),
    }
}

/// Why a value has no number.
#[derive(Clone, Copy, Debug, PartialEq, Eq, Structural)]
pub enum ValueError {
    NotANumber,
    EnvNotResolved,
}

/// `c` is an ASCII decimal digit.
pub open spec fn is_digit(c: u8) -> bool {
    48 <= c <= 57
}

/// All of `s` are decimal digits.
pub open spec fn all_digits(s: Seq<u8>) -> bool {
    forall|i: int| 0 <= i < s.len() ==> is_digit(#[trigger] s[i])
}

/// The number that the decimal digits `s` write.
pub open spec fn digits_value(s: Seq<u8>) -> nat
    decreases s.len(),
{
    if s.len() == 0 {
        0
    } else {
        digits_value(s.drop_last()) * 10 + (s.last() - 48) as nat
    }
}

/// The decimal digits of `n`, without leading zeros ("0" for zero).
pub open spec fn decimal(n: nat) -> Seq<char>
    decreases n,
{
    if n < 10 {
        seq![digit_char(n)]
    } else {
        decimal(n / 10).push(digit_char(n % 10))
    }
}

/// The character of the digit `d`.
pub open spec fn digit_char(d: nat) -> char {
    ((d + 48) as u8) as char
}

/// The number of a value, where it has one.
pub open spec fn value_number(v: Value) -> Option<nat> {
    match v {
        Value::Num(n) => Some(n as nat),
        _ => None,
    }
}

/// The operand of a comparison.
pub open spec fn op_value(op: Op) -> Value {
    match op {
        Op::Eq(v) => v,
        Op::Ne(v) => v,
        Op::Gt(v) => v,
        Op::Gte(v) => v,
        Op::Lt(v) => v,
        Op::Lte(v) => v,
    }
}

/// What `n op rhs` says.
pub open spec fn compares(op: Op, n: nat, rhs: nat) -> bool {
    match op {
        Op::Eq(_) => n == rhs,
        Op::Ne(_) => n != rhs,
        Op::Gt(_) => n > rhs,
        Op::Gte(_) => n >= rhs,
        Op::Lt(_) => n < rhs,
        Op::Lte(_) => n <= rhs,
    }
}

/// What the comparison says of `n`: nothing holds where the operand has no number
/// (a text, or a variable that was not resolved), so such a condition keeps nothing.
pub open spec fn op_holds(op: Op, n: nat) -> bool {
    match value_number(op_value(op)) {
        Some(rhs) => compares(op, n, rhs),
        None => false,
    }
}

/// Reads the decimal digits `s`: `None` where `s` is empty, holds another byte, or
/// writes a number beyond `usize`.
pub fn parse_usize(s: &[u8]) -> (r: Option<usize>)
    ensures
        r matches Some(n) ==> s@.len() > 0 && all_digits(s@) && n as nat == digits_value(s@),
        r is None ==> s@.len() == 0 || !all_digits(s@) || digits_value(s@) > usize::MAX,
{
    if s.len() == 0 {
        return None;
    }
    let mut acc: usize = 0;
    let mut i: usize = 0;
    while i < s.len()
        invariant
            i <= s@.len(),
            all_digits(s@.subrange(0, i as int)),
            acc as nat == digits_value(s@.subrange(0, i as int)),
        decreases s@.len() - i,
    {
        let c = s[i];
        assert(s@.subrange(0, i + 1).drop_last() =~= s@.subrange(0, i as int));
        if c < 48 || c > 57 {
            assert(!is_digit(s@[i as int]));
            return None;
        }
        if acc > (usize::MAX - (c - 48) as usize) / 10 {
            proof {
                lemma_digits_value_grows(s@, i as int + 1);
            }
            return None;
        }
        acc = acc * 10 + (c - 48) as usize;
        i = i + 1;
    }
    assert(s@.subrange(0, i as int) =~= s@);
    Some(acc)
}

/// Each prefix of a string of digits is worth at most the whole.
proof fn lemma_digits_value_grows(s: Seq<u8>, i: int)
    requires
        0 <= i <= s.len(),
    ensures
        !all_digits(s) || digits_value(s.subrange(0, i)) <= digits_value(s),
    decreases s.len() - i,
{
    if i < s.len() && all_digits(s) {
        lemma_digits_value_grows(s, i + 1);
        assert(s.subrange(0, i + 1).drop_last() =~= s.subrange(0, i));
        assert(is_digit(s[i]));
    } else if i == s.len() {
        assert(s.subrange(0, i) =~= s);
    }
}

/// The decimal digits of `n`.
pub fn usize_to_decimal(n: usize) -> (r: String)
    ensures
        r@ == decimal(n as nat),
{
    let mut digits: Vec<char> = Vec::new();
    let mut m: usize = n;
    let mut out: String = String::new();
    // the digits, last first
    while m >= 10
        invariant
            decimal(n as nat) == decimal(m as nat) + digits@.reverse(),
        decreases m,
    {
        let c = ((m % 10 + 48) as u8) as char;
        assert(decimal(m as nat) == decimal((m / 10) as nat).push(c));
        digits.push(c);
        assert(digits@.reverse() =~= seq![c] + digits@.drop_last().reverse());
        m = m / 10;
    }
    let c = ((m + 48) as u8) as char;
    assert(decimal(m as nat) == seq![c]);
    digits.push(c);
    assert(digits@.reverse() =~= seq![c] + digits@.drop_last().reverse());
    assert(decimal(n as nat) == digits@.reverse());
    let mut k: usize = digits.len();
    while k > 0
        invariant
            k <= digits@.len(),
            out@ == digits@.reverse().subrange(0, digits@.len() - k),
        decreases k,
    {
        k = k - 1;
        let c = digits[k];
        let piece = char_string(c);
        out.append(piece.as_str());
        assert(out@ =~= digits@.reverse().subrange(0, digits@.len() - k));
    }
    assert(out@ =~= digits@.reverse());
    out
}

/// Relies on char::to_string: a string of the one character.
#[verifier::external_body]
pub(crate) fn char_string(c: char) -> (r: String)
    ensures
        r@ == seq![c],
{
    c.to_string()
}

impl Value {
    /// The number that the value holds: a variable must be resolved first.
    pub fn int_value(&self) -> (r: Result<usize, ValueError>)
        ensures
            *self matches Value::Num(n) ==> r == Ok::<usize, ValueError>(n),
            *self matches Value::Str(_) ==> r == Err::<usize, ValueError>(ValueError::NotANumber),
            *self matches Value::Env(_) ==> r == Err::<usize, ValueError>(ValueError::EnvNotResolved),
    {
        match self {
            Value::Num(n) => Ok(*n),
            Value::Str(_) => Err(ValueError::NotANumber),
            Value::Env(_) => Err(ValueError::EnvNotResolved),
        }
    }

    /// The text of the value: the literal, the digits of the number, or the
    /// variable's text as it was looked up (`None` where it is not set).
    pub fn string_value(&self, env_text: Option<String>) -> (r: Option<String>)
        ensures
            *self matches Value::Str(s) ==> r matches Some(t) && t@ == s@,
            *self matches Value::Num(n) ==> r matches Some(t) && t@ == decimal(n as nat),
            *self matches Value::Env(_) ==> r == env_text,
    {
        match self {
            Value::Str(s) => Some(s.clone()),
            Value::Num(n) => Some(usize_to_decimal(*n)),
            Value::Env(_) => env_text,
        }
    }

    /// The value with a variable replaced by its number, given the variable's text
    /// as it was looked up; a variable that is not set or not a number stays.
    pub fn resolve(self, env_text: Option<String>) -> (r: Value)
        ensures
            r == match env_text {
                Some(t) => if self is Env && all_digits(utf8(t@)) && utf8(t@).len() > 0
                    && digits_value(utf8(t@)) <= usize::MAX {
                    Value::Num(digits_value(utf8(t@)) as usize)
                } else {
                    self
                },
                None => self,
            },
    {
        match self {
            Value::Env(_) => match env_text {
                Some(t) => match parse_usize(t.as_str().as_bytes()) {
                    Some(n) => Value::Num(n),
                    None => self,
                },
                None => self,
            },
            _ => self,
        }
    }

    /// The text that a query writes for the value.
    pub fn to_query(&self) -> (r: String)
        ensures
            *self matches Value::Str(s) ==> r@ == s@,
            *self matches Value::Num(n) ==> r@ == decimal(n as nat),
            *self matches Value::Env(e) ==> r@ == seq!['e', 'n', 'v', '.'] + e@,
    {
        match self {
            Value::Str(s) => s.clone(),
            Value::Num(n) => usize_to_decimal(*n),
            Value::Env(e) => {
                let mut r = String::from_str("env.");
                proof { reveal_strlit("env."); }
                r.append(e.as_str());
                r
            },
        }
    }
}

impl Value {
    /// A copy of the value.
    pub fn duplicate(&self) -> (r: Value)
        ensures
            r == *self,
    {
        match self {
            Value::Str(s) => Value::Str(s.clone()),
            Value::Num(n) => Value::Num(*n),
            Value::Env(e) => Value::Env(e.clone()),
        }
    }
}

impl Op {
    /// A copy of the comparison.
    pub fn duplicate(&self) -> (r: Op)
        ensures
            r == *self,
    {
        match self {
            Op::Eq(v) => Op::Eq(v.duplicate()),
            Op::Ne(v) => Op::Ne(v.duplicate()),
            Op::Gt(v) => Op::Gt(v.duplicate()),
            Op::Gte(v) => Op::Gte(v.duplicate()),
            Op::Lt(v) => Op::Lt(v.duplicate()),
            Op::Lte(v) => Op::Lte(v.duplicate()),
        }
    }

    /// The operand.
    pub fn value(&self) -> (r: &Value)
        ensures
            *r == op_value(*self),
    {
        match self {
            Op::Eq(v) => v,
            Op::Ne(v) => v,
            Op::Gt(v) => v,
            Op::Gte(v) => v,
            Op::Lt(v) => v,
            Op::Lte(v) => v,
        }
    }

    /// Whether `n` meets the comparison; never where the operand has no number.
    pub fn holds(&self, n: usize) -> (r: bool)
        ensures
            r == op_holds(*self, n as nat),
    {
        let rhs: usize = match self.value().int_value() {
            Ok(v) => v,
            Err(_) => {
                return false;
            },
        };
        match self {
            Op::Eq(_) => n == rhs,
            Op::Ne(_) => n != rhs,
            Op::Gt(_) => n > rhs,
            Op::Gte(_) => n >= rhs,
            Op::Lt(_) => n < rhs,
            Op::Lte(_) => n <= rhs,
        }
    }

    /// The symbol that a query writes for the comparison.
    pub fn symbol(&self) -> (r: &'static str)
        ensures
            r@ == op_symbol(*self),
    {
        proof {
            reveal_strlit("==");
            reveal_strlit("!=");
            reveal_strlit(">");
            reveal_strlit(">=");
            reveal_strlit("<");
            reveal_strlit("<=");
        }
        match self {
            Op::Eq(_) => "==",
            Op::Ne(_) => "!=",
            Op::Gt(_) => ">",
            Op::Gte(_) => ">=",
            Op::Lt(_) => "<",
            Op::Lte(_) => "<=",
        }
    }
}

/// The symbol of a comparison.
pub open spec fn op_symbol(op: Op) -> Seq<char> {
    match op {
        Op::Eq(_) => seq!['=', '='],
        Op::Ne(_) => seq!['!', '='],
        Op::Gt(_) => seq!['>'],
        Op::Gte(_) => seq!['>', '='],
        Op::Lt(_) => seq!['<'],
        Op::Lte(_) => seq!['<', '='],
    }
}

} // verus!
