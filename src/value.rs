//! The seven kinds of values a template computes with, their models, their
//! display text and the methods defined on each kind.
use vstd::prelude::*;
use vstd::string::StringExecFns;
use crate::text::{chars_of, string_of, substring};

verus! {

#[derive(Clone, Copy, Debug, PartialEq, Eq, Structural)]
pub enum ValueKind {
    String,
    Boolean,
    Integer,
    CommitOrChangeId,
    ShortestIdPrefix,
    Signature,
    Timestamp,
}

/// A commit or change id: its hex digits, and how many of them are needed to
/// tell it from every other id of the repository.
#[derive(Clone, Debug, PartialEq, Eq)]
pub struct CommitOrChangeId {
    pub hex: String,
    pub unique_prefix_len: usize,
}

/// The shortest unique prefix of an id, and the rest of its digits.
#[derive(Clone, Debug, PartialEq, Eq)]
pub struct ShortestIdPrefix {
    pub prefix: String,
    pub rest: String,
}

/// A point in time, as the host formats it: in full, and relative to now.
#[derive(Clone, Debug, PartialEq, Eq)]
pub struct Timestamp {
    pub text: String,
    pub relative: String,
}

#[derive(Clone, Debug, PartialEq, Eq)]
pub struct Signature {
    pub name: String,
    pub email: String,
    pub timestamp: Timestamp,
}

#[derive(Clone, Debug, PartialEq, Eq)]
pub enum Value {
    String(String),
    Boolean(bool),
    Integer(i64),
    CommitOrChangeId(CommitOrChangeId),
    ShortestIdPrefix(ShortestIdPrefix),
    Signature(Signature),
    Timestamp(Timestamp),
}

/// Model of a value.
pub enum ValueM {
    Str(Seq<char>),
    Bool(bool),
    Int(int),
    /// Hex digits and unique prefix length.
    Id(Seq<char>, nat),
    /// Prefix and rest.
    Shortest(Seq<char>, Seq<char>),
    /// Name, email, and the timestamp's full and relative text.
    Sig(Seq<char>, Seq<char>, Seq<char>, Seq<char>),
    /// Full and relative text.
    Time(Seq<char>, Seq<char>),
}

impl Value {
    pub open spec fn view(&self) -> ValueM {
        match self {
            Value::String(s) => ValueM::Str(s@),
            Value::Boolean(b) => ValueM::Bool(*b),
            Value::Integer(i) => ValueM::Int(*i as int),
            Value::CommitOrChangeId(id) => ValueM::Id(id.hex@, id.unique_prefix_len as nat),
            Value::ShortestIdPrefix(p) => ValueM::Shortest(p.prefix@, p.rest@),
            Value::Signature(s) => ValueM::Sig(s.name@, s.email@, s.timestamp.text@, s.timestamp.relative@),
            Value::Timestamp(t) => ValueM::Time(t.text@, t.relative@),
        }
    }

    /// The kind of this value.
    pub fn kind(&self) -> (r: ValueKind)
        ensures
            r == kind_of(self@),
    {
        match self {
            Value::String(_) => ValueKind::String,
            Value::Boolean(_) => ValueKind::Boolean,
            Value::Integer(_) => ValueKind::Integer,
            Value::CommitOrChangeId(_) => ValueKind::CommitOrChangeId,
            Value::ShortestIdPrefix(_) => ValueKind::ShortestIdPrefix,
            Value::Signature(_) => ValueKind::Signature,
            Value::Timestamp(_) => ValueKind::Timestamp,
        }
    }
}

pub open spec fn kind_of(v: ValueM) -> ValueKind {
    match v {
        ValueM::Str(_) => ValueKind::String,
        ValueM::Bool(_) => ValueKind::Boolean,
        ValueM::Int(_) => ValueKind::Integer,
        ValueM::Id(_, _) => ValueKind::CommitOrChangeId,
        ValueM::Shortest(_, _) => ValueKind::ShortestIdPrefix,
        ValueM::Sig(_, _, _, _) => ValueKind::Signature,
        ValueM::Time(_, _) => ValueKind::Timestamp,
    }
}

/// The name of a kind, as error messages give it.
pub open spec fn kind_name(k: ValueKind) -> Seq<char> {
    match k {
        ValueKind::String => "String"@,
        ValueKind::Boolean => "Boolean"@,
        ValueKind::Integer => "Integer"@,
        ValueKind::CommitOrChangeId => "CommitOrChangeId"@,
        ValueKind::ShortestIdPrefix => "ShortestIdPrefix"@,
        ValueKind::Signature => "Signature"@,
        ValueKind::Timestamp => "Timestamp"@,
    }
}

pub fn kind_name_string(k: ValueKind) -> (r: String)
    ensures
        r@ == kind_name(k),
{
    let s = match k {
        ValueKind::String => "String",
        ValueKind::Boolean => "Boolean",
        ValueKind::Integer => "Integer",
        ValueKind::CommitOrChangeId => "CommitOrChangeId",
        ValueKind::ShortestIdPrefix => "ShortestIdPrefix",
        ValueKind::Signature => "Signature",
        ValueKind::Timestamp => "Timestamp",
    };
    proof {
        reveal_strlit("String");
        reveal_strlit("Boolean");
        reveal_strlit("Integer");
        reveal_strlit("CommitOrChangeId");
        reveal_strlit("ShortestIdPrefix");
        reveal_strlit("Signature");
        reveal_strlit("Timestamp");
    }
    s.to_owned()
}

/// The character of a decimal digit.
pub open spec fn digit_char(d: nat) -> char {
    if d == 0 {
        '0'
    } else if d == 1 {
        '1'
    } else if d == 2 {
        '2'
    } else if d == 3 {
        '3'
    } else if d == 4 {
        '4'
    } else if d == 5 {
        '5'
    } else if d == 6 {
        '6'
    } else if d == 7 {
        '7'
    } else if d == 8 {
        '8'
    } else {
        '9'
    }
}

/// Decimal digits of a natural number.
pub open spec fn nat_text(v: nat) -> Seq<char>
    decreases v,
{
    if v < 10 {
        seq![digit_char(v)]
    } else {
        nat_text(v / 10) + seq![digit_char(v % 10)]
    }
}

/// Decimal text of an integer, with a leading `-` when it is negative.
pub open spec fn int_text(v: int) -> Seq<char> {
    if v < 0 {
        seq!['-'] + nat_text((-v) as nat)
    } else {
        nat_text(v as nat)
    }
}

fn digit_to_char(d: u64) -> (c: char)
    requires
        d < 10,
    ensures
        c == digit_char(d as nat),
{
    if d == 0 {
        '0'
    } else if d == 1 {
        '1'
    } else if d == 2 {
        '2'
    } else if d == 3 {
        '3'
    } else if d == 4 {
        '4'
    } else if d == 5 {
        '5'
    } else if d == 6 {
        '6'
    } else if d == 7 {
        '7'
    } else if d == 8 {
        '8'
    } else {
        '9'
    }
}

fn push_digits(v: u64, out: &mut Vec<char>)
    ensures
        final(out)@ == old(out)@ + nat_text(v as nat),
    decreases v,
{
    if v >= 10 {
        push_digits(v / 10, out);
    }
    out.push(digit_to_char(v % 10));
    assert(final(out)@ =~= old(out)@ + nat_text(v as nat));
}

/// The decimal text of a natural number.
pub fn natural_text(v: u64) -> (r: String)
    ensures
        r@ == nat_text(v as nat),
{
    let mut out: Vec<char> = Vec::new();
    push_digits(v, &mut out);
    assert(out@ =~= nat_text(v as nat));
    string_of(&out)
}

/// The decimal text of an integer.
pub fn integer_text(v: i64) -> (r: String)
    ensures
        r@ == int_text(v as int),
{
    let mut out: Vec<char> = Vec::new();
    if v < 0 {
        out.push('-');
        let u: u64 = if v == i64::MIN {
            9223372036854775808
        } else {
            (-v) as u64
        };
        push_digits(u, &mut out);
    } else {
        push_digits(v as u64, &mut out);
    }
    assert(out@ =~= int_text(v as int));
    string_of(&out)
}

/// The two texts one after the other.
pub(crate) fn concat2(a: &str, b: &str) -> (r: String)
    ensures
        r@ == a@ + b@,
{
    let s = <String as StringExecFns>::from_str(a);
    s.concat(b)
}

/// Whether `n` occurs in `h` as a run of consecutive characters.
fn contains_chars(h: &Vec<char>, n: &Vec<char>) -> (r: bool)
    ensures
        r == seq_contains(h@, n@),
{
    if n.len() > h.len() {
        return false;
    }
    let mut k: usize = 0;
    while k <= h.len() - n.len()
        invariant
            n.len() <= h.len(),
            k <= h.len() - n.len() + 1,
            forall|j: int| 0 <= j < k ==> #[trigger] h@.subrange(j, j + n.len()) != n@,
        decreases h.len() - k,
    {
        let mut t: usize = 0;
        while t < n.len() && h[k + t] == n[t]
            invariant
                k + n.len() <= h.len(),
                t <= n.len(),
                forall|u: int| 0 <= u < t ==> h@[k + u] == n@[u],
            decreases n.len() - t,
        {
            t = t + 1;
        }
        if t == n.len() {
            assert(h@.subrange(k as int, k + n.len()) =~= n@);
            return true;
        }
        assert(h@.subrange(k as int, k + n.len())[t as int] != n@[t as int]);
        k = k + 1;
    }
    false
}

pub open spec fn seq_contains(h: Seq<char>, n: Seq<char>) -> bool {
    exists|k: int| 0 <= k && k + n.len() <= h.len() && #[trigger] h.subrange(k, k + n.len()) == n
}

/// The position of the first `c` in `s`, or its length where there is none.
pub open spec fn first_index(s: Seq<char>, c: char, i: int) -> int
    decreases s.len() - i,
{
    if i >= s.len() || i < 0 {
        s.len() as int
    } else if s[i] == c {
        i
    } else {
        first_index(s, c, i + 1)
    }
}

pub open spec fn first_line_of(s: Seq<char>) -> Seq<char> {
    s.subrange(0, first_index(s, '\n', 0))
}

/// The user name of an email address: the text before its first `@`.
pub open spec fn username_of(email: Seq<char>) -> Seq<char> {
    email.subrange(0, first_index(email, '@', 0))
}

pub open spec fn display_text(v: ValueM) -> Seq<char> {
    match v {
        ValueM::Str(s) => s,
        ValueM::Bool(b) => if b { "true"@ } else { "false"@ },
        ValueM::Int(i) => int_text(i),
        ValueM::Id(hex, _) => hex,
        ValueM::Shortest(p, r) => p + r,
        ValueM::Sig(name, email, _, _) => name + " <"@ + email + ">"@,
        ValueM::Time(text, _) => text,
    }
}

proof fn lemma_first_index_bounds(s: Seq<char>, c: char, i: int)
    requires
        0 <= i <= s.len(),
    ensures
        i <= first_index(s, c, i) <= s.len(),
    decreases s.len() - i,
{
    if i < s.len() && s[i] != c {
        lemma_first_index_bounds(s, c, i + 1);
    }
}

fn find_char(s: &Vec<char>, c: char) -> (r: usize)
    ensures
        r as int == first_index(s@, c, 0),
        r <= s.len(),
{
    let mut i: usize = 0;
    while i < s.len() && s[i] != c
        invariant
            i <= s.len(),
            first_index(s@, c, i as int) == first_index(s@, c, 0),
        decreases s.len() - i,
    {
        i = i + 1;
    }
    i
}

/// The text up to the first line break, or the whole text where there is none.
pub fn first_line(s: &String) -> (r: String)
    ensures
        r@ == first_line_of(s@),
{
    let v = chars_of(s.as_str());
    let k = find_char(&v, '\n');
    substring(&v, 0, k)
}

/// Splits an email address at its first `@`: the user name, and what follows
/// the `@` where there is one.
pub fn split_email(email: &String) -> (r: (String, Option<String>))
    ensures
        r.0@ == username_of(email@),
        r.1 is Some <==> exists|k: int| 0 <= k < email@.len() && email@[k] == '@',
        r.1 is Some ==> r.1->0@ == email@.subrange(first_index(email@, '@', 0) + 1, email@.len() as int),
{
    let v = chars_of(email.as_str());
    let k = find_char(&v, '@');
    proof {
        lemma_first_index_at(v@, '@', 0);
    }
    if k < v.len() {
        (substring(&v, 0, k), Some(substring(&v, k + 1, v.len())))
    } else {
        (substring(&v, 0, k), None)
    }
}

proof fn lemma_first_index_at(s: Seq<char>, c: char, i: int)
    requires
        0 <= i <= s.len(),
    ensures
        first_index(s, c, i) < s.len() ==> s[first_index(s, c, i)] == c,
        first_index(s, c, i) == s.len() ==> forall|k: int| i <= k < s.len() ==> s[k] != c,
        first_index(s, c, i) < s.len() ==> forall|k: int| i <= k < first_index(s, c, i) ==> s[k] != c,
    decreases s.len() - i,
{
    if i < s.len() && s[i] != c {
        lemma_first_index_at(s, c, i + 1);
    }
}

/// The display text of a value.
pub fn display(v: &Value) -> (r: String)
    ensures
        r@ == display_text(v@),
{
    match v {
        Value::String(s) => s.clone(),
        Value::Boolean(b) => {
            proof {
                reveal_strlit("true");
                reveal_strlit("false");
            }
            if *b {
                "true".to_owned()
            } else {
                "false".to_owned()
            }
        },
        Value::Integer(i) => integer_text(*i),
        Value::CommitOrChangeId(id) => id.hex.clone(),
        Value::ShortestIdPrefix(p) => concat2(p.prefix.as_str(), p.rest.as_str()),
        Value::Signature(s) => {
            proof {
                reveal_strlit(" <");
                reveal_strlit(">");
            }
            let a = concat2(s.name.as_str(), " <");
            let b = concat2(a.as_str(), s.email.as_str());
            concat2(b.as_str(), ">")
        },
        Value::Timestamp(t) => t.text.clone(),
    }
}

pub fn contains(haystack: &String, needle: &String) -> (r: bool)
    ensures
        r == seq_contains(haystack@, needle@),
{
    let h = chars_of(haystack.as_str());
    let n = chars_of(needle.as_str());
    contains_chars(&h, &n)
}

/// The length an optional length argument stands for: the argument where it is
/// given and not negative, else the default.
pub open spec fn length_or(len: Option<int>, default: nat) -> nat {
    match len {
        Some(l) => if l >= 0 { l as nat } else { default },
        None => default,
    }
}

pub open spec fn min_nat(a: nat, b: nat) -> nat {
    if a <= b { a } else { b }
}

pub open spec fn max_nat(a: nat, b: nat) -> nat {
    if a >= b { a } else { b }
}

/// The first `len` digits of an id, or all of them where it has fewer.
pub open spec fn short_of(hex: Seq<char>, len: nat) -> Seq<char> {
    hex.subrange(0, min_nat(len, hex.len()) as int)
}

/// How many digits of an id `shortest` shows: its unique prefix length, or
/// `len` where that is longer, and never more than it has.
pub open spec fn shortest_total(hex: Seq<char>, unique: nat, len: nat) -> int {
    min_nat(max_nat(unique, len), hex.len()) as int
}

/// Where the unique prefix ends among the digits that `shortest` shows.
pub open spec fn shortest_split(hex: Seq<char>, unique: nat, len: nat) -> int {
    min_nat(unique, shortest_total(hex, unique, len) as nat) as int
}

pub open spec fn with_brackets_of(prefix: Seq<char>, rest: Seq<char>) -> Seq<char> {
    if rest.len() == 0 {
        prefix
    } else {
        prefix + "["@ + rest + "]"@
    }
}

pub fn short(id: &CommitOrChangeId, len: usize) -> (r: String)
    ensures
        r@ == short_of(id.hex@, len as nat),
{
    let v = chars_of(id.hex.as_str());
    let n = if len <= v.len() { len } else { v.len() };
    substring(&v, 0, n)
}

/// The unique prefix of an id, and the digits after it up to `len` digits in all.
pub fn shortest(id: &CommitOrChangeId, len: usize) -> (r: ShortestIdPrefix)
    ensures
        r.prefix@ == id.hex@.subrange(0, shortest_split(id.hex@, id.unique_prefix_len as nat, len as nat)),
        r.rest@ == id.hex@.subrange(
            shortest_split(id.hex@, id.unique_prefix_len as nat, len as nat),
            shortest_total(id.hex@, id.unique_prefix_len as nat, len as nat),
        ),
{
    let v = chars_of(id.hex.as_str());
    let m = if id.unique_prefix_len >= len { id.unique_prefix_len } else { len };
    let total = if m <= v.len() { m } else { v.len() };
    let split = if id.unique_prefix_len <= total { id.unique_prefix_len } else { total };
    ShortestIdPrefix { prefix: substring(&v, 0, split), rest: substring(&v, split, total) }
}

pub fn with_brackets(p: &ShortestIdPrefix) -> (r: String)
    ensures
        r@ == with_brackets_of(p.prefix@, p.rest@),
{
    if p.rest.as_str().is_empty() {
        p.prefix.clone()
    } else {
        proof {
            reveal_strlit("[");
            reveal_strlit("]");
        }
        let a = concat2(p.prefix.as_str(), "[");
        let b = concat2(a.as_str(), p.rest.as_str());
        concat2(b.as_str(), "]")
    }
}

} // verus!
