//! Evaluation trees: properties, which compute a value from a record, and
//! templates, which render a record as labelled text; their models, and what
//! evaluating and rendering them gives.
use vstd::prelude::*;
use crate::text::{chars_of, is_unicode_ws, char_is_unicode_ws, string_of};
use crate::value::{
    CommitOrChangeId, ShortestIdPrefix, Signature, Timestamp, Value, ValueM, concat2, contains,
    display, display_text, first_line, first_line_of, length_or, seq_contains, short, short_of,
    shortest, shortest_split, shortest_total, split_email, username_of, with_brackets, with_brackets_of,
};

verus! {

/// The operations a property can apply to the value of another.
#[derive(Clone, Copy, Debug, PartialEq, Eq, Structural)]
pub enum Method {
    /// A string as a boolean: whether it is not empty.
    IsNotEmpty,
    Contains,
    FirstLine,
    Short,
    Shortest,
    WithBrackets,
    Name,
    Email,
    Username,
    Timestamp,
    Ago,
}

/// A computation from a record to a value.
#[derive(Debug)]
pub enum Property {
    /// The record's field at this index.
    Keyword(usize),
    StringLiteral(String),
    IntegerLiteral(i64),
    /// A method applied to the value of a property, with an optional argument.
    Method(Method, Box<Property>, Option<Box<Property>>),
    /// The text of a template, without its labels.
    PlainText(Box<Template>),
}

/// A computation from a record to labelled text.
#[derive(Debug)]
pub enum Template {
    /// The display text of a property's value.
    Value(Property),
    Label(Box<Template>, Vec<String>),
    /// Labels taken from the words of a property's text.
    DynamicLabel(Box<Template>, Property),
    List(Vec<Template>),
    Conditional(Property, Box<Template>, Option<Box<Template>>),
    /// A separator, and the contents it stands between.
    Separate(Box<Template>, Vec<Template>),
}

/// A piece of rendered text and the labels it carries.
#[derive(Debug, PartialEq, Eq)]
pub struct Chunk {
    pub labels: Vec<String>,
    pub text: String,
}

pub enum PropM {
    Keyword(nat),
    Str(Seq<char>),
    Int(int),
    Method(Method, Box<PropM>, Option<Box<PropM>>),
    PlainText(Box<TmplM>),
}

pub enum TmplM {
    Value(PropM),
    Label(Box<TmplM>, Seq<Seq<char>>),
    DynLabel(Box<TmplM>, PropM),
    List(Seq<TmplM>),
    Cond(PropM, Box<TmplM>, Option<Box<TmplM>>),
    Separate(Box<TmplM>, Seq<TmplM>),
}

pub open spec fn labels_view(v: Seq<String>) -> Seq<Seq<char>> {
    v.map_values(|s: String| s@)
}

pub open spec fn values_view(v: Seq<Value>) -> Seq<ValueM> {
    v.map_values(|x: Value| x@)
}

impl Chunk {
    pub open spec fn view(&self) -> (Seq<Seq<char>>, Seq<char>) {
        (labels_view(self.labels@), self.text@)
    }
}

pub open spec fn chunks_view(v: Seq<Chunk>) -> Seq<(Seq<Seq<char>>, Seq<char>)> {
    v.map_values(|c: Chunk| c.view())
}

impl Property {
    pub open spec fn view(&self) -> PropM
        decreases self,
    {
        match self {
            Property::Keyword(i) => PropM::Keyword(*i as nat),
            Property::StringLiteral(s) => PropM::Str(s@),
            Property::IntegerLiteral(v) => PropM::Int(*v as int),
            Property::Method(m, a, b) => PropM::Method(
                *m,
                Box::new(a.view()),
                match b {
                    Some(b) => Some(Box::new(b.view())),
                    None => None,
                },
            ),
            Property::PlainText(t) => PropM::PlainText(Box::new(t.view())),
        }
    }
}

impl Template {
    pub open spec fn view(&self) -> TmplM
        decreases self,
    {
        match self {
            Template::Value(p) => TmplM::Value(p.view()),
            Template::Label(c, ls) => TmplM::Label(Box::new(c.view()), labels_view(ls@)),
            Template::DynamicLabel(c, p) => TmplM::DynLabel(Box::new(c.view()), p.view()),
            Template::List(ts) => TmplM::List(view_templates(ts@)),
            Template::Conditional(p, a, b) => TmplM::Cond(
                p.view(),
                Box::new(a.view()),
                match b {
                    Some(b) => Some(Box::new(b.view())),
                    None => None,
                },
            ),
            Template::Separate(s, ts) => TmplM::Separate(Box::new(s.view()), view_templates(ts@)),
        }
    }
}

pub open spec fn view_templates(v: Seq<Template>) -> Seq<TmplM>
    decreases v,
{
    if v.len() == 0 {
        Seq::empty()
    } else {
        view_templates(v.subrange(0, v.len() - 1)).push(v[v.len() - 1].view())
    }
}

pub proof fn lemma_view_templates(v: Seq<Template>)
    ensures
        view_templates(v).len() == v.len(),
        forall|k: int| 0 <= k < v.len() ==> #[trigger] view_templates(v)[k] == v[k].view(),
    decreases v.len(),
{
    if v.len() > 0 {
        lemma_view_templates(v.subrange(0, v.len() - 1));
    }
}

pub proof fn lemma_view_templates_push(v: Seq<Template>, t: Template)
    ensures
        view_templates(v.push(t)) == view_templates(v).push(t.view()),
{
    assert(v.push(t).subrange(0, v.len() as int) =~= v);
}

/// The integer a value stands for as a length argument, if it is one.
pub open spec fn int_arg(v: Option<ValueM>) -> Option<int> {
    match v {
        Some(ValueM::Int(i)) => if i <= usize::MAX { Some(i) } else { None },
        _ => None,
    }
}

/// What a method gives on a value and an optional argument value. A value of
/// another kind than the method is defined on gives an empty string.
pub open spec fn apply_method(m: Method, x: ValueM, arg: Option<ValueM>) -> ValueM {
    match (m, x) {
        (Method::IsNotEmpty, ValueM::Str(s)) => ValueM::Bool(s.len() > 0),
        (Method::Contains, ValueM::Str(h)) => match arg {
            Some(ValueM::Str(n)) => ValueM::Bool(seq_contains(h, n)),
            _ => ValueM::Bool(false),
        },
        (Method::FirstLine, ValueM::Str(s)) => ValueM::Str(first_line_of(s)),
        (Method::Short, ValueM::Id(hex, _)) => ValueM::Str(short_of(hex, length_or(int_arg(arg), 12))),
        (Method::Shortest, ValueM::Id(hex, u)) => {
            let len = length_or(int_arg(arg), 0);
            let k = shortest_split(hex, u, len);
            ValueM::Shortest(hex.subrange(0, k), hex.subrange(k, shortest_total(hex, u, len)))
        },
        (Method::WithBrackets, ValueM::Shortest(p, r)) => ValueM::Str(with_brackets_of(p, r)),
        (Method::Name, ValueM::Sig(name, _, _, _)) => ValueM::Str(name),
        (Method::Email, ValueM::Sig(_, email, _, _)) => ValueM::Str(email),
        (Method::Username, ValueM::Sig(_, email, _, _)) => ValueM::Str(username_of(email)),
        (Method::Timestamp, ValueM::Sig(_, _, t, r)) => ValueM::Time(t, r),
        (Method::Ago, ValueM::Time(_, r)) => ValueM::Str(r),
        _ => ValueM::Str(Seq::empty()),
    }
}

/// The value of a property on a record; a field index past the record gives
/// an empty string.
pub open spec fn eval(p: PropM, rec: Seq<ValueM>) -> ValueM
    decreases p,
{
    match p {
        PropM::Keyword(i) => if i < rec.len() {
            rec[i as int]
        } else {
            ValueM::Str(Seq::empty())
        },
        PropM::Str(s) => ValueM::Str(s),
        PropM::Int(v) => ValueM::Int(v),
        PropM::Method(m, a, b) => apply_method(
            m,
            eval(*a, rec),
            match b {
                Some(b) => Some(eval(*b, rec)),
                None => None,
            },
        ),
        PropM::PlainText(t) => ValueM::Str(plain(render(*t, rec, Seq::empty()))),
    }
}

pub open spec fn truthy(v: ValueM) -> bool {
    match v {
        ValueM::Bool(b) => b,
        _ => false,
    }
}

/// What a template renders a record to, each piece of text with the labels of
/// `stack` and of the label templates around it. No piece is empty.
pub open spec fn render(t: TmplM, rec: Seq<ValueM>, stack: Seq<Seq<char>>) -> Seq<(Seq<Seq<char>>, Seq<char>)>
    decreases t,
{
    match t {
        TmplM::Value(p) => {
            let text = display_text(eval(p, rec));
            if text.len() == 0 {
                Seq::empty()
            } else {
                seq![(stack, text)]
            }
        },
        TmplM::Label(c, ls) => render(*c, rec, stack + ls),
        TmplM::DynLabel(c, p) => render(*c, rec, stack + words(display_text(eval(p, rec)))),
        TmplM::List(ts) => render_all(ts, rec, stack),
        TmplM::Cond(p, a, b) => if truthy(eval(p, rec)) {
            render(*a, rec, stack)
        } else {
            match b {
                Some(b) => render(*b, rec, stack),
                None => Seq::empty(),
            }
        },
        TmplM::Separate(s, ts) => render_separated(render(*s, rec, stack), ts, rec, stack),
    }
}

/// The renderings of templates one after the other.
pub open spec fn render_all(ts: Seq<TmplM>, rec: Seq<ValueM>, stack: Seq<Seq<char>>) -> Seq<(Seq<Seq<char>>, Seq<char>)>
    decreases ts,
{
    if ts.len() == 0 {
        Seq::empty()
    } else {
        render_all(ts.subrange(0, ts.len() - 1), rec, stack) + render(ts[ts.len() - 1], rec, stack)
    }
}

/// The renderings of templates that are not empty, with `sep` between each two.
pub open spec fn render_separated(
    sep: Seq<(Seq<Seq<char>>, Seq<char>)>,
    ts: Seq<TmplM>,
    rec: Seq<ValueM>,
    stack: Seq<Seq<char>>,
) -> Seq<(Seq<Seq<char>>, Seq<char>)>
    decreases ts,
{
    if ts.len() == 0 {
        Seq::empty()
    } else {
        let prev = render_separated(sep, ts.subrange(0, ts.len() - 1), rec, stack);
        let cur = render(ts[ts.len() - 1], rec, stack);
        if cur.len() == 0 {
            prev
        } else if prev.len() == 0 {
            cur
        } else {
            prev + sep + cur
        }
    }
}

/// The text of rendered pieces, without their labels.
pub open spec fn plain(cs: Seq<(Seq<Seq<char>>, Seq<char>)>) -> Seq<char>
    decreases cs.len(),
{
    if cs.len() == 0 {
        Seq::empty()
    } else {
        plain(cs.subrange(0, cs.len() - 1)) + cs[cs.len() - 1].1
    }
}

/// The words of a text: its longest runs of characters that are not Unicode
/// white space.
pub open spec fn words(s: Seq<char>) -> Seq<Seq<char>> {
    words_from(s, 0, Seq::empty(), Seq::empty())
}

pub open spec fn flush(cur: Seq<char>, acc: Seq<Seq<char>>) -> Seq<Seq<char>> {
    if cur.len() > 0 {
        acc.push(cur)
    } else {
        acc
    }
}

pub open spec fn words_from(s: Seq<char>, i: int, cur: Seq<char>, acc: Seq<Seq<char>>) -> Seq<Seq<char>>
    decreases s.len() - i,
{
    if i < 0 || i >= s.len() {
        flush(cur, acc)
    } else if is_unicode_ws(s[i]) {
        words_from(s, i + 1, Seq::empty(), flush(cur, acc))
    } else {
        words_from(s, i + 1, cur.push(s[i]), acc)
    }
}

fn copy_timestamp(t: &Timestamp) -> (r: Timestamp)
    ensures
        r.text@ == t.text@,
        r.relative@ == t.relative@,
{
    Timestamp { text: t.text.clone(), relative: t.relative.clone() }
}

/// A copy of a value.
pub fn copy_value(v: &Value) -> (r: Value)
    ensures
        r@ == v@,
{
    match v {
        Value::String(s) => Value::String(s.clone()),
        Value::Boolean(b) => Value::Boolean(*b),
        Value::Integer(i) => Value::Integer(*i),
        Value::CommitOrChangeId(id) => Value::CommitOrChangeId(
            CommitOrChangeId { hex: id.hex.clone(), unique_prefix_len: id.unique_prefix_len },
        ),
        Value::ShortestIdPrefix(p) => Value::ShortestIdPrefix(
            ShortestIdPrefix { prefix: p.prefix.clone(), rest: p.rest.clone() },
        ),
        Value::Signature(sig) => Value::Signature(
            Signature { name: sig.name.clone(), email: sig.email.clone(), timestamp: copy_timestamp(&sig.timestamp) },
        ),
        Value::Timestamp(t) => Value::Timestamp(copy_timestamp(t)),
    }
}

/// The labels of `a` followed by those of `b`.
pub fn concat_labels(a: &Vec<String>, b: &Vec<String>) -> (r: Vec<String>)
    ensures
        labels_view(r@) == labels_view(a@) + labels_view(b@),
{
    let mut r: Vec<String> = Vec::new();
    let mut i: usize = 0;
    while i < a.len()
        invariant
            i <= a.len(),
            r@ =~= a@.subrange(0, i as int),
        decreases a.len() - i,
    {
        r.push(a[i].clone());
        i = i + 1;
    }
    let mut j: usize = 0;
    while j < b.len()
        invariant
            i == a.len(),
            j <= b.len(),
            r@ =~= a@ + b@.subrange(0, j as int),
        decreases b.len() - j,
    {
        r.push(b[j].clone());
        j = j + 1;
    }
    assert(labels_view(r@) =~= labels_view(a@) + labels_view(b@));
    r
}

proof fn lemma_labels_push(v: Seq<String>, s: String)
    ensures
        labels_view(v.push(s)) == labels_view(v).push(s@),
{
    assert(labels_view(v.push(s)) =~= labels_view(v).push(s@));
}

/// The words of a text, as labels.
pub fn split_words(s: &String) -> (r: Vec<String>)
    ensures
        labels_view(r@) == words(s@),
{
    let v = chars_of(s.as_str());
    let mut acc: Vec<String> = Vec::new();
    let mut cur: Vec<char> = Vec::new();
    let mut i: usize = 0;
    assert(labels_view(acc@) =~= Seq::<Seq<char>>::empty());
    while i < v.len()
        invariant
            i <= v.len(),
            words_from(v@, i as int, cur@, labels_view(acc@)) == words(v@),
        decreases v.len() - i,
    {
        if char_is_unicode_ws(v[i]) {
            if cur.len() > 0 {
                let w = string_of(&cur);
                proof {
                    lemma_labels_push(acc@, w);
                }
                acc.push(w);
            }
            cur = Vec::new();
        } else {
            cur.push(v[i]);
        }
        i = i + 1;
    }
    if cur.len() > 0 {
        let w = string_of(&cur);
        proof {
            lemma_labels_push(acc@, w);
        }
        acc.push(w);
    }
    acc
}

/// The text of rendered pieces, without their labels.
pub fn plain_text(cs: &Vec<Chunk>) -> (r: String)
    ensures
        r@ == plain(chunks_view(cs@)),
{
    let mut r = String::new();
    let mut i: usize = 0;
    while i < cs.len()
        invariant
            i <= cs.len(),
            r@ == plain(chunks_view(cs@.subrange(0, i as int))),
        decreases cs.len() - i,
    {
        assert(chunks_view(cs@.subrange(0, i + 1)).subrange(0, i as int) =~= chunks_view(cs@.subrange(0, i as int)));
        r = concat2(r.as_str(), cs[i].text.as_str());
        i = i + 1;
    }
    assert(cs@.subrange(0, cs.len() as int) =~= cs@);
    r
}

fn optional_length(arg: &Option<Value>, default: usize) -> (r: usize)
    ensures
        r as nat == length_or(
            int_arg(
                match arg {
                    Some(v) => Some(v@),
                    None => None,
                },
            ),
            default as nat,
        ),
{
    match arg {
        Some(Value::Integer(l)) => {
            if *l >= 0 && (*l as u64) <= (usize::MAX as u64) {
                *l as usize
            } else {
                default
            }
        },
        _ => default,
    }
}

/// Applies a method to a value and an optional argument value.
pub fn apply(m: Method, x: &Value, arg: &Option<Value>) -> (r: Value)
    ensures
        r@ == apply_method(
            m,
            x@,
            match arg {
                Some(v) => Some(v@),
                None => None,
            },
        ),
{
    match (m, x) {
        (Method::IsNotEmpty, Value::String(s)) => Value::Boolean(!s.as_str().is_empty()),
        (Method::Contains, Value::String(h)) => match arg {
            Some(Value::String(n)) => Value::Boolean(contains(h, n)),
            _ => Value::Boolean(false),
        },
        (Method::FirstLine, Value::String(s)) => Value::String(first_line(s)),
        (Method::Short, Value::CommitOrChangeId(id)) => Value::String(short(id, optional_length(arg, 12))),
        (Method::Shortest, Value::CommitOrChangeId(id)) => Value::ShortestIdPrefix(
            shortest(id, optional_length(arg, 0)),
        ),
        (Method::WithBrackets, Value::ShortestIdPrefix(p)) => Value::String(with_brackets(p)),
        (Method::Name, Value::Signature(sig)) => Value::String(sig.name.clone()),
        (Method::Email, Value::Signature(sig)) => Value::String(sig.email.clone()),
        (Method::Username, Value::Signature(sig)) => {
            let (user, _) = split_email(&sig.email);
            Value::String(user)
        },
        (Method::Timestamp, Value::Signature(sig)) => Value::Timestamp(copy_timestamp(&sig.timestamp)),
        (Method::Ago, Value::Timestamp(t)) => Value::String(t.relative.clone()),
        _ => Value::String(String::new()),
    }
}

/// Evaluates a property on a record.
pub fn eval_property(p: &Property, rec: &Vec<Value>) -> (r: Value)
    ensures
        r@ == eval(p.view(), values_view(rec@)),
    decreases p,
{
    match p {
        Property::Keyword(i) => {
            if *i < rec.len() {
                copy_value(&rec[*i])
            } else {
                Value::String(String::new())
            }
        },
        Property::StringLiteral(s) => Value::String(s.clone()),
        Property::IntegerLiteral(v) => Value::Integer(*v),
        Property::Method(m, a, b) => {
            let x = eval_property(a, rec);
            let arg = match b {
                Some(b) => Some(eval_property(b, rec)),
                None => None,
            };
            apply(*m, &x, &arg)
        },
        Property::PlainText(t) => {
            let empty: Vec<String> = Vec::new();
            proof {
                assert(labels_view(empty@) =~= Seq::<Seq<char>>::empty());
            }
            let cs = render_template(t, rec, &empty);
            Value::String(plain_text(&cs))
        },
    }
}

proof fn lemma_chunks_append(a: Seq<Chunk>, b: Seq<Chunk>)
    ensures
        chunks_view(a + b) == chunks_view(a) + chunks_view(b),
{
    assert(chunks_view(a + b) =~= chunks_view(a) + chunks_view(b));
}

/// Renders a template on a record, within the labels of `stack`.
pub fn render_template(t: &Template, rec: &Vec<Value>, stack: &Vec<String>) -> (r: Vec<Chunk>)
    ensures
        chunks_view(r@) == render(t.view(), values_view(rec@), labels_view(stack@)),
    decreases t,
{
    match t {
        Template::Value(p) => {
            let v = eval_property(p, rec);
            let text = display(&v);
            let mut r: Vec<Chunk> = Vec::new();
            if !text.as_str().is_empty() {
                let labels = concat_labels(stack, &Vec::new());
                proof {
                    assert(labels_view(Seq::<String>::empty()) =~= Seq::<Seq<char>>::empty());
                    assert(labels_view(stack@) + Seq::<Seq<char>>::empty() =~= labels_view(stack@));
                }
                r.push(Chunk { labels, text });
                assert(chunks_view(r@) =~= seq![(labels_view(stack@), text@)]);
            } else {
                assert(chunks_view(r@) =~= Seq::empty());
            }
            r
        },
        Template::Label(c, ls) => {
            let st = concat_labels(stack, ls);
            render_template(c, rec, &st)
        },
        Template::DynamicLabel(c, p) => {
            let v = eval_property(p, rec);
            let text = display(&v);
            let ws = split_words(&text);
            let st = concat_labels(stack, &ws);
            render_template(c, rec, &st)
        },
        Template::List(ts) => {
            let mut r: Vec<Chunk> = Vec::new();
            let mut i: usize = 0;
            proof {
                lemma_view_templates(ts@);
            }
            proof {
                assert(decreases_to!(*t => *ts));
            }
            while i < ts.len()
                invariant
                    decreases_to!(*t => *ts),
                    i <= ts.len(),
                    view_templates(ts@).len() == ts.len(),
                    forall|k: int| 0 <= k < ts.len() ==> #[trigger] view_templates(ts@)[k] == ts@[k].view(),
                    chunks_view(r@) == render_all(
                        view_templates(ts@).subrange(0, i as int),
                        values_view(rec@),
                        labels_view(stack@),
                    ),
                decreases ts.len() - i,
            {
                proof {
                    vstd::std_specs::vec::axiom_vec_index_decreases(*ts, i as int);
                    assert(decreases_to!(*t => ts[i as int]));
                }
                let mut cur = render_template(&ts[i], rec, stack);
                proof {
                    lemma_chunks_append(r@, cur@);
                    assert(view_templates(ts@).subrange(0, i + 1).subrange(0, i as int) =~= view_templates(
                        ts@,
                    ).subrange(0, i as int));
                }
                r.append(&mut cur);
                i = i + 1;
            }
            assert(view_templates(ts@).subrange(0, ts.len() as int) =~= view_templates(ts@));
            r
        },
        Template::Conditional(p, a, b) => {
            let v = eval_property(p, rec);
            let yes = match v {
                Value::Boolean(x) => x,
                _ => false,
            };
            if yes {
                render_template(a, rec, stack)
            } else {
                match b {
                    Some(b) => render_template(b, rec, stack),
                    None => Vec::new(),
                }
            }
        },
        Template::Separate(sep, ts) => {
            let sep_chunks = render_template(sep, rec, stack);
            let mut r: Vec<Chunk> = Vec::new();
            let mut i: usize = 0;
            proof {
                lemma_view_templates(ts@);
            }
            proof {
                assert(decreases_to!(*t => *ts));
            }
            while i < ts.len()
                invariant
                    decreases_to!(*t => *ts),
                    i <= ts.len(),
                    view_templates(ts@).len() == ts.len(),
                    forall|k: int| 0 <= k < ts.len() ==> #[trigger] view_templates(ts@)[k] == ts@[k].view(),
                    chunks_view(r@) == render_separated(
                        chunks_view(sep_chunks@),
                        view_templates(ts@).subrange(0, i as int),
                        values_view(rec@),
                        labels_view(stack@),
                    ),
                decreases ts.len() - i,
            {
                proof {
                    vstd::std_specs::vec::axiom_vec_index_decreases(*ts, i as int);
                    assert(decreases_to!(*t => ts[i as int]));
                }
                let mut cur = render_template(&ts[i], rec, stack);
                proof {
                    assert(view_templates(ts@).subrange(0, i + 1).subrange(0, i as int) =~= view_templates(
                        ts@,
                    ).subrange(0, i as int));
                }
                if cur.len() > 0 {
                    if r.len() > 0 {
                        let mut s = copy_chunks(&sep_chunks);
                        proof {
                            lemma_chunks_append(r@, s@);
                            lemma_chunks_append(r@ + s@, cur@);
                        }
                        r.append(&mut s);
                    } else {
                        proof {
                            lemma_chunks_append(r@, cur@);
                        }
                    }
                    r.append(&mut cur);
                }
                i = i + 1;
            }
            assert(view_templates(ts@).subrange(0, ts.len() as int) =~= view_templates(ts@));
            r
        },
    }
}

/// A copy of rendered pieces.
pub fn copy_chunks(cs: &Vec<Chunk>) -> (r: Vec<Chunk>)
    ensures
        chunks_view(r@) == chunks_view(cs@),
{
    let mut r: Vec<Chunk> = Vec::new();
    let mut i: usize = 0;
    while i < cs.len()
        invariant
            i <= cs.len(),
            r.len() == i,
            forall|k: int| 0 <= k < i ==> #[trigger] r@[k].view() == cs@[k].view(),
        decreases cs.len() - i,
    {
        let labels = concat_labels(&cs[i].labels, &Vec::new());
        proof {
            assert(labels_view(Seq::<String>::empty()) =~= Seq::<Seq<char>>::empty());
            assert(labels_view(cs@[i as int].labels@) + Seq::<Seq<char>>::empty() =~= labels_view(cs@[i as int].labels@));
        }
        r.push(Chunk { labels, text: cs[i].text.clone() });
        i = i + 1;
    }
    assert(chunks_view(r@) =~= chunks_view(cs@));
    r
}

} // verus!
