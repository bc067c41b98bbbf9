//! Errors of parsing and building templates, and their model.
use vstd::prelude::*;
use crate::ast::{FunctionCallNode, Span};
use crate::text::{byte_offsets, byte_pos, chars_of, offsets_of};
use crate::value::{concat2, nat_text, natural_text};

verus! {

#[derive(Clone, Debug, PartialEq, Eq)]
pub enum TemplateParseErrorKind {
    SyntaxError,
    /// An integer literal out of the range of `i64`.
    ParseIntError,
    NoSuchKeyword(String),
    NoSuchFunction(String),
    NoSuchMethod { kind_name: String, name: String },
    InvalidArgumentCountExact(usize),
    /// Expected from `.0` to `.1` arguments, both included.
    InvalidArgumentCountRange(usize, usize),
    /// Expected at least `.0` arguments.
    InvalidArgumentCountRangeFrom(usize),
    InvalidArgumentType(String),
}

/// An error with the span of the text it is about.
#[derive(Clone, Debug, PartialEq, Eq)]
pub struct TemplateParseError {
    pub kind: TemplateParseErrorKind,
    pub span: Span,
}

/// Model of an error kind.
pub enum ErrKind {
    SyntaxError,
    ParseIntError,
    NoSuchKeyword(Seq<char>),
    NoSuchFunction(Seq<char>),
    NoSuchMethod(Seq<char>, Seq<char>),
    CountExact(nat),
    CountRange(nat, nat),
    CountRangeFrom(nat),
    ArgumentType(Seq<char>),
}

/// Model of an error: its kind and its span.
pub struct ErrModel {
    pub kind: ErrKind,
    pub start: int,
    pub end: int,
}

pub open spec fn syntax_at(p: int) -> ErrModel {
    ErrModel { kind: ErrKind::SyntaxError, start: p, end: p }
}

impl TemplateParseErrorKind {
    pub open spec fn view(&self) -> ErrKind {
        match self {
            TemplateParseErrorKind::SyntaxError => ErrKind::SyntaxError,
            TemplateParseErrorKind::ParseIntError => ErrKind::ParseIntError,
            TemplateParseErrorKind::NoSuchKeyword(n) => ErrKind::NoSuchKeyword(n@),
            TemplateParseErrorKind::NoSuchFunction(n) => ErrKind::NoSuchFunction(n@),
            TemplateParseErrorKind::NoSuchMethod { kind_name, name } => ErrKind::NoSuchMethod(kind_name@, name@),
            TemplateParseErrorKind::InvalidArgumentCountExact(n) => ErrKind::CountExact(*n as nat),
            TemplateParseErrorKind::InvalidArgumentCountRange(a, b) => ErrKind::CountRange(*a as nat, *b as nat),
            TemplateParseErrorKind::InvalidArgumentCountRangeFrom(a) => ErrKind::CountRangeFrom(*a as nat),
            TemplateParseErrorKind::InvalidArgumentType(t) => ErrKind::ArgumentType(t@),
        }
    }
}

impl TemplateParseError {
    pub open spec fn view(&self) -> ErrModel {
        ErrModel { kind: self.kind.view(), start: self.span.start as int, end: self.span.end as int }
    }

    pub fn with_span(kind: TemplateParseErrorKind, span: Span) -> (r: Self)
        ensures
            r.kind == kind,
            r.span == span,
    {
        TemplateParseError { kind, span }
    }

    fn at(kind: TemplateParseErrorKind, span: Span) -> (r: Self)
        ensures
            r@ == (ErrModel { kind: kind.view(), start: span.start as int, end: span.end as int }),
    {
        TemplateParseError { kind, span }
    }

    pub fn no_such_keyword(name: String, span: Span) -> (r: Self)
        ensures
            r@ == (ErrModel { kind: ErrKind::NoSuchKeyword(name@), start: span.start as int, end: span.end as int }),
    {
        Self::at(TemplateParseErrorKind::NoSuchKeyword(name), span)
    }

    pub fn no_such_function(function: &FunctionCallNode) -> (r: Self)
        ensures
            r@ == (ErrModel {
                kind: ErrKind::NoSuchFunction(function.name@),
                start: function.name_span.start as int,
                end: function.name_span.end as int,
            }),
    {
        Self::at(TemplateParseErrorKind::NoSuchFunction(function.name.clone()), function.name_span)
    }

    pub fn no_such_method(kind_name: String, function: &FunctionCallNode) -> (r: Self)
        ensures
            r@ == (ErrModel {
                kind: ErrKind::NoSuchMethod(kind_name@, function.name@),
                start: function.name_span.start as int,
                end: function.name_span.end as int,
            }),
    {
        Self::at(TemplateParseErrorKind::NoSuchMethod { kind_name, name: function.name.clone() }, function.name_span)
    }

    pub fn invalid_argument_count_exact(count: usize, span: Span) -> (r: Self)
        ensures
            r@ == (ErrModel { kind: ErrKind::CountExact(count as nat), start: span.start as int, end: span.end as int }),
    {
        Self::at(TemplateParseErrorKind::InvalidArgumentCountExact(count), span)
    }

    pub fn invalid_argument_count_range(start: usize, end: usize, span: Span) -> (r: Self)
        ensures
            r@ == (ErrModel {
                kind: ErrKind::CountRange(start as nat, end as nat),
                start: span.start as int,
                end: span.end as int,
            }),
    {
        Self::at(TemplateParseErrorKind::InvalidArgumentCountRange(start, end), span)
    }

    pub fn invalid_argument_count_range_from(start: usize, span: Span) -> (r: Self)
        ensures
            r@ == (ErrModel { kind: ErrKind::CountRangeFrom(start as nat), start: span.start as int, end: span.end as int }),
    {
        Self::at(TemplateParseErrorKind::InvalidArgumentCountRangeFrom(start), span)
    }

    pub fn invalid_argument_type(expected_type_name: String, span: Span) -> (r: Self)
        ensures
            r@ == (ErrModel {
                kind: ErrKind::ArgumentType(expected_type_name@),
                start: span.start as int,
                end: span.end as int,
            }),
    {
        Self::at(TemplateParseErrorKind::InvalidArgumentType(expected_type_name), span)
    }

    pub fn syntax(p: usize) -> (r: Self)
        ensures
            r@ == syntax_at(p as int),
    {
        TemplateParseError { kind: TemplateParseErrorKind::SyntaxError, span: Span { start: p, end: p } }
    }

    pub fn kind(&self) -> (r: &TemplateParseErrorKind)
        ensures
            r == self.kind,
    {
        &self.kind
    }
}

pub open spec fn quoted(s: Seq<char>) -> Seq<char> {
    "\""@ + s + "\""@
}

/// The message of an error kind.
pub open spec fn message_of(k: ErrKind) -> Seq<char> {
    match k {
        ErrKind::SyntaxError => "Syntax error"@,
        ErrKind::ParseIntError => "Invalid integer literal: number too large to fit in target type"@,
        ErrKind::NoSuchKeyword(n) => "Keyword "@ + quoted(n) + " doesn't exist"@,
        ErrKind::NoSuchFunction(n) => "Function "@ + quoted(n) + " doesn't exist"@,
        ErrKind::NoSuchMethod(t, n) => "Method "@ + quoted(n) + " doesn't exist for type "@ + quoted(t),
        ErrKind::CountExact(n) => "Expected "@ + nat_text(n) + " arguments"@,
        ErrKind::CountRange(a, b) => "Expected "@ + nat_text(a) + " to "@ + nat_text(b) + " arguments"@,
        ErrKind::CountRangeFrom(a) => "Expected at least "@ + nat_text(a) + " arguments"@,
        ErrKind::ArgumentType(t) => "Expected argument of type "@ + quoted(t),
    }
}

/// The line, counted from 1, of position `p` of a text.
pub open spec fn line_of(s: Seq<char>, p: int) -> nat
    decreases p,
{
    if p <= 0 || p > s.len() {
        1
    } else {
        line_of(s, p - 1) + if s[p - 1] == '\n' {
            1nat
        } else {
            0nat
        }
    }
}

/// The column, counted from 1, of position `p` of a text.
pub open spec fn column_of(s: Seq<char>, p: int) -> nat
    decreases p,
{
    if p <= 0 || p > s.len() {
        1
    } else if s[p - 1] == '\n' {
        1
    } else {
        column_of(s, p - 1) + 1
    }
}

pub open spec fn min_int(a: int, b: int) -> int {
    if a <= b {
        a
    } else {
        b
    }
}

/// The number of characters of `s`, from position `k` on, that end at or
/// before byte offset `b`, added to `k`: the character position of `b`.
pub open spec fn char_pos_from(s: Seq<char>, b: int, k: int) -> int
    decreases s.len() - k,
{
    if 0 <= k < s.len() && byte_pos(s, k + 1) <= b {
        char_pos_from(s, b, k + 1)
    } else {
        k
    }
}

/// Where an error starts in a text, and what it says: `line N, column M: message`.
pub open spec fn description_of(s: Seq<char>, e: ErrModel) -> Seq<char> {
    let p = min_int(char_pos_from(s, e.start, 0), s.len() as int);
    "line "@ + nat_text(line_of(s, p)) + ", column "@ + nat_text(column_of(s, p)) + ": "@ + message_of(e.kind)
}

fn quote(s: &String) -> (r: String)
    ensures
        r@ == quoted(s@),
{
    let a = concat2("\"", s.as_str());
    concat2(a.as_str(), "\"")
}

fn count_text(n: usize) -> (r: String)
    ensures
        r@ == nat_text(n as nat),
{
    natural_text(n as u64)
}

impl TemplateParseErrorKind {
    /// The message of this kind of error.
    pub fn message(&self) -> (r: String)
        ensures
            r@ == message_of(self.view()),
    {
        match self {
            TemplateParseErrorKind::SyntaxError => "Syntax error".to_owned(),
            TemplateParseErrorKind::ParseIntError => "Invalid integer literal: number too large to fit in target type".to_owned(),
            TemplateParseErrorKind::NoSuchKeyword(n) => {
                let a = concat2("Keyword ", quote(n).as_str());
                concat2(a.as_str(), " doesn't exist")
            },
            TemplateParseErrorKind::NoSuchFunction(n) => {
                let a = concat2("Function ", quote(n).as_str());
                concat2(a.as_str(), " doesn't exist")
            },
            TemplateParseErrorKind::NoSuchMethod { kind_name, name } => {
                let a = concat2("Method ", quote(name).as_str());
                let b = concat2(a.as_str(), " doesn't exist for type ");
                concat2(b.as_str(), quote(kind_name).as_str())
            },
            TemplateParseErrorKind::InvalidArgumentCountExact(n) => {
                let a = concat2("Expected ", count_text(*n).as_str());
                concat2(a.as_str(), " arguments")
            },
            TemplateParseErrorKind::InvalidArgumentCountRange(lo, hi) => {
                let a = concat2("Expected ", count_text(*lo).as_str());
                let b = concat2(a.as_str(), " to ");
                let c = concat2(b.as_str(), count_text(*hi).as_str());
                concat2(c.as_str(), " arguments")
            },
            TemplateParseErrorKind::InvalidArgumentCountRangeFrom(lo) => {
                let a = concat2("Expected at least ", count_text(*lo).as_str());
                concat2(a.as_str(), " arguments")
            },
            TemplateParseErrorKind::InvalidArgumentType(t) => concat2("Expected argument of type ", quote(t).as_str()),
        }
    }
}

/// The line and column, both counted from 1, of position `p` of a text.
pub fn line_column(s: &Vec<char>, p: usize) -> (r: (usize, usize))
    requires
        s.len() < usize::MAX,
    ensures
        r.0 as nat == line_of(s@, min_int(p as int, s.len() as int)),
        r.1 as nat == column_of(s@, min_int(p as int, s.len() as int)),
{
    let end = if p <= s.len() { p } else { s.len() };
    let mut line: usize = 1;
    let mut column: usize = 1;
    let mut i: usize = 0;
    while i < end
        invariant
            end <= s.len() < usize::MAX,
            i <= end,
            line as nat == line_of(s@, i as int),
            column as nat == column_of(s@, i as int),
            line <= i + 1,
            column <= i + 1,
        decreases end - i,
    {
        if s[i] == '\n' {
            line = line + 1;
            column = 1;
        } else {
            column = column + 1;
        }
        i = i + 1;
    }
    (line, column)
}

impl TemplateParseError {
    /// Where this error starts in the text it came from, and its message:
    /// `line N, column M: message`.
    pub fn describe(&self, template_text: &str) -> (r: String)
        requires
            template_text@.len() < usize::MAX,
        ensures
            r@ == description_of(template_text@, self.view()),
    {
        let s = chars_of(template_text);
        let offs = byte_offsets(template_text, &s);
        let mut k: usize = 0;
        while k < s.len() && offs[k + 1] <= self.span.start
            invariant
                offsets_of(s@, offs@),
                k <= s.len(),
                char_pos_from(s@, self.span.start as int, k as int) == char_pos_from(s@, self.span.start as int, 0),
            decreases s.len() - k,
        {
            k = k + 1;
        }
        let (line, column) = line_column(&s, k);
        let a = concat2("line ", natural_text(line as u64).as_str());
        let b = concat2(a.as_str(), ", column ");
        let c = concat2(b.as_str(), natural_text(column as u64).as_str());
        let d = concat2(c.as_str(), ": ");
        concat2(d.as_str(), self.kind.message().as_str())
    }
}

} // verus!
