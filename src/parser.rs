//! The template grammar, stated as spec functions over the characters of the
//! text, and a recursive-descent parser proved to compute exactly them.
//!
//! ```text
//! program   := ws* EOI | template EOI
//! template  := ws* term (ws+ term)* ws*      (several terms make a list)
//! term      := primary ("." call)*
//! primary   := "(" template ")" | call | identifier | string | integer
//! call      := identifier "(" (ws* | template ("," template)* ("," ws*)?) ")"
//! string    := '"' (char but '"' or '\' | '\"' | '\\' | '\n')* '"'
//! integer   := "0" | nonzero digit*
//! identifier:= letter (letter | digit | "_")*
//! ```
use vstd::prelude::*;
use crate::ast::{
    Ast, AstCall, AstNode, ExpressionKind, ExpressionNode, FunctionCallNode, MethodCallNode, Span,
    view_nodes, lemma_view_nodes_push, lemma_view_nodes_index,
};
use crate::error::{ErrKind, ErrModel, TemplateParseError, TemplateParseErrorKind, syntax_at};
use crate::text::{
    is_ws, is_letter, is_digit, is_ident_char, starts_term, char_is_ws, char_is_letter, char_is_digit,
    char_is_ident_char, substring, string_of, chars_of, byte_pos, offsets_of, byte_offsets,
};

verus! {

pub open spec fn ws_len(s: Seq<char>, i: int) -> nat
    decreases s.len() - i,
{
    if 0 <= i < s.len() && is_ws(s[i]) {
        1 + ws_len(s, i + 1)
    } else {
        0
    }
}

pub open spec fn ident_len(s: Seq<char>, i: int) -> nat
    decreases s.len() - i,
{
    if 0 <= i < s.len() && is_ident_char(s[i]) {
        1 + ident_len(s, i + 1)
    } else {
        0
    }
}

pub open spec fn digits_len(s: Seq<char>, i: int) -> nat
    decreases s.len() - i,
{
    if 0 <= i < s.len() && is_digit(s[i]) {
        1 + digits_len(s, i + 1)
    } else {
        0
    }
}

pub open spec fn digit_value(c: char) -> int {
    (c as u32) as int - ('0' as u32) as int
}

/// The decimal value of the `n` characters of `s` from `i`.
pub open spec fn digits_value(s: Seq<char>, i: int, n: nat) -> int
    decreases n,
{
    if n == 0 {
        0
    } else {
        digits_value(s, i, (n - 1) as nat) * 10 + digit_value(s[i + n - 1])
    }
}

/// The model of a successful parse at a position: a node and how many
/// characters it covers.
pub type Parsed = Result<(AstNode, nat), ErrModel>;

pub open spec fn p_template(s: Seq<char>, i: int) -> Parsed
    decreases s.len() - i, 4nat,
{
    if i > s.len() {
        Err(syntax_at(byte_pos(s, i)))
    } else {
        let j = i + ws_len(s, i);
        if j > s.len() {
            Err(syntax_at(byte_pos(s, j)))
        } else {
            match p_term(s, j) {
                Err(e) => Err(e),
                Ok((t, n)) => if j + n > s.len() {
                    Err(syntax_at(byte_pos(s, j + n)))
                } else {
                    p_terms_rest(s, i, j + n, seq![t])
                },
            }
        }
    }
}

/// The terms after the first one of a template that starts at `i`.
pub open spec fn p_terms_rest(s: Seq<char>, i: int, k: int, acc: Seq<AstNode>) -> Parsed
    decreases s.len() - k, 3nat,
{
    let m = k + ws_len(s, k);
    if k < m < s.len() && starts_term(s[m]) {
        match p_term(s, m) {
            Err(e) => Err(e),
            Ok((t, n)) => if m + n > s.len() {
                Err(syntax_at(byte_pos(s, m + n)))
            } else {
                p_terms_rest(s, i, m + n, acc.push(t))
            },
        }
    } else if acc.len() == 1 {
        Ok((acc[0], (m - i) as nat))
    } else {
        Ok((AstNode { kind: Ast::List(acc), start: byte_pos(s, i), end: byte_pos(s, m) }, (m - i) as nat))
    }
}

pub open spec fn p_term(s: Seq<char>, j: int) -> Parsed
    decreases s.len() - j, 3nat,
{
    if j < 0 || j >= s.len() {
        Err(syntax_at(byte_pos(s, j)))
    } else {
        match p_primary(s, j) {
            Err(e) => Err(e),
            Ok((p, n)) => if j + n > s.len() {
                Err(syntax_at(byte_pos(s, j + n)))
            } else {
                p_chain(s, j, j + n, p)
            },
        }
    }
}

/// The method calls that follow a primary expression starting at `j`.
pub open spec fn p_chain(s: Seq<char>, j: int, k: int, obj: AstNode) -> Parsed
    decreases s.len() - k, 2nat,
{
    if 0 <= k < s.len() && s[k] == '.' {
        match p_call(s, k + 1) {
            Err(e) => Err(e),
            Ok((c, n)) => if k + 1 + n > s.len() {
                Err(syntax_at(byte_pos(s, k + 1 + n)))
            } else {
                p_chain(
                    s,
                    j,
                    k + 1 + n,
                    AstNode { kind: Ast::Method(Box::new(obj), c), start: byte_pos(s, k + 1), end: byte_pos(s, k + 1 + n) },
                )
            },
        }
    } else {
        Ok((obj, (k - j) as nat))
    }
}

pub open spec fn p_call(s: Seq<char>, j: int) -> Result<(AstCall, nat), ErrModel>
    decreases s.len() - j, 1nat,
{
    let e = j + ident_len(s, j);
    if 0 <= j < s.len() && is_letter(s[j]) && e < s.len() && s[e] == '(' {
        match p_args(s, e + 1) {
            Err(err) => Err(err),
            Ok((args, n)) => Ok(
                (
                    AstCall {
                        name: s.subrange(j, e),
                        name_start: byte_pos(s, j),
                        name_end: byte_pos(s, e),
                        args,
                        args_start: byte_pos(s, e + 1),
                        args_end: byte_pos(s, e + 1 + n),
                    },
                    (e + 2 + n - j) as nat,
                ),
            ),
        }
    } else {
        Err(syntax_at(byte_pos(s, e)))
    }
}

/// The arguments of a call, from just after its `(`: the nodes, and how many
/// characters they cover up to the closing `)`.
pub open spec fn p_args(s: Seq<char>, p: int) -> Result<(Seq<AstNode>, nat), ErrModel>
    decreases s.len() - p, 5nat,
{
    let q = p + ws_len(s, p);
    if 0 <= q < s.len() && s[q] == ')' {
        Ok((seq![], (q - p) as nat))
    } else {
        match p_template(s, p) {
            Err(e) => Err(e),
            Ok((a, n)) => if p + n > s.len() {
                Err(syntax_at(byte_pos(s, p + n)))
            } else {
                p_args_rest(s, p, p + n, seq![a])
            },
        }
    }
}

pub open spec fn p_args_rest(s: Seq<char>, p: int, k: int, acc: Seq<AstNode>) -> Result<
    (Seq<AstNode>, nat),
    ErrModel,
>
    decreases s.len() - k, 4nat,
{
    if 0 <= k < s.len() && s[k] == ',' {
        let q = k + 1 + ws_len(s, k + 1);
        if q < s.len() && s[q] == ')' {
            Ok((acc, (q - p) as nat))
        } else {
            match p_template(s, k + 1) {
                Err(e) => Err(e),
                Ok((a, n)) => if k + 1 + n > s.len() {
                    Err(syntax_at(byte_pos(s, k + 1 + n)))
                } else {
                    p_args_rest(s, p, k + 1 + n, acc.push(a))
                },
            }
        }
    } else if 0 <= k < s.len() && s[k] == ')' {
        Ok((acc, (k - p) as nat))
    } else {
        Err(syntax_at(byte_pos(s, k)))
    }
}

/// The body of a string literal from position `i`, after its opening quote at
/// `start - 1`; `acc` holds what is decoded so far.
pub open spec fn p_string(s: Seq<char>, start: int, i: int, acc: Seq<char>) -> Result<
    (Seq<char>, nat),
    ErrModel,
>
    decreases s.len() - i,
{
    if i < 0 || i >= s.len() {
        Err(syntax_at(byte_pos(s, i)))
    } else if s[i] == '"' {
        Ok((acc, (i + 1 - start) as nat))
    } else if s[i] == '\\' {
        if i + 1 < s.len() && (s[i + 1] == '"' || s[i + 1] == '\\') {
            p_string(s, start, i + 2, acc.push(s[i + 1]))
        } else if i + 1 < s.len() && s[i + 1] == 'n' {
            p_string(s, start, i + 2, acc.push('\n'))
        } else {
            Err(syntax_at(byte_pos(s, i)))
        }
    } else {
        p_string(s, start, i + 1, acc.push(s[i]))
    }
}

pub open spec fn p_primary(s: Seq<char>, j: int) -> Parsed
    decreases s.len() - j, 2nat,
{
    if j < 0 || j >= s.len() {
        Err(syntax_at(byte_pos(s, j)))
    } else if s[j] == '(' {
        match p_template(s, j + 1) {
            Err(e) => Err(e),
            Ok((t, n)) => if j + 1 + n < s.len() && s[j + 1 + n] == ')' {
                Ok((t, n + 2))
            } else {
                Err(syntax_at(byte_pos(s, j + 1 + n)))
            },
        }
    } else if s[j] == '"' {
        match p_string(s, j, j + 1, seq![]) {
            Err(e) => Err(e),
            Ok((t, n)) => Ok((AstNode { kind: Ast::Str(t), start: byte_pos(s, j), end: byte_pos(s, j + n) }, n)),
        }
    } else if s[j] == '0' {
        Ok((AstNode { kind: Ast::Integer(0), start: byte_pos(s, j), end: byte_pos(s, j + 1) }, 1))
    } else if is_digit(s[j]) {
        let n = digits_len(s, j);
        let v = digits_value(s, j, n);
        if v > i64::MAX {
            Err(ErrModel { kind: ErrKind::ParseIntError, start: byte_pos(s, j), end: byte_pos(s, j + n) })
        } else {
            Ok((AstNode { kind: Ast::Integer(v), start: byte_pos(s, j), end: byte_pos(s, j + n) }, n))
        }
    } else if is_letter(s[j]) {
        let e = j + ident_len(s, j);
        if e < s.len() && s[e] == '(' {
            match p_call(s, j) {
                Err(err) => Err(err),
                Ok((c, n)) => Ok((AstNode { kind: Ast::Call(c), start: byte_pos(s, j), end: byte_pos(s, j + n) }, n)),
            }
        } else {
            Ok((AstNode { kind: Ast::Identifier(s.subrange(j, e)), start: byte_pos(s, j), end: byte_pos(s, e) }, (e - j) as nat))
        }
    } else {
        Err(syntax_at(byte_pos(s, j)))
    }
}

/// What the whole text parses to: an empty list for blank text, else one
/// template that must reach the end of the text.
pub open spec fn parse_spec(s: Seq<char>) -> Result<AstNode, ErrModel> {
    if ws_len(s, 0) == s.len() {
        Ok(AstNode { kind: Ast::List(seq![]), start: byte_pos(s, s.len() as int), end: byte_pos(s, s.len() as int) })
    } else {
        match p_template(s, 0) {
            Err(e) => Err(e),
            Ok((t, n)) => if n == s.len() {
                Ok(t)
            } else {
                Err(syntax_at(byte_pos(s, n as int)))
            },
        }
    }
}

/// An argument list whose first character after white space is a comma is a
/// syntax error: a comma needs an argument before it.
pub proof fn lemma_leading_comma_rejected(s: Seq<char>, p: int)
    requires
        0 <= p <= s.len(),
        p + ws_len(s, p) < s.len(),
        s[p + ws_len(s, p)] == ',',
    ensures
        p_args(s, p) is Err,
{
    let q = p + ws_len(s, p);
    assert(p_primary(s, q) is Err);
    assert(p_term(s, q) is Err);
    assert(p_template(s, p) is Err);
}

/// After an argument, a comma followed (past white space) by another comma is
/// a syntax error.
pub proof fn lemma_doubled_comma_rejected(s: Seq<char>, p: int, k: int, acc: Seq<AstNode>)
    requires
        0 <= k,
        k + 1 + ws_len(s, k + 1) < s.len(),
        s[k] == ',',
        s[k + 1 + ws_len(s, k + 1)] == ',',
    ensures
        p_args_rest(s, p, k, acc) is Err,
{
    let q = k + 1 + ws_len(s, k + 1);
    assert(p_primary(s, q) is Err);
    assert(p_term(s, q) is Err);
    assert(p_template(s, k + 1) is Err);
}

/// After an argument, a comma followed (past white space) by the closing
/// parenthesis ends the argument list: one trailing comma is allowed.
pub proof fn lemma_trailing_comma_accepted(s: Seq<char>, p: int, k: int, acc: Seq<AstNode>)
    requires
        0 <= k,
        k + 1 + ws_len(s, k + 1) < s.len(),
        s[k] == ',',
        s[k + 1 + ws_len(s, k + 1)] == ')',
    ensures
        p_args_rest(s, p, k, acc) == Ok::<(Seq<AstNode>, nat), ErrModel>((acc, (k + 1 + ws_len(s, k + 1) - p) as nat)),
{
}

/// Parentheses are transparent: a parenthesized template parses to the node
/// of the template inside, covering the parentheses too.
pub proof fn lemma_parentheses_transparent(s: Seq<char>, j: int, t: AstNode, n: nat)
    requires
        0 <= j < s.len(),
        s[j] == '(',
        p_template(s, j + 1) == Ok::<(AstNode, nat), ErrModel>((t, n)),
        j + 1 + n < s.len(),
        s[j + 1 + n] == ')',
    ensures
        p_primary(s, j) == Ok::<(AstNode, nat), ErrModel>((t, n + 2)),
{
}

/// A template of one term collapses to that term's own node.
pub proof fn lemma_single_term_collapses(s: Seq<char>, i: int, k: int, t: AstNode)
    requires
        !(k < k + ws_len(s, k) < s.len() && starts_term(s[k + ws_len(s, k)])),
    ensures
        p_terms_rest(s, i, k, seq![t]) == Ok::<(AstNode, nat), ErrModel>((t, (k + ws_len(s, k) - i) as nat)),
{
}

/// A term that follows white space joins the terms before it.
pub proof fn lemma_juxtaposed_term_joins(s: Seq<char>, i: int, k: int, acc: Seq<AstNode>, t: AstNode, n: nat)
    requires
        k < k + ws_len(s, k) < s.len(),
        starts_term(s[k + ws_len(s, k)]),
        p_term(s, k + ws_len(s, k)) == Ok::<(AstNode, nat), ErrModel>((t, n)),
        k + ws_len(s, k) + n <= s.len(),
    ensures
        p_terms_rest(s, i, k, acc) == p_terms_rest(s, i, k + ws_len(s, k) + n, acc.push(t)),
{
}

/// Two or more terms, with no term after them, form a list that covers the
/// template from its start to the end of its trailing white space.
pub proof fn lemma_terms_form_list(s: Seq<char>, i: int, k: int, acc: Seq<AstNode>)
    requires
        acc.len() >= 2,
        !(k < k + ws_len(s, k) < s.len() && starts_term(s[k + ws_len(s, k)])),
    ensures
        p_terms_rest(s, i, k, acc) == Ok::<(AstNode, nat), ErrModel>(
            (
                AstNode { kind: Ast::List(acc), start: byte_pos(s, i), end: byte_pos(s, k + ws_len(s, k)) },
                (k + ws_len(s, k) - i) as nat,
            ),
        ),
{
}

/// An integer literal that starts with a nonzero digit runs over all the
/// digits that follow, and gives their decimal value, or an integer error
/// over the literal where that value exceeds `i64::MAX`.
pub proof fn lemma_integer_literal(s: Seq<char>, j: int)
    requires
        0 <= j < s.len(),
        is_digit(s[j]),
        s[j] != '0',
    ensures
        digits_value(s, j, digits_len(s, j)) > i64::MAX ==> p_primary(s, j) == Err::<(AstNode, nat), ErrModel>(
            ErrModel {
                kind: ErrKind::ParseIntError,
                start: byte_pos(s, j),
                end: byte_pos(s, j + digits_len(s, j)),
            },
        ),
        digits_value(s, j, digits_len(s, j)) <= i64::MAX ==> p_primary(s, j) == Ok::<(AstNode, nat), ErrModel>(
            (
                AstNode {
                    kind: Ast::Integer(digits_value(s, j, digits_len(s, j))),
                    start: byte_pos(s, j),
                    end: byte_pos(s, j + digits_len(s, j)),
                },
                digits_len(s, j),
            ),
        ),
{
}

/// A leading zero is refused: a text that starts with `0` and another digit
/// does not parse.
pub proof fn lemma_leading_zero_rejected(s: Seq<char>)
    requires
        s.len() >= 2,
        s[0] == '0',
        is_digit(s[1]),
    ensures
        parse_spec(s) is Err,
{
    assert(ws_len(s, 0) == 0);
    let node = AstNode { kind: Ast::Integer(0), start: byte_pos(s, 0), end: byte_pos(s, 1) };
    assert(p_primary(s, 0) == Ok::<(AstNode, nat), ErrModel>((node, 1)));
    assert(p_chain(s, 0, 1, node) == Ok::<(AstNode, nat), ErrModel>((node, 1)));
    assert(p_term(s, 0) == Ok::<(AstNode, nat), ErrModel>((node, 1)));
    assert(ws_len(s, 1) == 0);
    assert(p_terms_rest(s, 0, 1, seq![node]) == Ok::<(AstNode, nat), ErrModel>((node, 1)));
    assert(p_template(s, 0) == Ok::<(AstNode, nat), ErrModel>((node, 1)));
}

pub open spec fn view_parsed(r: Result<(ExpressionNode, usize), TemplateParseError>) -> Parsed {
    match r {
        Ok((n, c)) => Ok((n.view(), c as nat)),
        Err(e) => Err(e.view()),
    }
}

pub open spec fn view_call(r: Result<(FunctionCallNode, usize), TemplateParseError>) -> Result<
    (AstCall, nat),
    ErrModel,
> {
    match r {
        Ok((c, n)) => Ok((c.view(), n as nat)),
        Err(e) => Err(e.view()),
    }
}

pub open spec fn view_args(r: Result<(Vec<ExpressionNode>, usize), TemplateParseError>) -> Result<
    (Seq<AstNode>, nat),
    ErrModel,
> {
    match r {
        Ok((v, n)) => Ok((view_nodes(v@), n as nat)),
        Err(e) => Err(e.view()),
    }
}

pub open spec fn fits<T>(r: Result<(T, usize), TemplateParseError>, i: int, len: int) -> bool {
    match r {
        Ok((_, n)) => i + n <= len,
        Err(_) => true,
    }
}

pub open spec fn view_result(r: Result<ExpressionNode, TemplateParseError>) -> Result<AstNode, ErrModel> {
    match r {
        Ok(n) => Ok(n.view()),
        Err(e) => Err(e.view()),
    }
}

fn skip_ws(s: &Vec<char>, i: usize) -> (j: usize)
    requires
        i <= s.len(),
    ensures
        j == i + ws_len(s@, i as int),
        j <= s.len(),
{
    let mut j = i;
    while j < s.len() && char_is_ws(s[j])
        invariant
            i <= j <= s.len(),
            i + ws_len(s@, i as int) == j + ws_len(s@, j as int),
        decreases s.len() - j,
    {
        j = j + 1;
    }
    j
}

fn ident_end(s: &Vec<char>, i: usize) -> (j: usize)
    requires
        i <= s.len(),
    ensures
        j == i + ident_len(s@, i as int),
        j <= s.len(),
{
    let mut j = i;
    while j < s.len() && char_is_ident_char(s[j])
        invariant
            i <= j <= s.len(),
            i + ident_len(s@, i as int) == j + ident_len(s@, j as int),
        decreases s.len() - j,
    {
        j = j + 1;
    }
    j
}

fn digits_end(s: &Vec<char>, i: usize) -> (j: usize)
    requires
        i <= s.len(),
    ensures
        j == i + digits_len(s@, i as int),
        j <= s.len(),
        forall|k: int| i <= k < j ==> is_digit(#[trigger] s@[k]),
{
    let mut j = i;
    while j < s.len() && char_is_digit(s[j])
        invariant
            i <= j <= s.len(),
            i + digits_len(s@, i as int) == j + digits_len(s@, j as int),
            forall|k: int| i <= k < j ==> is_digit(#[trigger] s@[k]),
        decreases s.len() - j,
    {
        j = j + 1;
    }
    j
}

proof fn lemma_digits_mono(s: Seq<char>, i: int, a: nat, b: nat)
    requires
        a <= b,
        0 <= i,
        i + b <= s.len(),
        forall|k: int| i <= k < i + b ==> is_digit(#[trigger] s[k]),
    ensures
        0 <= digits_value(s, i, a) <= digits_value(s, i, b),
    decreases b,
{
    if b > 0 {
        if a == b {
            lemma_digits_mono(s, i, (b - 1) as nat, (b - 1) as nat);
        } else {
            lemma_digits_mono(s, i, a, (b - 1) as nat);
        }
        assert(is_digit(s[i + b - 1]));
    }
}

/// The value of the `n` digits from `j`, or `None` where it exceeds `i64::MAX`.
fn digits_to_i64(s: &Vec<char>, j: usize, n: usize) -> (r: Option<i64>)
    requires
        j + n <= s.len(),
        forall|k: int| j <= k < j + n ==> is_digit(#[trigger] s@[k]),
    ensures
        r is Some <==> digits_value(s@, j as int, n as nat) <= i64::MAX,
        r is Some ==> r->0 as int == digits_value(s@, j as int, n as nat),
{
    let mut v: i64 = 0;
    let mut k: usize = 0;
    while k < n
        invariant
            k <= n,
            j + n <= s.len(),
            forall|x: int| j <= x < j + n ==> is_digit(#[trigger] s@[x]),
            v as int == digits_value(s@, j as int, k as nat),
            0 <= v,
        decreases n - k,
    {
        let c = s[j + k];
        assert(is_digit(s@[j + k]));
        let d: i64 = (c as u32 - '0' as u32) as i64;
        if v > 922337203685477580 || (v == 922337203685477580 && d > 7) {
            proof {
                lemma_digits_mono(s@, j as int, (k + 1) as nat, n as nat);
            }
            return None;
        }
        v = v * 10 + d;
        k = k + 1;
    }
    Some(v)
}

fn parse_template_at(s: &Vec<char>, offs: &Vec<usize>, i: usize) -> (r: Result<(ExpressionNode, usize), TemplateParseError>)
    requires
        offsets_of(s@, offs@),
        i <= s.len(),
    ensures
        view_parsed(r) == p_template(s@, i as int),
        fits(r, i as int, s.len() as int),
    decreases s@.len() - i, 4nat,
{
    let j = skip_ws(s, i);
    match parse_term_at(s, offs, j) {
        Err(e) => Err(e),
        Ok((t, n)) => {
            let mut acc: Vec<ExpressionNode> = Vec::new();
            proof {
                lemma_view_nodes_push(acc@, t);
            }
            acc.push(t);
            proof {
                assert(view_nodes(Seq::<ExpressionNode>::empty()) =~= Seq::<AstNode>::empty());
                assert(view_nodes(acc@) =~= seq![t.view()]);
            }
            parse_terms_rest(s, offs, i, j + n, acc)
        },
    }
}

fn parse_terms_rest(s: &Vec<char>, offs: &Vec<usize>, i: usize, k: usize, acc: Vec<ExpressionNode>) -> (r: Result<
    (ExpressionNode, usize),
    TemplateParseError,
>)
    requires
        offsets_of(s@, offs@),
        i <= k <= s.len(),
        acc.len() >= 1,
    ensures
        view_parsed(r) == p_terms_rest(s@, i as int, k as int, view_nodes(acc@)),
        fits(r, i as int, s.len() as int),
    decreases s@.len() - k, 3nat,
{
    let m = skip_ws(s, k);
    proof {
        lemma_view_nodes_index(acc@);
    }
    if k < m && m < s.len() && (s[m] == '(' || s[m] == '"' || char_is_digit(s[m]) || char_is_letter(s[m])) {
        match parse_term_at(s, offs, m) {
            Err(e) => Err(e),
            Ok((t, n)) => {
                let mut acc = acc;
                proof {
                    lemma_view_nodes_push(acc@, t);
                }
                acc.push(t);
                parse_terms_rest(s, offs, i, m + n, acc)
            },
        }
    } else if acc.len() == 1 {
        let mut acc = acc;
        let t = acc.pop().unwrap();
        Ok((t, m - i))
    } else {
        Ok((ExpressionNode { kind: ExpressionKind::List(acc), span: Span { start: offs[i], end: offs[m] } }, m - i))
    }
}

fn parse_term_at(s: &Vec<char>, offs: &Vec<usize>, j: usize) -> (r: Result<(ExpressionNode, usize), TemplateParseError>)
    requires
        offsets_of(s@, offs@),
        j <= s.len(),
    ensures
        view_parsed(r) == p_term(s@, j as int),
        fits(r, j as int, s.len() as int),
    decreases s@.len() - j, 3nat,
{
    if j >= s.len() {
        return Err(TemplateParseError::syntax(offs[j]));
    }
    match parse_primary(s, offs, j) {
        Err(e) => Err(e),
        Ok((p, n)) => parse_chain(s, offs, j, j + n, p),
    }
}

fn parse_chain(s: &Vec<char>, offs: &Vec<usize>, j: usize, k: usize, obj: ExpressionNode) -> (r: Result<
    (ExpressionNode, usize),
    TemplateParseError,
>)
    requires
        offsets_of(s@, offs@),
        j <= k <= s.len(),
    ensures
        view_parsed(r) == p_chain(s@, j as int, k as int, obj.view()),
        fits(r, j as int, s.len() as int),
    decreases s@.len() - k, 2nat,
{
    if k < s.len() && s[k] == '.' {
        match parse_call(s, offs, k + 1) {
            Err(e) => Err(e),
            Ok((c, n)) => {
                let node = ExpressionNode {
                    kind: ExpressionKind::MethodCall(MethodCallNode { object: Box::new(obj), function: c }),
                    span: Span { start: offs[k + 1], end: offs[k + 1 + n] },
                };
                parse_chain(s, offs, j, k + 1 + n, node)
            },
        }
    } else {
        Ok((obj, k - j))
    }
}

fn parse_call(s: &Vec<char>, offs: &Vec<usize>, j: usize) -> (r: Result<(FunctionCallNode, usize), TemplateParseError>)
    requires
        offsets_of(s@, offs@),
        j <= s.len(),
    ensures
        view_call(r) == p_call(s@, j as int),
        fits(r, j as int, s.len() as int),
    decreases s@.len() - j, 1nat,
{
    let e = ident_end(s, j);
    if j < s.len() && char_is_letter(s[j]) && e < s.len() && s[e] == '(' {
        match parse_args(s, offs, e + 1) {
            Err(err) => Err(err),
            Ok((args, n)) => {
                let name = substring(s, j, e);
                let call = FunctionCallNode {
                    name,
                    name_span: Span { start: offs[j], end: offs[e] },
                    args,
                    args_span: Span { start: offs[e + 1], end: offs[e + 1 + n] },
                };
                Ok((call, e + 2 + n - j))
            },
        }
    } else {
        Err(TemplateParseError::syntax(offs[e]))
    }
}

fn parse_args(s: &Vec<char>, offs: &Vec<usize>, p: usize) -> (r: Result<(Vec<ExpressionNode>, usize), TemplateParseError>)
    requires
        offsets_of(s@, offs@),
        p <= s.len(),
    ensures
        view_args(r) == p_args(s@, p as int),
        fits(r, p as int + 1, s.len() as int),
    decreases s@.len() - p, 5nat,
{
    let q = skip_ws(s, p);
    if q < s.len() && s[q] == ')' {
        let v: Vec<ExpressionNode> = Vec::new();
        proof {
            assert(view_nodes(v@) =~= Seq::<AstNode>::empty());
        }
        Ok((v, q - p))
    } else {
        match parse_template_at(s, offs, p) {
            Err(e) => Err(e),
            Ok((a, n)) => {
                let mut acc: Vec<ExpressionNode> = Vec::new();
                proof {
                    lemma_view_nodes_push(acc@, a);
                }
                acc.push(a);
                proof {
                    assert(view_nodes(Seq::<ExpressionNode>::empty()) =~= Seq::<AstNode>::empty());
                    assert(view_nodes(acc@) =~= seq![a.view()]);
                }
                parse_args_rest(s, offs, p, p + n, acc)
            },
        }
    }
}

fn parse_args_rest(s: &Vec<char>, offs: &Vec<usize>, p: usize, k: usize, acc: Vec<ExpressionNode>) -> (r: Result<
    (Vec<ExpressionNode>, usize),
    TemplateParseError,
>)
    requires
        offsets_of(s@, offs@),
        p <= k <= s.len(),
    ensures
        view_args(r) == p_args_rest(s@, p as int, k as int, view_nodes(acc@)),
        fits(r, p as int + 1, s.len() as int),
    decreases s@.len() - k, 4nat,
{
    if k < s.len() && s[k] == ',' {
        let q = skip_ws(s, k + 1);
        if q < s.len() && s[q] == ')' {
            Ok((acc, q - p))
        } else {
            match parse_template_at(s, offs, k + 1) {
                Err(e) => Err(e),
                Ok((a, n)) => {
                    let mut acc = acc;
                    proof {
                        lemma_view_nodes_push(acc@, a);
                    }
                    acc.push(a);
                    parse_args_rest(s, offs, p, k + 1 + n, acc)
                },
            }
        }
    } else if k < s.len() && s[k] == ')' {
        Ok((acc, k - p))
    } else {
        Err(TemplateParseError::syntax(offs[k]))
    }
}

pub open spec fn view_string(r: Result<(Vec<char>, usize), TemplateParseError>) -> Result<
    (Seq<char>, nat),
    ErrModel,
> {
    match r {
        Ok((v, n)) => Ok((v@, n as nat)),
        Err(e) => Err(e.view()),
    }
}

/// Decodes the string literal whose opening quote is at `q`.
fn parse_string_literal(s: &Vec<char>, offs: &Vec<usize>, q: usize) -> (r: Result<(Vec<char>, usize), TemplateParseError>)
    requires
        offsets_of(s@, offs@),
        q < s.len(),
    ensures
        view_string(r) == p_string(s@, q as int, q + 1, seq![]),
        fits(r, q as int, s.len() as int),
{
    let mut acc: Vec<char> = Vec::new();
    let mut i: usize = q + 1;
    loop
        invariant
            offsets_of(s@, offs@),
            q < i <= s.len(),
            p_string(s@, q as int, i as int, acc@) == p_string(s@, q as int, q + 1, seq![]),
        decreases s.len() - i,
    {
        if i >= s.len() {
            return Err(TemplateParseError::syntax(offs[i]));
        }
        let c = s[i];
        if c == '"' {
            return Ok((acc, i + 1 - q));
        } else if c == '\\' {
            if i + 1 < s.len() && (s[i + 1] == '"' || s[i + 1] == '\\') {
                acc.push(s[i + 1]);
                i = i + 2;
            } else if i + 1 < s.len() && s[i + 1] == 'n' {
                acc.push('\n');
                i = i + 2;
            } else {
                return Err(TemplateParseError::syntax(offs[i]));
            }
        } else {
            acc.push(c);
            i = i + 1;
        }
    }
}

fn parse_primary(s: &Vec<char>, offs: &Vec<usize>, j: usize) -> (r: Result<(ExpressionNode, usize), TemplateParseError>)
    requires
        offsets_of(s@, offs@),
        j <= s.len(),
    ensures
        view_parsed(r) == p_primary(s@, j as int),
        fits(r, j as int, s.len() as int),
    decreases s@.len() - j, 2nat,
{
    if j >= s.len() {
        return Err(TemplateParseError::syntax(offs[j]));
    }
    let c = s[j];
    if c == '(' {
        match parse_template_at(s, offs, j + 1) {
            Err(e) => Err(e),
            Ok((t, n)) => {
                if j + 1 + n < s.len() && s[j + 1 + n] == ')' {
                    Ok((t, n + 2))
                } else {
                    Err(TemplateParseError::syntax(offs[j + 1 + n]))
                }
            },
        }
    } else if c == '"' {
        match parse_string_literal(s, offs, j) {
            Err(e) => Err(e),
            Ok((t, n)) => {
                let text = string_of(&t);
                Ok((ExpressionNode { kind: ExpressionKind::String(text), span: Span { start: offs[j], end: offs[j + n] } }, n))
            },
        }
    } else if c == '0' {
        Ok((ExpressionNode { kind: ExpressionKind::Integer(0), span: Span { start: offs[j], end: offs[j + 1] } }, 1))
    } else if char_is_digit(c) {
        let e = digits_end(s, j);
        match digits_to_i64(s, j, e - j) {
            None => Err(
                TemplateParseError::with_span(TemplateParseErrorKind::ParseIntError, Span { start: offs[j], end: offs[e] }),
            ),
            Some(v) => Ok(
                (ExpressionNode { kind: ExpressionKind::Integer(v), span: Span { start: offs[j], end: offs[e] } }, e - j),
            ),
        }
    } else if char_is_letter(c) {
        let e = ident_end(s, j);
        if e < s.len() && s[e] == '(' {
            match parse_call(s, offs, j) {
                Err(err) => Err(err),
                Ok((call, n)) => Ok(
                    (ExpressionNode { kind: ExpressionKind::FunctionCall(call), span: Span { start: offs[j], end: offs[j + n] } }, n),
                ),
            }
        } else {
            let name = substring(s, j, e);
            Ok((ExpressionNode { kind: ExpressionKind::Identifier(name), span: Span { start: offs[j], end: offs[e] } }, e - j))
        }
    } else {
        Err(TemplateParseError::syntax(offs[j]))
    }
}

/// Parses the characters of a template into its expression tree.
fn parse_chars(s: &Vec<char>, offs: &Vec<usize>) -> (r: Result<ExpressionNode, TemplateParseError>)
    requires
        offsets_of(s@, offs@),
    ensures
        view_result(r) == parse_spec(s@),
{
    let j = skip_ws(s, 0);
    if j == s.len() {
        let v: Vec<ExpressionNode> = Vec::new();
        proof {
            assert(view_nodes(v@) =~= Seq::<AstNode>::empty());
        }
        return Ok(ExpressionNode { kind: ExpressionKind::List(v), span: Span { start: offs[s.len()], end: offs[s.len()] } });
    }
    match parse_template_at(s, offs, 0) {
        Err(e) => Err(e),
        Ok((t, n)) => {
            if n == s.len() {
                Ok(t)
            } else {
                Err(TemplateParseError::syntax(offs[n]))
            }
        },
    }
}

/// Parses text into AST nodes. No type or name checking is made at this stage.
pub fn parse_template(template_text: &str) -> (r: Result<ExpressionNode, TemplateParseError>)
    ensures
        view_result(r) == parse_spec(template_text@),
{
    let s = chars_of(template_text);
    let offs = byte_offsets(template_text, &s);
    parse_chars(&s, &offs)
}

} // verus!
