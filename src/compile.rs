//! Compiling template text into an evaluation tree, and rendering records
//! with it.
use vstd::prelude::*;
use crate::ast::{Ast, AstCall};
use crate::builder::{
    ExprM, Keyword, b_expr, b_function, build_expression, find_keyword, into_template, into_tmpl, keywords_view,
    lemma_built_kind, lemma_find_keyword_range, record_fits,
};
use crate::error::{ErrModel, TemplateParseError};
use crate::eval::{
    Chunk, Method, PropM, Property, Template, TmplM, chunks_view, eval, labels_view, plain, plain_text, render,
    render_template, values_view,
};
use crate::parser::{ident_len, p_chain, p_primary, p_template, p_term, p_terms_rest, parse_spec, parse_template, ws_len};
use crate::text::{is_ident_char, is_letter};
use crate::value::{Value, ValueKind, ValueM, display_text};

verus! {

/// What compiling a text against a table of keywords gives: the first error
/// of parsing or building, or the template the text stands for.
pub open spec fn compile_spec(s: Seq<char>, kws: Seq<(Seq<char>, ValueKind)>) -> Result<TmplM, ErrModel> {
    match parse_spec(s) {
        Err(e) => Err(e),
        Ok(n) => match b_expr(n, kws) {
            Err(e) => Err(e),
            Ok(x) => Ok(into_tmpl(x)),
        },
    }
}

pub open spec fn view_compiled(r: Result<Template, TemplateParseError>) -> Result<TmplM, ErrModel> {
    match r {
        Ok(t) => Ok(t.view()),
        Err(e) => Err(e.view()),
    }
}

/// Parses a template text and builds it against a table of keywords.
pub fn compile(template_text: &str, keywords: &Vec<Keyword>) -> (r: Result<Template, TemplateParseError>)
    ensures
        view_compiled(r) == compile_spec(template_text@, keywords_view(keywords@)),
{
    match parse_template(template_text) {
        Err(e) => Err(e),
        Ok(node) => match build_expression(&node, keywords) {
            Err(e) => Err(e),
            Ok(x) => Ok(into_template(x)),
        },
    }
}

/// A property that applies a method to the value of `first`, with an
/// optional argument property.
pub fn chain_properties(first: Property, method: Method, arg: Option<Property>) -> (r: Property)
    ensures
        r.view() == PropM::Method(
            method,
            Box::new(first.view()),
            match arg {
                Some(a) => Some(Box::new(a.view())),
                None => None,
            },
        ),
{
    match arg {
        Some(a) => Property::Method(method, Box::new(first), Some(Box::new(a))),
        None => Property::Method(method, Box::new(first), None),
    }
}

/// The keywords of a commit record, in the order of the record's values.
pub open spec fn commit_keyword_table() -> Seq<(Seq<char>, ValueKind)> {
    seq![
        ("description"@, ValueKind::String),
        ("change_id"@, ValueKind::CommitOrChangeId),
        ("commit_id"@, ValueKind::CommitOrChangeId),
        ("author"@, ValueKind::Signature),
        ("committer"@, ValueKind::Signature),
        ("working_copies"@, ValueKind::String),
        ("current_working_copy"@, ValueKind::Boolean),
        ("branches"@, ValueKind::String),
        ("tags"@, ValueKind::String),
        ("git_refs"@, ValueKind::String),
        ("git_head"@, ValueKind::String),
        ("divergent"@, ValueKind::Boolean),
        ("conflict"@, ValueKind::Boolean),
        ("empty"@, ValueKind::Boolean),
    ]
}

fn keyword(name: &str, kind: ValueKind) -> (r: Keyword)
    ensures
        r.name@ == name@,
        r.kind == kind,
{
    Keyword { name: name.to_owned(), kind }
}

/// The table of keywords of a commit record.
pub fn commit_keywords() -> (r: Vec<Keyword>)
    ensures
        keywords_view(r@) == commit_keyword_table(),
{
    let mut v: Vec<Keyword> = Vec::new();
    v.push(keyword("description", ValueKind::String));
    v.push(keyword("change_id", ValueKind::CommitOrChangeId));
    v.push(keyword("commit_id", ValueKind::CommitOrChangeId));
    v.push(keyword("author", ValueKind::Signature));
    v.push(keyword("committer", ValueKind::Signature));
    v.push(keyword("working_copies", ValueKind::String));
    v.push(keyword("current_working_copy", ValueKind::Boolean));
    v.push(keyword("branches", ValueKind::String));
    v.push(keyword("tags", ValueKind::String));
    v.push(keyword("git_refs", ValueKind::String));
    v.push(keyword("git_head", ValueKind::String));
    v.push(keyword("divergent", ValueKind::Boolean));
    v.push(keyword("conflict", ValueKind::Boolean));
    v.push(keyword("empty", ValueKind::Boolean));
    assert(keywords_view(v@) =~= commit_keyword_table());
    v
}

/// Compiles a template for commit records: its identifiers are the keywords
/// of `commit_keywords`.
pub fn parse_commit_template(template_text: &str) -> (r: Result<Template, TemplateParseError>)
    ensures
        view_compiled(r) == compile_spec(template_text@, commit_keyword_table()),
{
    let kws = commit_keywords();
    compile(template_text, &kws)
}

/// Renders a record with a template: the pieces of text with their labels.
pub fn render_record(template: &Template, record: &Vec<Value>) -> (r: Vec<Chunk>)
    ensures
        chunks_view(r@) == render(template.view(), values_view(record@), Seq::empty()),
{
    let stack: Vec<String> = Vec::new();
    proof {
        assert(labels_view(stack@) =~= Seq::<Seq<char>>::empty());
    }
    render_template(template, record, &stack)
}

/// Renders a record with a template, as plain text.
pub fn render_text(template: &Template, record: &Vec<Value>) -> (r: String)
    ensures
        r@ == plain(render(template.view(), values_view(record@), Seq::empty())),
{
    let cs = render_record(template, record);
    plain_text(&cs)
}

proof fn lemma_ident_len_all(s: Seq<char>, j: int)
    requires
        0 <= j <= s.len(),
        forall|k: int| j <= k < s.len() ==> is_ident_char(#[trigger] s[k]),
    ensures
        ident_len(s, j) == s.len() - j,
    decreases s.len() - j,
{
    if j < s.len() {
        lemma_ident_len_all(s, j + 1);
    }
}

/// A template that is one keyword renders the record's value for it: a text
/// value verbatim, labelled with the keyword's name.
pub proof fn lemma_keyword_renders_verbatim(
    s: Seq<char>,
    kws: Seq<(Seq<char>, ValueKind)>,
    rec: Seq<ValueM>,
    i: int,
    d: Seq<char>,
)
    requires
        s.len() > 0,
        is_letter(s[0]),
        forall|k: int| 0 <= k < s.len() ==> is_ident_char(#[trigger] s[k]),
        find_keyword(kws, s, 0) == Some(i),
        record_fits(kws, rec),
        rec[i] == ValueM::Str(d),
    ensures
        compile_spec(s, kws) == Ok::<TmplM, ErrModel>(
            TmplM::Label(Box::new(TmplM::Value(PropM::Keyword(i as nat))), seq![s]),
        ),
        render(compile_spec(s, kws)->Ok_0, rec, Seq::empty()) == if d.len() == 0 {
            Seq::empty()
        } else {
            seq![(seq![s], d)]
        },
        plain(render(compile_spec(s, kws)->Ok_0, rec, Seq::empty())) == d,
{
    lemma_find_keyword_range(kws, s, 0);
    lemma_ident_len_all(s, 0);
    assert(ws_len(s, 0) == 0);
    assert(s.subrange(0, s.len() as int) =~= s);
    let node = p_primary(s, 0)->Ok_0.0;
    assert(p_primary(s, 0) is Ok && p_primary(s, 0)->Ok_0.1 == s.len());
    assert(p_chain(s, 0, s.len() as int, node) == Ok::<(crate::ast::AstNode, nat), ErrModel>((node, s.len())));
    assert(p_term(s, 0) == Ok::<(crate::ast::AstNode, nat), ErrModel>((node, s.len())));
    assert(ws_len(s, s.len() as int) == 0);
    assert(p_terms_rest(s, 0, s.len() as int, seq![node]) == Ok::<(crate::ast::AstNode, nat), ErrModel>((node, s.len())));
    assert(p_template(s, 0) == Ok::<(crate::ast::AstNode, nat), ErrModel>((node, s.len())));
    assert(node.kind == Ast::Identifier(s));
    assert(parse_spec(s) == Ok::<crate::ast::AstNode, ErrModel>(node));
    let t = TmplM::Value(PropM::Keyword(i as nat));
    assert(eval(PropM::Keyword(i as nat), rec) == rec[i]);
    assert(Seq::<Seq<char>>::empty() + seq![s] =~= seq![s]);
    assert(display_text(rec[i]) == d);
    let out = render(t, rec, seq![s]);
    let e: Seq<(Seq<Seq<char>>, Seq<char>)> = Seq::empty();
    assert(plain(e) =~= Seq::<char>::empty());
    if d.len() > 0 {
        assert(out == seq![(seq![s], d)]);
        assert(out.subrange(0, 0) =~= Seq::<(Seq<Seq<char>>, Seq<char>)>::empty());
        assert(plain(out) =~= d);
    } else {
        assert(out.len() == 0);
        assert(plain(out) =~= d);
    }
}

/// `if(condition, "t", "f")` with a condition that builds to a string property
/// renders `t` where that string is not empty on the record, and `f` where it
/// is empty.
pub proof fn lemma_if_on_string_renders_branch(
    c: AstCall,
    kws: Seq<(Seq<char>, ValueKind)>,
    rec: Seq<ValueM>,
    p: PropM,
    ls: Seq<Seq<char>>,
    t1: Seq<char>,
    t2: Seq<char>,
)
    requires
        c.name == "if"@,
        c.args.len() == 3,
        b_expr(c.args[0], kws) == Ok::<ExprM, ErrModel>(ExprM::Prop(p, ValueKind::String, ls)),
        c.args[1].kind == Ast::Str(t1),
        c.args[2].kind == Ast::Str(t2),
        record_fits(kws, rec),
    ensures
        b_function(c, kws) is Ok,
        plain(render(into_tmpl(b_function(c, kws)->Ok_0), rec, Seq::empty())) == if display_text(
            eval(p, rec),
        ).len() > 0 {
            t1
        } else {
            t2
        },
{
    lemma_built_kind(c.args[0], kws, rec);
    reveal_strlit("if");
    reveal_strlit("label");
    assert("if"@.len() == 2);
    assert("label"@.len() == 5);
    assert(c.name != "label"@);
    let cond = PropM::Method(Method::IsNotEmpty, Box::new(p), None);
    let a = TmplM::Value(PropM::Str(t1));
    let b = TmplM::Value(PropM::Str(t2));
    assert(b_function(c, kws) == Ok::<ExprM, ErrModel>(
        ExprM::Tmpl(TmplM::Cond(cond, Box::new(a), Some(Box::new(b)))),
    ));
    let e: Seq<(Seq<Seq<char>>, Seq<char>)> = Seq::empty();
    assert(plain(e) =~= Seq::<char>::empty());
    assert(eval(PropM::Str(t1), rec) == ValueM::Str(t1));
    assert(eval(PropM::Str(t2), rec) == ValueM::Str(t2));
    assert(display_text(ValueM::Str(t1)) == t1);
    assert(display_text(ValueM::Str(t2)) == t2);
    let ra = render(a, rec, Seq::empty());
    let rb = render(b, rec, Seq::empty());
    if t1.len() > 0 {
        assert(ra == seq![(Seq::<Seq<char>>::empty(), t1)]);
        assert(ra.subrange(0, 0) =~= e);
    } else {
        assert(ra.len() == 0);
    }
    if t2.len() > 0 {
        assert(rb == seq![(Seq::<Seq<char>>::empty(), t2)]);
        assert(rb.subrange(0, 0) =~= e);
    } else {
        assert(rb.len() == 0);
    }
    let x = eval(p, rec);
    assert(x is Str);
    assert(eval(cond, rec) == ValueM::Bool(display_text(x).len() > 0));
    let whole = TmplM::Cond(cond, Box::new(a), Some(Box::new(b)));
    assert(render(whole, rec, Seq::empty()) == if display_text(x).len() > 0 { ra } else { rb });
    assert(plain(render(a, rec, Seq::empty())) =~= t1);
    assert(plain(render(b, rec, Seq::empty())) =~= t2);
}

} // verus!
