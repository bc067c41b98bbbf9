//! The semantic pass: from an expression tree to an evaluation tree, with
//! identifiers resolved against a table of keywords, and every function and
//! method checked for its name, its number of arguments and their kinds.
use vstd::prelude::*;
use crate::ast::{
    Ast, AstCall, AstNode, ExpressionKind, ExpressionNode, FunctionCallNode, lemma_view_nodes_index,
    view_nodes,
};
use crate::error::{ErrKind, ErrModel, TemplateParseError};
use crate::eval::{
    Method, PropM, Property, Template, TmplM, eval, labels_view, lemma_view_templates_push,
    view_templates,
};
use crate::value::{ValueKind, ValueM, kind_name, kind_name_string, kind_of};
use crate::compile::chain_properties;

verus! {

/// A name the host gives to a field of its records, with the field's kind.
/// A table of them resolves identifiers: the `i`-th entry stands for the
/// record's `i`-th value.
#[derive(Debug)]
pub struct Keyword {
    pub name: String,
    pub kind: ValueKind,
}

pub open spec fn keywords_view(v: Seq<Keyword>) -> Seq<(Seq<char>, ValueKind)> {
    v.map_values(|k: Keyword| (k.name@, k.kind))
}

/// A built expression: a property of a known kind with the labels gathered
/// on its way, or a template.
#[derive(Debug)]
pub enum Expression {
    Property(Property, ValueKind, Vec<String>),
    Template(Template),
}

pub enum ExprM {
    Prop(PropM, ValueKind, Seq<Seq<char>>),
    Tmpl(TmplM),
}

impl Expression {
    pub open spec fn view(&self) -> ExprM {
        match self {
            Expression::Property(p, k, ls) => ExprM::Prop(p.view(), *k, labels_view(ls@)),
            Expression::Template(t) => ExprM::Tmpl(t.view()),
        }
    }
}

/// The first entry of the table with this name.
pub open spec fn find_keyword(kws: Seq<(Seq<char>, ValueKind)>, name: Seq<char>, i: int) -> Option<int>
    decreases kws.len() - i,
{
    if i < 0 || i >= kws.len() {
        None
    } else if kws[i].0 == name {
        Some(i)
    } else {
        find_keyword(kws, name, i + 1)
    }
}

/// A property as a template: its display text, within its labels if it has any.
pub open spec fn into_tmpl(e: ExprM) -> TmplM {
    match e {
        ExprM::Prop(p, _, ls) => if ls.len() == 0 {
            TmplM::Value(p)
        } else {
            TmplM::Label(Box::new(TmplM::Value(p)), ls)
        },
        ExprM::Tmpl(t) => t,
    }
}

/// An expression as a string property: a string property as it is, anything
/// else as its text without labels.
pub open spec fn into_plain(e: ExprM) -> PropM {
    match e {
        ExprM::Prop(p, k, _) => if k == ValueKind::String {
            p
        } else {
            PropM::PlainText(Box::new(TmplM::Value(p)))
        },
        ExprM::Tmpl(t) => PropM::PlainText(Box::new(t)),
    }
}

/// An expression as a condition: a boolean property as it is, a string
/// property as whether it is not empty; nothing else is one.
pub open spec fn as_condition(e: ExprM) -> Option<PropM> {
    match e {
        ExprM::Prop(p, k, _) => if k == ValueKind::Boolean {
            Some(p)
        } else if k == ValueKind::String {
            Some(PropM::Method(Method::IsNotEmpty, Box::new(p), None))
        } else {
            None
        },
        ExprM::Tmpl(_) => None,
    }
}

pub open spec fn err_at(kind: ErrKind, start: int, end: int) -> ErrModel {
    ErrModel { kind, start, end }
}

pub open spec fn count_exact(n: nat, c: AstCall) -> ErrModel {
    err_at(ErrKind::CountExact(n), c.args_start, c.args_end)
}

pub open spec fn no_such_method(kind_text: Seq<char>, c: AstCall) -> ErrModel {
    err_at(ErrKind::NoSuchMethod(kind_text, c.name), c.name_start, c.name_end)
}

/// Exactly `n` arguments.
pub open spec fn exact_args(c: AstCall, n: nat) -> Result<(), ErrModel> {
    if c.args.len() == n {
        Ok(())
    } else {
        Err(count_exact(n, c))
    }
}

/// At least `n` arguments.
pub open spec fn some_args(c: AstCall, n: nat) -> Result<(), ErrModel> {
    if c.args.len() >= n {
        Ok(())
    } else {
        Err(err_at(ErrKind::CountRangeFrom(n), c.args_start, c.args_end))
    }
}

/// `n` arguments, and up to `m` more.
pub open spec fn ranged_args(c: AstCall, n: nat, m: nat) -> Result<(), ErrModel> {
    if n <= c.args.len() <= n + m {
        Ok(())
    } else {
        Err(err_at(ErrKind::CountRange(n, n + m), c.args_start, c.args_end))
    }
}

pub type Built = Result<ExprM, ErrModel>;

/// What an expression node builds to, against a table of keywords.
pub open spec fn b_expr(n: AstNode, kws: Seq<(Seq<char>, ValueKind)>) -> Built
    decreases n,
{
    match n.kind {
        Ast::Identifier(name) => match find_keyword(kws, name, 0) {
            None => Err(err_at(ErrKind::NoSuchKeyword(name), n.start, n.end)),
            Some(i) => Ok(ExprM::Prop(PropM::Keyword(i as nat), kws[i].1, seq![name])),
        },
        Ast::Integer(v) => Ok(ExprM::Prop(PropM::Int(v), ValueKind::Integer, Seq::empty())),
        Ast::Str(t) => Ok(ExprM::Prop(PropM::Str(t), ValueKind::String, Seq::empty())),
        Ast::List(ns) => match b_templates(ns, kws) {
            Err(e) => Err(e),
            Ok(ts) => Ok(ExprM::Tmpl(TmplM::List(ts))),
        },
        Ast::Call(c) => b_function(c, kws),
        Ast::Method(obj, c) => match b_expr(*obj, kws) {
            Err(e) => Err(e),
            Ok(ExprM::Tmpl(_)) => Err(no_such_method("Template"@, c)),
            Ok(ExprM::Prop(p, k, ls)) => match b_method(k, p, c, kws) {
                Err(e) => Err(e),
                Ok((q, k2)) => Ok(ExprM::Prop(q, k2, ls.push(c.name))),
            },
        },
    }
}

/// The templates that nodes build to, in order; the first error where one fails.
pub open spec fn b_templates(ns: Seq<AstNode>, kws: Seq<(Seq<char>, ValueKind)>) -> Result<Seq<TmplM>, ErrModel>
    decreases ns,
{
    if ns.len() == 0 {
        Ok(Seq::empty())
    } else {
        match b_templates(ns.subrange(0, ns.len() - 1), kws) {
            Err(e) => Err(e),
            Ok(ts) => match b_expr(ns[ns.len() - 1], kws) {
                Err(e) => Err(e),
                Ok(x) => Ok(ts.push(into_tmpl(x))),
            },
        }
    }
}

/// What a call of a global function builds to: `label`, `if` or `separate`.
pub open spec fn b_function(c: AstCall, kws: Seq<(Seq<char>, ValueKind)>) -> Built
    decreases c,
{
    let n = c.args.len();
    if c.name == "label"@ {
        if let Err(e) = exact_args(c, 2) {
            Err(e)
        } else {
            match b_expr(c.args[0], kws) {
                Err(e) => Err(e),
                Ok(l) => match b_expr(c.args[1], kws) {
                    Err(e) => Err(e),
                    Ok(x) => Ok(ExprM::Tmpl(TmplM::DynLabel(Box::new(into_tmpl(x)), into_plain(l)))),
                },
            }
        }
    } else if c.name == "if"@ {
        if let Err(e) = ranged_args(c, 2, 1) {
            Err(e)
        } else {
            match b_expr(c.args[0], kws) {
                Err(e) => Err(e),
                Ok(e0) => match as_condition(e0) {
                    None => Err(err_at(ErrKind::ArgumentType("Boolean"@), c.args[0].start, c.args[0].end)),
                    Some(cond) => match b_expr(c.args[1], kws) {
                        Err(e) => Err(e),
                        Ok(t) => if n == 3 {
                            match b_expr(c.args[2], kws) {
                                Err(e) => Err(e),
                                Ok(f) => Ok(
                                    ExprM::Tmpl(
                                        TmplM::Cond(cond, Box::new(into_tmpl(t)), Some(Box::new(into_tmpl(f)))),
                                    ),
                                ),
                            }
                        } else {
                            Ok(ExprM::Tmpl(TmplM::Cond(cond, Box::new(into_tmpl(t)), None)))
                        },
                    },
                },
            }
        }
    } else if c.name == "separate"@ {
        if let Err(e) = some_args(c, 1) {
            Err(e)
        } else {
            match b_expr(c.args[0], kws) {
                Err(e) => Err(e),
                Ok(sep) => match b_templates(c.args.subrange(1, n as int), kws) {
                    Err(e) => Err(e),
                    Ok(ts) => Ok(ExprM::Tmpl(TmplM::Separate(Box::new(into_tmpl(sep)), ts))),
                },
            }
        }
    } else {
        Err(err_at(ErrKind::NoSuchFunction(c.name), c.name_start, c.name_end))
    }
}

/// A method without arguments.
pub open spec fn b_plain_method(c: AstCall, p: PropM, m: Method, k: ValueKind) -> Result<(PropM, ValueKind), ErrModel> {
    if let Err(e) = exact_args(c, 0) {
        Err(e)
    } else {
        Ok((PropM::Method(m, Box::new(p), None), k))
    }
}

/// An argument that must be an integer property, from what its node built to.
pub open spec fn integer_arg(b: Built, node: AstNode) -> Result<Option<Box<PropM>>, ErrModel> {
    match b {
        Err(e) => Err(e),
        Ok(ExprM::Prop(q, ValueKind::Integer, _)) => Ok(Some(Box::new(q))),
        Ok(_) => Err(err_at(ErrKind::ArgumentType("Integer"@), node.start, node.end)),
    }
}

/// What a method call on a property of kind `k` builds to: the new property and its kind.
pub open spec fn b_method(k: ValueKind, p: PropM, c: AstCall, kws: Seq<(Seq<char>, ValueKind)>) -> Result<
    (PropM, ValueKind),
    ErrModel,
>
    decreases c,
{
    match k {
        ValueKind::String => if c.name == "contains"@ {
            if let Err(e) = exact_args(c, 1) {
                Err(e)
            } else {
                match b_expr(c.args[0], kws) {
                    Err(e) => Err(e),
                    Ok(x) => Ok(
                        (PropM::Method(Method::Contains, Box::new(p), Some(Box::new(into_plain(x)))), ValueKind::Boolean),
                    ),
                }
            }
        } else if c.name == "first_line"@ {
            b_plain_method(c, p, Method::FirstLine, ValueKind::String)
        } else {
            Err(no_such_method(kind_name(k), c))
        },
        ValueKind::CommitOrChangeId => if c.name == "short"@ || c.name == "shortest"@ {
            let arg = if let Err(e) = ranged_args(c, 0, 1) {
                Err(e)
            } else if c.args.len() == 0 {
                Ok(None)
            } else {
                integer_arg(b_expr(c.args[0], kws), c.args[0])
            };
            match arg {
                Err(e) => Err(e),
                Ok(arg) => if c.name == "short"@ {
                    Ok((PropM::Method(Method::Short, Box::new(p), arg), ValueKind::String))
                } else {
                    Ok((PropM::Method(Method::Shortest, Box::new(p), arg), ValueKind::ShortestIdPrefix))
                },
            }
        } else {
            Err(no_such_method(kind_name(k), c))
        },
        ValueKind::ShortestIdPrefix => if c.name == "with_brackets"@ {
            b_plain_method(c, p, Method::WithBrackets, ValueKind::String)
        } else {
            Err(no_such_method(kind_name(k), c))
        },
        ValueKind::Signature => if c.name == "name"@ {
            b_plain_method(c, p, Method::Name, ValueKind::String)
        } else if c.name == "email"@ {
            b_plain_method(c, p, Method::Email, ValueKind::String)
        } else if c.name == "username"@ {
            b_plain_method(c, p, Method::Username, ValueKind::String)
        } else if c.name == "timestamp"@ {
            b_plain_method(c, p, Method::Timestamp, ValueKind::Timestamp)
        } else {
            Err(no_such_method(kind_name(k), c))
        },
        ValueKind::Timestamp => if c.name == "ago"@ {
            b_plain_method(c, p, Method::Ago, ValueKind::String)
        } else {
            Err(no_such_method(kind_name(k), c))
        },
        _ => Err(no_such_method(kind_name(k), c)),
    }
}

/// A record fits a table of keywords: it has one value for each keyword, of
/// the keyword's kind.
pub open spec fn record_fits(kws: Seq<(Seq<char>, ValueKind)>, rec: Seq<ValueM>) -> bool {
    &&& rec.len() == kws.len()
    &&& forall|i: int| 0 <= i < kws.len() ==> kind_of(#[trigger] rec[i]) == kws[i].1
}

pub proof fn lemma_find_keyword_range(kws: Seq<(Seq<char>, ValueKind)>, name: Seq<char>, j: int)
    ensures
        match find_keyword(kws, name, j) {
            Some(i) => j <= i < kws.len() && kws[i].0 == name,
            None => true,
        },
    decreases kws.len() - j,
{
    if 0 <= j < kws.len() && kws[j].0 != name {
        lemma_find_keyword_range(kws, name, j + 1);
    }
}

proof fn lemma_method_kind(k: ValueKind, p: PropM, c: AstCall, kws: Seq<(Seq<char>, ValueKind)>, rec: Seq<ValueM>)
    requires
        kind_of(eval(p, rec)) == k,
    ensures
        match b_method(k, p, c, kws) {
            Ok((q, k2)) => kind_of(eval(q, rec)) == k2,
            _ => true,
        },
{
    if let Ok((q, k2)) = b_method(k, p, c, kws) {
        let x = eval(p, rec);
        match k {
            ValueKind::String => {
                assert(x is Str);
            },
            ValueKind::CommitOrChangeId => {
                assert(x is Id);
            },
            ValueKind::ShortestIdPrefix => {
                assert(x is Shortest);
            },
            ValueKind::Signature => {
                assert(x is Sig);
            },
            ValueKind::Timestamp => {
                assert(x is Time);
            },
            _ => {},
        }
    }
}

/// Building is sound for kinds: on a record that fits the table, a property
/// built to kind `k` evaluates to a value of kind `k`.
pub proof fn lemma_built_kind(n: AstNode, kws: Seq<(Seq<char>, ValueKind)>, rec: Seq<ValueM>)
    requires
        record_fits(kws, rec),
    ensures
        match b_expr(n, kws) {
            Ok(ExprM::Prop(p, k, _)) => kind_of(eval(p, rec)) == k,
            _ => true,
        },
    decreases n,
{
    match n.kind {
        Ast::Identifier(name) => {
            lemma_find_keyword_range(kws, name, 0);
            if let Some(i) = find_keyword(kws, name, 0) {
                assert(kind_of(rec[i]) == kws[i].1);
                assert(eval(PropM::Keyword(i as nat), rec) == rec[i]);
            }
        },
        Ast::Method(obj, c) => {
            lemma_built_kind(*obj, kws, rec);
            if let Ok(ExprM::Prop(p, k, ls)) = b_expr(*obj, kws) {
                lemma_method_kind(k, p, c, kws, rec);
            }
        },
        Ast::Call(c) => {
            assert(b_function(c, kws) is Err || b_function(c, kws)->Ok_0 is Tmpl);
        },
        Ast::List(ns) => {},
        Ast::Integer(v) => {},
        Ast::Str(t) => {},
    }
}

pub open spec fn view_built(r: Result<Expression, TemplateParseError>) -> Built {
    match r {
        Ok(e) => Ok(e.view()),
        Err(e) => Err(e.view()),
    }
}

fn is_name(a: &String, b: &str) -> (r: bool)
    ensures
        r == (a@ == b@),
{
    let t = b.to_owned();
    *a == t
}

pub open spec fn view_unit(r: Result<(), TemplateParseError>) -> Result<(), ErrModel> {
    match r {
        Ok(_) => Ok(()),
        Err(e) => Err(e.view()),
    }
}

fn expect_no_arguments(function: &FunctionCallNode) -> (r: Result<(), TemplateParseError>)
    ensures
        view_unit(r) == exact_args(function.view(), 0),
{
    expect_exact_arguments(function, 0)
}

/// Checks that a call has exactly `n` arguments.
fn expect_exact_arguments(function: &FunctionCallNode, n: usize) -> (r: Result<(), TemplateParseError>)
    ensures
        view_unit(r) == exact_args(function.view(), n as nat),
{
    proof {
        lemma_view_nodes_index(function.args@);
    }
    if function.args.len() == n {
        Ok(())
    } else {
        Err(TemplateParseError::invalid_argument_count_exact(n, function.args_span))
    }
}

/// Checks that a call has at least `n` arguments.
fn expect_some_arguments(function: &FunctionCallNode, n: usize) -> (r: Result<(), TemplateParseError>)
    ensures
        view_unit(r) == some_args(function.view(), n as nat),
{
    proof {
        lemma_view_nodes_index(function.args@);
    }
    if function.args.len() >= n {
        Ok(())
    } else {
        Err(TemplateParseError::invalid_argument_count_range_from(n, function.args_span))
    }
}

/// Checks that a call has `n` required arguments and up to `m` optional ones.
fn expect_arguments(function: &FunctionCallNode, n: usize, m: usize) -> (r: Result<(), TemplateParseError>)
    requires
        n + m <= usize::MAX,
    ensures
        view_unit(r) == ranged_args(function.view(), n as nat, m as nat),
{
    proof {
        lemma_view_nodes_index(function.args@);
    }
    if n <= function.args.len() && function.args.len() <= n + m {
        Ok(())
    } else {
        Err(TemplateParseError::invalid_argument_count_range(n, n + m, function.args_span))
    }
}

/// The index of the first keyword of the table with this name.
pub fn resolve_keyword(kws: &Vec<Keyword>, name: &String) -> (r: Option<usize>)
    ensures
        match r {
            Some(i) => find_keyword(keywords_view(kws@), name@, 0) == Some(i as int) && i < kws.len(),
            None => find_keyword(keywords_view(kws@), name@, 0) is None,
        },
{
    let mut i: usize = 0;
    while i < kws.len()
        invariant
            i <= kws.len(),
            find_keyword(keywords_view(kws@), name@, i as int) == find_keyword(keywords_view(kws@), name@, 0),
        decreases kws.len() - i,
    {
        if kws[i].name == *name {
            return Some(i);
        }
        i = i + 1;
    }
    None
}

/// A built expression as a template.
pub fn into_template(e: Expression) -> (r: Template)
    ensures
        r.view() == into_tmpl(e.view()),
{
    match e {
        Expression::Property(p, _, ls) => {
            proof {
                assert(labels_view(ls@).len() == ls@.len());
            }
            let t = Template::Value(p);
            if ls.len() == 0 {
                t
            } else {
                let ghost tv = t.view();
                let r = Template::Label(Box::new(t), ls);
                assert(r.view() == TmplM::Label(Box::new(tv), labels_view(ls@)));
                r
            }
        },
        Expression::Template(t) => t,
    }
}

/// A built expression as a string property.
pub fn into_plain_text(e: Expression) -> (r: Property)
    ensures
        r.view() == into_plain(e.view()),
{
    match e {
        Expression::Property(p, k, _) => {
            if k == ValueKind::String {
                p
            } else {
                let t = Template::Value(p);
                let ghost tv = t.view();
                let r = Property::PlainText(Box::new(t));
                assert(r.view() == PropM::PlainText(Box::new(tv)));
                r
            }
        },
        Expression::Template(t) => Property::PlainText(Box::new(t)),
    }
}

/// A built expression as a condition, where it can be one.
pub fn try_into_boolean(e: Expression) -> (r: Option<Property>)
    ensures
        match r {
            Some(p) => as_condition(e.view()) == Some(p.view()),
            None => as_condition(e.view()) is None,
        },
{
    match e {
        Expression::Property(p, k, _) => {
            if k == ValueKind::Boolean {
                Some(p)
            } else if k == ValueKind::String {
                Some(Property::Method(Method::IsNotEmpty, Box::new(p), None))
            } else {
                None
            }
        },
        Expression::Template(_) => None,
    }
}

proof fn lemma_b_templates_err(ns: Seq<AstNode>, j: int, kws: Seq<(Seq<char>, ValueKind)>, e: ErrModel)
    requires
        0 <= j <= ns.len(),
        b_templates(ns.subrange(0, j), kws) == Err::<Seq<TmplM>, ErrModel>(e),
    ensures
        b_templates(ns, kws) == Err::<Seq<TmplM>, ErrModel>(e),
    decreases ns.len() - j,
{
    if j == ns.len() {
        assert(ns.subrange(0, j) =~= ns);
    } else {
        let prefix = ns.subrange(0, ns.len() - 1);
        assert(prefix.subrange(0, j) =~= ns.subrange(0, j));
        lemma_b_templates_err(prefix, j, kws, e);
    }
}

/// Builds the nodes from `from` on into templates, in order.
fn build_templates(nodes: &Vec<ExpressionNode>, from: usize, kws: &Vec<Keyword>) -> (r: Result<
    Vec<Template>,
    TemplateParseError,
>)
    requires
        from <= nodes.len(),
    ensures
        match r {
            Ok(ts) => b_templates(view_nodes(nodes@).subrange(from as int, nodes.len() as int), keywords_view(kws@))
                == Ok::<Seq<TmplM>, ErrModel>(view_templates(ts@)),
            Err(e) => b_templates(view_nodes(nodes@).subrange(from as int, nodes.len() as int), keywords_view(kws@))
                == Err::<Seq<TmplM>, ErrModel>(e@),
        },
    decreases nodes,
{
    proof {
        lemma_view_nodes_index(nodes@);
    }
    let ghost vs = view_nodes(nodes@);
    let mut ts: Vec<Template> = Vec::new();
    let mut i: usize = from;
    proof {
        assert(vs.subrange(from as int, from as int) =~= Seq::<AstNode>::empty());
        assert(view_templates(ts@) =~= Seq::<TmplM>::empty());
    }
    while i < nodes.len()
        invariant
            from <= i <= nodes.len(),
            vs == view_nodes(nodes@),
            vs.len() == nodes.len(),
            forall|k: int| 0 <= k < nodes.len() ==> #[trigger] vs[k] == nodes@[k].view(),
            b_templates(vs.subrange(from as int, i as int), keywords_view(kws@)) == Ok::<Seq<TmplM>, ErrModel>(
                view_templates(ts@),
            ),
        decreases nodes.len() - i,
    {
        proof {
            vstd::std_specs::vec::axiom_vec_index_decreases(*nodes, i as int);
            assert(vs.subrange(from as int, i + 1).subrange(0, i - from) =~= vs.subrange(from as int, i as int));
        }
        match build_expression(&nodes[i], kws) {
            Err(e) => {
                proof {
                    let whole = vs.subrange(from as int, nodes.len() as int);
                    let upto = vs.subrange(from as int, i + 1);
                    assert(upto[upto.len() - 1] == vs[i as int]);
                    assert(b_templates(upto, keywords_view(kws@)) == Err::<Seq<TmplM>, ErrModel>(e@));
                    assert(whole.subrange(0, i + 1 - from) =~= upto);
                    lemma_b_templates_err(whole, i + 1 - from, keywords_view(kws@), e@);
                }
                return Err(e);
            },
            Ok(x) => {
                let t = into_template(x);
                proof {
                    lemma_view_templates_push(ts@, t);
                }
                ts.push(t);
            },
        }
        i = i + 1;
    }
    Ok(ts)
}

/// Builds an evaluation tree from an expression node, resolving identifiers
/// against a table of keywords.
pub fn build_expression(node: &ExpressionNode, kws: &Vec<Keyword>) -> (r: Result<Expression, TemplateParseError>)
    ensures
        view_built(r) == b_expr(node.view(), keywords_view(kws@)),
    decreases node,
{
    match &node.kind {
        ExpressionKind::Identifier(name) => {
            match resolve_keyword(kws, name) {
                None => Err(TemplateParseError::no_such_keyword(name.clone(), node.span)),
                Some(i) => {
                    let mut labels: Vec<String> = Vec::new();
                    labels.push(name.clone());
                    proof {
                        assert(labels_view(labels@) =~= seq![name@]);
                    }
                    Ok(Expression::Property(Property::Keyword(i), kws[i].kind, labels))
                },
            }
        },
        ExpressionKind::Integer(v) => {
            let labels: Vec<String> = Vec::new();
            proof {
                assert(labels_view(labels@) =~= Seq::<Seq<char>>::empty());
            }
            Ok(Expression::Property(Property::IntegerLiteral(*v), ValueKind::Integer, labels))
        },
        ExpressionKind::String(t) => {
            let labels: Vec<String> = Vec::new();
            proof {
                assert(labels_view(labels@) =~= Seq::<Seq<char>>::empty());
            }
            Ok(Expression::Property(Property::StringLiteral(t.clone()), ValueKind::String, labels))
        },
        ExpressionKind::List(nodes) => {
            proof {
                lemma_view_nodes_index(nodes@);
                assert(view_nodes(nodes@).subrange(0, nodes.len() as int) =~= view_nodes(nodes@));
            }
            match build_templates(nodes, 0, kws) {
                Err(e) => Err(e),
                Ok(ts) => Ok(Expression::Template(Template::List(ts))),
            }
        },
        ExpressionKind::FunctionCall(c) => build_global_function(c, kws),
        ExpressionKind::MethodCall(m) => {
            match build_expression(&m.object, kws) {
                Err(e) => Err(e),
                Ok(Expression::Template(_)) => Err(TemplateParseError::no_such_method("Template".to_owned(), &m.function)),
                Ok(Expression::Property(p, k, labels)) => {
                    match build_method(k, p, &m.function, kws) {
                        Err(e) => Err(e),
                        Ok((q, k2)) => {
                            let mut labels = labels;
                            let ghost old_labels = labels@;
                            labels.push(m.function.name.clone());
                            proof {
                                assert(labels_view(labels@) =~= labels_view(old_labels).push(m.function.name@));
                            }
                            Ok(Expression::Property(q, k2, labels))
                        },
                    }
                },
            }
        },
    }
}

/// Builds a call of `label`, `if` or `separate`.
fn build_global_function(c: &FunctionCallNode, kws: &Vec<Keyword>) -> (r: Result<Expression, TemplateParseError>)
    ensures
        view_built(r) == b_function(c.view(), keywords_view(kws@)),
    decreases c,
{
    proof {
        lemma_view_nodes_index(c.args@);
    }
    let n = c.args.len();
    if is_name(&c.name, "label") {
        if let Err(e) = expect_exact_arguments(c, 2) {
            return Err(e);
        }
        proof {
            vstd::std_specs::vec::axiom_vec_index_decreases(c.args, 0);
            vstd::std_specs::vec::axiom_vec_index_decreases(c.args, 1);
        }
        match build_expression(&c.args[0], kws) {
            Err(e) => Err(e),
            Ok(l) => match build_expression(&c.args[1], kws) {
                Err(e) => Err(e),
                Ok(x) => Ok(
                    Expression::Template(Template::DynamicLabel(Box::new(into_template(x)), into_plain_text(l))),
                ),
            },
        }
    } else if is_name(&c.name, "if") {
        if let Err(e) = expect_arguments(c, 2, 1) {
            return Err(e);
        }
        proof {
            vstd::std_specs::vec::axiom_vec_index_decreases(c.args, 0);
            vstd::std_specs::vec::axiom_vec_index_decreases(c.args, 1);
        }
        match build_expression(&c.args[0], kws) {
            Err(e) => Err(e),
            Ok(e0) => match try_into_boolean(e0) {
                None => Err(TemplateParseError::invalid_argument_type("Boolean".to_owned(), c.args[0].span)),
                Some(cond) => match build_expression(&c.args[1], kws) {
                    Err(e) => Err(e),
                    Ok(t) => {
                        if n == 3 {
                            proof {
                                vstd::std_specs::vec::axiom_vec_index_decreases(c.args, 2);
                            }
                            match build_expression(&c.args[2], kws) {
                                Err(e) => Err(e),
                                Ok(f) => Ok(
                                    Expression::Template(
                                        Template::Conditional(
                                            cond,
                                            Box::new(into_template(t)),
                                            Some(Box::new(into_template(f))),
                                        ),
                                    ),
                                ),
                            }
                        } else {
                            Ok(Expression::Template(Template::Conditional(cond, Box::new(into_template(t)), None)))
                        }
                    },
                },
            },
        }
    } else if is_name(&c.name, "separate") {
        if let Err(e) = expect_some_arguments(c, 1) {
            return Err(e);
        }
        proof {
            vstd::std_specs::vec::axiom_vec_index_decreases(c.args, 0);
        }
        match build_expression(&c.args[0], kws) {
            Err(e) => Err(e),
            Ok(sep) => match build_templates(&c.args, 1, kws) {
                Err(e) => Err(e),
                Ok(ts) => Ok(Expression::Template(Template::Separate(Box::new(into_template(sep)), ts))),
            },
        }
    } else {
        Err(TemplateParseError::no_such_function(c))
    }
}

fn plain_method(c: &FunctionCallNode, p: Property, m: Method, k: ValueKind) -> (r: Result<
    (Property, ValueKind),
    TemplateParseError,
>)
    ensures
        view_method(r) == b_plain_method(c.view(), p.view(), m, k),
{
    if let Err(e) = expect_no_arguments(c) {
        Err(e)
    } else {
        Ok((chain_properties(p, m, None), k))
    }
}

pub open spec fn view_method(r: Result<(Property, ValueKind), TemplateParseError>) -> Result<(PropM, ValueKind), ErrModel> {
    match r {
        Ok((p, k)) => Ok((p.view(), k)),
        Err(e) => Err(e.view()),
    }
}

/// Builds a method call on a property of kind `k`.
fn build_method(k: ValueKind, p: Property, c: &FunctionCallNode, kws: &Vec<Keyword>) -> (r: Result<
    (Property, ValueKind),
    TemplateParseError,
>)
    ensures
        view_method(r) == b_method(k, p.view(), c.view(), keywords_view(kws@)),
    decreases c,
{
    proof {
        lemma_view_nodes_index(c.args@);
    }
    match k {
        ValueKind::String => {
            if is_name(&c.name, "contains") {
                if let Err(e) = expect_exact_arguments(c, 1) {
                    return Err(e);
                }
                proof {
                    vstd::std_specs::vec::axiom_vec_index_decreases(c.args, 0);
                }
                match build_expression(&c.args[0], kws) {
                    Err(e) => Err(e),
                    Ok(x) => Ok(
                        (
                            Property::Method(Method::Contains, Box::new(p), Some(Box::new(into_plain_text(x)))),
                            ValueKind::Boolean,
                        ),
                    ),
                }
            } else if is_name(&c.name, "first_line") {
                plain_method(c, p, Method::FirstLine, ValueKind::String)
            } else {
                Err(TemplateParseError::no_such_method(kind_name_string(k), c))
            }
        },
        ValueKind::CommitOrChangeId => {
            if is_name(&c.name, "short") || is_name(&c.name, "shortest") {
                if let Err(e) = expect_arguments(c, 0, 1) {
                    return Err(e);
                }
                let arg: Option<Box<Property>> = if c.args.len() == 0 {
                    None
                } else {
                    proof {
                        vstd::std_specs::vec::axiom_vec_index_decreases(c.args, 0);
                    }
                    match build_expression(&c.args[0], kws) {
                        Err(e) => {
                            return Err(e);
                        },
                        Ok(Expression::Property(q, ValueKind::Integer, _)) => Some(Box::new(q)),
                        Ok(_) => {
                            return Err(TemplateParseError::invalid_argument_type("Integer".to_owned(), c.args[0].span));
                        },
                    }
                };
                if is_name(&c.name, "short") {
                    Ok((Property::Method(Method::Short, Box::new(p), arg), ValueKind::String))
                } else {
                    Ok((Property::Method(Method::Shortest, Box::new(p), arg), ValueKind::ShortestIdPrefix))
                }
            } else {
                Err(TemplateParseError::no_such_method(kind_name_string(k), c))
            }
        },
        ValueKind::ShortestIdPrefix => {
            if is_name(&c.name, "with_brackets") {
                plain_method(c, p, Method::WithBrackets, ValueKind::String)
            } else {
                Err(TemplateParseError::no_such_method(kind_name_string(k), c))
            }
        },
        ValueKind::Signature => {
            if is_name(&c.name, "name") {
                plain_method(c, p, Method::Name, ValueKind::String)
            } else if is_name(&c.name, "email") {
                plain_method(c, p, Method::Email, ValueKind::String)
            } else if is_name(&c.name, "username") {
                plain_method(c, p, Method::Username, ValueKind::String)
            } else if is_name(&c.name, "timestamp") {
                plain_method(c, p, Method::Timestamp, ValueKind::Timestamp)
            } else {
                Err(TemplateParseError::no_such_method(kind_name_string(k), c))
            }
        },
        ValueKind::Timestamp => {
            if is_name(&c.name, "ago") {
                plain_method(c, p, Method::Ago, ValueKind::String)
            } else {
                Err(TemplateParseError::no_such_method(kind_name_string(k), c))
            }
        },
        _ => Err(TemplateParseError::no_such_method(kind_name_string(k), c)),
    }
}

} // verus!
