//! The abstract syntax tree produced by the parser, and its mathematical model.
use vstd::prelude::*;

verus! {

/// A half-open range of byte offsets in the UTF-8 template text.
#[derive(Clone, Copy, Debug, PartialEq, Eq, Structural)]
pub struct Span {
    pub start: usize,
    pub end: usize,
}

/// AST node without type or name checking.
#[derive(Debug, PartialEq)]
pub struct ExpressionNode {
    pub kind: ExpressionKind,
    pub span: Span,
}

#[derive(Debug, PartialEq)]
pub enum ExpressionKind {
    Identifier(String),
    Integer(i64),
    String(String),
    List(Vec<ExpressionNode>),
    FunctionCall(FunctionCallNode),
    MethodCall(MethodCallNode),
}

#[derive(Debug, PartialEq)]
pub struct FunctionCallNode {
    pub name: String,
    pub name_span: Span,
    pub args: Vec<ExpressionNode>,
    /// Covers the argument list between the parentheses.
    pub args_span: Span,
}

#[derive(Debug, PartialEq)]
pub struct MethodCallNode {
    pub object: Box<ExpressionNode>,
    pub function: FunctionCallNode,
}

/// Model of an expression's kind.
pub enum Ast {
    Identifier(Seq<char>),
    Integer(int),
    Str(Seq<char>),
    List(Seq<AstNode>),
    Call(AstCall),
    Method(Box<AstNode>, AstCall),
}

/// Model of an expression node: its kind and its span.
pub struct AstNode {
    pub kind: Ast,
    pub start: int,
    pub end: int,
}

/// Model of a function call: its name, its arguments and their spans.
pub struct AstCall {
    pub name: Seq<char>,
    pub name_start: int,
    pub name_end: int,
    pub args: Seq<AstNode>,
    pub args_start: int,
    pub args_end: int,
}

impl ExpressionNode {
    pub open spec fn view(&self) -> AstNode
        decreases self,
    {
        let kind = match &self.kind {
            ExpressionKind::Identifier(name) => Ast::Identifier(name@),
            ExpressionKind::Integer(v) => Ast::Integer(*v as int),
            ExpressionKind::String(t) => Ast::Str(t@),
            ExpressionKind::List(nodes) => Ast::List(view_nodes(nodes@)),
            ExpressionKind::FunctionCall(f) => Ast::Call(f.view()),
            ExpressionKind::MethodCall(m) => Ast::Method(Box::new(m.object.view()), m.function.view()),
        };
        AstNode { kind, start: self.span.start as int, end: self.span.end as int }
    }
}

impl FunctionCallNode {
    pub open spec fn view(&self) -> AstCall
        decreases self,
    {
        AstCall {
            name: self.name@,
            name_start: self.name_span.start as int,
            name_end: self.name_span.end as int,
            args: view_nodes(self.args@),
            args_start: self.args_span.start as int,
            args_end: self.args_span.end as int,
        }
    }
}

/// The models of a sequence of nodes, in order.
pub open spec fn view_nodes(v: Seq<ExpressionNode>) -> Seq<AstNode>
    decreases v,
{
    if v.len() == 0 {
        Seq::empty()
    } else {
        view_nodes(v.subrange(0, v.len() - 1)).push(v[v.len() - 1].view())
    }
}

pub proof fn lemma_view_nodes_push(v: Seq<ExpressionNode>, n: ExpressionNode)
    ensures
        view_nodes(v.push(n)) == view_nodes(v).push(n.view()),
{
    assert(v.push(n).subrange(0, v.len() as int) =~= v);
}

pub proof fn lemma_view_nodes_index(v: Seq<ExpressionNode>)
    ensures
        view_nodes(v).len() == v.len(),
        forall|k: int| 0 <= k < v.len() ==> #[trigger] view_nodes(v)[k] == v[k].view(),
    decreases v.len(),
{
    if v.len() > 0 {
        lemma_view_nodes_index(v.subrange(0, v.len() - 1));
    }
}

} // verus!
