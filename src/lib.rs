//! A small template language: a verified parser from text to an expression
//! tree, a type-checking builder from that tree to an evaluation tree, and a
//! renderer that turns an evaluation tree and a record into labelled text.
use vstd::prelude::*;

pub mod ast;
pub mod builder;
pub mod compile;
pub mod error;
pub mod eval;
pub mod parser;
pub mod text;
pub mod value;

pub use ast::{ExpressionKind, ExpressionNode, FunctionCallNode, MethodCallNode, Span};
pub use builder::{Expression, Keyword, build_expression};
pub use compile::{chain_properties, commit_keywords, compile, parse_commit_template, render_record, render_text};
pub use error::{TemplateParseError, TemplateParseErrorKind};
pub use eval::{Chunk, Method, Property, Template, eval_property};
pub use parser::parse_template;
pub use value::{CommitOrChangeId, ShortestIdPrefix, Signature, Timestamp, Value, ValueKind, split_email};

verus! {

} // verus!
