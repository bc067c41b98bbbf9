use jj_template::{
    build_expression, parse_template, eval_property, Expression, ExpressionKind, ExpressionNode,
    FunctionCallNode, Keyword, MethodCallNode, Span, TemplateParseError, TemplateParseErrorKind,
    Value, ValueKind,
};

fn parse(template_text: &str) -> Result<Expression, TemplateParseError> {
    let node = parse_template(template_text)?;
    let keywords: Vec<Keyword> = Vec::new();
    build_expression(&node, &keywords)
}

fn empty_span() -> Span {
    Span { start: 0, end: 0 }
}

fn normalize_list(nodes: Vec<ExpressionNode>) -> Vec<ExpressionNode> {
    nodes.into_iter().map(normalize_tree).collect()
}

fn normalize_function_call(function: FunctionCallNode) -> FunctionCallNode {
    FunctionCallNode {
        name: function.name,
        name_span: empty_span(),
        args: normalize_list(function.args),
        args_span: empty_span(),
    }
}

/// Drops the spans of a tree so that it can be compared with another.
fn normalize_tree(node: ExpressionNode) -> ExpressionNode {
    let kind = match node.kind {
        ExpressionKind::List(nodes) => ExpressionKind::List(normalize_list(nodes)),
        ExpressionKind::FunctionCall(function) => {
            ExpressionKind::FunctionCall(normalize_function_call(function))
        }
        ExpressionKind::MethodCall(method) => {
            let object = Box::new(normalize_tree(*method.object));
            let function = normalize_function_call(method.function);
            ExpressionKind::MethodCall(MethodCallNode { object, function })
        }
        other => other,
    };
    ExpressionNode { kind, span: empty_span() }
}

fn extract_integer(e: Expression) -> i64 {
    match e {
        Expression::Property(p, ValueKind::Integer, _) => match eval_property(&p, &Vec::new()) {
            Value::Integer(v) => v,
            other => panic!("not an integer: {other:?}"),
        },
        other => panic!("not an integer property: {other:?}"),
    }
}

fn error_kind(text: &str) -> TemplateParseErrorKind {
    match parse(text) {
        Ok(_) => panic!("expected an error for {text:?}"),
        Err(e) => e.kind,
    }
}

#[test]
fn test_parse_tree_eq() {
    assert_eq!(
        normalize_tree(parse_template(r#" commit_id.short(1 )  description"#).unwrap()),
        normalize_tree(parse_template(r#"commit_id.short( 1 ) (description)"#).unwrap()),
    );
    assert_ne!(
        normalize_tree(parse_template(r#" "ab" "#).unwrap()),
        normalize_tree(parse_template(r#" "a" "b" "#).unwrap()),
    );
    assert_ne!(
        normalize_tree(parse_template(r#" "foo" "0" "#).unwrap()),
        normalize_tree(parse_template(r#" "foo" 0 "#).unwrap()),
    );
}

#[test]
fn test_function_call_syntax() {
    // Trailing comma isn't allowed for empty argument
    assert!(parse(r#" "".first_line() "#).is_ok());
    assert!(parse(r#" "".first_line(,) "#).is_err());

    // Trailing comma is allowed for the last argument
    assert!(parse(r#" "".contains("") "#).is_ok());
    assert!(parse(r#" "".contains("",) "#).is_ok());
    assert!(parse(r#" "".contains("" ,  ) "#).is_ok());
    assert!(parse(r#" "".contains(,"") "#).is_err());
    assert!(parse(r#" "".contains("",,) "#).is_err());
    assert!(parse(r#" "".contains("" , , ) "#).is_err());
    assert!(parse(r#" label("","") "#).is_ok());
    assert!(parse(r#" label("","",) "#).is_ok());
    assert!(parse(r#" label("",,"") "#).is_err());
}

#[test]
fn test_integer_literal() {
    assert_eq!(extract_integer(parse("0").unwrap()), 0);
    assert_eq!(extract_integer(parse("(42)").unwrap()), 42);
    assert!(parse("00").is_err());

    assert_eq!(extract_integer(parse(&format!("{}", i64::MAX)).unwrap()), i64::MAX);
    assert!(parse(&format!("{}", (i64::MAX as u64) + 1)).is_err());
}

#[test]
fn string_literal_is_one_node_and_juxtaposition_a_list() {
    let one = parse_template(r#""ab""#).unwrap();
    assert_eq!(one.kind, ExpressionKind::String("ab".to_string()));
    assert_eq!(one.span, Span { start: 0, end: 4 });
    let two = parse_template(r#""a" "b""#).unwrap();
    match two.kind {
        ExpressionKind::List(nodes) => {
            assert_eq!(nodes.len(), 2);
            assert_eq!(nodes[0].kind, ExpressionKind::String("a".to_string()));
            assert_eq!(nodes[1].kind, ExpressionKind::String("b".to_string()));
        }
        other => panic!("not a list: {other:?}"),
    }
}

#[test]
fn string_escapes_are_decoded() {
    let node = parse_template(r#""a\"b\\c\nd""#).unwrap();
    assert_eq!(node.kind, ExpressionKind::String("a\"b\\c\nd".to_string()));
    assert!(parse_template(r#""a\tb""#).is_err());
    assert!(parse_template(r#""open"#).is_err());
}

#[test]
fn blank_text_is_an_empty_list() {
    let node = parse_template("  ").unwrap();
    assert_eq!(node.kind, ExpressionKind::List(Vec::new()));
    assert_eq!(node.span, Span { start: 2, end: 2 });
    let node = parse_template("").unwrap();
    assert_eq!(node.kind, ExpressionKind::List(Vec::new()));
}

#[test]
fn method_chain_nests_to_the_left() {
    let node = parse_template("a.b().c(1)").unwrap();
    match node.kind {
        ExpressionKind::MethodCall(outer) => {
            assert_eq!(outer.function.name, "c");
            assert_eq!(outer.function.args.len(), 1);
            assert_eq!(outer.function.args_span, Span { start: 8, end: 9 });
            match outer.object.kind {
                ExpressionKind::MethodCall(inner) => {
                    assert_eq!(inner.function.name, "b");
                    assert_eq!(inner.object.kind, ExpressionKind::Identifier("a".to_string()));
                }
                other => panic!("not a method call: {other:?}"),
            }
        }
        other => panic!("not a method call: {other:?}"),
    }
}

#[test]
fn syntax_errors_carry_their_position() {
    let err = parse_template("a )").unwrap_err();
    assert_eq!(err.kind, TemplateParseErrorKind::SyntaxError);
    assert_eq!(err.span, Span { start: 2, end: 2 });
    assert!(parse_template("a(").is_err());
    assert!(parse_template("()").is_err());
    assert!(parse_template("0a").is_err());
    assert!(parse_template("x (y)").is_ok());
}

#[test]
fn integer_overflow_is_a_parse_int_error() {
    let err = parse_template("x 9223372036854775808").unwrap_err();
    assert_eq!(err.kind, TemplateParseErrorKind::ParseIntError);
    assert_eq!(err.span, Span { start: 2, end: 21 });
}

#[test]
fn unknown_names_are_reported() {
    assert_eq!(error_kind("foo"), TemplateParseErrorKind::NoSuchKeyword("foo".to_string()));
    assert_eq!(error_kind("foo()"), TemplateParseErrorKind::NoSuchFunction("foo".to_string()));
    assert_eq!(
        error_kind(r#""".bar()"#),
        TemplateParseErrorKind::NoSuchMethod { kind_name: "String".to_string(), name: "bar".to_string() }
    );
    assert_eq!(
        error_kind(r#"label("", "").bar()"#),
        TemplateParseErrorKind::NoSuchMethod { kind_name: "Template".to_string(), name: "bar".to_string() }
    );
    assert_eq!(
        error_kind("1.bar()"),
        TemplateParseErrorKind::NoSuchMethod { kind_name: "Integer".to_string(), name: "bar".to_string() }
    );
}

#[test]
fn argument_counts_are_checked() {
    assert_eq!(error_kind(r#"label("")"#), TemplateParseErrorKind::InvalidArgumentCountExact(2));
    assert_eq!(error_kind(r#""".first_line(1)"#), TemplateParseErrorKind::InvalidArgumentCountExact(0));
    assert_eq!(error_kind(r#"if("")"#), TemplateParseErrorKind::InvalidArgumentCountRange(2, 3));
    assert_eq!(error_kind(r#"if("", "", "", "")"#), TemplateParseErrorKind::InvalidArgumentCountRange(2, 3));
    assert_eq!(error_kind("separate()"), TemplateParseErrorKind::InvalidArgumentCountRangeFrom(1));
    let err = parse(r#"label("")"#).err().unwrap();
    assert_eq!(err.span, Span { start: 6, end: 8 });
}

#[test]
fn argument_types_are_checked() {
    let err = parse(r#"if(1, "a")"#).err().unwrap();
    assert_eq!(err.kind, TemplateParseErrorKind::InvalidArgumentType("Boolean".to_string()));
    assert_eq!(err.span, Span { start: 3, end: 4 });
    assert!(parse(r#"if("x", "a")"#).is_ok());
    assert!(parse(r#"separate(" ")"#).is_ok());
}

#[test]
fn spans_are_byte_offsets() {
    let node = parse_template("\"é\" xy").unwrap();
    match node.kind {
        ExpressionKind::List(nodes) => {
            assert_eq!(nodes[0].kind, ExpressionKind::String("é".to_string()));
            assert_eq!(nodes[0].span, Span { start: 0, end: 4 });
            assert_eq!(nodes[1].span, Span { start: 5, end: 7 });
        }
        other => panic!("not a list: {other:?}"),
    }
    let err = parse_template("\"日本\" )").unwrap_err();
    assert_eq!(err.span, Span { start: 9, end: 9 });
    assert_eq!(err.describe("\"日本\" )"), "line 1, column 6: Syntax error");
}
