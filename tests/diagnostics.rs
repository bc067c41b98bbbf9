use jj_template::{parse_template, Span, TemplateParseError, TemplateParseErrorKind};

fn message(kind: TemplateParseErrorKind) -> String {
    kind.message()
}

#[test]
fn messages_name_what_went_wrong() {
    assert_eq!(message(TemplateParseErrorKind::SyntaxError), "Syntax error");
    assert_eq!(
        message(TemplateParseErrorKind::ParseIntError),
        "Invalid integer literal: number too large to fit in target type"
    );
    assert_eq!(
        message(TemplateParseErrorKind::NoSuchKeyword("foo".to_string())),
        r#"Keyword "foo" doesn't exist"#
    );
    assert_eq!(
        message(TemplateParseErrorKind::NoSuchFunction("f".to_string())),
        r#"Function "f" doesn't exist"#
    );
    assert_eq!(
        message(TemplateParseErrorKind::NoSuchMethod {
            kind_name: "String".to_string(),
            name: "m".to_string()
        }),
        r#"Method "m" doesn't exist for type "String""#
    );
    assert_eq!(message(TemplateParseErrorKind::InvalidArgumentCountExact(2)), "Expected 2 arguments");
    assert_eq!(
        message(TemplateParseErrorKind::InvalidArgumentCountRange(2, 3)),
        "Expected 2 to 3 arguments"
    );
    assert_eq!(
        message(TemplateParseErrorKind::InvalidArgumentCountRangeFrom(1)),
        "Expected at least 1 arguments"
    );
    assert_eq!(
        message(TemplateParseErrorKind::InvalidArgumentCountExact(120)),
        "Expected 120 arguments"
    );
    assert_eq!(
        message(TemplateParseErrorKind::InvalidArgumentType("Boolean".to_string())),
        r#"Expected argument of type "Boolean""#
    );
}

#[test]
fn describe_gives_line_and_column() {
    let text = "a )";
    let err = parse_template(text).unwrap_err();
    assert_eq!(err.describe(text), "line 1, column 3: Syntax error");
    let text = "\"x\"\n  y\n   ,";
    let err = parse_template(text).unwrap_err();
    assert_eq!(err.span, Span { start: 11, end: 11 });
    assert_eq!(err.describe(text), "line 3, column 4: Syntax error");
    let far = TemplateParseError {
        kind: TemplateParseErrorKind::SyntaxError,
        span: Span { start: 50, end: 50 },
    };
    assert_eq!(far.describe("ab\nc"), "line 2, column 2: Syntax error");
}
