use jj_template::{
    commit_keywords, compile, parse_commit_template, render_record, render_text, split_email,
    Chunk, CommitOrChangeId, Keyword, Signature, Template, TemplateParseErrorKind, Timestamp, Value,
    ValueKind,
};

fn keywords() -> Vec<Keyword> {
    vec![
        Keyword { name: "description".to_string(), kind: ValueKind::String },
        Keyword { name: "id".to_string(), kind: ValueKind::CommitOrChangeId },
        Keyword { name: "author".to_string(), kind: ValueKind::Signature },
        Keyword { name: "flag".to_string(), kind: ValueKind::Boolean },
    ]
}

fn record(description: &str) -> Vec<Value> {
    vec![
        Value::String(description.to_string()),
        Value::CommitOrChangeId(CommitOrChangeId {
            hex: "0123456789abcdef0123".to_string(),
            unique_prefix_len: 3,
        }),
        Value::Signature(Signature {
            name: "Test User".to_string(),
            email: "test.user@example.com".to_string(),
            timestamp: Timestamp {
                text: "2001-02-03 04:05:06.000 +07:00".to_string(),
                relative: "5 minutes ago".to_string(),
            },
        }),
        Value::Boolean(true),
    ]
}

fn build(text: &str) -> Template {
    compile(text, &keywords()).unwrap()
}

fn text(template: &str, description: &str) -> String {
    render_text(&build(template), &record(description))
}

#[test]
fn description_renders_verbatim() {
    assert_eq!(text("description", "fix the bug\nbody\n"), "fix the bug\nbody\n");
    let chunks = render_record(&build("description"), &record("abc"));
    assert_eq!(
        chunks,
        vec![Chunk { labels: vec!["description".to_string()], text: "abc".to_string() }]
    );
}

#[test]
fn if_chooses_by_description() {
    let t = r#"if(description, "has-desc", "empty")"#;
    assert_eq!(text(t, "something"), "has-desc");
    assert_eq!(text(t, ""), "empty");
    assert_eq!(text(r#"if(description, "yes")"#, ""), "");
}

#[test]
fn separate_drops_empty_contents() {
    assert_eq!(text(r#"separate(" ", "a", "", "b")"#, ""), "a b");
    assert_eq!(text(r#"separate(" ", "", "")"#, ""), "");
    assert_eq!(text(r#"separate(", ", description, "x")"#, ""), "x");
    assert_eq!(text(r#"separate(", ", description, "x")"#, "d"), "d, x");
}

#[test]
fn list_concatenates() {
    assert_eq!(text(r#""a" description "b""#, "-"), "a-b");
}

#[test]
fn string_methods() {
    assert_eq!(text("description.first_line()", "one\ntwo"), "one");
    assert_eq!(text("description.first_line()", "single"), "single");
    assert_eq!(text(r#"description.contains("ug")"#, "bug"), "true");
    assert_eq!(text(r#"description.contains("x")"#, "bug"), "false");
    assert_eq!(text(r#"if(description.contains(flag), "y", "n")"#, "a true b"), "y");
}

#[test]
fn id_methods() {
    assert_eq!(text("id.short()", ""), "0123456789ab");
    assert_eq!(text("id.short(4)", ""), "0123");
    assert_eq!(text("id.short(100)", ""), "0123456789abcdef0123");
    assert_eq!(text("id.shortest().with_brackets()", ""), "012");
    assert_eq!(text("id.shortest(5).with_brackets()", ""), "012[34]");
    assert_eq!(text("id.shortest(30).with_brackets()", ""), "012[3456789abcdef0123]");
    assert_eq!(text("id.shortest(2)", ""), "012");
    assert_eq!(text("id.shortest(8)", ""), "01234567");
    let err = compile(r#"id.short("x")"#, &keywords()).err().unwrap();
    assert_eq!(err.kind, TemplateParseErrorKind::InvalidArgumentType("Integer".to_string()));
    let err = compile("id.short(1, 2)", &keywords()).err().unwrap();
    assert_eq!(err.kind, TemplateParseErrorKind::InvalidArgumentCountRange(0, 1));
}

#[test]
fn signature_methods() {
    assert_eq!(text("author.name()", ""), "Test User");
    assert_eq!(text("author.email()", ""), "test.user@example.com");
    assert_eq!(text("author.username()", ""), "test.user");
    assert_eq!(text("author.timestamp()", ""), "2001-02-03 04:05:06.000 +07:00");
    assert_eq!(text("author.timestamp().ago()", ""), "5 minutes ago");
    assert_eq!(text("author", ""), "Test User <test.user@example.com>");
}

#[test]
fn values_display() {
    assert_eq!(text("flag", ""), "true");
    assert!(compile("-1", &keywords()).is_err());
    assert_eq!(text("42", ""), "42");
    assert_eq!(text("0", ""), "0");
}

#[test]
fn labels_accumulate() {
    let chunks = render_record(&build("author.name()"), &record(""));
    assert_eq!(
        chunks,
        vec![Chunk {
            labels: vec!["author".to_string(), "name".to_string()],
            text: "Test User".to_string()
        }]
    );
    let chunks = render_record(&build(r#"label("red  bold", "x" description)"#), &record("y"));
    assert_eq!(
        chunks,
        vec![
            Chunk { labels: vec!["red".to_string(), "bold".to_string()], text: "x".to_string() },
            Chunk {
                labels: vec!["red".to_string(), "bold".to_string(), "description".to_string()],
                text: "y".to_string()
            },
        ]
    );
    let chunks = render_record(&build(r#"label(description.first_line(), "x")"#), &record("a b\nc"));
    assert_eq!(
        chunks,
        vec![Chunk { labels: vec!["a".to_string(), "b".to_string()], text: "x".to_string() }]
    );
}

#[test]
fn commit_template_uses_commit_keywords() {
    assert_eq!(commit_keywords().len(), 14);
    assert!(parse_commit_template("commit_id.short() description author.email()").is_ok());
    assert!(parse_commit_template(r#"if(conflict, "c") if(empty, "e") change_id.shortest(8)"#).is_ok());
    let err = parse_commit_template("nothing").err().unwrap();
    assert_eq!(err.kind, TemplateParseErrorKind::NoSuchKeyword("nothing".to_string()));
}

#[test]
fn email_splits_at_first_at() {
    assert_eq!(
        split_email(&"a@b@c".to_string()),
        ("a".to_string(), Some("b@c".to_string()))
    );
    assert_eq!(split_email(&"plain".to_string()), ("plain".to_string(), None));
}

#[test]
fn label_text_splits_on_unicode_white_space() {
    let chunks = render_record(&build("label(\"a\u{000C}b\u{3000}c\u{00A0} d\", \"x\")"), &record(""));
    assert_eq!(
        chunks,
        vec![Chunk {
            labels: vec!["a".to_string(), "b".to_string(), "c".to_string(), "d".to_string()],
            text: "x".to_string()
        }]
    );
}
