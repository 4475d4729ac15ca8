use jatr::tasks::Value;
use jatr::templater::{TemplateError, Templating};

fn ctx(entries: &[(&str, Value)]) -> Templating {
    let mut t = Templating::default();
    for (name, value) in entries {
        t.add_variable(
            name,
            match value {
                Value::Text(s) => Value::Text(s.clone()),
                Value::Int(i) => Value::Int(*i),
                Value::Float(f) => Value::Float(f.clone()),
                Value::Bool(b) => Value::Bool(*b),
                Value::Null => Value::Null,
                Value::List(_) => panic!("build lists in the test body"),
            },
        );
    }
    t
}

#[test]
fn plain_text_passes_through() {
    let t = Templating::default();
    assert_eq!(t.process("echo hello").unwrap(), "echo hello");
}

#[test]
fn interpolates_a_string_variable() {
    let t = ctx(&[("name", Value::Text("world".to_string()))]);
    assert_eq!(t.process("hello {{ name }}!").unwrap(), "hello world!");
}

#[test]
fn interpolates_without_inner_spaces() {
    let t = ctx(&[("name", Value::Text("world".to_string()))]);
    assert_eq!(t.process("{{name}}").unwrap(), "world");
}

#[test]
fn interpolates_an_integer_as_decimal() {
    let t = ctx(&[("count", Value::Int(5))]);
    assert_eq!(t.process("n={{ count }}").unwrap(), "n=5");
}

#[test]
fn renders_negative_and_extreme_integers() {
    let t = ctx(&[("a", Value::Int(-42)), ("b", Value::Int(i64::MIN)), ("c", Value::Int(i64::MAX))]);
    assert_eq!(t.process("{{ a }}").unwrap(), "-42");
    assert_eq!(t.process("{{ b }}").unwrap(), "-9223372036854775808");
    assert_eq!(t.process("{{ c }}").unwrap(), "9223372036854775807");
}

#[test]
fn renders_booleans_null_and_floats() {
    let t = ctx(&[
        ("yes", Value::Bool(true)),
        ("no", Value::Bool(false)),
        ("nothing", Value::Null),
        ("ratio", Value::Float("1.5".to_string())),
    ]);
    assert_eq!(t.process("{{ yes }}/{{ no }}").unwrap(), "true/false");
    assert_eq!(t.process("[{{ nothing }}]").unwrap(), "[]");
    assert_eq!(t.process("{{ ratio }}").unwrap(), "1.5");
}

#[test]
fn renders_a_list_in_brackets() {
    let mut t = Templating::default();
    t.add_variable(
        "items",
        Value::List(vec![
            Value::Int(1),
            Value::Text("x".to_string()),
            Value::Bool(true),
        ]),
    );
    assert_eq!(t.process("{{ items }}").unwrap(), "[1, x, true]");
}

#[test]
fn undefined_variable_is_an_error() {
    let t = Templating::default();
    match t.process("hello {{ name }}") {
        Err(TemplateError::UndefinedVariable { name }) => assert_eq!(name, "name"),
        other => panic!("expected an undefined-variable error, got {:?}", other),
    }
}

#[test]
fn unclosed_interpolation_is_a_syntax_error() {
    let t = ctx(&[("name", Value::Text("x".to_string()))]);
    match t.process("hello {{ name") {
        Err(TemplateError::Syntax { template }) => assert_eq!(template, "hello {{ name"),
        other => panic!("expected a syntax error, got {:?}", other),
    }
}

#[test]
fn ill_formed_name_is_a_syntax_error() {
    let t = ctx(&[("name", Value::Text("x".to_string()))]);
    assert!(matches!(
        t.process("{{ a b }}"),
        Err(TemplateError::Syntax { .. })
    ));
    assert!(matches!(t.process("{{ }}"), Err(TemplateError::Syntax { .. })));
}

#[test]
fn later_binding_overwrites_earlier() {
    let mut t = Templating::default();
    t.add_variable("v", Value::Text("first".to_string()));
    t.add_variable("v", Value::Text("second".to_string()));
    assert_eq!(t.process("{{ v }}").unwrap(), "second");
}

#[test]
fn a_single_brace_passes_through() {
    let t = Templating::default();
    assert_eq!(t.process("a { b } c").unwrap(), "a { b } c");
    assert_eq!(t.process("}} alone").unwrap(), "}} alone");
}
