use logical_expr::{evaluate, Context, ContextValue};

#[test]
fn regex_and_context() {
    let mut context = Context::new();
    context.insert(
        "foo".to_string(),
        ContextValue::String("bbbbbaaaarrrrrr".to_string()),
    );
    let result = evaluate("foo =~ 'ba+r'", &context).unwrap();
    assert!(result);

    let mut context = Context::new();
    context.insert(
        "foo".to_string(),
        ContextValue::String("bbbbbaaaarrrrrr".to_string()),
    );
    let result = evaluate("foo =~ '^ba+r$'", &context).unwrap();
    assert!(!result);

    let mut context = Context::new();
    context.insert("foo".to_string(), ContextValue::String("baaaar".to_string()));
    let result = evaluate("foo =~ '^ba+r$'", &context).unwrap();
    assert!(result);
}

#[test]
fn not_boolean() {
    let mut context = Context::new();
    context.insert("foo".to_string(), ContextValue::Boolean(false));
    let result = evaluate("!foo", &context).unwrap();
    assert!(result);
}
