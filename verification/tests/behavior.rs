use logical_expr::expression::{parse_whole_boolean_expression, BooleanExpression};
use logical_expr::float_value::FloatValue;
use logical_expr::non_boolean_expression::NonBooleanExpression;
use logical_expr::operator::BinaryOperator;
use logical_expr::value::{string, Identifier, Value};
use logical_expr::{evaluate, Context, ContextValue};

#[test]
fn boolean_algebra_literals() {
    let context = Context::new();
    assert_eq!(evaluate("true", &context), Ok(true));
    assert_eq!(evaluate("false", &context), Ok(false));
    assert_eq!(evaluate("true && (false || true)", &context), Ok(true));
    assert_eq!(evaluate("true && false", &context), Ok(false));
    assert_eq!(evaluate("false || false || true", &context), Ok(true));
    assert_eq!(evaluate("!false && !(!true)", &context), Ok(true));
}

#[test]
fn double_negation_and_whitespace() {
    let context = Context::new();
    assert_eq!(evaluate("!(!true)", &context), Ok(true));
    assert_eq!(evaluate("!  ( !   true)", &context), Ok(true));
}

#[test]
fn regex_anchored_and_unanchored() {
    let mut context = Context::new();
    context.insert("s".to_string(), ContextValue::String("abc".to_string()));
    assert_eq!(evaluate("s =~ 'a.c'", &context), Ok(true));
    assert_eq!(evaluate("s =~ '^a.c$'", &context), Ok(true));

    let mut context = Context::new();
    context.insert("s".to_string(), ContextValue::String("xabcx".to_string()));
    assert_eq!(evaluate("s =~ '^a.c$'", &context), Ok(false));
    assert_eq!(evaluate("s =~ 'a.c'", &context), Ok(true));
}

#[test]
fn invalid_regex_reported() {
    let mut context = Context::new();
    context.insert("s".to_string(), ContextValue::String("abc".to_string()));
    assert_eq!(evaluate("s =~ '('", &context), Err("Invalid regex: (".to_string()));
}

#[test]
fn missing_identifier_named() {
    let context = Context::new();
    assert_eq!(
        evaluate("mode == 1", &context),
        Err("Identifier not found in context: mode".to_string())
    );
}

#[test]
fn kind_mismatch_fails_at_evaluation_not_parse() {
    // A literal mismatch is already a parse failure ...
    let context = Context::new();
    assert!(evaluate("2.0 == 1", &context).is_err());

    // ... but a context-supplied mismatch parses and then fails at
    // evaluation time.
    let mut context = Context::new();
    context.insert("x".to_string(), ContextValue::Float(FloatValue::new(10, 1).unwrap()));
    context.insert("y".to_string(), ContextValue::Integer(1));
    assert_eq!(
        evaluate("x == y", &context),
        Err("Not a Binary Float expression: FloatLiteral vs IntegerLiteral".to_string())
    );
}

#[test]
fn boolean_operands_fall_through_to_float_path() {
    let mut context = Context::new();
    context.insert("a".to_string(), ContextValue::Boolean(true));
    context.insert("b".to_string(), ContextValue::Boolean(true));
    assert_eq!(
        evaluate("a == b", &context),
        Err("Not a Binary Float expression: Boolean vs Boolean".to_string())
    );
}

#[test]
fn non_boolean_in_boolean_slot() {
    let mut context = Context::new();
    context.insert("foo".to_string(), ContextValue::Integer(1));
    assert_eq!(
        evaluate("!foo", &context),
        Err("Value should be a boolean: Identifier(\"foo\")".to_string())
    );
}

#[test]
fn unbound_tree_reports_missing_binding() {
    let e = BooleanExpression::Identifier(Identifier::from("x"));
    assert_eq!(
        e.evaluate(),
        Err("Context should be used before evaluation: Identifier(\"x\")".to_string())
    );
}

#[test]
fn invalid_operator_for_number() {
    let e = NonBooleanExpression(
        Value::IntegerLiteral(1),
        BinaryOperator::And,
        Value::IntegerLiteral(1),
    );
    assert_eq!(
        e.eval_integer(),
        Err("Invalid binary operator for number: And".to_string())
    );
    let e = NonBooleanExpression(
        Value::IntegerLiteral(1),
        BinaryOperator::RegexMatch,
        Value::IntegerLiteral(1),
    );
    assert_eq!(
        e.eval_integer(),
        Err("Invalid binary operator for number: RegexMatch".to_string())
    );
}

#[test]
fn syntax_error_named() {
    let context = Context::new();
    assert_eq!(
        evaluate("@#", &context),
        Err("Syntax error in expression: \"@#\"".to_string())
    );
    assert!(evaluate("", &context).is_err());
}

#[test]
fn trailing_input_named() {
    let context = Context::new();
    assert_eq!(
        evaluate("true x", &context),
        Err("Expected end of input, found: \" x\"".to_string())
    );
}

#[test]
fn round_trip_each_kind() {
    let mut context = Context::new();
    context.insert("s".to_string(), ContextValue::String("v".to_string()));
    context.insert("i".to_string(), ContextValue::Integer(7));
    context.insert("f".to_string(), ContextValue::Float(FloatValue::new(20, 1).unwrap()));
    assert_eq!(evaluate("s == 'v'", &context), Ok(true));
    assert_eq!(evaluate("s != 'v'", &context), Ok(false));
    assert_eq!(evaluate("i == 7", &context), Ok(true));
    assert_eq!(evaluate("i != 7", &context), Ok(false));
    // A float literal must stand left of the identifier: with the
    // identifier first, the integer alternative consumes `f == 2` and
    // leaves `.0` as trailing input.
    assert_eq!(evaluate("2.0 == f", &context), Ok(true));
    assert_eq!(evaluate("2.0 != f", &context), Ok(false));
    assert!(evaluate("f == 2.0", &context).is_err());
}

#[test]
fn combined_regex_and_number_chain() {
    let mut context = Context::new();
    context.insert("foo".to_string(), ContextValue::String("baaaar".to_string()));
    context.insert("length".to_string(), ContextValue::Integer(1));
    let result = evaluate("foo =~ 'ba+r' && 2 > length", &context);
    assert_eq!(result, Ok(true));
}

#[test]
fn integer_comparisons() {
    let context = Context::new();
    assert_eq!(evaluate("1 < 2", &context), Ok(true));
    assert_eq!(evaluate("2 < 1", &context), Ok(false));
    assert_eq!(evaluate("3 > 2", &context), Ok(true));
    assert_eq!(evaluate("7 == 7", &context), Ok(true));
    assert_eq!(evaluate("7 != 7", &context), Ok(false));
}

#[test]
fn two_char_comparison_tokens_parse_whole() {
    // `<=` and `>=` are matched before their one-character prefixes,
    // so the full token is consumed and the chain parses.
    let context = Context::new();
    assert_eq!(evaluate("1 <= 2", &context), Ok(true));
    assert_eq!(evaluate("2 <= 2", &context), Ok(true));
    assert_eq!(evaluate("3 <= 2", &context), Ok(false));
    assert_eq!(evaluate("1 >= 2", &context), Ok(false));
    assert_eq!(evaluate("2 >= 2", &context), Ok(true));
    assert_eq!(evaluate("1.5 <= 2.25", &context), Ok(true));
    assert_eq!(evaluate("1.5 >= 2.25", &context), Ok(false));
}

#[test]
fn float_comparisons_are_exact_decimals() {
    let context = Context::new();
    assert_eq!(evaluate("1.5 < 2.25", &context), Ok(true));
    assert_eq!(evaluate("2.25 < 1.5", &context), Ok(false));
    assert_eq!(evaluate("1.50 == 1.5", &context), Ok(true));
    assert_eq!(evaluate("0.3 != 0.30", &context), Ok(false));
}

#[test]
fn oversized_literals_are_refused() {
    let context = Context::new();
    assert!(evaluate("99999999999999999999 == 1", &context).is_err());
    assert!(FloatValue::new(1, 19).is_none());
    assert!(FloatValue::new(1, 18).is_some());
}

#[test]
fn later_insert_replaces_earlier_binding() {
    let mut context = Context::new();
    context.insert("mode".to_string(), ContextValue::Integer(1));
    context.insert("mode".to_string(), ContextValue::Integer(4));
    assert_eq!(evaluate("mode == 4", &context), Ok(true));
}

#[test]
fn identifier_characters() {
    let mut context = Context::new();
    context.insert("a.b_c".to_string(), ContextValue::Integer(1));
    assert_eq!(evaluate("a.b_c == 1", &context), Ok(true));
}

#[test]
fn empty_string_literal_is_refused() {
    assert!(string("''").is_none());
    let context = Context::new();
    assert!(evaluate("'' == 'a'", &context).is_err());
}

#[test]
fn reserved_words_are_not_identifiers() {
    let context = Context::new();
    // `true` in a comparison slot is refused as an identifier, so the
    // comparison does not parse and the chain fails as a whole.
    assert!(evaluate("true == true", &context).is_err());
    assert!(parse_whole_boolean_expression("1 == true").is_err());
}

#[test]
fn and_or_chains_short_circuit_like_rust() {
    // The left side decides the chain before the right side is
    // evaluated, so a right side that would fail is never reached.
    let mut context = Context::new();
    context.insert("x".to_string(), ContextValue::Float(FloatValue::new(10, 1).unwrap()));
    context.insert("y".to_string(), ContextValue::Integer(1));
    assert_eq!(evaluate("false && x == y", &context), Ok(false));
    assert_eq!(evaluate("true || x == y", &context), Ok(true));
    assert!(evaluate("true && x == y", &context).is_err());
}
