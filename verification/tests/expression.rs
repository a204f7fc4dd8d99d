use logical_expr::expression::{
    boolean_and, boolean_expression, boolean_or, boolean_value, parse_whole_boolean_expression,
    BooleanExpression,
};
use logical_expr::non_boolean_expression::NonBooleanExpression;
use logical_expr::operator::{BinaryOperator, UnaryOperator};
use logical_expr::value::{Identifier, Value};

#[test]
fn test_boolean_value() {
    let value = "(true)";
    let result = boolean_value(value);
    assert_eq!(result.is_some(), true);
    let (_, boolean_exp) = result.unwrap();
    assert_eq!(boolean_exp, BooleanExpression::Boolean(true));
}

#[test]
fn test_boolean_value_2() {
    let value = "!  ( !   true)  ";
    let result = boolean_value(value);
    assert_eq!(result.is_some(), true);
    let (_, boolean_exp) = result.unwrap();
    assert_eq!(
        boolean_exp,
        BooleanExpression::Unary(
            UnaryOperator::Not,
            Box::new(BooleanExpression::Unary(
                UnaryOperator::Not,
                Box::new(BooleanExpression::Boolean(true))
            ))
        )
    );
}

#[test]
fn test_boolean_value_3() {
    let value = "4 == mode";
    let result = boolean_value(value);
    assert_eq!(result.is_some(), true);
    let (_, boolean_exp) = result.unwrap();
    assert_eq!(
        boolean_exp,
        BooleanExpression::NonBooleanExpression(NonBooleanExpression(
            Value::IntegerLiteral(4),
            BinaryOperator::Equals,
            Value::Identifier(Identifier::from("mode"))
        ))
    );
}

#[test]
fn test_boolean_value_err() {
    let value = "4 && mode";
    let result = boolean_value(value);
    assert_eq!(result.is_none(), true);
}

#[test]
fn test_boolean_expression() {
    let value = "false || true || false";
    let result = boolean_expression(value);
    assert_eq!(result.is_some(), true);
    let (_, boolean_exp) = result.unwrap();
    assert_eq!(
        boolean_exp,
        BooleanExpression::Binary(
            Box::new(BooleanExpression::Boolean(false)),
            BinaryOperator::Or,
            Box::new(BooleanExpression::Binary(
                Box::new(BooleanExpression::Boolean(true)),
                BinaryOperator::Or,
                Box::new(BooleanExpression::Boolean(false))
            )),
        )
    );
}

#[test]
fn test_boolean_and() {
    let value = "true && false";
    let result = boolean_and(value);
    assert_eq!(result.is_some(), true);
    let (_, boolean_exp) = result.unwrap();
    assert_eq!(
        boolean_exp,
        BooleanExpression::Binary(
            Box::new(BooleanExpression::Boolean(true)),
            BinaryOperator::And,
            Box::new(BooleanExpression::Boolean(false))
        )
    );
}

#[test]
fn test_boolean_or() {
    let value = "true || false";
    let result = boolean_or(value);
    assert_eq!(result.is_some(), true);
    let (_, boolean_exp) = result.unwrap();
    assert_eq!(
        boolean_exp,
        BooleanExpression::Binary(
            Box::new(BooleanExpression::Boolean(true)),
            BinaryOperator::Or,
            Box::new(BooleanExpression::Boolean(false))
        )
    );
}

#[test]
fn test_boolean_value_error() {
    let value = "identifier < true";
    let result = parse_whole_boolean_expression(value);
    assert_eq!(result.is_err(), true);
}

#[test]
fn test_boolean_expression_identifier() {
    let value = "(identifier)";
    let result = boolean_expression(value);
    assert_eq!(result.is_some(), true);
}

#[test]
fn test_boolean_and_or_mix_error() {
    let value = "identifier && identifier || identifier";
    let result = parse_whole_boolean_expression(value);
    assert_eq!(result.is_err(), true);
}

#[test]
fn test_boolean_and_or_mix() {
    let value = "identifier && (identifier || identifier)";
    let result = parse_whole_boolean_expression(value);
    assert_eq!(result.is_ok(), true);
}
