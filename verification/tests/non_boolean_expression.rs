use logical_expr::float_value::FloatValue;
use logical_expr::non_boolean_expression::{binary_non_bool, NonBooleanExpression};
use logical_expr::operator::BinaryOperator;
use logical_expr::value::{Identifier, Value};

#[test]
fn parse_test() {
    let e = binary_non_bool("1 == 2").unwrap().1;
    assert_eq!(
        e,
        NonBooleanExpression(
            Value::IntegerLiteral(1),
            BinaryOperator::Equals,
            Value::IntegerLiteral(2)
        )
    );
}

#[test]
fn parse_test_1() {
    let e = binary_non_bool("1 == mode").unwrap().1;
    assert_eq!(
        e,
        NonBooleanExpression(
            Value::IntegerLiteral(1),
            BinaryOperator::Equals,
            Value::Identifier(Identifier::from("mode"))
        )
    );
}

#[test]
fn parse_test_2() {
    let e = binary_non_bool("valla == mode").unwrap().1;
    assert_eq!(
        e,
        NonBooleanExpression(
            Value::Identifier(Identifier::from("valla")),
            BinaryOperator::Equals,
            Value::Identifier(Identifier::from("mode"))
        )
    );
}

#[test]
fn parse_test_3() {
    let e = binary_non_bool("'valla' == mode").unwrap().1;
    assert_eq!(
        e,
        NonBooleanExpression(
            Value::StringLiteral("valla".to_string()),
            BinaryOperator::Equals,
            Value::Identifier(Identifier::from("mode"))
        )
    );
}

#[test]
fn parse_test_4() {
    let e = binary_non_bool("2.0 == mode").unwrap().1;
    assert_eq!(
        e,
        NonBooleanExpression(
            Value::FloatLiteral(FloatValue::new(20, 1).unwrap()),
            BinaryOperator::Equals,
            Value::Identifier(Identifier::from("mode"))
        )
    );
}

#[test]
fn parse_test_error() {
    let e = binary_non_bool("2.0 == 1");
    assert!(e.is_none())
}

#[test]
fn test_eval_string() {
    let e = NonBooleanExpression(
        Value::StringLiteral("test".to_string()),
        BinaryOperator::Equals,
        Value::StringLiteral("test".to_string()),
    );
    assert_eq!(e.eval_string(), Ok(true));
    let e = NonBooleanExpression(
        Value::StringLiteral("test".to_string()),
        BinaryOperator::NotEquals,
        Value::StringLiteral("test".to_string()),
    );
    assert_eq!(e.eval_string(), Ok(false));
    let e = NonBooleanExpression(
        Value::StringLiteral("test".to_string()),
        BinaryOperator::RegexMatch,
        Value::StringLiteral("t.*t".to_string()),
    );
    assert_eq!(e.eval_string(), Ok(true));
    let e = NonBooleanExpression(
        Value::StringLiteral("test".to_string()),
        BinaryOperator::RegexMatch,
        Value::StringLiteral("t.t".to_string()),
    );
    assert_eq!(e.eval_string(), Ok(false));
    let e = NonBooleanExpression(
        Value::StringLiteral("test".to_string()),
        BinaryOperator::Equals,
        Value::StringLiteral("nope".to_string()),
    );
    assert_eq!(e.eval_string(), Ok(false));
    let e = NonBooleanExpression(
        Value::StringLiteral("test".to_string()),
        BinaryOperator::RegexMatch,
        Value::StringLiteral("t..t".to_string()),
    );
    assert_eq!(e.eval_string(), Ok(true));
    let e = NonBooleanExpression(
        Value::StringLiteral("test".to_string()),
        BinaryOperator::LessEqual,
        Value::StringLiteral("t..t".to_string()),
    );
    assert_eq!(
        e.eval_string(),
        Err("Invalid binary operator for string: LessEqual".to_string())
    );
}

#[test]
fn test_eval_number() {
    let e = NonBooleanExpression(
        Value::IntegerLiteral(1),
        BinaryOperator::Equals,
        Value::IntegerLiteral(1),
    );
    assert_eq!(e.eval_integer(), Ok(true));
    let e = NonBooleanExpression(
        Value::IntegerLiteral(1),
        BinaryOperator::NotEquals,
        Value::IntegerLiteral(1),
    );
    assert_eq!(e.eval_integer(), Ok(false));
    let e = NonBooleanExpression(
        Value::IntegerLiteral(1),
        BinaryOperator::LessThan,
        Value::IntegerLiteral(2),
    );
    assert_eq!(e.eval_integer(), Ok(true));
    let e = NonBooleanExpression(
        Value::IntegerLiteral(1),
        BinaryOperator::GreaterThan,
        Value::IntegerLiteral(2),
    );
    assert_eq!(e.eval_integer(), Ok(false));
    let e = NonBooleanExpression(
        Value::IntegerLiteral(1),
        BinaryOperator::LessEqual,
        Value::IntegerLiteral(2),
    );
    assert_eq!(e.eval_integer(), Ok(true));
    let e = NonBooleanExpression(
        Value::IntegerLiteral(1),
        BinaryOperator::GreaterEqual,
        Value::IntegerLiteral(2),
    );
    assert_eq!(e.eval_integer(), Ok(false));
    let e = NonBooleanExpression(
        Value::IntegerLiteral(1),
        BinaryOperator::Equals,
        Value::IntegerLiteral(2),
    );
    assert_eq!(e.eval_integer(), Ok(false));
    let e = NonBooleanExpression(
        Value::FloatLiteral(FloatValue::new(10, 1).unwrap()),
        BinaryOperator::LessThan,
        Value::FloatLiteral(FloatValue::new(20, 1).unwrap()),
    );
    assert_eq!(e.eval_float(), Ok(true));
    let e = NonBooleanExpression(
        Value::FloatLiteral(FloatValue::new(10, 1).unwrap()),
        BinaryOperator::GreaterThan,
        Value::FloatLiteral(FloatValue::new(20, 1).unwrap()),
    );
    assert_eq!(e.eval_float(), Ok(false));
    let e = NonBooleanExpression(
        Value::FloatLiteral(FloatValue::new(10, 1).unwrap()),
        BinaryOperator::LessEqual,
        Value::FloatLiteral(FloatValue::new(20, 1).unwrap()),
    );
    assert_eq!(e.eval_float(), Ok(true));
    let e = NonBooleanExpression(
        Value::FloatLiteral(FloatValue::new(10, 1).unwrap()),
        BinaryOperator::GreaterEqual,
        Value::FloatLiteral(FloatValue::new(20, 1).unwrap()),
    );
    assert_eq!(e.eval_float(), Ok(false));
}
