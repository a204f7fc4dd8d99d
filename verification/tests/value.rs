use logical_expr::float_value::FloatValue;
use logical_expr::value::{boolean, float, identifier, integer, string, Identifier, Value};

#[test]
fn test_value() {
    // Test conversion of various values to the corresponding enum value.
    assert_eq!(
        identifier("foo").unwrap().1,
        Value::Identifier(Identifier("foo".to_string()))
    );
    assert_eq!(string("'foo'").unwrap().1, Value::StringLiteral("foo".to_string()));
    assert_eq!(integer("1").unwrap().1, Value::IntegerLiteral(1));
    assert_eq!(
        float("1.0").unwrap().1,
        Value::FloatLiteral(FloatValue::new(10, 1).unwrap())
    );
    assert_eq!(boolean("true").unwrap().1, Value::Boolean(true));
    assert_eq!(boolean("false").unwrap().1, Value::Boolean(false));
}
