use logical_expr::operator::{binary_operator_number, BinaryOperator};

#[test]
fn test_operator() {
    // Test conversion of various operators to the corresponding enum value.
    let tests = [
        ("==", BinaryOperator::Equals),
        ("!=", BinaryOperator::NotEquals),
        ("<", BinaryOperator::LessThan),
        (">", BinaryOperator::GreaterThan),
        ("<=", BinaryOperator::LessEqual),
        (">=", BinaryOperator::GreaterEqual),
        ("&&", BinaryOperator::And),
        ("||", BinaryOperator::Or),
        ("=~", BinaryOperator::RegexMatch),
    ];

    for (input, expected) in tests.iter() {
        assert_eq!(BinaryOperator::try_from(*input).unwrap(), *expected);
    }

    assert_eq!(
        BinaryOperator::try_from("invalid").unwrap_err(),
        "Unknown operator: invalid"
    );
}

#[test]
fn test_operator_primary() {
    assert_eq!(binary_operator_number("=="), Some((2, BinaryOperator::Equals)));
    assert_eq!(binary_operator_number(">"), Some((1, BinaryOperator::GreaterThan)))
}

#[test]
fn test_operator_two_char_tokens() {
    assert_eq!(binary_operator_number("<="), Some((2, BinaryOperator::LessEqual)));
    assert_eq!(binary_operator_number(">="), Some((2, BinaryOperator::GreaterEqual)));
    assert_eq!(binary_operator_number("<"), Some((1, BinaryOperator::LessThan)));
}
