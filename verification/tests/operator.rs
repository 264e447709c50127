use ddlx::model::rule_filter::operator::ComparisonOperator;

#[test]
fn test_to_string_greater_than() {
    assert_eq!(ComparisonOperator::GreaterThan.to_string(), ">");
}

#[test]
fn test_to_string_less_than() {
    assert_eq!(ComparisonOperator::LessThan.to_string(), "<");
}

#[test]
fn test_to_string_equal() {
    assert_eq!(ComparisonOperator::Equal.to_string(), "=");
}

#[test]
fn test_to_string_not_equal() {
    assert_eq!(ComparisonOperator::NotEqual.to_string(), "!=");
}

#[test]
fn test_to_string_greater_than_or_equal() {
    assert_eq!(ComparisonOperator::GreaterThanOrEqual.to_string(), ">=");
}

#[test]
fn test_to_string_less_than_or_equal() {
    assert_eq!(ComparisonOperator::LessThanOrEqual.to_string(), "<=");
}
