use ddlx::model::rule_filter::filter::FilterCondition;
use ddlx::model::rule_filter::operator::ComparisonOperator;
use ddlx::parser::cursor::Source;
use ddlx::parser::lexer::TokenKind;
use ddlx::parser::rule_filter_expr::parse_filter_expr;

fn value(field: &str, operator: ComparisonOperator, value: &str) -> FilterCondition {
    FilterCondition::ValueCondition {
        field: field.to_owned(),
        operator,
        value: value.to_owned(),
    }
}

fn field(first: &str, operator: ComparisonOperator, second: &str) -> FilterCondition {
    FilterCondition::FieldCondition {
        first_field: first.to_owned(),
        operator,
        second_field: second.to_owned(),
    }
}

fn foo_zero() -> FilterCondition {
    value("foo", ComparisonOperator::Equal, "0")
}

fn foo_lt_bar() -> FilterCondition {
    field("foo", ComparisonOperator::LessThan, "bar")
}

fn foo_eq_bar() -> FilterCondition {
    field("foo", ComparisonOperator::Equal, "bar")
}

fn fizz_zero() -> FilterCondition {
    value("fizz", ComparisonOperator::Equal, "0")
}

/// The condition as a bracketed term that shows the shape of the tree.
fn shape(c: &FilterCondition) -> String {
    match c {
        FilterCondition::And(cs) => {
            format!("And[{}]", cs.iter().map(shape).collect::<Vec<String>>().join(", "))
        }
        FilterCondition::Or(cs) => {
            format!("Or[{}]", cs.iter().map(shape).collect::<Vec<String>>().join(", "))
        }
        FilterCondition::Not(c) => format!("Not[{}]", shape(c)),
        FilterCondition::FieldCondition { first_field, operator, second_field } => {
            format!("F({}|{}|{})", first_field, operator.to_string(), second_field)
        }
        FilterCondition::ValueCondition { field, operator, value } => {
            format!("V({}|{}|{})", field, operator.to_string(), value)
        }
    }
}

fn parses_as(input: &str, expected: FilterCondition) {
    let parsed = parse_filter_expr(input);
    assert!(parsed.is_some(), "{:?}", input);
    assert_eq!(shape(&parsed.unwrap()), shape(&expected));
}

fn operator_of(symbol: &str) -> ComparisonOperator {
    match parse_filter_expr(&format!("a {} b", symbol)) {
        Some(FilterCondition::FieldCondition { operator, .. }) => operator,
        other => panic!("{:?}", other),
    }
}

#[test]
fn test_comparison_operator_greater_than() {
    assert_eq!(ComparisonOperator::GreaterThan, operator_of(">"));
}

#[test]
fn test_comparison_operator_less_than() {
    assert_eq!(ComparisonOperator::LessThan, operator_of("<"));
}

#[test]
fn test_comparison_operator_equal() {
    assert_eq!(ComparisonOperator::Equal, operator_of("="));
}

#[test]
fn test_comparison_operator_not_equal() {
    assert_eq!(ComparisonOperator::NotEqual, operator_of("!="));
}

#[test]
fn test_comparison_operator_greater_than_or_equal() {
    assert_eq!(ComparisonOperator::GreaterThanOrEqual, operator_of(">="));
}

#[test]
fn test_comparison_operator_less_than_or_equal() {
    assert_eq!(ComparisonOperator::LessThanOrEqual, operator_of("<="));
}

#[test]
fn test_rule_filter_expr_success_field_with_field() {
    parses_as("foo > bar", field("foo", ComparisonOperator::GreaterThan, "bar"));
}

#[test]
fn test_rule_filter_expr_success_number_with_point() {
    parses_as("foo > 1.", value("foo", ComparisonOperator::GreaterThan, "1."));
}

#[test]
fn test_rule_filter_expr_success_fraction() {
    parses_as("foo != 0.04", value("foo", ComparisonOperator::NotEqual, "0.04"));
}

#[test]
fn test_rule_filter_expr_success_negative_fraction() {
    parses_as("foo <= -0.04", value("foo", ComparisonOperator::LessThanOrEqual, "-0.04"));
}

#[test]
fn test_rule_filter_expr_success_zero_with_point() {
    parses_as("foo = 0.", value("foo", ComparisonOperator::Equal, "0."));
}

#[test]
fn test_rule_filter_expr_success_bracketed_and() {
    parses_as(
        "(foo = 0 && foo < bar)",
        FilterCondition::And(vec![foo_zero(), foo_lt_bar()]),
    );
}

#[test]
fn test_rule_filter_expr_success_and_chain_with_bracketed_or() {
    parses_as(
        "foo = 0 && ( foo < bar || foo = bar ) && fizz = 0",
        FilterCondition::And(vec![
            FilterCondition::And(vec![
                foo_zero(),
                FilterCondition::Or(vec![foo_lt_bar(), foo_eq_bar()]),
            ]),
            fizz_zero(),
        ]),
    );
}

#[test]
fn test_rule_filter_expr_success_and() {
    parses_as("foo = 0 && foo < bar", FilterCondition::And(vec![foo_zero(), foo_lt_bar()]));
}

#[test]
fn test_rule_filter_expr_success_or() {
    parses_as("foo = 0 || foo < bar", FilterCondition::Or(vec![foo_zero(), foo_lt_bar()]));
}

#[test]
fn test_rule_filter_expr_success_and_binds_tighter() {
    parses_as(
        "foo = 0 &&  foo < bar || foo = bar",
        FilterCondition::Or(vec![
            FilterCondition::And(vec![foo_zero(), foo_lt_bar()]),
            foo_eq_bar(),
        ]),
    );
}

#[test]
fn test_rule_filter_expr_success_or_of_two_ands() {
    parses_as(
        "foo = 0 &&  foo < bar || foo = bar && fizz = 0",
        FilterCondition::Or(vec![
            FilterCondition::And(vec![foo_zero(), foo_lt_bar()]),
            FilterCondition::And(vec![foo_eq_bar(), fizz_zero()]),
        ]),
    );
}

#[test]
fn test_rule_filter_expr_success_negation() {
    parses_as(
        "!(foo = 0 && foo < bar || foo = bar && fizz = 0 )",
        FilterCondition::Not(Box::new(FilterCondition::Or(vec![
            FilterCondition::And(vec![foo_zero(), foo_lt_bar()]),
            FilterCondition::And(vec![foo_eq_bar(), fizz_zero()]),
        ]))),
    );
}

#[test]
fn or_of_two_ands_keeps_its_leaves_through_the_canonical_form() {
    let parsed = parse_filter_expr("foo = 0 && foo < bar || foo = bar && fizz = 0").unwrap();
    assert_eq!(shape(&parsed), "Or[And[V(foo|=|0), F(foo|<|bar)], And[F(foo|=|bar), V(fizz|=|0)]]");
    let canonical = parsed.reduce_nesting().sort();
    assert_eq!(
        shape(&canonical),
        "Or[And[V(fizz|=|0), F(foo|=|bar)], And[F(foo|<|bar), V(foo|=|0)]]"
    );
    assert_eq!(
        canonical.to_string(),
        "( ( ( fizz = 0 ) AND ( foo = bar ) ) OR ( ( foo < bar ) AND ( foo = 0 ) ) )"
    );
    assert_eq!(canonical, parsed);
}

#[test]
fn chains_are_read_from_the_left() {
    parses_as(
        "a = 1 || b = 2 || c = 3",
        FilterCondition::Or(vec![
            FilterCondition::Or(vec![
                value("a", ComparisonOperator::Equal, "1"),
                value("b", ComparisonOperator::Equal, "2"),
            ]),
            value("c", ComparisonOperator::Equal, "3"),
        ]),
    );
    parses_as(
        "((a>=b))",
        field("a", ComparisonOperator::GreaterThanOrEqual, "b"),
    );
    parses_as(
        "!(!(a_1 != -2))",
        FilterCondition::Not(Box::new(FilterCondition::Not(Box::new(value(
            "a_1",
            ComparisonOperator::NotEqual,
            "-2",
        ))))),
    );
}

#[test]
fn numbers_take_a_sign_and_a_fraction() {
    parses_as("foo > 0.0", value("foo", ComparisonOperator::GreaterThan, "0.0"));
    parses_as("foo > -0.", value("foo", ComparisonOperator::GreaterThan, "-0."));
    parses_as("foo>12", value("foo", ComparisonOperator::GreaterThan, "12"));
}

#[test]
fn test_rule_filter_expr_failure_number_on_the_left() {
    assert!(parse_filter_expr("1 > foo").is_none());
}

#[test]
fn test_rule_filter_expr_failure_open_bracket() {
    assert!(parse_filter_expr("(foo = 0 && foo < bar").is_none());
}

#[test]
fn what_is_no_condition() {
    for text in [
        "", "foo", "foo >", "foo > .", "foo > -.", "foo > .5", "foo = 1 &&", "foo = 1 & bar = 2",
        "foo = 1 | bar = 2", "foo = 1 bar = 2", "foo == 1", "! (foo = 1)", "foo = 1)", "()",
        "foo = 'a'", "foo = 1 # x", "foo > 1 2",
    ] {
        assert!(parse_filter_expr(text).is_none(), "{:?}", text);
    }
}

#[test]
fn the_tokens_of_a_text() {
    let src = Source::new("a-b >= -1.5 && !( 'x y' ) {,;.} \"q\" || - <= < = != 7. (");
    let kinds: Vec<TokenKind> = src.tokens.iter().map(|t| t.kind).collect();
    assert_eq!(
        kinds,
        vec![
            TokenKind::Word,
            TokenKind::GreaterEqual,
            TokenKind::Number,
            TokenKind::AndAnd,
            TokenKind::NotParen,
            TokenKind::Quoted,
            TokenKind::RightParen,
            TokenKind::LeftBrace,
            TokenKind::Comma,
            TokenKind::Semicolon,
            TokenKind::Dot,
            TokenKind::RightBrace,
            TokenKind::Quoted,
            TokenKind::OrOr,
            TokenKind::Dash,
            TokenKind::LessEqual,
            TokenKind::Less,
            TokenKind::Equal,
            TokenKind::NotEqual,
            TokenKind::Number,
            TokenKind::LeftParen,
        ]
    );
    assert_eq!(src.stopped_at, None);
    assert_eq!(src.text(0), "a-b");
    assert_eq!(src.text(2), "-1.5");
    assert_eq!(src.quoted(5), "x y");
    assert_eq!(src.text(19), "7.");
    assert_eq!((src.tokens[2].start, src.tokens[2].end), (7, 11));
}

#[test]
fn reading_stops_where_no_token_can_begin() {
    let src = Source::new("ab 'cd\" ef");
    assert_eq!(src.len(), 1);
    assert_eq!(src.stopped_at, Some(3));
    let src = Source::new("a ! b");
    assert_eq!(src.stopped_at, Some(2));
    let src = Source::new("a \u{e9}");
    assert_eq!(src.stopped_at, Some(2));
    assert!(Source::new("  \t\r\n ").tokens.is_empty());
    assert!(Source::new("CrEaTe").is_keyword(0, "create"));
    assert!(!Source::new("CrEaTe").is_identifier(0));
    assert!(Source::new("created").is_identifier(0));
}
