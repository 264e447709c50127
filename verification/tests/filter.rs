use ddlx::model::rule_filter::filter::{ColumnRuleFilter, FilterCondition};
use ddlx::model::rule_filter::operator::ComparisonOperator;
use ddlx::parser::error_utils::DDLxParseError;

fn value(field: &str, operator: ComparisonOperator, value: &str) -> FilterCondition {
    FilterCondition::ValueCondition {
        field: field.to_owned(),
        operator,
        value: value.to_owned(),
    }
}

fn field(first: &str, operator: ComparisonOperator, second: &str) -> FilterCondition {
    FilterCondition::FieldCondition {
        first_field: first.to_owned(),
        operator,
        second_field: second.to_owned(),
    }
}

fn foo_zero() -> FilterCondition {
    value("foo", ComparisonOperator::Equal, "0 ")
}

fn foo_lt_bar() -> FilterCondition {
    field("foo", ComparisonOperator::LessThan, "bar")
}

fn foo_eq_bar() -> FilterCondition {
    field("foo", ComparisonOperator::Equal, "bar")
}

fn fizz_zero() -> FilterCondition {
    value("fizz", ComparisonOperator::Equal, "0 ")
}

fn and(cs: Vec<FilterCondition>) -> FilterCondition {
    FilterCondition::And(cs)
}

fn or(cs: Vec<FilterCondition>) -> FilterCondition {
    FilterCondition::Or(cs)
}

fn not(c: FilterCondition) -> FilterCondition {
    FilterCondition::Not(Box::new(c))
}

/// Whether two conditions are the same tree, member for member.
fn same_tree(a: &FilterCondition, b: &FilterCondition) -> bool {
    match (a, b) {
        (FilterCondition::And(x), FilterCondition::And(y))
        | (FilterCondition::Or(x), FilterCondition::Or(y)) => {
            x.len() == y.len() && x.iter().zip(y.iter()).all(|(p, q)| same_tree(p, q))
        }
        (FilterCondition::Not(x), FilterCondition::Not(y)) => same_tree(x, y),
        (
            FilterCondition::FieldCondition { first_field: a1, operator: o1, second_field: b1 },
            FilterCondition::FieldCondition { first_field: a2, operator: o2, second_field: b2 },
        ) => a1 == a2 && o1 == o2 && b1 == b2,
        (
            FilterCondition::ValueCondition { field: a1, operator: o1, value: b1 },
            FilterCondition::ValueCondition { field: a2, operator: o2, value: b2 },
        ) => a1 == a2 && o1 == o2 && b1 == b2,
        _ => false,
    }
}

#[test]
fn test_reduce_nesting_and_in_and_under_not() {
    let input = not(and(vec![
        and(vec![foo_zero(), foo_lt_bar()]),
        and(vec![foo_eq_bar(), fizz_zero()]),
    ]));
    let desired = not(and(vec![foo_zero(), foo_lt_bar(), foo_eq_bar(), fizz_zero()]));
    let actual = input.reduce_nesting();
    assert_eq!(actual, desired);
    assert!(same_tree(&actual, &desired));
}

#[test]
fn test_reduce_nesting_keeps_or_in_and() {
    let input = not(and(vec![
        and(vec![foo_zero(), foo_lt_bar()]),
        or(vec![foo_eq_bar(), fizz_zero()]),
    ]));
    let desired = not(and(vec![
        foo_zero(),
        foo_lt_bar(),
        or(vec![foo_eq_bar(), fizz_zero()]),
    ]));
    let actual = input.reduce_nesting();
    assert_eq!(actual, desired);
    assert!(same_tree(&actual, &desired));
}

#[test]
fn test_reduce_nesting_deep_and() {
    let input = and(vec![and(vec![
        foo_zero(),
        and(vec![and(vec![foo_eq_bar(), foo_lt_bar()]), fizz_zero()]),
    ])]);
    let desired = and(vec![foo_zero(), foo_eq_bar(), foo_lt_bar(), fizz_zero()]);
    let actual = input.reduce_nesting();
    assert_eq!(actual, desired);
    assert!(same_tree(&actual, &desired));
}

#[test]
fn test_reduce_nesting_deep_or() {
    let input = or(vec![or(vec![
        foo_zero(),
        or(vec![or(vec![foo_eq_bar(), foo_lt_bar()]), fizz_zero()]),
    ])]);
    let desired = or(vec![foo_zero(), foo_eq_bar(), foo_lt_bar(), fizz_zero()]);
    let actual = input.reduce_nesting();
    assert_eq!(actual, desired);
    assert!(same_tree(&actual, &desired));
}

#[test]
fn reduce_nesting_twice_changes_nothing_more() {
    let input = and(vec![
        or(vec![or(vec![foo_zero(), foo_lt_bar()]), and(vec![and(vec![fizz_zero()])])]),
        and(vec![not(or(vec![or(vec![foo_eq_bar()])]))]),
    ]);
    let once = input.reduce_nesting();
    let twice = once.reduce_nesting();
    assert!(same_tree(&once, &twice));
    assert_eq!(
        once.to_string(),
        "( ( ( foo = 0  ) OR ( foo < bar ) OR ( ( fizz = 0  ) ) ) AND NOT ( ( ( foo = bar ) ) ) )"
    );
}

#[test]
fn test_filter_condition_to_string_nested_and_under_not() {
    let input = not(and(vec![
        and(vec![foo_zero(), foo_lt_bar()]),
        and(vec![foo_eq_bar(), fizz_zero()]),
    ]));
    assert_eq!(
        input.to_string(),
        "NOT ( ( ( ( foo = 0  ) AND ( foo < bar ) ) AND ( ( foo = bar ) AND ( fizz = 0  ) ) ) )"
    );
}

#[test]
fn test_filter_condition_to_string_flat_and_under_not() {
    let input = not(and(vec![foo_zero(), foo_lt_bar(), foo_eq_bar(), fizz_zero()]));
    assert_eq!(
        input.to_string(),
        "NOT ( ( ( foo = 0  ) AND ( foo < bar ) AND ( foo = bar ) AND ( fizz = 0  ) ) )"
    );
}

#[test]
fn test_filter_condition_to_string_and_or_under_not() {
    let input = not(and(vec![
        and(vec![foo_zero(), foo_lt_bar()]),
        or(vec![foo_eq_bar(), fizz_zero()]),
    ]));
    assert_eq!(
        input.to_string(),
        "NOT ( ( ( ( foo = 0  ) AND ( foo < bar ) ) AND ( ( foo = bar ) OR ( fizz = 0  ) ) ) )"
    );
}

#[test]
fn test_filter_condition_to_string_flat_and_with_or() {
    let input = not(and(vec![
        foo_zero(),
        foo_lt_bar(),
        or(vec![foo_eq_bar(), fizz_zero()]),
    ]));
    assert_eq!(
        input.to_string(),
        "NOT ( ( ( foo = 0  ) AND ( foo < bar ) AND ( ( foo = bar ) OR ( fizz = 0  ) ) ) )"
    );
}

#[test]
fn test_filter_condition_to_string_deep_and() {
    let input = and(vec![and(vec![
        foo_zero(),
        and(vec![and(vec![foo_eq_bar(), foo_lt_bar()]), fizz_zero()]),
    ])]);
    assert_eq!(
        input.to_string(),
        "( ( ( foo = 0  ) AND ( ( ( foo = bar ) AND ( foo < bar ) ) AND ( fizz = 0  ) ) ) )"
    );
}

#[test]
fn test_filter_condition_to_string_deep_or() {
    let input = or(vec![or(vec![
        foo_zero(),
        or(vec![or(vec![foo_eq_bar(), foo_lt_bar()]), fizz_zero()]),
    ])]);
    assert_eq!(
        input.to_string(),
        "( ( ( foo = 0  ) OR ( ( ( foo = bar ) OR ( foo < bar ) ) OR ( fizz = 0  ) ) ) )"
    );
}

#[test]
fn test_filter_condition_to_string_flat_or() {
    let input = or(vec![foo_zero(), foo_eq_bar(), foo_lt_bar(), fizz_zero()]);
    assert_eq!(
        input.to_string(),
        "( ( foo = 0  ) OR ( foo = bar ) OR ( foo < bar ) OR ( fizz = 0  ) )"
    );
}

#[test]
fn to_string_of_empty_groups_and_every_operator() {
    assert_eq!(and(vec![]).to_string(), "(  )");
    assert_eq!(or(vec![foo_zero()]).to_string(), "( ( foo = 0  ) )");
    assert_eq!(value("a", ComparisonOperator::GreaterThan, "1").to_string(), "( a > 1 )");
    assert_eq!(value("a", ComparisonOperator::NotEqual, "1").to_string(), "( a != 1 )");
    assert_eq!(value("a", ComparisonOperator::GreaterThanOrEqual, "1").to_string(), "( a >= 1 )");
    assert_eq!(field("a", ComparisonOperator::LessThanOrEqual, "b").to_string(), "( a <= b )");
}

#[test]
fn test_sort_filter_condition_flat_or() {
    let input = or(vec![foo_zero(), foo_eq_bar(), foo_lt_bar(), fizz_zero()]);
    let desired = or(vec![fizz_zero(), foo_lt_bar(), foo_zero(), foo_eq_bar()]);
    let actual = input.sort();
    assert_eq!(actual, desired);
    assert!(same_tree(&actual, &or(vec![fizz_zero(), foo_lt_bar(), foo_zero(), foo_eq_bar()])));
}

#[test]
fn test_sort_filter_condition_groups_under_not() {
    let input = not(and(vec![
        and(vec![foo_zero(), foo_lt_bar()]),
        or(vec![foo_eq_bar(), fizz_zero()]),
    ]));
    let desired = not(and(vec![
        or(vec![foo_eq_bar(), fizz_zero()]),
        and(vec![foo_zero(), foo_lt_bar()]),
    ]));
    assert_eq!(input.sort(), desired);
}

#[test]
fn sort_orders_members_by_their_texts_at_every_level() {
    let input = and(vec![
        or(vec![foo_zero(), fizz_zero()]),
        and(vec![foo_lt_bar(), foo_eq_bar()]),
    ]);
    let sorted = input.sort();
    assert_eq!(
        sorted.to_string(),
        "( ( ( fizz = 0  ) OR ( foo = 0  ) ) AND ( ( foo < bar ) AND ( foo = bar ) ) )"
    );
    assert!(same_tree(&sorted.sort(), &sorted));
}

#[test]
fn sort_keeps_members_of_one_text_in_their_order() {
    let a = value("x", ComparisonOperator::Equal, "1");
    let input = or(vec![fizz_zero(), a.clone(), a.clone(), foo_zero()]);
    assert_eq!(
        input.sort().to_string(),
        "( ( fizz = 0  ) OR ( foo = 0  ) OR ( x = 1 ) OR ( x = 1 ) )"
    );
}

#[test]
fn test_filter_condition_eq_flat_or() {
    let input = or(vec![foo_zero(), foo_eq_bar(), foo_lt_bar(), fizz_zero()]);
    let desired = or(vec![fizz_zero(), foo_lt_bar(), foo_zero(), foo_eq_bar()]);
    assert_eq!(input, desired);
}

#[test]
fn test_filter_condition_eq_groups_under_not() {
    let input = not(and(vec![
        and(vec![foo_zero(), foo_lt_bar()]),
        or(vec![foo_eq_bar(), fizz_zero()]),
    ]));
    let desired = not(and(vec![
        or(vec![foo_eq_bar(), fizz_zero()]),
        and(vec![foo_zero(), foo_lt_bar()]),
    ]));
    assert_eq!(input, desired);
}

#[test]
fn equality_ignores_order_but_not_shape() {
    let a = or(vec![foo_zero(), foo_lt_bar(), fizz_zero()]);
    let b = or(vec![fizz_zero(), foo_zero(), foo_lt_bar()]);
    let c = or(vec![foo_lt_bar(), fizz_zero(), foo_zero()]);
    assert_eq!(a, b);
    assert_eq!(b, c);
    assert_eq!(a, c);
    // the same members in a nested group are another shape
    let nested = or(vec![or(vec![foo_zero(), foo_lt_bar()]), fizz_zero()]);
    assert_ne!(a, nested);
    // logically equivalent conditions of different shape are not equal
    let left = not(and(vec![foo_zero(), foo_lt_bar()]));
    let right = or(vec![not(foo_zero()), not(foo_lt_bar())]);
    assert_ne!(left, right);
    // groups are told apart by their texts alone: with one member the text
    // names no kind
    assert_eq!(and(vec![foo_zero()]), or(vec![foo_zero()]));
}

#[test]
fn canonical_form_is_stable() {
    let input = and(vec![
        and(vec![foo_zero(), or(vec![or(vec![foo_lt_bar(), fizz_zero()]), foo_eq_bar()])]),
        not(and(vec![and(vec![fizz_zero(), foo_zero()])])),
    ]);
    let canonical = input.reduce_nesting().sort();
    let again = canonical.reduce_nesting().sort();
    assert!(same_tree(&canonical, &again));
    assert_eq!(canonical.to_string(), again.to_string());
    assert_eq!(
        canonical.to_string(),
        "( ( ( fizz = 0  ) OR ( foo < bar ) OR ( foo = bar ) ) AND ( foo = 0  ) AND NOT ( ( ( fizz = 0  ) AND ( foo = 0  ) ) ) )"
    );
}

#[test]
fn test_column_rule_filter_to_str_empty_filter() {
    let column_rule = ColumnRuleFilter {
        filter_string: Some("".to_owned()),
        rules: vec![],
        filter_condition: None,
    };
    assert_eq!(column_rule.to_string(), "");
}

#[test]
fn test_column_rule_filter_to_str_with_condition() {
    let column_rule = ColumnRuleFilter {
        filter_string: Some("f".to_owned()),
        rules: vec![],
        filter_condition: Some(or(vec![foo_eq_bar(), fizz_zero()])),
    };
    assert_eq!(column_rule.to_string(), "( ( foo = bar ) OR ( fizz = 0  ) )");
}

#[test]
fn from_str_reads_and_flattens() {
    let parsed = FilterCondition::from_str("a = 1 && b = 2 && c < d".to_owned()).unwrap();
    let desired = and(vec![
        value("a", ComparisonOperator::Equal, "1"),
        value("b", ComparisonOperator::Equal, "2"),
        field("c", ComparisonOperator::LessThan, "d"),
    ]);
    assert!(same_tree(&parsed, &desired));
}

#[test]
fn from_str_names_the_text_that_it_cannot_read() {
    assert_eq!(
        FilterCondition::from_str("1 > foo".to_owned()),
        Err(DDLxParseError::InvalidFilterCondition(
            "Failed to parse filter string: 1 > foo".to_owned()
        ))
    );
}

#[test]
fn parse_of_a_group_reads_its_condition() {
    let group = ColumnRuleFilter::new(Some("Price > 1".to_owned()), vec![]);
    let parsed = group.parse().unwrap();
    assert_eq!(parsed.filter_string, Some("Price > 1".to_owned()));
    assert!(same_tree(
        parsed.filter_condition.as_ref().unwrap(),
        &value("Price", ComparisonOperator::GreaterThan, "1")
    ));
    assert_eq!(parsed.to_string(), "( Price > 1 )");
}

#[test]
fn parse_of_a_group_without_condition_or_with_an_empty_one() {
    let none = ColumnRuleFilter::new(None, vec![]).parse().unwrap();
    assert_eq!(none.filter_string, None);
    assert!(none.filter_condition.is_none());
    let empty = ColumnRuleFilter::new(Some(String::new()), vec![]).parse().unwrap();
    assert_eq!(empty.filter_string, Some(String::new()));
    assert!(empty.filter_condition.is_none());
}

#[test]
fn parse_of_a_group_with_an_unreadable_condition() {
    let group = ColumnRuleFilter::new(Some("Price >".to_owned()), vec![]);
    assert_eq!(
        group.parse(),
        Err(DDLxParseError::InvalidFilterCondition(
            "Failed to parse filter string: Price >".to_owned()
        ))
    );
}
