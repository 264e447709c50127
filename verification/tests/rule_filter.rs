use ddlx::model::column_rule::{ColumnRule, LikePattern, NotEmpty, Uniqueness};
use ddlx::model::rule_filter::combine_itentical_filters;
use ddlx::model::rule_filter::filter::{ColumnRuleFilter, FilterCondition};
use ddlx::model::rule_filter::operator::ComparisonOperator;

fn not_empty(name: &str) -> ColumnRule {
    ColumnRule::NotEmpty(NotEmpty { name: name.to_owned(), ..Default::default() })
}

fn price_gt_id() -> FilterCondition {
    FilterCondition::FieldCondition {
        first_field: "Price".to_owned(),
        operator: ComparisonOperator::GreaterThan,
        second_field: "Id".to_owned(),
    }
}

fn group(rule: ColumnRule, condition: Option<FilterCondition>) -> ColumnRuleFilter {
    ColumnRuleFilter {
        filter_string: Some("".to_owned()),
        rules: vec![rule],
        filter_condition: condition,
    }
}

#[test]
fn test_combine_filters() {
    let input_filters = vec![
        group(not_empty("a"), None),
        group(not_empty("a"), Some(price_gt_id())),
        group(not_empty("b"), Some(price_gt_id())),
        group(not_empty("c"), Some(price_gt_id())),
        group(not_empty("b"), None),
        group(not_empty("c"), None),
    ];
    let expected_filters = vec![
        ColumnRuleFilter {
            filter_string: Some("".to_owned()),
            rules: vec![not_empty("a"), not_empty("b"), not_empty("c")],
            filter_condition: None,
        },
        ColumnRuleFilter {
            filter_string: Some("".to_owned()),
            rules: vec![not_empty("a"), not_empty("b"), not_empty("c")],
            filter_condition: Some(price_gt_id()),
        },
    ];
    let actual_filters = combine_itentical_filters(input_filters);
    assert_eq!(actual_filters, expected_filters);
}

#[test]
fn groups_one_and_three_share_a_key() {
    let k1 = FilterCondition::ValueCondition {
        field: "x".to_owned(),
        operator: ComparisonOperator::Equal,
        value: "1".to_owned(),
    };
    let k2 = FilterCondition::ValueCondition {
        field: "a".to_owned(),
        operator: ComparisonOperator::Equal,
        value: "1".to_owned(),
    };
    let input = vec![
        ColumnRuleFilter {
            filter_string: Some("x = 1".to_owned()),
            rules: vec![not_empty("r1"), not_empty("r2")],
            filter_condition: Some(k1.clone()),
        },
        ColumnRuleFilter {
            filter_string: Some("a = 1".to_owned()),
            rules: vec![ColumnRule::Uniqueness(Uniqueness::default())],
            filter_condition: Some(k2.clone()),
        },
        ColumnRuleFilter {
            filter_string: Some("x   =   1".to_owned()),
            rules: vec![ColumnRule::LikePattern(LikePattern::default()), not_empty("r3")],
            filter_condition: Some(k1.clone()),
        },
    ];
    let merged = combine_itentical_filters(input);
    assert_eq!(merged.len(), 2);
    // in the order of the keys: "( a = 1 )" before "( x = 1 )"
    assert_eq!(merged[0].to_string(), "( a = 1 )");
    assert_eq!(merged[0].rules, vec![ColumnRule::Uniqueness(Uniqueness::default())]);
    assert_eq!(merged[1].to_string(), "( x = 1 )");
    assert_eq!(merged[1].filter_string, Some("x = 1".to_owned()));
    assert_eq!(
        merged[1].rules,
        vec![
            not_empty("r1"),
            not_empty("r2"),
            ColumnRule::LikePattern(LikePattern::default()),
            not_empty("r3"),
        ]
    );
}

#[test]
fn combining_nothing_gives_nothing() {
    assert_eq!(combine_itentical_filters(vec![]), Vec::<ColumnRuleFilter>::new());
}

#[test]
fn combining_one_group_gives_it_back() {
    let only = group(not_empty("a"), Some(price_gt_id()));
    assert_eq!(combine_itentical_filters(vec![only.clone()]), vec![only]);
}
