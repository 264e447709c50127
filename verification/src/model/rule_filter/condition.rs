//! A single comparison as the gating condition of a rule.
use crate::model::rule_filter::operator::ComparisonOperator;
use vstd::prelude::*;

verus! {

/// A gating condition that is one comparison.
pub struct RuleFilter {
    pub condition: Condition,
}

/// A comparison of a field with a value or with another field.
pub enum Condition {
    ValueCondition { field: String, operator: ComparisonOperator, value: String },
    FieldCondition { first_field: String, operator: ComparisonOperator, second_field: String },
}

} // verus!
