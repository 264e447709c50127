//! Comparison operators of gating conditions.
use vstd::prelude::*;

verus! {

/// One of the six comparisons between a field and a field or a value.
#[derive(Clone, Copy, Debug, PartialEq, Eq, Structural)]
pub enum ComparisonOperator {
    GreaterThan,
    LessThan,
    Equal,
    NotEqual,
    GreaterThanOrEqual,
    LessThanOrEqual,
}

impl ComparisonOperator {
    /// The operator as it is written.
    pub open spec fn symbol(self) -> Seq<char> {
        match self {
            ComparisonOperator::GreaterThan => ">"@,
            ComparisonOperator::LessThan => "<"@,
            ComparisonOperator::Equal => "="@,
            ComparisonOperator::NotEqual => "!="@,
            ComparisonOperator::GreaterThanOrEqual => ">="@,
            ComparisonOperator::LessThanOrEqual => "<="@,
        }
    }

    /// The operator as it is written.
    pub fn as_str(&self) -> (s: &'static str)
        ensures
            s@ == self.symbol(),
    {
        match self {
            ComparisonOperator::GreaterThan => ">",
            ComparisonOperator::LessThan => "<",
            ComparisonOperator::Equal => "=",
            ComparisonOperator::NotEqual => "!=",
            ComparisonOperator::GreaterThanOrEqual => ">=",
            ComparisonOperator::LessThanOrEqual => "<=",
        }
    }

    /// The operator as it is written.
    pub fn to_string(&self) -> (s: String)
        ensures
            s@ == self.symbol(),
    {
        self.as_str().to_owned()
    }
}

} // verus!
