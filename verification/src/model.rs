//! The table model: types, columns, rules and gating conditions.
pub mod column_rule;
pub mod data_class;
pub mod rule_ext_config;
pub mod rule_filter;
pub mod rule_traits;
pub mod table_expr;
pub mod threshold;
