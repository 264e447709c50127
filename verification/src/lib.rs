//! A compiler for a small schema language that annotates table columns with
//! data-quality rules.
//!
//! Source text is parsed into a [`model::table_expr::TableDef`], its rules are
//! validated against the column types, rule groups with the same gating
//! condition are merged, and the result is lowered to one of several
//! data-quality check formats.
pub mod compiler;
pub mod model;
pub mod parser;
pub mod text;
