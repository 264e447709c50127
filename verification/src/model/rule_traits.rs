//! The check of a rule against the column it stands on.
use crate::model::table_expr::{ColumnDef, ColumnDefView};
use crate::text::{append_str, debug_string, debug_text};
use vstd::prelude::*;

verus! {

/// What a `ColumnValidationError` holds, as plain values.
pub enum ColumnValidationErrorView {
    InvalidType(Seq<char>),
}

/// Why a rule cannot stand on a column.
#[derive(Debug, PartialEq)]
pub enum ColumnValidationError {
    /// The column's type is not one that the rule can check.
    InvalidType(String),
}

impl View for ColumnValidationError {
    type V = ColumnValidationErrorView;

    open spec fn view(&self) -> ColumnValidationErrorView {
        match self {
            ColumnValidationError::InvalidType(message) => ColumnValidationErrorView::InvalidType(
                message@,
            ),
        }
    }
}

impl ColumnValidationErrorView {
    /// The error as it is printed, around the quoted message `quoted`.
    pub open spec fn printed_around(self, quoted: Seq<char>) -> Seq<char> {
        "InvalidType("@ + quoted + ")"@
    }

    /// The error as it is printed: the variant's name, and in brackets the
    /// message as a quoted string literal.
    pub open spec fn printed(self) -> Seq<char> {
        match self {
            ColumnValidationErrorView::InvalidType(message) => self.printed_around(
                debug_text(message),
            ),
        }
    }
}

impl ColumnValidationError {
    /// The error as it is printed, given its message as a quoted string
    /// literal.
    pub fn print_around(&self, quoted: &str) -> (s: String)
        ensures
            s@ == self@.printed_around(quoted@),
    {
        let mut s = "InvalidType(".to_owned();
        append_str(&mut s, quoted);
        append_str(&mut s, ")");
        s
    }

    /// The error as it is printed.
    pub fn to_debug_string(&self) -> (s: String)
        ensures
            s@ == self@.printed(),
    {
        match self {
            ColumnValidationError::InvalidType(message) => {
                let quoted = debug_string(message.as_str());
                self.print_around(quoted.as_str())
            },
        }
    }
}

/// Whether the computed verdict `r` is the verdict `v`.
pub open spec fn verdict_matches(
    r: Result<String, ColumnValidationError>,
    v: Result<Seq<char>, ColumnValidationErrorView>,
) -> bool {
    match r {
        Ok(s) => v == Ok::<Seq<char>, ColumnValidationErrorView>(s@),
        Err(e) => v == Err::<Seq<char>, ColumnValidationErrorView>(e@),
    }
}

/// A rule, or a group of rules, that can be held against a column.
pub trait ValidColumnRule {
    /// What the check answers for `column`: a word of approval, or the
    /// reason why the column will not do.
    spec fn verdict(&self, column: ColumnDefView) -> Result<Seq<char>, ColumnValidationErrorView>;

    /// Holds the rule against `column`.
    fn validate_col_type(&self, column: &ColumnDef) -> (r: Result<String, ColumnValidationError>)
        ensures
            verdict_matches(r, self.verdict(column@)),
    ;
}

} // verus!
