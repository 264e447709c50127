//! The emitters: from the validated table to the text or the records of a
//! target.
use crate::text::{remove_char, without};
use vstd::prelude::*;

pub mod dqdl;
pub mod pydeequ;
pub mod pyspark_class;

verus! {

/// The targets that a table can be compiled to.
#[derive(Clone, Copy, Debug, PartialEq, Eq, Structural)]
pub enum CompilationTarget {
    PyDeequ,
    Dqdl,
    PySparkClass,
    /// No target was chosen.
    Unset,
}

impl Default for CompilationTarget {
    fn default() -> (r: Self)
        ensures
            r == CompilationTarget::Unset,
    {
        CompilationTarget::Unset
    }
}

/// Rendered text with its line endings made uniform: every carriage
/// return is taken out.
pub fn strip_carriage_returns(text: &str) -> (r: String)
    ensures
        r@ == without(text@, '\r'),
{
    remove_char(text, '\r')
}

} // verus!
