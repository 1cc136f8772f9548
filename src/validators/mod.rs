//! The pluggable validator framework.
use vstd::prelude::*;

use crate::error::{outcome_view, ConfigError, ErrorModel};

pub mod valid_list;
pub mod valid_string;

verus! {

/// A rule that checks a raw string value, given the name of the key it belongs to.
pub trait Validator {
    /// What `validate` gives for the key `name` and the raw value `value`. A rule
    /// that does not define it has one fixed value here, the same for every
    /// argument, of which nothing is known.
    closed spec fn outcome(&self, name: Seq<char>, value: Seq<char>) -> Result<(), ErrorModel> {
        arbitrary()
    }

    /// The textual description of the constraint. A rule that does not define it
    /// has one fixed value here, of which nothing is known.
    closed spec fn description(&self) -> Seq<char> {
        arbitrary()
    }

    /// Checks the raw string `value` of the key `name`.
    fn validate(&self, name: &str, value: &str) -> (r: Result<(), ConfigError>)
        ensures
            outcome_view(r) == self.outcome(name@, value@),
    ;

    /// Describes the constraint, for documentation and error text.
    fn describe(&self) -> (r: String)
        ensures
            r@ == self.description(),
    ;
}

} // verus!
