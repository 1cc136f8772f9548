use vstd::prelude::*;

use crate::error::{ConfigError, ErrorModel};
use crate::text::{contains, join, join_with, trim, trim_ws, views};
use crate::validators::Validator;

verus! {

/// An allow-list validator: the trimmed value must be one of a fixed set of strings.
#[derive(Clone, Debug)]
pub struct ValidString {
    valid_strings: Vec<String>,
}

/// The message of a value outside the allow-list `allowed`.
pub open spec fn one_of_message(allowed: Seq<Seq<char>>) -> Seq<char> {
    "String must be one of: "@ + join_with(allowed, ", "@)
}

/// The allow-list written as `[a, b, c]`.
pub open spec fn bracketed(allowed: Seq<Seq<char>>) -> Seq<char> {
    "["@ + join_with(allowed, ", "@) + "]"@
}

/// The character models of a slice of string literals.
pub open spec fn str_views(v: Seq<&str>) -> Seq<Seq<char>> {
    v.map_values(|s: &str| s@)
}

/// Owned copies of the strings of `v`.
pub fn owned_strings(v: &[&'static str]) -> (r: Vec<String>)
    ensures
        views(r@) == str_views(v@),
{
    let mut out: Vec<String> = Vec::new();
    let mut i: usize = 0;
    while i < v.len()
        invariant
            i <= v.len(),
            views(out@) == str_views(v@).take(i as int),
        decreases v.len() - i,
    {
        let ghost before = out@;
        let owned = v[i].to_owned();
        out.push(owned);
        proof {
            assert(views(out@) =~= views(before).push(owned@));
            assert(str_views(v@).take(i + 1) =~= str_views(v@).take(i as int).push(v@[i as int]@));
        }
        i = i + 1;
    }
    proof {
        assert(str_views(v@).take(v@.len() as int) =~= str_views(v@));
    }
    out
}

impl View for ValidString {
    type V = Seq<Seq<char>>;

    closed spec fn view(&self) -> Seq<Seq<char>> {
        views(self.valid_strings@)
    }
}

impl ValidString {
    fn new(valid_strings: Vec<String>) -> (r: Self)
        ensures
            r@ == views(valid_strings@),
    {
        ValidString { valid_strings }
    }

    /// A validator that accepts exactly the given owned strings.
    pub fn in_list_owned(valid_strings: Vec<String>) -> (r: Self)
        ensures
            r@ == views(valid_strings@),
    {
        Self::new(valid_strings)
    }

    /// A validator that accepts exactly the given strings.
    pub fn in_list(valid_strings: &[&'static str]) -> (r: Self)
        ensures
            r@ == str_views(valid_strings@),
    {
        Self::new(owned_strings(valid_strings))
    }

    /// The permitted strings.
    pub fn valid_strings(&self) -> (r: &Vec<String>)
        ensures
            views(r@) == self@,
    {
        &self.valid_strings
    }
}

impl Validator for ValidString {
    open spec fn outcome(&self, name: Seq<char>, value: Seq<char>) -> Result<(), ErrorModel> {
        if self@.contains(trim_ws(value)) {
            Ok(())
        } else {
            Err(ErrorModel::ValidationFailed { name, message: one_of_message(self@) })
        }
    }

    open spec fn description(&self) -> Seq<char> {
        bracketed(self@)
    }

    fn validate(&self, name: &str, value: &str) -> (r: Result<(), ConfigError>) {
        let s = trim(value);
        if contains(&self.valid_strings, s) {
            Ok(())
        } else {
            let mut message = String::from_str("String must be one of: ");
            let listed = join(&self.valid_strings, ", ");
            message.append(listed.as_str());
            Err(ConfigError::ValidationFailed { name: name.to_owned(), message })
        }
    }

    fn describe(&self) -> (r: String) {
        let mut s = String::from_str("[");
        let listed = join(&self.valid_strings, ", ");
        s.append(listed.as_str());
        s.append("]");
        s
    }
}

} // verus!
