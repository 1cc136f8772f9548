//! The value codec: reading a typed value from a raw string and writing it back.
use vstd::prelude::*;

use crate::error::{ConfigError, ErrorModel};
use crate::text::{lowercase_of, to_lower, trim, trim_ws};

pub mod literal;
pub mod scalars;
pub mod strings;

verus! {

/// A type that std reads from and writes to text (`FromStr` and `Display`).
pub trait Literal: Sized + DeepView {
    /// The value that exactly the text `s` denotes, if any.
    spec fn literal(s: Seq<char>) -> Option<<Self as DeepView>::V>;

    /// The text that std writes for a value with model `v`.
    spec fn text(v: <Self as DeepView>::V) -> Seq<char>;

    /// The description of the failure that std gives for text `s` that is no
    /// literal of the type.
    spec fn error_text(s: Seq<char>) -> Seq<char>;

    /// Reads exactly the text `s`; the error carries std's description.
    fn from_literal(s: &str) -> (r: Result<Self, String>)
        ensures
            match r {
                Ok(v) => Self::literal(s@) == Some(v.deep_view()),
                Err(m) => Self::literal(s@) is None && m@ == Self::error_text(s@),
            },
    ;

    /// Writes the value as std does.
    fn to_text(&self) -> (r: String)
        ensures
            r@ == Self::text(self.deep_view()),
    ;

    /// The written text reads back as the same value and is already trimmed and
    /// lower-case.
    proof fn lemma_text_reads_back(v: <Self as DeepView>::V)
        ensures
            Self::literal(Self::text(v)) == Some(v),
            trim_ws(Self::text(v)) == Self::text(v),
            lowercase_of(Self::text(v)) == Self::text(v),
    ;
}

/// What `parse_config_value` reads from `s`: the literal of the trimmed,
/// lower-cased text.
pub open spec fn scalar_parsed<T: Literal>(s: Seq<char>) -> Option<<T as DeepView>::V> {
    T::literal(lowercase_of(trim_ws(s)))
}

/// The description of the failure to read `s` as a scalar: std's, for the
/// trimmed, lower-cased text.
pub open spec fn scalar_error<T: Literal>(s: Seq<char>) -> Seq<char> {
    T::error_text(lowercase_of(trim_ws(s)))
}

/// Reads a scalar from `s` after trimming and lower-casing it; a failure is an
/// `InvalidValue` error for `key` that carries std's description.
pub fn parse_config_value<T: Literal>(key: &str, s: &str) -> (r: Result<T, ConfigError>)
    ensures
        match r {
            Ok(v) => scalar_parsed::<T>(s@) == Some(v.deep_view()),
            Err(e) => scalar_parsed::<T>(s@) is None && e@ == (ErrorModel::InvalidValue {
                name: key@,
                message: scalar_error::<T>(s@),
            }),
        },
{
    let lowered = to_lower(trim(s));
    match T::from_literal(lowered.as_str()) {
        Ok(v) => Ok(v),
        Err(message) => Err(ConfigError::InvalidValue { name: key.to_owned(), message }),
    }
}

/// Round-trip stability of scalars: for text `s` that reads as a value, reading
/// the canonical string of that value gives the same value again. For `bool` and
/// each integer type `T`, `T::parsed` is `scalar_parsed::<T>` and `T::config_text`
/// is `T::text`, so this is the law for `parse` and `to_config_string`.
pub proof fn scalar_round_trip<T: Literal>(s: Seq<char>)
    requires
        scalar_parsed::<T>(s) is Some,
    ensures
        scalar_parsed::<T>(T::text(scalar_parsed::<T>(s)->Some_0)) == scalar_parsed::<T>(s),
{
    let v = scalar_parsed::<T>(s)->Some_0;
    T::lemma_text_reads_back(v);
}

/// A type that a configuration field can have: read from a raw string, and written
/// back to its canonical string.
pub trait ConfigValue: Sized + DeepView {
    /// The model of the value read from `s`, or `None` where `s` denotes no value.
    /// A type that does not define it has one fixed value here, the same for every
    /// `s`, of which nothing is known.
    closed spec fn parsed(s: Seq<char>) -> Option<<Self as DeepView>::V> {
        arbitrary()
    }

    /// The description in the error for text `s` that denotes no value. A type
    /// that does not define it has one fixed value here, the same for every `s`.
    closed spec fn parse_error(s: Seq<char>) -> Seq<char> {
        arbitrary()
    }

    /// The canonical string of the value with model `v`. A type that does not
    /// define it has one fixed value here, the same for every `v`.
    closed spec fn config_text(v: <Self as DeepView>::V) -> Seq<char> {
        arbitrary()
    }

    /// Reads the value of the key `key` from the raw string `value_str`.
    fn parse(key: &str, value_str: &str) -> (r: Result<Self, ConfigError>)
        ensures
            match r {
                Ok(v) => Self::parsed(value_str@) == Some(v.deep_view()),
                Err(e) => Self::parsed(value_str@) is None && e@ == (ErrorModel::InvalidValue {
                    name: key@,
                    message: Self::parse_error(value_str@),
                }),
            },
    ;

    /// The canonical string of the value.
    fn to_config_string(&self) -> (r: String)
        ensures
            r@ == Self::config_text(self.deep_view()),
    ;
}

} // verus!
