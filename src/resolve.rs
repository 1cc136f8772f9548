//! The resolution engine: from a registry and raw properties to typed field values.
use vstd::prelude::*;

use crate::codec::ConfigValue;
use crate::error::{ConfigError, ErrorModel};
use crate::props::Properties;
use crate::schema::{
    build_outcome, key_named, key_names, key_position, lemma_merged_segment, lemma_no_repeat_unique, merged_keys,
    ConfigDef, ConfigKey,
};
use crate::validators::Validator;

verus! {

/// The raw text for the key `name`: the supplied value, else the key's default,
/// checked by the key's validator. `Ok(None)`: neither supplies a value. A key that
/// the registry lacks is `MissingName`.
pub open spec fn raw_outcome<V: Validator>(
    keys: Seq<ConfigKey<V>>,
    props: Map<Seq<char>, Seq<char>>,
    name: Seq<char>,
) -> Result<Option<Seq<char>>, ErrorModel> {
    match key_named(keys, name) {
        None => Err(ErrorModel::MissingName(name)),
        Some(k) => {
            let chosen = if props.contains_key(name) {
                Some(props[name])
            } else {
                match k.default_value {
                    Some(d) => Some(d@),
                    None => None,
                }
            };
            match chosen {
                None => Ok(None),
                Some(s) => match k.validator {
                    Some(v) => match v.outcome(name, s) {
                        Err(e) => Err(e),
                        Ok(_) => Ok(Some(s)),
                    },
                    None => Ok(Some(s)),
                },
            }
        },
    }
}

/// The model of the result of `raw_value`.
pub open spec fn raw_view(r: Result<Option<String>, ConfigError>) -> Result<
    Option<Seq<char>>,
    ErrorModel,
> {
    match r {
        Ok(Some(s)) => Ok(Some(s@)),
        Ok(None) => Ok(None),
        Err(e) => Err(e@),
    }
}

/// Chooses and validates the raw text of the key `name`.
pub fn raw_value<V: Validator>(def: &ConfigDef<V>, props: &Properties, name: &str) -> (r: Result<
    Option<String>,
    ConfigError,
>)
    requires
        props.wf(),
    ensures
        raw_view(r) == raw_outcome(def.keys(), props@, name@),
{
    let key = match def.find_key(name) {
        Some(k) => k,
        None => {
            return Err(ConfigError::MissingName(name.to_owned()));
        },
    };
    let chosen: String = match props.get(name) {
        Some(s) => s.clone(),
        None => match &key.default_value {
            Some(d) => d.clone(),
            None => {
                return Ok(None);
            },
        },
    };
    if let Some(v) = &key.validator {
        match v.validate(name, chosen.as_str()) {
            Err(e) => {
                return Err(e);
            },
            Ok(()) => {},
        }
    }
    Ok(Some(chosen))
}

/// Resolves the required field `name` to a value of type `T`: a missing value is
/// `MissingName`, a failed check is the validator's error, and text that is no
/// value of `T` is `InvalidValue`.
pub fn resolve_field<T: ConfigValue, V: Validator>(
    def: &ConfigDef<V>,
    props: &Properties,
    name: &str,
) -> (r: Result<T, ConfigError>)
    requires
        props.wf(),
    ensures
        match raw_outcome(def.keys(), props@, name@) {
            Err(e0) => r matches Err(e) && e@ == e0,
            Ok(None) => r matches Err(e) && e@ == ErrorModel::MissingName(name@),
            Ok(Some(s)) => match T::parsed(s) {
                Some(m) => r matches Ok(v) && v.deep_view() == m,
                None => r matches Err(e) && e@ == (ErrorModel::InvalidValue {
                    name: name@,
                    message: T::parse_error(s),
                }),
            },
        },
{
    match raw_value(def, props, name) {
        Err(e) => Err(e),
        Ok(None) => Err(ConfigError::MissingName(name.to_owned())),
        Ok(Some(s)) => T::parse(name, s.as_str()),
    }
}

/// Resolves the optional field `name`: as `resolve_field`, except that a field
/// for which neither the properties nor a default supply a value is `None`.
pub fn resolve_optional_field<T: ConfigValue, V: Validator>(
    def: &ConfigDef<V>,
    props: &Properties,
    name: &str,
) -> (r: Result<Option<T>, ConfigError>)
    requires
        props.wf(),
    ensures
        match raw_outcome(def.keys(), props@, name@) {
            Err(e0) => r matches Err(e) && e@ == e0,
            Ok(None) => r matches Ok(None),
            Ok(Some(s)) => match T::parsed(s) {
                Some(m) => r matches Ok(Some(v)) && v.deep_view() == m,
                None => r matches Err(e) && e@ == (ErrorModel::InvalidValue {
                    name: name@,
                    message: T::parse_error(s),
                }),
            },
        },
{
    match raw_value(def, props, name) {
        Err(e) => Err(e),
        Ok(None) => Ok(None),
        Ok(Some(s)) => match T::parse(name, s.as_str()) {
            Ok(v) => Ok(Some(v)),
            Err(e) => Err(e),
        },
    }
}

/// Resolution in a merged registry agrees with resolution in the part that
/// declares the key: the key reads the same raw text and is checked by the same
/// validator, whatever the other parts declare.
pub proof fn merged_resolution_agrees<V: Validator>(
    parts: Seq<Seq<ConfigKey<V>>>,
    p: int,
    props: Map<Seq<char>, Seq<char>>,
    name: Seq<char>,
)
    requires
        build_outcome(merged_keys(parts)) is Ok,
        0 <= p < parts.len(),
        key_named(parts[p], name) is Some,
    ensures
        key_named(merged_keys(parts), name) == key_named(parts[p], name),
        raw_outcome(merged_keys(parts), props, name) == raw_outcome(parts[p], props, name),
{
    let all = merged_keys(parts);
    let names = key_names(all);
    lemma_no_repeat_unique(names);
    let off = lemma_merged_segment(parts, p);
    let c = key_position(parts[p], name);
    assert(all[off + c] == parts[p][c]);
    assert(0 <= off + c < all.len() && all[off + c].name@ == name);
    let j = key_position(all, name);
    assert(names[j] == all[j].name@ && names[off + c] == all[off + c].name@);
    if j < off + c {
        assert(names[j] != names[off + c]);
    }
    if off + c < j {
        assert(names[off + c] != names[j]);
    }
    assert(j == off + c);
    assert(key_named(all, name) == Some(all[j]));
    assert(key_named(parts[p], name) == Some(parts[p][c]));
}

} // verus!
