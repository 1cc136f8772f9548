use config_def::error::ConfigError;
use config_def::props::Properties;
use config_def::resolve::resolve_optional_field;
use config_def::schema::{ConfigDef, ConfigKey};
use config_def::validators::valid_list::ValidList;
use config_def::validators::valid_string::ValidString;
use config_def::validators::Validator;

fn failure_text(res: &Result<(), ConfigError>) -> String {
    match res {
        Err(e @ ConfigError::ValidationFailed { .. }) => e.to_string(),
        other => panic!("Expected ValidationFailed error but got {:?}", other),
    }
}

#[test]
fn test_list_validator_in() {
    let allow_empty_validator = ValidList::in_list(&["a", "b", "c"]);

    allow_empty_validator.validate("test.config", "a, b").unwrap();
    allow_empty_validator.validate("test.config", "").unwrap();

    let res = allow_empty_validator.validate("test.config", "d");
    assert_eq!(
        failure_text(&res),
        "Validation failed for name 'test.config': \
        Invalid value 'd' for configuration 'test.config': String must be one of: a, b, c"
    );

    let res = allow_empty_validator.validate("test.config", "a, a");
    assert_eq!(
        failure_text(&res),
        "Validation failed for name 'test.config': \
        Configuration 'test.config' values must not be duplicated."
    );

    let res = allow_empty_validator.validate("test.config", "a,,b");
    assert_eq!(
        failure_text(&res),
        "Validation failed for name 'test.config': \
        Configuration 'test.config' values must not be empty."
    );

    let not_allow_empty_validator = ValidList::in_list_allow_empty(false, &["a", "b", "c"]);

    not_allow_empty_validator.validate("test.config", "a, b").unwrap();

    let res = not_allow_empty_validator.validate("test.config", "");
    assert_eq!(
        failure_text(&res),
        "Validation failed for name 'test.config': \
        Configuration 'test.config' must not be empty. Valid values include: [a, b, c] (empty config empty not allowed)"
    );

    let res = not_allow_empty_validator.validate("test.config", "a, a");
    assert_eq!(
        failure_text(&res),
        "Validation failed for name 'test.config': \
        Configuration 'test.config' values must not be duplicated."
    );

    let res = not_allow_empty_validator.validate("test.config", "d");
    assert_eq!(
        failure_text(&res),
        "Validation failed for name 'test.config': \
        Invalid value 'd' for configuration 'test.config': String must be one of: a, b, c"
    );

    let res = not_allow_empty_validator.validate("test.config", "a,,b");
    assert_eq!(
        failure_text(&res),
        "Validation failed for name 'test.config': \
        Configuration 'test.config' values must not be empty."
    );
}

#[test]
fn test_list_validator_any_non_duplicate_values() {
    let allow_any_non_duplicate_values = ValidList::any_non_duplicate_values(true);

    allow_any_non_duplicate_values.validate("test.config", "a, b, c").unwrap();
    allow_any_non_duplicate_values.validate("test.config", "").unwrap();

    // An optional list field with this validator and no value resolves to `None`.
    let def = ConfigDef::try_from(vec![
        ConfigKey::new("v").with_validator(ValidList::any_non_duplicate_values(true)),
    ])
    .unwrap();
    let v: Option<Vec<String>> = resolve_optional_field(&def, &Properties::new(), "v").unwrap();
    assert_eq!(v, None);

    let res = allow_any_non_duplicate_values.validate("test.config", "a, a");
    assert_eq!(
        failure_text(&res),
        "Validation failed for name 'test.config': \
        Configuration 'test.config' values must not be duplicated."
    );

    let res = allow_any_non_duplicate_values.validate("test.config", "a,,b");
    assert_eq!(
        failure_text(&res),
        "Validation failed for name 'test.config': \
        Configuration 'test.config' values must not be empty."
    );

    let allow_any_non_duplicate_values = ValidList::any_non_duplicate_values(false);

    allow_any_non_duplicate_values.validate("test.config", "a, b, c").unwrap();

    let res = allow_any_non_duplicate_values.validate("test.config", "");
    assert_eq!(
        failure_text(&res),
        "Validation failed for name 'test.config': \
        Configuration 'test.config' must not be empty. Valid values include: any non-empty value"
    );

    let res = allow_any_non_duplicate_values.validate("test.config", "a, a");
    assert_eq!(
        failure_text(&res),
        "Validation failed for name 'test.config': \
        Configuration 'test.config' values must not be duplicated."
    );

    let res = allow_any_non_duplicate_values.validate("test.config", "a,,b");
    assert_eq!(
        failure_text(&res),
        "Validation failed for name 'test.config': \
        Configuration 'test.config' values must not be empty."
    );
}

#[test]
fn valid_list_allow_list_scenario() {
    let v = ValidList::in_list(&["a", "b", "c"]);
    assert!(v.validate("k", "a,b").is_ok());
    assert!(v.validate("k", "").is_ok());
    let res = v.validate("k", "d");
    assert!(failure_text(&res).contains("String must be one of: a, b, c"));
    // duplicates are reported before an item outside the allow-list
    let res = v.validate("k", "a,a,d");
    assert!(failure_text(&res).contains("values must not be duplicated"));
    let res = v.validate("k", "a,,b");
    assert!(failure_text(&res).contains("values must not be empty"));
}

#[test]
fn valid_list_blank_and_separator_only_are_empty() {
    let v = ValidList::any_non_duplicate_values(false);
    for raw in ["", "   ", ",", " , "] {
        let res = v.validate("k", raw);
        assert!(failure_text(&res).contains("must not be empty. Valid values include"));
    }
    let v = ValidList::any_non_duplicate_values(true);
    for raw in ["", "   ", ",", " , "] {
        assert!(v.validate("k", raw).is_ok());
    }
}

#[test]
fn valid_list_several_separators_are_empty_items() {
    for allow_empty in [true, false] {
        let v = ValidList::any_non_duplicate_values(allow_empty);
        for raw in [",,", " , , "] {
            let res = v.validate("k", raw);
            assert_eq!(
                failure_text(&res),
                "Validation failed for name 'k': Configuration 'k' values must not be duplicated."
            );
        }
    }
    let res = ValidList::in_list(&["a"]).validate("k", "a,");
    assert_eq!(
        failure_text(&res),
        "Validation failed for name 'k': Configuration 'k' values must not be empty."
    );
}

#[test]
fn valid_list_description() {
    assert_eq!(
        ValidList::in_list(&["x", "y"]).describe(),
        "[x, y] (empty config empty config allowed)"
    );
    assert_eq!(
        ValidList::any_non_duplicate_values(false).describe(),
        "[] (empty config empty not allowed)"
    );
}

#[test]
fn valid_string_accepts_trimmed_members_only() {
    let v = ValidString::in_list(&["good", "values", "default"]);
    for ok in ["good", "values", "default", "  good  "] {
        assert!(v.validate("name", ok).is_ok());
    }
    for bad in ["bad", "inputs", "DEFAULT"] {
        let res = v.validate("name", bad);
        match res {
            Err(ConfigError::ValidationFailed { name, message }) => {
                assert_eq!(name, "name");
                assert_eq!(message, "String must be one of: good, values, default");
            }
            other => panic!("unexpected {:?}", other),
        }
    }
    assert_eq!(v.describe(), "[good, values, default]");
}

#[test]
fn error_lines_name_the_key() {
    assert_eq!(
        ConfigError::MissingName("a".to_string()).to_string(),
        "Missing required configuration name: 'a'"
    );
    let e = ConfigError::InvalidValue { name: "b".to_string(), message: "bad".to_string() };
    assert_eq!(e.to_string(), "Failed to parse name 'b': bad");
    assert_eq!(e.key(), "b");
}
