use config_def::codec::strings::Password;
use config_def::error::ConfigError;
use config_def::props::Properties;
use config_def::resolve::{raw_value, resolve_field, resolve_optional_field};
use config_def::schema::{ConfigDef, ConfigKey, ConfigKeyTrait, Importance};
use config_def::validators::valid_string::ValidString;
use config_def::validators::Validator;

/// An inclusive integer range, reporting bounds the way a numeric range validator does.
#[derive(Clone, Debug)]
struct Between {
    min: i64,
    max: i64,
}

impl Validator for Between {
    fn validate(&self, name: &str, value: &str) -> Result<(), ConfigError> {
        let n: i64 = value.trim().parse().map_err(|_| ConfigError::InvalidValue {
            name: name.to_string(),
            message: "Value is not a valid number".to_string(),
        })?;
        if n < self.min {
            return Err(ConfigError::ValidationFailed {
                name: name.to_string(),
                message: format!("Value {} must be at least {}", n, self.min),
            });
        }
        if n > self.max {
            return Err(ConfigError::ValidationFailed {
                name: name.to_string(),
                message: format!("Value {} must be no more than {}", n, self.max),
            });
        }
        Ok(())
    }

    fn describe(&self) -> String {
        format!("[{}, ..., {}]", self.min, self.max)
    }
}

fn between(min: i64, max: i64) -> Between {
    Between { min, max }
}

fn props(pairs: &[(&str, &str)]) -> Properties {
    let mut p = Properties::new();
    for (k, v) in pairs {
        p.insert(k.to_string(), v.to_string());
    }
    p
}

#[test]
fn test_basic_types() {
    let keys: Vec<ConfigKey<Between>> = vec![
        ConfigKey::new("a")
            .with_default(&5i32)
            .with_validator(between(0, 14))
            .with_importance(Importance::HIGH)
            .with_documentation("Docs for 'a'.  Must be between 0 and 14."),
        ConfigKey::new("b")
            .with_importance(Importance::HIGH)
            .with_documentation("docs")
            .with_group("group"),
        ConfigKey::new("c").with_default(&"hello".to_string()),
        ConfigKey::new("d"),
        ConfigKey::new("f"),
        ConfigKey::new("prop.f"),
        ConfigKey::new("g"),
        ConfigKey::new("h"),
        ConfigKey::new("i"),
        ConfigKey::new("j"),
    ];
    let def = ConfigDef::try_from(keys).unwrap();
    let p = props(&[
        ("a", "1   "),
        ("b", "2"),
        ("d", " a , b, c"),
        ("f", "java.lang.String"),
        ("prop.f", "prop_f_val"),
        ("g", "true"),
        ("h", "FalSE"),
        ("i", "TRUE"),
        ("j", "password"),
    ]);
    assert_eq!(resolve_field::<i32, _>(&def, &p, "a").unwrap(), 1);
    assert_eq!(resolve_field::<i64, _>(&def, &p, "b").unwrap(), 2);
    assert_eq!(resolve_field::<String, _>(&def, &p, "c").unwrap(), "hello");
    assert_eq!(resolve_field::<Vec<String>, _>(&def, &p, "d").unwrap(), vec!["a", "b", "c"]);
    assert_eq!(resolve_field::<String, _>(&def, &p, "f").unwrap(), "java.lang.String");
    assert_eq!(resolve_field::<String, _>(&def, &p, "prop.f").unwrap(), "prop_f_val");
    assert_eq!(resolve_field::<bool, _>(&def, &p, "g").unwrap(), true);
    assert_eq!(resolve_field::<bool, _>(&def, &p, "h").unwrap(), false);
    assert_eq!(resolve_field::<bool, _>(&def, &p, "i").unwrap(), true);
    let j = resolve_field::<Password, _>(&def, &p, "j").unwrap();
    assert!(j == Password::new("password".to_string()));
    assert_eq!(j.to_string(), "[hidden]");
    assert_eq!(def.groups(), &vec!["group".to_string()]);
}

#[test]
fn test_can_add_internal_config() {
    let def = ConfigDef::try_from(vec![ConfigKey::<Between>::new("internal.config")
        .with_importance(Importance::LOW)
        .internal()])
    .unwrap();
    let p = props(&[("internal.config", "value")]);
    assert_eq!(resolve_field::<String, _>(&def, &p, "internal.config").unwrap(), "value");
    assert!(def.find_key("internal.config").unwrap().internal_config());
}

#[test]
fn test_invalid_default() {
    let def =
        ConfigDef::try_from(vec![ConfigKey::<Between>::new("_a").with_default_text("hello")]).unwrap();
    let result = resolve_field::<i32, _>(&def, &Properties::new(), "_a");
    match result {
        Err(ConfigError::InvalidValue { name, message }) => {
            assert_eq!(name, "_a");
            assert!(message.contains("invalid digit found in string"));
        }
        _ => panic!("Expected InvalidValue error, but got {:?}", result),
    }
}

#[test]
fn test_null_default() {
    let def =
        ConfigDef::try_from(vec![ConfigKey::<Between>::new("a").with_documentation("docs")]).unwrap();
    let a: Option<i32> = resolve_optional_field(&def, &Properties::new(), "a").unwrap();
    assert_eq!(a, None);
}

#[test]
fn test_missing_required() {
    let def = ConfigDef::try_from(vec![ConfigKey::<Between>::new("_a")
        .with_importance(Importance::HIGH)
        .with_documentation("docs")])
    .unwrap();
    let config = resolve_field::<i32, _>(&def, &Properties::new(), "_a");
    assert!(matches!(config, Err(ConfigError::MissingName(s)) if s == "_a"));
}

#[test]
fn test_parsing_empty_default_value_for_string_field_should_succeed() {
    let def = ConfigDef::try_from(vec![ConfigKey::<Between>::new("_a")
        .with_default_text("")
        .with_importance(Importance::HIGH)
        .with_documentation("docs")])
    .unwrap();
    let _ = resolve_field::<String, _>(&def, &Properties::new(), "_a").expect("parsing should succeed");
}

#[test]
fn test_invalid_default_range() {
    let config = ConfigDef::try_from(vec![ConfigKey::new("_a")
        .with_default(&-1i32)
        .with_validator(between(0, 10))
        .with_importance(Importance::HIGH)
        .with_documentation("docs")]);
    assert!(
        matches!(&config, Err(ConfigError::ValidationFailed { name, message })
            if name == "_a" && message.contains("Value -1 must be at least 0")),
        "Expected ValidationFailed error"
    );
}

#[test]
fn test_invalid_default_string() {
    let config = ConfigDef::try_from(vec![ConfigKey::new("_a")
        .with_default(&"bad".to_string())
        .with_validator(ValidString::in_list(&["valid", "values"]))
        .with_importance(Importance::HIGH)
        .with_documentation("docs")]);
    assert!(
        matches!(&config, Err(ConfigError::ValidationFailed { name, message })
            if name == "_a" && message.contains("must be one of: valid, values")),
        "Expected ValidationFailed error"
    );
}

fn first_schema() -> ConfigDef<Between> {
    ConfigDef::try_from(vec![
        ConfigKey::new("a1").with_default(&5i32).with_validator(between(0, 14)),
        ConfigKey::new("b1").with_default(&"hello".to_string()),
    ])
    .unwrap()
}

fn second_schema() -> ConfigDef<Between> {
    ConfigDef::try_from(vec![
        ConfigKey::new("a2").with_default(&5i32).with_validator(between(0, 14)),
        ConfigKey::new("b2").with_importance(Importance::HIGH).with_documentation("docs"),
    ])
    .unwrap()
}

#[test]
fn test_merge() {
    let merged = ConfigDef::merge(vec![first_schema(), second_schema()]).unwrap();
    let p = props(&[("a1", "1   "), ("a2", " 2 "), ("b2", "value2")]);
    assert_eq!(resolve_field::<i32, _>(&merged, &p, "a1").unwrap(), 1);
    assert_eq!(resolve_field::<i32, _>(&merged, &p, "a2").unwrap(), 2);
    assert_eq!(resolve_field::<String, _>(&merged, &p, "b1").unwrap(), "hello");
    assert_eq!(resolve_field::<String, _>(&merged, &p, "b2").unwrap(), "value2");
    let names: Vec<&str> = merged.config_keys().iter().map(|k| k.name.as_str()).collect();
    assert_eq!(names, vec!["a1", "b1", "a2", "b2"]);
}

#[test]
fn merged_schemas_resolve_each_part_independently() {
    let p = props(&[("a1", "1"), ("a2", "2"), ("b2", "value2")]);
    let merged = ConfigDef::merge(vec![first_schema(), second_schema()]).unwrap();
    let s1 = first_schema();
    let s2 = second_schema();
    assert_eq!(resolve_field::<i32, _>(&merged, &p, "a1").unwrap(), 1);
    assert_eq!(resolve_field::<i32, _>(&merged, &p, "a2").unwrap(), 2);
    assert_eq!(resolve_field::<String, _>(&merged, &p, "b2").unwrap(), "value2");
    assert_eq!(resolve_field::<i32, _>(&s1, &p, "a1").unwrap(), 1);
    assert_eq!(resolve_field::<i32, _>(&s2, &p, "a2").unwrap(), 2);
    // a value meant for one part does not reach the other
    let p = props(&[("a1", "20"), ("b2", "x")]);
    assert!(resolve_field::<i32, _>(&merged, &p, "a1").is_err());
    assert_eq!(resolve_field::<i32, _>(&merged, &p, "a2").unwrap(), 5);
}

#[test]
fn merging_a_repeated_key_fails() {
    let r = ConfigDef::merge(vec![first_schema(), first_schema()]);
    match r {
        Err(ConfigError::ValidationFailed { name, message }) => {
            assert_eq!(name, "a1");
            assert_eq!(message, "Configuration key 'a1' is defined twice.");
        }
        _ => panic!("expected a defined-twice error"),
    }
}

#[test]
fn duplicate_names_are_rejected() {
    let r = ConfigDef::try_from(vec![
        ConfigKey::<Between>::new("x").with_default_text("1"),
        ConfigKey::new("y"),
        ConfigKey::new("x").with_documentation("other"),
    ]);
    match r {
        Err(e) => assert_eq!(
            e.to_string(),
            "Validation failed for name 'x': Configuration key 'x' is defined twice."
        ),
        Ok(_) => panic!("expected a defined-twice error"),
    }
}

#[test]
fn required_field_with_default_and_range() {
    let def = ConfigDef::try_from(vec![ConfigKey::new("a")
        .with_default(&5i32)
        .with_validator(between(0, 14))])
    .unwrap();
    assert_eq!(resolve_field::<i32, _>(&def, &Properties::new(), "a").unwrap(), 5);
    assert_eq!(resolve_field::<i32, _>(&def, &props(&[("a", "1   ")]), "a").unwrap(), 1);
    match resolve_field::<i32, _>(&def, &props(&[("a", "20")]), "a") {
        Err(ConfigError::ValidationFailed { name, message }) => {
            assert_eq!(name, "a");
            assert!(message.contains("must be no more than 14"));
        }
        other => panic!("unexpected {:?}", other),
    }
}

#[test]
fn optional_field_absent_or_present() {
    let def = ConfigDef::try_from(vec![ConfigKey::<Between>::new("n")]).unwrap();
    let none: Option<i32> = resolve_optional_field(&def, &Properties::new(), "n").unwrap();
    assert_eq!(none, None);
    let some: Option<i32> = resolve_optional_field(&def, &props(&[("n", "-17")]), "n").unwrap();
    assert_eq!(some, Some(-17));
}

#[test]
fn unknown_key_is_missing_name() {
    let def = ConfigDef::try_from(vec![ConfigKey::<Between>::new("n")]).unwrap();
    let r: Result<Option<i32>, ConfigError> =
        resolve_optional_field(&def, &props(&[("zz", "1")]), "zz");
    assert!(matches!(r, Err(ConfigError::MissingName(s)) if s == "zz"));
    assert!(def.find_key("zz").is_none());
}

#[test]
fn supplied_values_are_validated_before_parsing() {
    let def = ConfigDef::try_from(vec![ConfigKey::new("mode")
        .with_validator(ValidString::in_list(&["fast", "slow"]))])
    .unwrap();
    assert_eq!(raw_value(&def, &props(&[("mode", " fast ")]), "mode").unwrap(), Some(" fast ".to_string()));
    assert!(matches!(
        raw_value(&def, &props(&[("mode", "medium")]), "mode"),
        Err(ConfigError::ValidationFailed { .. })
    ));
    assert_eq!(raw_value(&def, &Properties::new(), "mode").unwrap(), None);
}

#[test]
fn groups_are_listed_once_in_first_seen_order() {
    let def = ConfigDef::try_from(vec![
        ConfigKey::<Between>::new("a").with_group("net"),
        ConfigKey::new("b").with_group("disk"),
        ConfigKey::new("c"),
        ConfigKey::new("d").with_group("net"),
    ])
    .unwrap();
    assert_eq!(def.groups(), &vec!["net".to_string(), "disk".to_string()]);
    let key = def.find_key("b").unwrap();
    assert_eq!(key.group().unwrap(), "disk");
    assert_eq!(key.name(), "b");
}

#[test]
fn properties_replace_values() {
    let mut p = Properties::new();
    p.insert("k".to_string(), "1".to_string());
    p.insert("k".to_string(), "2".to_string());
    assert_eq!(p.get("k").unwrap(), "2");
    assert!(p.get("other").is_none());
}
