use config_def::codec::strings::Password;
use config_def::codec::{parse_config_value, ConfigValue};
use config_def::error::ConfigError;

fn invalid_for<T: ConfigValue + std::fmt::Debug>(raw: &str) {
    let r = T::parse("_name", raw);
    assert!(
        matches!(&r, Err(ConfigError::InvalidValue { name, .. }) if name == "_name"),
        "Expected InvalidValue for input '{}', but got {:?}",
        raw,
        r
    );
}

#[test]
fn test_bad_inputs_for_int() {
    for raw in ["hello", "42.5", "9223372036854775807"] {
        invalid_for::<i32>(raw);
    }
}

#[test]
fn test_bad_inputs_for_long() {
    for raw in ["hello", "42.5", "922337203685477580700"] {
        invalid_for::<i64>(raw);
    }
}

#[test]
fn test_bad_inputs_for_boolean() {
    for raw in ["hello", "truee", "fals", "0", "1"] {
        invalid_for::<bool>(raw);
    }
}

#[test]
fn integers_are_trimmed_and_signed() {
    assert_eq!(i32::parse("a", "1   ").unwrap(), 1);
    assert_eq!(i64::parse("b", " -2 ").unwrap(), -2);
    assert_eq!(u8::parse("c", "+255").unwrap(), 255);
    invalid_for::<u8>("256");
    invalid_for::<u8>("-1");
    invalid_for::<i8>("-129");
    invalid_for::<u32>("");
    assert_eq!(i128::parse("d", "-170141183460469231731687303715884105728").unwrap(), i128::MIN);
    assert_eq!(usize::parse("e", "007").unwrap(), 7);
}

#[test]
fn invalid_digit_message_is_carried() {
    match i32::parse("_a", "hello") {
        Err(ConfigError::InvalidValue { name, message }) => {
            assert_eq!(name, "_a");
            assert!(message.contains("invalid digit found in string"));
        }
        other => panic!("Expected InvalidValue error, but got {:?}", other),
    }
}

#[test]
fn booleans_fold_case() {
    assert_eq!(bool::parse("g", "true").unwrap(), true);
    assert_eq!(bool::parse("h", "FalSE").unwrap(), false);
    assert_eq!(bool::parse("i", " TRUE ").unwrap(), true);
    assert_eq!(true.to_config_string(), "true");
    assert_eq!(parse_config_value::<bool>("k", "False").unwrap(), false);
}

#[test]
fn canonical_strings() {
    assert_eq!((-42i32).to_config_string(), "-42");
    assert_eq!(0u64.to_config_string(), "0");
    assert_eq!(u128::MAX.to_config_string(), "340282366920938463463374607431768211455");
    assert_eq!(
        vec!["a".to_string(), "b".to_string()].to_config_string(),
        "a,b"
    );
    assert_eq!(" x ".to_string().to_config_string(), " x ");
}

#[test]
fn scalar_round_trip_examples() {
    for raw in ["  12 ", "+7", "-0", "-2147483648"] {
        let v = i32::parse("k", raw).unwrap();
        assert_eq!(i32::parse("k", &v.to_config_string()).unwrap(), v);
    }
    for raw in ["TRUE", " false"] {
        let v = bool::parse("k", raw).unwrap();
        assert_eq!(bool::parse("k", &v.to_config_string()).unwrap(), v);
    }
    let s = String::parse("k", "  hello world ").unwrap();
    assert_eq!(s, "hello world");
    assert_eq!(String::parse("k", &s.to_config_string()).unwrap(), s);
}

#[test]
fn lists_split_and_trim() {
    assert_eq!(
        <Vec<String>>::parse("d", " a , b, c").unwrap(),
        vec!["a", "b", "c"]
    );
    assert!(<Vec<String>>::parse("d", "   ").unwrap().is_empty());
    assert_eq!(<Vec<String>>::parse("d", "a,").unwrap(), vec!["a", ""]);
}

#[test]
fn passwords_keep_the_value_but_hide_it() {
    let p = Password::parse("j", " password ").unwrap();
    assert!(p == Password::new("password".to_string()));
    assert_eq!(p.password(), "password");
    assert_eq!(p.to_config_string(), "password");
    assert_eq!(p.to_string(), "[hidden]");
}

#[test]
fn every_integer_width_reads_and_writes() {
    assert_eq!(u8::parse("k", " 200 ").unwrap().to_config_string(), "200");
    assert_eq!(u16::parse("k", "65535").unwrap().to_config_string(), "65535");
    invalid_for::<u16>("65536");
    assert_eq!(u32::parse("k", "+4294967295").unwrap().to_config_string(), "4294967295");
    assert_eq!(u64::parse("k", "18446744073709551615").unwrap(), u64::MAX);
    invalid_for::<u64>("-5");
    assert_eq!(u128::parse("k", "1").unwrap().to_config_string(), "1");
    assert_eq!(usize::parse("k", "3").unwrap().to_config_string(), "3");
    assert_eq!(i8::parse("k", "-128").unwrap().to_config_string(), "-128");
    invalid_for::<i8>("128");
    assert_eq!(i16::parse("k", "-32768").unwrap().to_config_string(), "-32768");
    assert_eq!(i32::parse("k", "+41").unwrap().to_config_string(), "41");
    assert_eq!(i64::parse("k", "-9223372036854775808").unwrap(), i64::MIN);
    assert_eq!(i128::parse("k", "99").unwrap().to_config_string(), "99");
    assert_eq!(isize::parse("k", " -6 ").unwrap().to_config_string(), "-6");
    invalid_for::<isize>("- 6");
    invalid_for::<i32>("+");
    invalid_for::<i32>("-");
}

#[test]
fn list_round_trip_examples() {
    for raw in ["", " a , b,c ", ",", "a,,b", " x "] {
        let v = <Vec<String>>::parse("k", raw).unwrap();
        assert_eq!(<Vec<String>>::parse("k", &v.to_config_string()).unwrap(), v);
    }
}
