use hemmer_provider_sdk::codec::{
    bytes_or_empty, decode_optional_value, decode_payload, decode_prior_state, encode_payload,
    from_json_bytes, lift,
    lower, value_or_null,
};
use hemmer_provider_sdk::name_map::{str_same, NameMap};
use hemmer_provider_sdk::number::{is_whole_within_i64, JsonNumber, NumberKind};
use hemmer_provider_sdk::text::{
    bracketed_path, concat3, decimal_text, dotted_index_path, dotted_path, join_path,
};
use hemmer_provider_sdk::validation::{is_int64, type_error, value_type_name};
use hemmer_provider_sdk::JsonValue;

fn json(text: &str) -> JsonValue {
    from_json_bytes(text.as_bytes()).unwrap()
}

fn object(members: Vec<(&str, JsonValue)>) -> JsonValue {
    let mut map = NameMap::new();
    for (key, value) in members {
        map.insert(key.to_string(), value);
    }
    JsonValue::object(map)
}

#[test]
fn parsing_builds_the_same_values_as_the_constructors() {
    assert_eq!(json("null"), JsonValue::Null);
    assert_eq!(json("true"), JsonValue::Bool(true));
    assert_eq!(json("42"), JsonValue::integer(42));
    assert_eq!(json("-7"), JsonValue::integer(-7));
    assert_eq!(json("18446744073709551615"), JsonValue::unsigned(u64::MAX));
    assert_eq!(json("1.5"), JsonValue::float(1.5f64.to_bits()));
    assert_eq!(json("\"hi\""), JsonValue::text("hi"));
    assert_eq!(
        json("[1, \"a\"]"),
        JsonValue::array(vec![JsonValue::integer(1), JsonValue::text("a")])
    );
    assert_eq!(
        json(r#"{"b": 1, "a": [true]}"#),
        object(vec![
            ("a", JsonValue::array(vec![JsonValue::Bool(true)])),
            ("b", JsonValue::integer(1)),
        ])
    );
    assert_ne!(json("1"), json("1.0"));
    assert_ne!(json("1"), json("\"1\""));
    assert_ne!(json("[1, 2]"), json("[2, 1]"));
    assert_ne!(json(r#"{"a": 1}"#), json(r#"{"a": 1, "b": null}"#));
}

#[test]
fn writing_and_reading_round_trip() {
    for text in [
        "null",
        "false",
        "0",
        "-1",
        "18446744073709551615",
        "1.5",
        "-0.0",
        "1e300",
        "\"a\\\"b\"",
        "[]",
        "{}",
        r#"{"a":[1,{"b":null}],"c":"d"}"#,
    ] {
        let value = json(text);
        let bytes = encode_payload(&value);
        assert_eq!(bytes, serde_json::to_vec(&serde_json::from_str::<serde_json::Value>(text).unwrap()).unwrap());
        assert_eq!(decode_payload(&bytes), value, "{}", text);
    }
    assert_eq!(encode_payload(&json(r#"{"b": 1, "a": 2}"#)), b"{\"a\":2,\"b\":1}".to_vec());
}

#[test]
fn lifting_and_lowering_agree_with_serde_json() {
    let text = r#"{"n": -3, "u": 9007199254740993, "f": 2.5, "s": "x", "l": [null, true], "o": {"k": {}}}"#;
    let outside: serde_json::Value = serde_json::from_str(text).unwrap();
    let lifted = lift(&outside);
    assert_eq!(lifted, json(text));
    assert_eq!(lifted.get("n"), Some(&JsonValue::integer(-3)));
    assert_eq!(lifted.get("u"), Some(&JsonValue::unsigned(9007199254740993)));
    assert_eq!(lifted.get("f"), Some(&JsonValue::float(2.5f64.to_bits())));
    assert_eq!(lower(&lifted), outside);
    assert_eq!(lower(&JsonValue::float((-0.0f64).to_bits())).to_string(), "-0.0");
    assert_eq!(lower(&JsonValue::float(f64::NAN.to_bits())), serde_json::Value::Null);
}

#[test]
fn payloads_are_read_leniently() {
    assert_eq!(decode_payload(b""), JsonValue::Null);
    assert_eq!(decode_payload(b"{oops"), JsonValue::Null);
    assert_eq!(decode_payload(b"{\"a\": 1}"), json(r#"{"a": 1}"#));
    assert_eq!(decode_prior_state(b""), None);
    assert_eq!(decode_prior_state(b"{oops"), Some(JsonValue::Null));
    assert_eq!(decode_prior_state(b"not json"), Some(JsonValue::Null));
    assert_eq!(decode_prior_state(b" "), Some(JsonValue::Null));
    assert_eq!(decode_prior_state(b"null"), Some(JsonValue::Null));
    assert_eq!(decode_prior_state(b"[1]"), Some(json("[1]")));
    assert_eq!(decode_optional_value(b""), None);
    assert_eq!(decode_optional_value(b"{oops"), None);
    assert_eq!(decode_optional_value(b"null"), Some(JsonValue::Null));
    assert_eq!(decode_optional_value(b"[1]"), Some(json("[1]")));
    assert_eq!(value_or_null(None), JsonValue::Null);
    assert_eq!(value_or_null(Some(JsonValue::Bool(true))), JsonValue::Bool(true));
    assert_eq!(bytes_or_empty(None), Vec::<u8>::new());
    assert_eq!(bytes_or_empty(Some(vec![1, 2])), vec![1, 2]);
    assert!(from_json_bytes(b"[1,").is_err());
}

#[test]
fn kinds_and_accessors() {
    assert_eq!(json("null").kind_name(), "null");
    assert_eq!(json("true").kind_name(), "bool");
    assert_eq!(json("1").kind_name(), "number");
    assert_eq!(json("\"s\"").kind_name(), "string");
    assert_eq!(json("[]").kind_name(), "array");
    assert_eq!(json("{}").kind_name(), "object");
    assert_eq!(value_type_name(&json("[]")), "array");
    assert!(json("null").is_null() && !json("0").is_null());
    assert!(json("\"\"").is_string() && !json("0").is_string());
    assert!(json("0.5").is_number() && !json("\"0\"").is_number());
    assert!(json("false").is_boolean() && !json("0").is_boolean());
    assert!(json("[]").is_array() && !json("{}").is_array());
    assert!(json("{}").is_object() && !json("[]").is_object());
    assert_eq!(json(r#"{"a": 1}"#).get("a"), Some(&JsonValue::integer(1)));
    assert_eq!(json(r#"{"a": 1}"#).get("b"), None);
    assert_eq!(json("[1]").get("0"), None);
    assert!(json(r#"{"a": [1]}"#).equals(&json(r#"{"a": [1]}"#)));
    assert!(!json(r#"{"a": [1]}"#).equals(&json(r#"{"a": [2]}"#)));
    assert_eq!(json(r#"{"a": [1]}"#).clone(), json(r#"{"a": [1]}"#));
}

#[test]
fn numbers_keep_their_form() {
    assert_eq!(JsonNumber::from_u64(5).kind(), NumberKind::PosInt(5));
    assert_eq!(JsonNumber::from_i64(5).kind(), NumberKind::PosInt(5));
    assert_eq!(JsonNumber::from_i64(-5).kind(), NumberKind::NegInt(-5));
    assert_eq!(JsonNumber::from_i64(i64::MIN).kind(), NumberKind::NegInt(i64::MIN));
    assert_eq!(
        JsonNumber::from_f64_bits(2.5f64.to_bits()).unwrap().kind(),
        NumberKind::Float(2.5f64.to_bits())
    );
    assert!(JsonNumber::from_f64_bits(f64::NAN.to_bits()).is_none());
    assert!(JsonNumber::from_f64_bits(f64::INFINITY.to_bits()).is_none());
    assert!(JsonNumber::from_f64_bits(f64::NEG_INFINITY.to_bits()).is_none());
    assert_eq!(JsonValue::float(f64::INFINITY.to_bits()), JsonValue::Null);

    let zero = JsonNumber::from_f64_bits(0.0f64.to_bits()).unwrap();
    let negative_zero = JsonNumber::from_f64_bits((-0.0f64).to_bits()).unwrap();
    assert!(zero.equals(&negative_zero));
    assert!(!zero.equals(&JsonNumber::from_u64(0)));
    assert!(JsonNumber::from_u64(7).equals(&JsonNumber::from_i64(7)));
    assert!(!JsonNumber::from_i64(-7).equals(&JsonNumber::from_i64(7)));
}

#[test]
fn whole_doubles_count_as_integers() {
    let whole = [
        0.0,
        -0.0,
        1.0,
        -1.0,
        42.0,
        4503599627370496.0,
        9007199254740992.0,
        1e18,
        9223372036854775808.0,
        -9223372036854775808.0,
        3.0e10,
    ];
    for number in whole {
        assert!(is_whole_within_i64(f64::to_bits(number)), "{}", number);
    }
    let others = [
        0.5,
        -0.5,
        42.5,
        1e-300,
        5e-324,
        0.9999999999999999,
        4503599627370495.5,
        9223372036854777856.0,
        -9223372036854777856.0,
        1e300,
        f64::INFINITY,
        f64::NEG_INFINITY,
        f64::NAN,
    ];
    for number in others {
        assert!(!is_whole_within_i64(f64::to_bits(number)), "{}", number);
    }
    for number in whole.iter().chain(others.iter()) {
        let expected = number.fract() == 0.0
            && *number >= i64::MIN as f64
            && *number <= i64::MAX as f64;
        assert_eq!(is_whole_within_i64(number.to_bits()), expected, "{}", number);
    }
}

#[test]
fn integers_count_up_to_the_rounding_bound() {
    assert!(JsonNumber::from_u64(0).is_int64());
    assert!(JsonNumber::from_u64(i64::MAX as u64).is_int64());
    assert!(JsonNumber::from_u64(9_223_372_036_854_776_832).is_int64());
    assert!(!JsonNumber::from_u64(9_223_372_036_854_776_833).is_int64());
    assert!(!JsonNumber::from_u64(u64::MAX).is_int64());
    assert!(JsonNumber::from_i64(i64::MIN).is_int64());
    for n in [i64::MAX as u64, 9_223_372_036_854_776_832, 9_223_372_036_854_776_833, u64::MAX] {
        let as_double = n as f64;
        let expected = n <= i64::MAX as u64 || as_double <= i64::MAX as f64;
        assert_eq!(JsonNumber::from_u64(n).is_int64(), expected, "{}", n);
    }
    assert!(is_int64(&json("42")));
    assert!(is_int64(&json("42.0")));
    assert!(!is_int64(&json("42.5")));
    assert!(!is_int64(&json("\"42\"")));
}

#[test]
fn type_error_names_both_kinds() {
    let diagnostic = type_error("a.b", "list", &json("{}"));
    assert_eq!(diagnostic.summary, "Invalid type for attribute 'a.b'");
    assert_eq!(diagnostic.detail, Some("Expected list, got object".to_string()));
    assert_eq!(diagnostic.attribute, Some("a.b".to_string()));
}

#[test]
fn maps_keep_their_names_in_order() {
    let mut map: NameMap<u32> = NameMap::new();
    assert!(map.is_empty());
    map.insert("b".to_string(), 2);
    map.insert("a".to_string(), 1);
    map.insert("ab".to_string(), 3);
    map.insert("B".to_string(), 4);
    map.insert("".to_string(), 5);
    map.insert("é".to_string(), 6);
    map.insert("a".to_string(), 7);
    assert_eq!(map.len(), 6);
    let names: Vec<&str> = (0..map.len()).map(|i| map.name_at(i).as_str()).collect();
    assert_eq!(names, vec!["", "B", "a", "ab", "b", "é"]);
    let values: Vec<u32> = (0..map.len()).map(|i| *map.value_at(i)).collect();
    assert_eq!(values, vec![5, 4, 7, 3, 2, 6]);
    assert_eq!(map.get("a"), Some(&7));
    assert_eq!(map.get("c"), None);
    assert!(map.contains_key("") && !map.contains_key("A"));
    assert_eq!(map.clone(), map);
    assert_eq!(NameMap::<u32>::default().len(), 0);
}

#[test]
fn strings_are_the_same_by_their_characters() {
    assert!(str_same("abc", "abc"));
    assert!(str_same("", ""));
    assert!(!str_same("abc", "abd"));
    assert!(!str_same("abc", "ab"));
    assert!(!str_same("", "a"));
}

#[test]
fn texts_and_paths() {
    assert_eq!(decimal_text(0), "0");
    assert_eq!(decimal_text(7), "7");
    assert_eq!(decimal_text(10), "10");
    assert_eq!(decimal_text(4096), "4096");
    assert_eq!(decimal_text(u64::MAX), "18446744073709551615");
    assert_eq!(concat3("a", "", "c"), "ac");
    assert_eq!(join_path("", "name"), "name");
    assert_eq!(join_path("a", "b"), "a.b");
    assert_eq!(dotted_path("a", "b"), "a.b");
    assert_eq!(dotted_path("", "b"), ".b");
    assert_eq!(dotted_index_path("tags", 12), "tags.12");
    assert_eq!(bracketed_path("tags", 0), "tags[0]");
    assert_eq!(bracketed_path("", 31), "[31]");
}
