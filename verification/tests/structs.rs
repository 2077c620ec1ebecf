//! JSON values, protobuf structures and the numbers in them.

use openshell::doubles::{
    exact_signed_integer, exact_unsigned_integer, magnitude, nearest_double,
};
use openshell::json::{Json, Number};
use openshell::proto_struct::{
    deserialize_optional_non_empty_string_list, finite, json_object_to_struct,
    json_value_to_proto, struct_to_json_value, value_to_json, ProtoStructError, Struct, Value,
};

fn text(value: &str) -> String {
    value.to_string()
}

fn double(value: f64) -> Json {
    Json::Number(Number::Double { bits: value.to_bits() })
}

fn devices(json: &str) -> Result<Option<Vec<String>>, String> {
    let value: serde_json::Value = serde_json::from_str(json).unwrap();
    match value.get("devices") {
        None => Ok(None),
        Some(devices) => {
            let values: Vec<String> =
                serde_json::from_value(devices.clone()).map_err(|error| error.to_string())?;
            deserialize_optional_non_empty_string_list(values)
        }
    }
}

#[test]
fn json_and_proto_values_round_trip() {
    let object = || {
        vec![
            (text("bool"), Json::Bool(true)),
            (
                text("list"),
                Json::List(vec![
                    double(1.0),
                    Json::Object(vec![(text("nested"), Json::Text(text("value")))]),
                ]),
            ),
            (text("null"), Json::Null),
            (text("number"), double(42.5)),
            (text("string"), Json::Text(text("value"))),
        ]
    };

    let proto = json_object_to_struct(&object()).unwrap();

    assert_eq!(struct_to_json_value(&proto), Json::Object(object()));
}

#[test]
fn optional_non_empty_string_list_defaults_when_absent() {
    assert_eq!(devices("{}").unwrap(), None);
}

#[test]
fn optional_non_empty_string_list_parses_present_list() {
    assert_eq!(
        devices(r#"{"devices": ["nvidia.com/gpu=0"]}"#).unwrap(),
        Some(vec!["nvidia.com/gpu=0".to_string()])
    );
}

#[test]
fn optional_non_empty_string_list_rejects_empty_list() {
    let err = devices(r#"{"devices": []}"#).unwrap_err();

    assert!(err.to_string().contains("non-empty list"));
}

#[test]
fn optional_non_empty_string_list_rejects_empty_string() {
    let err = devices(r#"{"devices": [""]}"#).unwrap_err();

    assert!(err.to_string().contains("non-empty string"));
    assert_eq!(
        deserialize_optional_non_empty_string_list(vec![text("a"), text(" ")]),
        Err(text("[1] must be a non-empty string"))
    );
}

#[test]
fn numbers_become_doubles() {
    let number = Number::Unsigned { value: 3, double: 3.0_f64.to_bits() };
    assert_eq!(
        json_value_to_proto(&Json::Number(number)),
        Ok(Value::Number(3.0_f64.to_bits()))
    );
    assert_eq!(value_to_json(&Value::Number(3.0_f64.to_bits())), double(3.0));
    assert_eq!(value_to_json(&Value::Unset), Json::Null);
    assert_eq!(value_to_json(&Value::Number(f64::NAN.to_bits())), Json::Null);
    assert_eq!(struct_to_json_value(&Struct::default()), Json::Object(vec![]));
}

#[test]
fn infinite_numbers_cannot_be_represented() {
    assert!(finite(1.5_f64.to_bits()));
    assert!(!finite(f64::INFINITY.to_bits()));
    assert!(!finite(f64::NAN.to_bits()));
    let number = Number::Double { bits: f64::INFINITY.to_bits() };
    assert_eq!(
        json_value_to_proto(&Json::Number(number)),
        Err(ProtoStructError::UnrepresentableNumber(number))
    );
}

#[test]
fn doubles_that_are_integers_are_read_exactly() {
    for n in [0_u64, 1, 2, 3, 1000, 1 << 52, (1 << 53) - 1] {
        assert_eq!(exact_unsigned_integer((n as f64).to_bits()), Some(n), "{n}");
    }
    assert_eq!(exact_unsigned_integer(9_007_199_254_740_992.0_f64.to_bits()), None);
    assert_eq!(exact_unsigned_integer(1.5_f64.to_bits()), None);
    assert_eq!(exact_unsigned_integer((-1.0_f64).to_bits()), None);
    assert_eq!(exact_unsigned_integer(1e300_f64.to_bits()), None);
    assert_eq!(exact_unsigned_integer(f64::NAN.to_bits()), None);
    assert_eq!(exact_signed_integer((-7.0_f64).to_bits()), Some(-7));
    assert_eq!(exact_signed_integer((-0.0_f64).to_bits()), Some(0));
    assert_eq!(exact_signed_integer((i64::MIN as f64).to_bits()), None);
    assert_eq!(exact_signed_integer(9.3e18_f64.to_bits()), None);
    assert_eq!(magnitude((-12.0_f64).to_bits()), Some(12));
}

#[test]
fn the_nearest_double_is_that_of_a_cast() {
    let mut values = vec![0, 1, 2, 3, u64::MAX, u64::MAX - 1, 1 << 53, (1 << 53) + 1];
    values.push((1 << 53) + 3);
    values.push((1 << 60) + (1 << 7));
    values.push((1 << 60) + (1 << 7) + 1);
    for n in values {
        assert_eq!(nearest_double(n), (n as f64).to_bits(), "{n}");
    }
}

#[test]
fn copies_are_equal() {
    let value = Value::List(vec![Value::Struct(vec![(text("k"), Value::Bool(true))])]);
    assert_eq!(value.copy(), value);
    let json = value_to_json(&value);
    assert_eq!(json.copy(), json);
}
