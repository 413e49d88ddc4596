use nexus_wasm_bridge::codec::decode_value;
use nexus_wasm_bridge::codec::encode_value;
use nexus_wasm_bridge::value::RuntimeValue;
use nexus_wasm_bridge::value::ValueMap;

#[test]
fn test_runtime_value_conversions() {
    let v = RuntimeValue::Bool(true);
    assert_eq!(v.as_bool(), Some(true));

    let v = RuntimeValue::Number(42.0f64.to_bits());
    assert_eq!(v.as_number_bits(), Some(42.0f64.to_bits()));

    let v = RuntimeValue::String("hello".to_string());
    assert_eq!(v.as_str(), Some("hello"));
}

#[test]
fn test_value_accessors_reject_other_shapes() {
    let v = RuntimeValue::Null;
    assert!(v.is_null());
    assert_eq!(v.as_bool(), None);
    assert_eq!(v.as_number_bits(), None);
    assert_eq!(v.as_str(), None);
    assert!(v.as_array().is_none());
    assert!(v.as_object().is_none());
}

#[test]
fn test_value_map_get_and_keys() {
    let mut map = ValueMap::new();
    assert!(map.is_empty());
    map.push("a".to_string(), RuntimeValue::Bool(true));
    map.push("b".to_string(), RuntimeValue::Null);
    assert_eq!(map.len(), 2);
    assert!(map.contains_key("a"));
    assert!(!map.contains_key("c"));
    assert_eq!(map.get("a"), Some(&RuntimeValue::Bool(true)));
    assert_eq!(map.get("c"), None);
    let keys = map.keys();
    assert_eq!(keys, vec!["a".to_string(), "b".to_string()]);
}

#[test]
fn test_codec_round_trip_scalars() {
    let values = vec![
        RuntimeValue::Null,
        RuntimeValue::Bool(true),
        RuntimeValue::Bool(false),
        RuntimeValue::Number(0.0f64.to_bits()),
        RuntimeValue::Number(1.5f64.to_bits()),
        RuntimeValue::Number((-3.25f64).to_bits()),
        RuntimeValue::Number(f64::NAN.to_bits()),
        RuntimeValue::String(String::new()),
        RuntimeValue::String("hello".to_string()),
        RuntimeValue::String("h\u{e9}\u{3bb}\u{3bb}o \u{1f600}".to_string()),
    ];
    for v in values {
        let bytes = encode_value(&v);
        assert_eq!(decode_value(&bytes), Some(v));
    }
}

#[test]
fn test_codec_round_trip_nested() {
    let mut inner = ValueMap::new();
    inner.push("message".to_string(), RuntimeValue::String("hi".to_string()));
    inner.push("count".to_string(), RuntimeValue::Number(2.0f64.to_bits()));
    let v = RuntimeValue::Array(vec![
        RuntimeValue::Object(inner),
        RuntimeValue::Array(vec![RuntimeValue::Null, RuntimeValue::Bool(false)]),
        RuntimeValue::String("tail".to_string()),
    ]);
    let bytes = encode_value(&v);
    assert_eq!(decode_value(&bytes), Some(v));
}

#[test]
fn test_codec_rejects_truncated_input() {
    let v = RuntimeValue::String("hello".to_string());
    let mut bytes = encode_value(&v);
    bytes.pop();
    assert_eq!(decode_value(&bytes), None);
}

#[test]
fn test_codec_rejects_trailing_garbage() {
    let v = RuntimeValue::Bool(true);
    let mut bytes = encode_value(&v);
    bytes.push(0);
    assert_eq!(decode_value(&bytes), None);
}

#[test]
fn test_codec_rejects_unknown_tag() {
    let bytes = vec![250u8, 0, 0];
    assert_eq!(decode_value(&bytes), None);
}
