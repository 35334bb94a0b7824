//! Tests for the boundary value model and the conversion layer.

use tosic_plugin::convert::{
    encode_output, extract_args0, extract_args1, extract_args2, extract_args3, FloatBits,
    FromValue, IntoValue,
};
use tosic_plugin::error::PluginError;
use tosic_plugin::value::{Value, ValueKind};

#[test]
fn kinds_are_reported() {
    assert_eq!(Value::Null.kind(), ValueKind::Null);
    assert_eq!(Value::Bool(true).kind(), ValueKind::Bool);
    assert_eq!(Value::Int(-7).kind(), ValueKind::Int);
    assert_eq!(Value::Float(0x3FF0000000000000).kind(), ValueKind::Float);
    assert_eq!(Value::String("hi".to_string()).kind(), ValueKind::String);
    assert_eq!(Value::Bytes(vec![1, 2]).kind(), ValueKind::Bytes);
    assert_eq!(Value::Array(vec![Value::Null]).kind(), ValueKind::Array);
    assert_eq!(Value::Object(vec![]).kind(), ValueKind::Object);
}

#[test]
fn accessors_match_payloads() {
    assert_eq!(Value::Int(41).as_int(), Some(41));
    assert_eq!(Value::Bool(false).as_int(), None);
    assert_eq!(Value::Bool(true).as_bool(), Some(true));
    assert_eq!(Value::Int(1).as_bool(), None);
    let v = Value::String("plugin".to_string());
    assert_eq!(v.as_str().map(|s| s.as_str()), Some("plugin"));
    assert_eq!(Value::Null.as_str(), None);
}

#[test]
fn clone_is_structural_copy() {
    let v = Value::Object(vec![
        ("a".to_string(), Value::Array(vec![Value::Int(1), Value::String("x".to_string())])),
        ("b".to_string(), Value::Bytes(vec![9, 8, 7])),
        ("c".to_string(), Value::Float(0x4008000000000000)),
    ]);
    let w = v.clone();
    assert_eq!(v, w);
}

#[test]
fn round_trip_per_variant() {
    // Null <-> ()
    let n = <() as FromValue>::from_value(&Value::Null).unwrap();
    assert_eq!(n.into_value(), Value::Null);
    // Bool <-> bool
    let b = bool::from_value(&Value::Bool(true)).unwrap();
    assert_eq!(b.into_value(), Value::Bool(true));
    // Int <-> i64
    let i = i64::from_value(&Value::Int(-3)).unwrap();
    assert_eq!(i.into_value(), Value::Int(-3));
    // Float <-> FloatBits
    let bits = (2.5f64).to_bits();
    let f = FloatBits::from_value(&Value::Float(bits)).unwrap();
    assert_eq!(f.into_value(), Value::Float(bits));
    assert_eq!(f64::from_bits(bits), 2.5);
    // String <-> String
    let s = String::from_value(&Value::String("round".to_string())).unwrap();
    assert_eq!(s.into_value(), Value::String("round".to_string()));
    // Bytes <-> Vec<u8>
    let y = Vec::<u8>::from_value(&Value::Bytes(vec![0, 255, 3])).unwrap();
    assert_eq!(y.into_value(), Value::Bytes(vec![0, 255, 3]));
    // Array <-> Vec<Value>
    let arr = Value::Array(vec![Value::Int(1), Value::Bool(false)]);
    let a = Vec::<Value>::from_value(&arr).unwrap();
    assert_eq!(a.into_value(), arr);
    // Object <-> Vec<(String, Value)>
    let obj = Value::Object(vec![("k".to_string(), Value::Int(7))]);
    let o = Vec::<(String, Value)>::from_value(&obj).unwrap();
    assert_eq!(o.into_value(), obj);
    // Value <-> Value
    let v = Value::Array(vec![Value::Null]);
    let w = Value::from_value(&v).unwrap();
    assert_eq!(w.into_value(), v);
}

#[test]
fn mismatched_shapes_are_rejected() {
    assert_eq!(bool::from_value(&Value::Int(1)), Err(PluginError::InvalidArgumentType));
    assert_eq!(i64::from_value(&Value::Bool(true)), Err(PluginError::InvalidArgumentType));
    assert_eq!(String::from_value(&Value::Null), Err(PluginError::InvalidArgumentType));
    assert_eq!(Vec::<u8>::from_value(&Value::Int(0)), Err(PluginError::InvalidArgumentType));
    assert_eq!(
        Vec::<Value>::from_value(&Value::String("no".to_string())),
        Err(PluginError::InvalidArgumentType)
    );
    assert_eq!(
        Vec::<(String, Value)>::from_value(&Value::Array(vec![])),
        Err(PluginError::InvalidArgumentType)
    );
    assert_eq!(FloatBits::from_value(&Value::Int(2)), Err(PluginError::InvalidArgumentType));
    assert_eq!(<() as FromValue>::from_value(&Value::Bool(false)), Err(PluginError::InvalidArgumentType));
}

#[test]
fn error_messages_render() {
    assert_eq!(
        PluginError::LoadError("bad".to_string()).message(),
        "Failed to load plugin: bad"
    );
    assert_eq!(
        PluginError::CallError { function: "f".to_string(), message: "boom".to_string() }.message(),
        "Failed to call function 'f': boom"
    );
    assert_eq!(
        PluginError::FunctionNotFound("g".to_string()).message(),
        "Function 'g' not found in plugin"
    );
    assert_eq!(
        PluginError::InvalidArgumentType.message(),
        "Invalid argument type for function call"
    );
    assert_eq!(PluginError::RuntimeError("eek".to_string()).message(), "Runtime error: eek");
    assert_eq!(
        PluginError::HostFunctionNotFound("h".to_string()).message(),
        "Host function 'h' not found"
    );
    assert_eq!(PluginError::InvalidPluginState.message(), "Invalid plugin state");
    assert_eq!(PluginError::FileNotFound.message(), "Plugin source file not found");
}

#[test]
fn well_formedness_checks_object_keys() {
    assert!(Value::Null.is_well_formed());
    assert!(Value::Object(vec![
        ("a".to_string(), Value::Int(1)),
        ("b".to_string(), Value::Int(2)),
    ])
    .is_well_formed());
    assert!(!Value::Object(vec![
        ("a".to_string(), Value::Int(1)),
        ("a".to_string(), Value::Int(2)),
    ])
    .is_well_formed());
    // The invariant reaches nested objects through arrays.
    assert!(!Value::Array(vec![Value::Object(vec![
        ("k".to_string(), Value::Null),
        ("k".to_string(), Value::Null),
    ])])
    .is_well_formed());
    assert!(Value::Array(vec![Value::Object(vec![("k".to_string(), Value::Null)])])
        .is_well_formed());
}

#[test]
fn equality_is_structural() {
    let a = Value::Array(vec![
        Value::Int(1),
        Value::Object(vec![("k".to_string(), Value::Bytes(vec![7, 8]))]),
    ]);
    let b = Value::Array(vec![
        Value::Int(1),
        Value::Object(vec![("k".to_string(), Value::Bytes(vec![7, 8]))]),
    ]);
    assert_eq!(a, b);
    assert_ne!(a, Value::Array(vec![Value::Int(1)]));
    assert_ne!(Value::Int(0), Value::Bool(false));
    assert_ne!(
        Value::Object(vec![("k".to_string(), Value::Null)]),
        Value::Object(vec![("l".to_string(), Value::Null)])
    );
    // Floats compare by bit pattern: the two zero encodings differ.
    assert_ne!(Value::Float((0.0f64).to_bits()), Value::Float((-0.0f64).to_bits()));
}

#[test]
fn marshaling_helpers_extract_in_order() {
    let args = vec![Value::Int(7), Value::String("x".to_string())];
    let (a, s): (i64, String) = extract_args2(&args).unwrap();
    assert_eq!(a, 7);
    assert_eq!(s, "x");

    // Exact arity is enforced before any conversion.
    assert_eq!(
        extract_args2::<i64, String>(&vec![Value::Int(7)]),
        Err(PluginError::InvalidArgumentType)
    );
    assert_eq!(extract_args0(&vec![]), Ok(()));
    assert_eq!(extract_args0(&vec![Value::Null]), Err(PluginError::InvalidArgumentType));
    assert_eq!(extract_args1::<bool>(&vec![Value::Bool(true)]), Ok(true));
    // An ill-typed argument at any position short-circuits.
    assert_eq!(
        extract_args2::<i64, i64>(&vec![Value::Bool(true), Value::Int(1)]),
        Err(PluginError::InvalidArgumentType)
    );
    let (x, y, z): (i64, bool, String) = extract_args3(&vec![
        Value::Int(1),
        Value::Bool(false),
        Value::String("s".to_string()),
    ])
    .unwrap();
    assert_eq!((x, y, z), (1, false, "s".to_string()));

    assert_eq!(encode_output(5i64), Ok(Value::Int(5)));
    assert_eq!(encode_output("hi".to_string()), Ok(Value::String("hi".to_string())));
}
