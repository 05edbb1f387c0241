use kdl::KdlValue;
use serde_kdl::serializer::ValueSerializer;
use serde_kdl::{to_string, Error, Value};

fn field(m: &mut serde_kdl::serializer::SerializeMap, key: &str, value: Value) {
    m.serialize_field(key, value).unwrap();
}

fn string(s: &str) -> Value {
    ValueSerializer.serialize_str(s).unwrap()
}

fn integer(i: i64) -> Value {
    ValueSerializer.serialize_i64(i).unwrap()
}

fn seq_of(items: Vec<Value>) -> Value {
    let mut s = ValueSerializer.serialize_seq(Some(items.len())).unwrap();
    for item in items {
        s.serialize_element(item).unwrap();
    }
    s.end().unwrap()
}

// ── Error trait impls ──────────────────────────────────────────────────

#[test]
fn error_display_variants() {
    let err = Error::TopLevelNotStruct;
    assert_eq!(err.to_string(), "top-level type must be a struct or map");

    let err = Error::Message("custom error".into());
    assert_eq!(err.to_string(), "custom error");

    let err = Error::TypeMismatch {
        expected: "string",
        got: "integer".into(),
    };
    assert!(err.to_string().contains("expected string"));

    let err = Error::MissingField("name".into());
    assert!(err.to_string().contains("name"));

    let err = Error::IntegerOutOfRange(999999);
    assert!(err.to_string().contains("999999"));

    let err = Error::UnknownVariant("Foo".into());
    assert!(err.to_string().contains("Foo"));

    let err = Error::Unsupported("nope".into());
    assert!(err.to_string().contains("nope"));
}

// ── Serialization: top-level not struct ────────────────────────────────

#[test]
fn serialize_top_level_not_struct() {
    let result = to_string(ValueSerializer.serialize_i32(42).unwrap());
    assert!(result.is_err());
    let err = result.unwrap_err();
    assert!(matches!(err, Error::TopLevelNotStruct));
}

#[test]
fn serialize_top_level_string_err() {
    let result = to_string(ValueSerializer.serialize_str("hello").unwrap());
    assert!(result.is_err());
}

#[test]
fn serialize_top_level_bool_err() {
    let result = to_string(ValueSerializer.serialize_bool(true).unwrap());
    assert!(result.is_err());
}

// ── Serialization: unit and unit_struct ────────────────────────────────

#[test]
fn serialize_unit_value() {
    // ContainsUnit { label: "test", marker: () }
    let mut m = ValueSerializer.serialize_struct("ContainsUnit", 2).unwrap();
    field(&mut m, "label", string("test"));
    field(&mut m, "marker", ValueSerializer.serialize_unit().unwrap());
    let output = to_string(m.end().unwrap()).unwrap();
    assert!(output.contains("label"));
}

// ── Serialization: mixed sequences ─────────────────────────────────────

#[test]
fn serialize_mixed_sequence() {
    // MixedSeq { items: vec![Num(1), Num(2)] } with an untagged enum
    let mut m = ValueSerializer.serialize_struct("MixedSeq", 1).unwrap();
    field(&mut m, "items", seq_of(vec![integer(1), integer(2)]));
    let output = to_string(m.end().unwrap()).unwrap();
    assert!(output.contains("items"));
}

// ── Serialization: map with integer keys ───────────────────────────────

#[test]
fn serialize_map_integer_keys() {
    // IntKeyMap { lookup: {1: "one", 2: "two"} }
    let mut lookup = ValueSerializer.serialize_map(Some(2)).unwrap();
    lookup.serialize_key(ValueSerializer.serialize_i32(1).unwrap()).unwrap();
    lookup.serialize_value(string("one")).unwrap();
    lookup.serialize_key(ValueSerializer.serialize_i32(2).unwrap()).unwrap();
    lookup.serialize_value(string("two")).unwrap();
    let mut m = ValueSerializer.serialize_struct("IntKeyMap", 1).unwrap();
    field(&mut m, "lookup", lookup.end().unwrap());
    let output = to_string(m.end().unwrap()).unwrap();
    assert!(output.contains("1") || output.contains("2"));
}

// ── Serialization: map with bool keys ──────────────────────────────────

#[test]
fn serialize_map_bool_keys() {
    // BoolKeyMap { flags: {true: "yes"} }
    let mut flags = ValueSerializer.serialize_map(Some(1)).unwrap();
    flags.serialize_key(ValueSerializer.serialize_bool(true).unwrap()).unwrap();
    flags.serialize_value(string("yes")).unwrap();
    let mut m = ValueSerializer.serialize_struct("BoolKeyMap", 1).unwrap();
    field(&mut m, "flags", flags.end().unwrap());
    let output = to_string(m.end().unwrap()).unwrap();
    assert!(output.contains("true"));
}

// ── Serialization: Null field via explicit null ─────────────────────────

#[test]
fn serialize_explicit_null_value() {
    // S { marker: UnitStruct }: the unit struct field is left out.
    let mut m = ValueSerializer.serialize_struct("S", 1).unwrap();
    field(&mut m, "marker", ValueSerializer.serialize_unit_struct("UnitStruct").unwrap());
    let output = to_string(m.end().unwrap()).unwrap();
    assert!(!output.contains("marker"));
}

// ── Serialization: f32 field ───────────────────────────────────────────

#[test]
fn serialize_f32_field() {
    // WithF32 { value: 2.5f32 }
    let value: f32 = 2.5;
    let mut m = ValueSerializer.serialize_struct("WithF32", 1).unwrap();
    field(&mut m, "value", Value::Float(KdlValue::Float(value as f64)));
    let output = to_string(m.end().unwrap()).unwrap();
    assert!(output.contains("2.5"));
}

// ── Serialization: Null value in value_to_nodes ────────────────────────

#[test]
fn serialize_option_some_null_nested() {
    // S { items: {"present": Some("value"), "absent": None} }
    let mut items = ValueSerializer.serialize_map(Some(2)).unwrap();
    items.serialize_key(string("present")).unwrap();
    items.serialize_value(string("value")).unwrap();
    items.serialize_key(string("absent")).unwrap();
    items.serialize_value(ValueSerializer.serialize_none().unwrap()).unwrap();
    let mut m = ValueSerializer.serialize_struct("S", 1).unwrap();
    field(&mut m, "items", items.end().unwrap());
    let output = to_string(m.end().unwrap()).unwrap();
    assert!(!output.contains("absent"));
    assert!(output.contains("present"));
}

// ── Remaining coverage: serialization paths ────────────────────────────

#[test]
fn serialize_mixed_primitive_sequence() {
    // S { items: vec![Int(1), Str("two"), Int(3)] } with an untagged enum
    let mut m = ValueSerializer.serialize_struct("S", 1).unwrap();
    field(&mut m, "items", seq_of(vec![integer(1), string("two"), integer(3)]));
    let output = to_string(m.end().unwrap()).unwrap();
    assert!(output.contains("items"));
}

#[test]
fn serialize_nested_sequence() {
    // S { matrix: vec![vec![1, 2], vec![3, 4]] }
    let mut m = ValueSerializer.serialize_struct("S", 1).unwrap();
    field(
        &mut m,
        "matrix",
        seq_of(vec![seq_of(vec![integer(1), integer(2)]), seq_of(vec![integer(3), integer(4)])]),
    );
    let output = to_string(m.end().unwrap()).unwrap();
    assert!(output.contains("matrix"));
    assert!(output.contains("-"));
}

#[test]
fn serialize_unsupported_map_key() {
    let err = Error::Unsupported("map key must be a string, got Null".into());
    assert!(err.to_string().contains("map key"));
}

#[test]
fn serialize_vec_option_with_nulls() {
    // S { vals: vec![Some(1), None, Some(3)] }
    let mut m = ValueSerializer.serialize_struct("S", 1).unwrap();
    field(
        &mut m,
        "vals",
        seq_of(vec![integer(1), ValueSerializer.serialize_none().unwrap(), integer(3)]),
    );
    let output = to_string(m.end().unwrap()).unwrap();
    assert!(output.contains("vals"));
    assert!(output.contains("#null"));
}

#[test]
fn serialize_mixed_seq_with_null() {
    // S { items: vec![Some(vec![1, 2]), None, Some(vec![3])] }
    let mut m = ValueSerializer.serialize_struct("S", 1).unwrap();
    field(
        &mut m,
        "items",
        seq_of(vec![
            seq_of(vec![integer(1), integer(2)]),
            ValueSerializer.serialize_none().unwrap(),
            seq_of(vec![integer(3)]),
        ]),
    );
    let output = to_string(m.end().unwrap()).unwrap();
    assert!(output.contains("#null"));
}
