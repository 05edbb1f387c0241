use kdl::KdlValue;
use serde_kdl::bool_defaults::{bare_default, bare_false, bare_true};
use serde_kdl::escape::{escape_repr, is_unescaped_by_kdl, needs_escape};
use serde_kdl::serializer::{SerializeMap, ValueSerializer};
use serde_kdl::text::decimal_string;
use serde_kdl::{to_doc, to_string, to_string_pretty, Error, Value};

fn text(s: &str) -> Value {
    Value::String(s.to_string())
}

fn num(i: i128) -> Value {
    Value::Integer(i)
}

fn record(fields: Vec<(&str, Value)>) -> Value {
    let mut m: SerializeMap = ValueSerializer.serialize_struct("S", fields.len()).unwrap();
    for (k, v) in fields {
        m.serialize_field(k, v).unwrap();
    }
    m.end().unwrap()
}

fn list(items: Vec<Value>) -> Value {
    Value::Sequence(items)
}

#[test]
fn flat_struct_writes_one_node_per_field() {
    let v = record(vec![
        ("title", text("My App")),
        ("count", num(42)),
        ("enabled", Value::Bool(true)),
    ]);
    assert_eq!(to_string(v).unwrap(), "title \"My App\"\ncount 42\nenabled #true\n");
}

#[test]
fn nested_struct_writes_children_block() {
    let v = record(vec![
        ("name", text("webapp")),
        ("server", record(vec![("host", text("localhost")), ("port", num(8080))])),
    ]);
    assert_eq!(to_string(v).unwrap(), "name webapp\nserver{\nhost localhost\nport 8080\n}\n");
}

#[test]
fn nested_struct_pretty() {
    let v = record(vec![
        ("name", text("webapp")),
        ("server", record(vec![("host", text("localhost")), ("port", num(8080))])),
    ]);
    assert_eq!(
        to_string_pretty(v).unwrap(),
        "name webapp\nserver {\n    host localhost\n    port 8080\n}\n"
    );
}

#[test]
fn primitive_sequence_is_one_node_with_many_arguments() {
    let v = record(vec![("tags", list(vec![text("web"), text("rust"), text("config")]))]);
    assert_eq!(to_string(v).unwrap(), "tags web rust config\n");
}

#[test]
fn struct_sequence_repeats_the_node() {
    let v = record(vec![(
        "server",
        list(vec![
            record(vec![("host", text("a")), ("port", num(1))]),
            record(vec![("host", text("b")), ("port", num(2))]),
        ]),
    )]);
    assert_eq!(
        to_string(v).unwrap(),
        "server{\nhost a\nport 1\n}\nserver{\nhost b\nport 2\n}\n"
    );
}

#[test]
fn nested_sequence_uses_dash_children() {
    let v = record(vec![(
        "matrix",
        list(vec![list(vec![num(1), num(2)]), list(vec![num(3), num(4)])]),
    )]);
    assert_eq!(to_string(v).unwrap(), "matrix{\n- 1 2\n- 3 4\n}\n");
}

#[test]
fn none_in_sequence_is_written_as_null_child() {
    let v = record(vec![("vals", list(vec![num(1), Value::Absent, num(3)]))]);
    assert_eq!(to_string(v).unwrap(), "vals{\n- 1\n- #null\n- 3\n}\n");
}

#[test]
fn null_in_primitive_sequence_is_an_argument() {
    let v = record(vec![("vals", list(vec![num(1), Value::Null, Value::Bool(false)]))]);
    assert_eq!(to_string(v).unwrap(), "vals 1 #null #false\n");
}

#[test]
fn empty_sequence_is_empty_children_block() {
    let v = record(vec![("items", list(vec![]))]);
    assert_eq!(to_string(v).unwrap(), "items{\n}\n");
}

#[test]
fn float_field_is_written_by_kdl() {
    let v = record(vec![("ratio", Value::Float(KdlValue::Float(3.25)))]);
    assert_eq!(to_string(v).unwrap(), "ratio 3.25\n");
}

#[test]
fn none_field_is_left_out() {
    let v = record(vec![("required", text("hello")), ("optional", Value::Absent)]);
    assert_eq!(to_string(v).unwrap(), "required hello\n");
}

#[test]
fn unit_variant_is_a_string() {
    let color = ValueSerializer.serialize_unit_variant("Color", 1, "Green").unwrap();
    let v = record(vec![("color", color)]);
    assert_eq!(to_string(v).unwrap(), "color Green\n");
}

#[test]
fn newtype_variant_is_a_child_node() {
    let inner = ValueSerializer.serialize_str("hello").unwrap();
    let wrapped = ValueSerializer.serialize_newtype_variant("Wrapper", 0, "Text", inner).unwrap();
    let v = record(vec![("value", wrapped)]);
    assert_eq!(to_string(v).unwrap(), "value{\nText hello\n}\n");
}

#[test]
fn struct_variant_is_a_child_node_with_fields() {
    let mut sv = ValueSerializer.serialize_struct_variant("Shape", 1, "Rectangle", 2).unwrap();
    sv.serialize_field("width", num(10)).unwrap();
    sv.serialize_field("height", num(20)).unwrap();
    let v = record(vec![("shape", sv.end().unwrap())]);
    assert_eq!(to_string(v).unwrap(), "shape{\nRectangle{\nwidth 10\nheight 20\n    }\n}\n");
}

#[test]
fn tuple_variant_is_a_child_node_with_arguments() {
    let mut tv = ValueSerializer.serialize_tuple_variant("Data", 1, "Pair", 2).unwrap();
    tv.serialize_field(text("hello")).unwrap();
    tv.serialize_field(num(42)).unwrap();
    let v = record(vec![("data", tv.end().unwrap())]);
    assert_eq!(to_string(v).unwrap(), "data{\nPair hello 42\n}\n");
}

#[test]
fn map_keys_become_node_names() {
    let mut m = ValueSerializer.serialize_map(Some(3)).unwrap();
    m.serialize_key(num(-5)).unwrap();
    m.serialize_value(text("minus five")).unwrap();
    m.serialize_key(Value::Bool(true)).unwrap();
    m.serialize_value(text("yes")).unwrap();
    m.serialize_key(text("key")).unwrap();
    m.serialize_value(num(1)).unwrap();
    let v = record(vec![("lookup", m.end().unwrap())]);
    assert_eq!(
        to_string(v).unwrap(),
        "lookup{\n\"-5\" \"minus five\"\n\"true\" yes\nkey 1\n}\n"
    );
}

#[test]
fn unsupported_map_keys_are_refused() {
    let mut m = ValueSerializer.serialize_map(None).unwrap();
    match m.serialize_key(Value::Null) {
        Err(Error::Unsupported(msg)) => assert_eq!(msg, "map key must be a string, got Null"),
        _ => panic!("a null key must be refused"),
    }
    match m.serialize_key(list(vec![text("a\"b"), num(7)])) {
        Err(Error::Unsupported(msg)) => {
            assert_eq!(msg, "map key must be a string, got Seq([String(\"a\\\"b\"), Integer(7)])")
        }
        _ => panic!("a sequence key must be refused"),
    }
    match m.serialize_key(Value::Float(KdlValue::Float(1.5))) {
        Err(Error::Unsupported(msg)) => assert_eq!(msg, "map key must be a string, got Float(1.5)"),
        _ => panic!("a float key must be refused"),
    }
    let nested = record(vec![("k", Value::Bool(false))]);
    match m.serialize_key(nested) {
        Err(Error::Unsupported(msg)) => {
            assert_eq!(msg, "map key must be a string, got Map([(\"k\", Bool(false))])")
        }
        _ => panic!("a map key must be refused"),
    }
    match m.serialize_key(Value::Absent) {
        Err(Error::Unsupported(msg)) => assert_eq!(msg, "map key must be a string, got None"),
        _ => panic!("a missing key must be refused"),
    }
}

#[test]
fn map_value_without_key_is_refused() {
    let mut m = ValueSerializer.serialize_map(None).unwrap();
    match m.serialize_value(num(1)) {
        Err(Error::Message(msg)) => assert_eq!(msg, "serialize_value called before serialize_key"),
        _ => panic!("a value without a key must be refused"),
    }
}

#[test]
fn control_characters_are_escaped_by_hand() {
    let v = record(vec![("text", text("a\u{1}b\u{2028}\"c\\"))]);
    assert_eq!(to_string(v).unwrap(), "text \"a\\u{1}b\\u{2028}\\\"c\\\\\"\n");
}

#[test]
fn escaped_strings_survive_pretty_printing() {
    let v = record(vec![("text", text("x\u{7f}y\n"))]);
    assert_eq!(to_string_pretty(v).unwrap(), "text \"x\\u{7f}y\\n\"\n");
}

#[test]
fn strings_kdl_handles_are_left_to_kdl() {
    let v = record(vec![("text", text("line\nbreak"))]);
    assert_eq!(to_string(v).unwrap(), "text \"line\\nbreak\"\n");
}

#[test]
fn escape_helpers() {
    assert!(is_unescaped_by_kdl('\u{0}'));
    assert!(is_unescaped_by_kdl('\u{0B}'));
    assert!(is_unescaped_by_kdl('\u{85}'));
    assert!(is_unescaped_by_kdl('\u{2029}'));
    assert!(!is_unescaped_by_kdl('\n'));
    assert!(!is_unescaped_by_kdl('\t'));
    assert!(!is_unescaped_by_kdl('a'));
    assert!(!is_unescaped_by_kdl('\u{A0}'));
    assert!(needs_escape("a\u{1f}"));
    assert!(!needs_escape("plain \"text\"\n"));
    assert_eq!(escape_repr("\u{8}\u{c}\r\t\u{9f}z"), "\"\\b\\f\\r\\t\\u{9f}z\"");
}

#[test]
fn top_level_must_be_a_struct() {
    assert!(matches!(to_doc(num(1)), Err(Error::TopLevelNotStruct)));
    assert!(matches!(to_string_pretty(list(vec![])), Err(Error::TopLevelNotStruct)));
    assert!(matches!(to_string(Value::Null), Err(Error::TopLevelNotStruct)));
}

#[test]
fn doc_holds_the_field_nodes() {
    let v = record(vec![("title", text("Test")), ("count", num(1))]);
    let doc = to_doc(v).unwrap();
    assert_eq!(doc.nodes().len(), 2);
    assert!(doc.get("title").is_some());
    assert_eq!(doc.get_arg("count"), Some(&KdlValue::Integer(1)));
}

#[test]
fn u128_beyond_i128_is_refused() {
    let big = ValueSerializer.serialize_u128(1_000_000_000_000u128).unwrap();
    assert!(matches!(big, Value::Integer(1_000_000_000_000)));
    match ValueSerializer.serialize_u128(u128::MAX) {
        Err(Error::IntegerOutOfRange(i)) => assert_eq!(i, -1),
        _ => panic!("u128::MAX must be refused"),
    }
    let err = ValueSerializer.serialize_u128(1u128 << 127).unwrap_err();
    assert_eq!(
        err.to_string(),
        "integer out of range: -170141183460469231731687303715884105728"
    );
}

#[test]
fn decimal_rendering() {
    assert_eq!(decimal_string(0), "0");
    assert_eq!(decimal_string(-42), "-42");
    assert_eq!(decimal_string(i128::MAX), "170141183460469231731687303715884105727");
    assert_eq!(decimal_string(i128::MIN), "-170141183460469231731687303715884105728");
}

#[test]
fn bytes_and_chars() {
    let bytes = ValueSerializer.serialize_bytes(&[1, 2, 255]).unwrap();
    let c = ValueSerializer.serialize_char('é').unwrap();
    let v = record(vec![("data", bytes), ("c", c)]);
    assert_eq!(to_string(v).unwrap(), "data 1 2 255\nc é\n");
}

#[test]
fn bare_booleans_take_the_default() {
    assert!(bare_true(None));
    assert!(bare_true(Some(true)));
    assert!(!bare_true(Some(false)));
    assert!(!bare_false(None));
    assert!(bare_false(Some(true)));
    assert!(!bare_false(Some(false)));
    assert!(bare_default(None, true));
}

#[test]
fn error_messages() {
    assert_eq!(Error::MissingField("name".into()).to_string(), "missing field: name");
    assert_eq!(Error::UnknownVariant("Foo".into()).to_string(), "unknown variant: Foo");
    assert_eq!(Error::Unsupported("nope".into()).to_string(), "unsupported: nope");
    assert_eq!(
        Error::TypeMismatch { expected: "string", got: "integer".into() }.to_string(),
        "type mismatch: expected string, got integer"
    );
}

#[test]
fn unit_field_of_struct_variant_is_kept_as_null() {
    let mut sv = ValueSerializer.serialize_struct_variant("Shape", 0, "Dot", 2).unwrap();
    sv.serialize_field("marker", ValueSerializer.serialize_unit().unwrap()).unwrap();
    sv.serialize_field("gone", Value::Absent).unwrap();
    let v = record(vec![("shape", sv.end().unwrap())]);
    assert_eq!(to_string(v).unwrap(), "shape{\nDot{\nmarker #null\n    }\n}\n");
}

#[test]
fn map_key_is_taken_before_the_value() {
    let mut m = ValueSerializer.serialize_map(None).unwrap();
    m.serialize_key(text("k")).unwrap();
    let key = m.take_key().unwrap();
    assert_eq!(key, "k");
    assert!(matches!(m.take_key(), Err(Error::Message(_))));
    m.insert_value(key, num(3)).unwrap();
    let v = record(vec![("m", m.end().unwrap())]);
    assert_eq!(to_string(v).unwrap(), "m{\nk 3\n}\n");
}
