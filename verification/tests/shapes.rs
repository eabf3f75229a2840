use avro_typescript::json::{JsonNumber, JsonValue};
use avro_typescript::reader::parse_document;
use avro_typescript::shape::{bind, check, Holds, Shape, ShapeError};

fn json(text: &str) -> JsonValue {
    parse_document(text).unwrap()
}

fn text(s: &str) -> JsonValue {
    JsonValue::String(s.to_string())
}

#[test]
fn shapes_have_their_members() {
    assert_eq!(Shape::Record.arity(), 4);
    assert_eq!(Shape::Field.arity(), 2);
    assert_eq!(Shape::Enum.arity(), 3);
    assert_eq!(Shape::Array.arity(), 2);
    assert_eq!(Shape::MapOf.arity(), 2);
    assert_eq!(Shape::Fixed.arity(), 3);
    assert_eq!(Shape::Record.holds(0), Holds::Text);
    assert_eq!(Shape::Record.holds(2), Holds::OptionalText);
    assert_eq!(Shape::Record.holds(3), Holds::Fields);
    assert_eq!(Shape::Field.holds(0), Holds::Anything);
    assert_eq!(Shape::Field.holds(1), Holds::Text);
    assert_eq!(Shape::Enum.holds(2), Holds::Texts);
    assert_eq!(Shape::Array.holds(1), Holds::Values);
    assert_eq!(Shape::MapOf.holds(1), Holds::Anything);
    assert_eq!(Shape::Fixed.holds(1), Holds::Size);
    assert_eq!(Shape::Fixed.holds(2), Holds::Text);
}

#[test]
fn keys_name_the_members_of_a_shape() {
    for shape in [Shape::Record, Shape::Field, Shape::Enum, Shape::Array, Shape::MapOf, Shape::Fixed] {
        assert_eq!(shape.slot_of("type"), Some(0));
        assert_eq!(shape.slot_of("type_name"), Some(0));
        assert_eq!(shape.slot_of("doc"), None);
        assert_eq!(shape.slot_of("Type"), None);
    }
    assert_eq!(Shape::Record.slot_of("name"), Some(1));
    assert_eq!(Shape::Record.slot_of("namespace"), Some(2));
    assert_eq!(Shape::Record.slot_of("fields"), Some(3));
    assert_eq!(Shape::Record.slot_of("symbols"), None);
    assert_eq!(Shape::Field.slot_of("name"), Some(1));
    assert_eq!(Shape::Enum.slot_of("symbols"), Some(2));
    assert_eq!(Shape::Array.slot_of("items"), Some(1));
    assert_eq!(Shape::Array.slot_of("name"), None);
    assert_eq!(Shape::MapOf.slot_of("values"), Some(1));
    assert_eq!(Shape::Fixed.slot_of("size"), Some(1));
    assert_eq!(Shape::Fixed.slot_of("name"), Some(2));
}

#[test]
fn check_text() {
    assert_eq!(check(Holds::Text, &text("x")), None);
    assert_eq!(check(Holds::Text, &JsonValue::Null), Some(ShapeError::InvalidType));
    assert_eq!(check(Holds::Text, &json("[\"x\"]")), Some(ShapeError::InvalidType));
}

#[test]
fn check_optional_text() {
    assert_eq!(check(Holds::OptionalText, &text("x")), None);
    assert_eq!(check(Holds::OptionalText, &JsonValue::Null), None);
    assert_eq!(check(Holds::OptionalText, &JsonValue::Bool(false)), Some(ShapeError::InvalidType));
}

#[test]
fn check_anything() {
    assert_eq!(check(Holds::Anything, &JsonValue::Null), None);
    assert_eq!(check(Holds::Anything, &json("{\"a\": [1, 2]}")), None);
}

#[test]
fn check_texts() {
    assert_eq!(check(Holds::Texts, &json("[]")), None);
    assert_eq!(check(Holds::Texts, &json("[\"A\", \"B\"]")), None);
    assert_eq!(check(Holds::Texts, &json("[\"A\", 1]")), Some(ShapeError::InvalidType));
    assert_eq!(check(Holds::Texts, &text("A")), Some(ShapeError::InvalidType));
    assert_eq!(check(Holds::Texts, &json("{}")), Some(ShapeError::InvalidType));
}

#[test]
fn check_values() {
    assert_eq!(check(Holds::Values, &json("[]")), None);
    assert_eq!(check(Holds::Values, &json("[1, null, {}]")), None);
    assert_eq!(check(Holds::Values, &text("string")), Some(ShapeError::InvalidType));
}

#[test]
fn check_size() {
    assert_eq!(check(Holds::Size, &json("0")), None);
    assert_eq!(check(Holds::Size, &json("18446744073709551615")), None);
    assert_eq!(check(Holds::Size, &json("-1")), Some(ShapeError::InvalidValue));
    assert_eq!(check(Holds::Size, &json("16.0")), Some(ShapeError::InvalidType));
    assert_eq!(check(Holds::Size, &json("\"16\"")), Some(ShapeError::InvalidType));
    assert_eq!(check(Holds::Size, &JsonValue::Number(JsonNumber::Fraction)), Some(ShapeError::InvalidType));
}

#[test]
fn check_fields() {
    assert_eq!(check(Holds::Fields, &json("[]")), None);
    assert_eq!(check(Holds::Fields, &json(r#"[{"name": "a", "type": "int"}, ["long", "b"]]"#)), None);
    assert_eq!(check(Holds::Fields, &json(r#"{"name": "a", "type": "int"}"#)), Some(ShapeError::InvalidType));
    assert_eq!(check(Holds::Fields, &json(r#"[{"name": "a", "type": "int"}, {"name": "b"}]"#)), Some(ShapeError::MissingField));
    assert_eq!(check(Holds::Fields, &json(r#"[{"name": "a", "type": "int"}, "b"]"#)), Some(ShapeError::InvalidType));
    assert_eq!(check(Holds::Fields, &json(r#"[["int"], {"name": 1, "type": "int"}]"#)), Some(ShapeError::InvalidLength));
}

#[test]
fn bind_finds_the_members_of_an_object() {
    let value = json(r#"{"type": "fixed", "name": "Md5", "size": 16, "doc": "ignored"}"#);
    let slots = bind(Shape::Fixed, &value).unwrap();
    assert_eq!(
        slots,
        vec![
            Some(&text("fixed")),
            Some(&JsonValue::Number(JsonNumber::Unsigned(16))),
            Some(&text("Md5")),
        ]
    );
}

#[test]
fn bind_leaves_an_optional_member_empty() {
    let value = json(r#"{"type": "record", "name": "R", "fields": []}"#);
    let slots = bind(Shape::Record, &value).unwrap();
    assert_eq!(slots.len(), 4);
    assert_eq!(slots[0], Some(&text("record")));
    assert_eq!(slots[1], Some(&text("R")));
    assert_eq!(slots[2], None);
    assert_eq!(slots[3], Some(&JsonValue::Array(vec![])));
}

#[test]
fn bind_takes_the_other_name_of_the_type_member() {
    let value = json(r#"{"type_name": "anything", "values": "long"}"#);
    let slots = bind(Shape::MapOf, &value).unwrap();
    assert_eq!(slots, vec![Some(&text("anything")), Some(&text("long"))]);
}

#[test]
fn bind_refuses_a_member_under_both_names() {
    let value = json(r#"{"type": "map", "type_name": "map", "values": "long"}"#);
    assert_eq!(bind(Shape::MapOf, &value), Err(ShapeError::DuplicateField));
}

#[test]
fn bind_refuses_a_member_given_twice() {
    let value = JsonValue::Object(vec![
        ("type".to_string(), text("enum")),
        ("name".to_string(), text("E")),
        ("name".to_string(), text("F")),
        ("symbols".to_string(), JsonValue::Array(vec![])),
    ]);
    assert_eq!(bind(Shape::Enum, &value), Err(ShapeError::DuplicateField));
}

#[test]
fn bind_reports_a_missing_member() {
    assert_eq!(bind(Shape::Record, &json(r#"{"type": "record", "name": "R"}"#)), Err(ShapeError::MissingField));
    assert_eq!(bind(Shape::Record, &json(r#"{"type": "record", "fields": []}"#)), Err(ShapeError::MissingField));
    assert_eq!(bind(Shape::Enum, &json(r#"{"type": "enum", "name": "E"}"#)), Err(ShapeError::MissingField));
    assert_eq!(bind(Shape::Array, &json(r#"{"type": "array"}"#)), Err(ShapeError::MissingField));
    assert_eq!(bind(Shape::MapOf, &json(r#"{"type": "map"}"#)), Err(ShapeError::MissingField));
    assert_eq!(bind(Shape::Fixed, &json(r#"{"type": "fixed", "name": "F"}"#)), Err(ShapeError::MissingField));
    assert_eq!(bind(Shape::Field, &json(r#"{"name": "f"}"#)), Err(ShapeError::MissingField));
    assert_eq!(bind(Shape::Field, &json(r#"{}"#)), Err(ShapeError::MissingField));
}

#[test]
fn bind_reports_a_value_of_the_wrong_kind() {
    assert_eq!(bind(Shape::Record, &json(r#"{"type": "record", "name": 1, "fields": []}"#)), Err(ShapeError::InvalidType));
    assert_eq!(bind(Shape::Record, &json(r#"{"type": "record", "name": "R", "namespace": 1, "fields": []}"#)), Err(ShapeError::InvalidType));
    assert_eq!(bind(Shape::Record, &json(r#"{"type": "record", "name": "R", "fields": {}}"#)), Err(ShapeError::InvalidType));
    assert_eq!(bind(Shape::Enum, &json(r#"{"type": "enum", "name": "E", "symbols": ["A", null]}"#)), Err(ShapeError::InvalidType));
    assert_eq!(bind(Shape::Array, &json(r#"{"type": "array", "items": "string"}"#)), Err(ShapeError::InvalidType));
    assert_eq!(bind(Shape::Fixed, &json(r#"{"type": "fixed", "name": "F", "size": -16}"#)), Err(ShapeError::InvalidValue));
    assert_eq!(bind(Shape::Fixed, &json(r#"{"type": "fixed", "name": "F", "size": 1.5}"#)), Err(ShapeError::InvalidType));
}

#[test]
fn bind_accepts_a_null_namespace() {
    let value = json(r#"{"type": "record", "name": "R", "namespace": null, "fields": []}"#);
    let slots = bind(Shape::Record, &value).unwrap();
    assert_eq!(slots[2], Some(&JsonValue::Null));
}

#[test]
fn bind_reports_the_first_fault_in_the_order_of_the_members() {
    let fields_first = JsonValue::Object(vec![
        ("fields".to_string(), json("[{}]")),
        ("name".to_string(), JsonValue::Number(JsonNumber::Unsigned(5))),
        ("type".to_string(), text("record")),
    ]);
    assert_eq!(bind(Shape::Record, &fields_first), Err(ShapeError::MissingField));
    let name_first = JsonValue::Object(vec![
        ("name".to_string(), JsonValue::Number(JsonNumber::Unsigned(5))),
        ("fields".to_string(), json("[{}]")),
        ("type".to_string(), text("record")),
    ]);
    assert_eq!(bind(Shape::Record, &name_first), Err(ShapeError::InvalidType));
    assert_eq!(
        bind(Shape::Record, &json(r#"{"fields": [{}], "name": 5, "type": "record"}"#)),
        Err(ShapeError::MissingField)
    );
}

#[test]
fn bind_finds_a_duplicate_before_it_looks_at_the_value() {
    let value = JsonValue::Object(vec![
        ("type".to_string(), text("fixed")),
        ("size".to_string(), JsonValue::Number(JsonNumber::Unsigned(1))),
        ("size".to_string(), JsonValue::Number(JsonNumber::Negative(-1))),
        ("name".to_string(), text("F")),
    ]);
    assert_eq!(bind(Shape::Fixed, &value), Err(ShapeError::DuplicateField));
}

#[test]
fn bind_reports_a_fault_before_a_missing_member() {
    assert_eq!(bind(Shape::Fixed, &json(r#"{"type": "fixed", "size": -1}"#)), Err(ShapeError::InvalidValue));
}

#[test]
fn bind_takes_the_members_by_position() {
    let value = json(r#"["record", "R", null, []]"#);
    let slots = bind(Shape::Record, &value).unwrap();
    assert_eq!(
        slots,
        vec![
            Some(&text("record")),
            Some(&text("R")),
            Some(&JsonValue::Null),
            Some(&JsonValue::Array(vec![])),
        ]
    );
    let field = json(r#"[{"type": "map", "values": "int"}, "counts"]"#);
    let slots = bind(Shape::Field, &field).unwrap();
    assert_eq!(slots[0], Some(&json(r#"{"type": "map", "values": "int"}"#)));
    assert_eq!(slots[1], Some(&text("counts")));
}

#[test]
fn bind_by_position_wants_exactly_the_members() {
    assert_eq!(bind(Shape::Record, &json(r#"["record", "R", null]"#)), Err(ShapeError::InvalidLength));
    assert_eq!(bind(Shape::Record, &json(r#"[]"#)), Err(ShapeError::InvalidLength));
    assert_eq!(bind(Shape::Record, &json(r#"["record", "R", null, [], 1]"#)), Err(ShapeError::InvalidLength));
    assert_eq!(bind(Shape::Fixed, &json(r#"["fixed", 16, "F", "G"]"#)), Err(ShapeError::InvalidLength));
}

#[test]
fn bind_by_position_reports_the_first_fault() {
    assert_eq!(bind(Shape::Fixed, &json(r#"["fixed", -1]"#)), Err(ShapeError::InvalidValue));
    assert_eq!(bind(Shape::Fixed, &json(r#"[1, -1, "F"]"#)), Err(ShapeError::InvalidType));
    assert_eq!(bind(Shape::Fixed, &json(r#"["fixed", 1, 2, 3]"#)), Err(ShapeError::InvalidType));
}

#[test]
fn bind_refuses_a_value_that_is_neither_object_nor_array() {
    assert_eq!(bind(Shape::Record, &text("record")), Err(ShapeError::InvalidType));
    assert_eq!(bind(Shape::Enum, &JsonValue::Null), Err(ShapeError::InvalidType));
    assert_eq!(bind(Shape::Fixed, &JsonValue::Bool(true)), Err(ShapeError::InvalidType));
    assert_eq!(bind(Shape::MapOf, &JsonValue::Number(JsonNumber::Unsigned(1))), Err(ShapeError::InvalidType));
}
