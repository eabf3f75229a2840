use avro_typescript::json::{JsonNumber, JsonValue};
use avro_typescript::reader::parse_document;

fn text(s: &str) -> JsonValue {
    JsonValue::String(s.to_string())
}

#[test]
fn get_finds_a_member_by_key() {
    let object = JsonValue::Object(vec![
        ("name".to_string(), text("User")),
        ("type".to_string(), text("record")),
    ]);
    assert_eq!(object.get("type"), Some(&text("record")));
    assert_eq!(object.get("name"), Some(&text("User")));
    assert_eq!(object.get("fields"), None);
    assert_eq!(object.get(""), None);
}

#[test]
fn get_takes_the_first_of_two_members_with_one_key() {
    let object = JsonValue::Object(vec![
        ("type".to_string(), text("first")),
        ("type".to_string(), text("second")),
    ]);
    assert_eq!(object.get("type"), Some(&text("first")));
}

#[test]
fn get_on_a_value_that_is_no_object_finds_nothing() {
    assert_eq!(text("type").get("type"), None);
    assert_eq!(JsonValue::Array(vec![text("type")]).get("type"), None);
    assert_eq!(JsonValue::Null.get("type"), None);
    assert_eq!(JsonValue::Object(vec![]).get("type"), None);
}

#[test]
fn as_str_gives_the_text_of_a_string_only() {
    assert_eq!(text("long").as_str(), Some("long"));
    assert_eq!(text("").as_str(), Some(""));
    assert_eq!(JsonValue::Null.as_str(), None);
    assert_eq!(JsonValue::Bool(true).as_str(), None);
    assert_eq!(JsonValue::Number(JsonNumber::Unsigned(1)).as_str(), None);
    assert_eq!(JsonValue::Array(vec![text("x")]).as_str(), None);
}

#[test]
fn clone_copies_the_whole_tree() {
    let value = JsonValue::Object(vec![
        (
            "items".to_string(),
            JsonValue::Array(vec![
                JsonValue::Null,
                JsonValue::Bool(false),
                JsonValue::Number(JsonNumber::Negative(-7)),
                JsonValue::Object(vec![("deep".to_string(), text("value"))]),
            ]),
        ),
        ("n".to_string(), JsonValue::Number(JsonNumber::Fraction)),
    ]);
    let copy = value.clone();
    assert_eq!(copy, value);
    assert_ne!(copy, JsonValue::Object(vec![]));
}

#[test]
fn document_members_come_sorted_by_key() {
    let value = parse_document(r#"{"type": "enum", "symbols": [], "name": "E"}"#).unwrap();
    match value {
        JsonValue::Object(members) => {
            let keys: Vec<&str> = members.iter().map(|m| m.0.as_str()).collect();
            assert_eq!(keys, vec!["name", "symbols", "type"]);
        }
        other => panic!("not an object: {:?}", other),
    }
}

#[test]
fn document_keeps_the_last_of_two_members_with_one_key() {
    let value = parse_document(r#"{"a": 1, "a": 2}"#).unwrap();
    assert_eq!(
        value,
        JsonValue::Object(vec![("a".to_string(), JsonValue::Number(JsonNumber::Unsigned(2)))])
    );
}

#[test]
fn document_numbers_are_told_apart() {
    let value = parse_document("[0, 18446744073709551615, -1, -9223372036854775808, 1.0, 1e2, 18446744073709551616]").unwrap();
    assert_eq!(
        value,
        JsonValue::Array(vec![
            JsonValue::Number(JsonNumber::Unsigned(0)),
            JsonValue::Number(JsonNumber::Unsigned(u64::MAX)),
            JsonValue::Number(JsonNumber::Negative(-1)),
            JsonValue::Number(JsonNumber::Negative(i64::MIN)),
            JsonValue::Number(JsonNumber::Fraction),
            JsonValue::Number(JsonNumber::Fraction),
            JsonValue::Number(JsonNumber::Fraction),
        ])
    );
}

#[test]
fn document_scalars_are_read() {
    assert_eq!(parse_document("null").unwrap(), JsonValue::Null);
    assert_eq!(parse_document(" true ").unwrap(), JsonValue::Bool(true));
    assert_eq!(parse_document(r#""a\nb""#).unwrap(), text("a\nb"));
    assert_eq!(parse_document("[]").unwrap(), JsonValue::Array(vec![]));
    assert_eq!(parse_document("{}").unwrap(), JsonValue::Object(vec![]));
}

#[test]
fn document_with_a_fault_gives_a_message() {
    let error = parse_document(r#"{"type": }"#).unwrap_err();
    assert!(!error.message.is_empty());
    assert!(parse_document("").is_err());
    assert!(parse_document("[1, 2").is_err());
    assert!(parse_document("{} {}").is_err());
}
