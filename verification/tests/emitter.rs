use avro_typescript::json::JsonValue;
use avro_typescript::model::{Enum, Field, MapOf, Record, Type};
use avro_typescript::reader::parse_document;
use avro_typescript::typescript_conversion::{
    convert_enum, convert_map, convert_record, convert_schema_to_typescript, convert_union,
    is_emittable, TypeScriptDecls,
};

fn json(text: &str) -> JsonValue {
    parse_document(text).unwrap()
}

fn schema(text: &str) -> Type {
    Type::try_from(&json(text)).unwrap()
}

fn no_decls() -> TypeScriptDecls {
    TypeScriptDecls { interfaces: vec![], enumerations: vec![] }
}

fn field(name: &str, descriptor: &str) -> Field {
    Field { descriptor: json(descriptor), name: name.to_string() }
}

fn record(name: &str, fields: Vec<Field>) -> Record {
    Record { type_tag: "record".to_string(), name: name.to_string(), namespace: None, fields }
}

#[test]
fn primitives_have_their_tokens() {
    let cases = [
        (Type::Boolean, "boolean"),
        (Type::Bytes, "UInt8Array"),
        (Type::Double, "number"),
        (Type::Float, "number"),
        (Type::Int, "number"),
        (Type::Long, "number"),
        (Type::Null, "null"),
        (Type::String, "string"),
    ];
    for (t, token) in cases {
        let mut decls = no_decls();
        assert!(is_emittable(&t));
        assert_eq!(convert_schema_to_typescript(t, &mut decls), token);
        assert!(decls.interfaces.is_empty());
        assert!(decls.enumerations.is_empty());
    }
}

#[test]
fn an_enum_has_one_line_for_each_symbol() {
    let e = Enum {
        type_tag: "enum".to_string(),
        name: "State".to_string(),
        symbols: vec!["AP_ASSOC".to_string(), "UNREACHABLE".to_string()],
    };
    let text = convert_enum(e);
    assert_eq!(
        text,
        "export enum State{ \n\tAP_ASSOC = \"AP_ASSOC\",\n\tUNREACHABLE = \"UNREACHABLE\" \n}"
    );
    let lines: Vec<&str> = text.lines().collect();
    assert_eq!(lines[1], "\tAP_ASSOC = \"AP_ASSOC\",");
    assert_eq!(lines[2], "\tUNREACHABLE = \"UNREACHABLE\" ");
    assert_eq!(lines.len(), 4);
}

#[test]
fn an_enum_with_one_symbol_and_with_none() {
    let one = Enum { type_tag: "enum".to_string(), name: "One".to_string(), symbols: vec!["A".to_string()] };
    assert_eq!(convert_enum(one), "export enum One{ \n\tA = \"A\" \n}");
    let none = Enum { type_tag: "enum".to_string(), name: "None".to_string(), symbols: vec![] };
    assert_eq!(convert_enum(none), "export enum None{ \n \n}");
}

#[test]
fn an_enum_keeps_the_order_and_the_text_of_its_symbols() {
    let e = Enum {
        type_tag: "enum".to_string(),
        name: "E".to_string(),
        symbols: vec!["b".to_string(), "a".to_string(), "b".to_string(), "with space".to_string()],
    };
    assert_eq!(
        convert_enum(e),
        "export enum E{ \n\tb = \"b\",\n\ta = \"a\",\n\tb = \"b\",\n\twith space = \"with space\" \n}"
    );
}

#[test]
fn an_enum_is_registered_and_referred_to_by_name() {
    let mut decls = no_decls();
    let token = convert_schema_to_typescript(
        schema(r#"{"type": "enum", "name": "Suit", "symbols": ["SPADES"]}"#),
        &mut decls,
    );
    assert_eq!(token, "Suit");
    assert!(decls.interfaces.is_empty());
    assert_eq!(decls.enumerations, vec!["export enum Suit{ \n\tSPADES = \"SPADES\" \n}".to_string()]);
}

#[test]
fn a_union_of_null_and_double_is_rendered_in_place() {
    let mut decls = no_decls();
    let token = convert_schema_to_typescript(schema(r#"["null", "double"]"#), &mut decls);
    assert_eq!(token, "null | number");
    assert!(decls.interfaces.is_empty());
    assert!(decls.enumerations.is_empty());
}

#[test]
fn a_union_joins_its_alternatives_in_order() {
    let mut decls = no_decls();
    assert_eq!(
        convert_union(vec![Type::String, Type::Boolean, Type::Bytes, Type::String], &mut decls),
        "string | boolean | UInt8Array | string"
    );
    assert_eq!(convert_union(vec![Type::Long], &mut decls), "number");
    assert_eq!(convert_union(vec![], &mut decls), "");
    assert!(decls.interfaces.is_empty());
    assert!(decls.enumerations.is_empty());
}

#[test]
fn a_union_registers_what_its_alternatives_declare() {
    let mut decls = no_decls();
    let token = convert_schema_to_typescript(
        schema(
            r#"["null",
                {"type": "record", "name": "A", "fields": []},
                {"type": "enum", "name": "E", "symbols": []},
                {"type": "record", "name": "B", "fields": []}]"#,
        ),
        &mut decls,
    );
    assert_eq!(token, "null | A | E | B");
    assert_eq!(
        decls.interfaces,
        vec!["export interface A { \n \n}".to_string(), "export interface B { \n \n}".to_string()]
    );
    assert_eq!(decls.enumerations, vec!["export enum E{ \n \n}".to_string()]);
}

#[test]
fn a_map_of_strings_is_an_index_signature() {
    let mut decls = no_decls();
    let token = convert_schema_to_typescript(schema(r#"{"type": "map", "values": "string"}"#), &mut decls);
    assert_eq!(token, "{ [index:string]: string }");
    assert!(decls.interfaces.is_empty());
    assert!(decls.enumerations.is_empty());
}

#[test]
fn a_map_whose_values_denote_no_type_is_a_map_of_null() {
    let mut decls = no_decls();
    let m = MapOf { type_tag: "map".to_string(), values: json("12") };
    assert_eq!(convert_map(m, &mut decls), "{ [index:string]: null }");
    let m = MapOf { type_tag: "map".to_string(), values: json(r#""Unknown""#) };
    assert_eq!(convert_map(m, &mut decls), "{ [index:string]: null }");
}

#[test]
fn a_map_registers_what_its_values_declare() {
    let mut decls = no_decls();
    let m = MapOf {
        type_tag: "map".to_string(),
        values: json(r#"{"type": "record", "name": "Entry", "fields": [{"name": "n", "type": "int"}]}"#),
    };
    assert_eq!(convert_map(m, &mut decls), "{ [index:string]: Entry }");
    assert_eq!(decls.interfaces, vec!["export interface Entry { \n\tn: number;\n \n}".to_string()]);
    let nested = schema(r#"{"type": "map", "values": {"type": "map", "values": ["null", "long"]}}"#);
    assert_eq!(
        convert_schema_to_typescript(nested, &mut decls),
        "{ [index:string]: { [index:string]: null | number } }"
    );
    assert_eq!(decls.interfaces.len(), 1);
}

#[test]
fn a_record_of_primitives_registers_one_interface() {
    let mut decls = no_decls();
    let r = record(
        "Point",
        vec![field("x", r#""double""#), field("y", r#""double""#), field("label", r#"{"type": "string"}"#)],
    );
    let token = convert_schema_to_typescript(Type::Record(Box::new(r)), &mut decls);
    assert_eq!(token, "Point");
    assert_eq!(
        decls.interfaces,
        vec!["export interface Point { \n\tx: number;\n\ty: number;\n\tlabel: string;\n \n}".to_string()]
    );
    assert!(decls.enumerations.is_empty());
}

#[test]
fn convert_record_gives_the_declaration_and_registers_only_what_is_nested() {
    let mut decls = no_decls();
    let r = record("Point", vec![field("x", r#""int""#)]);
    assert_eq!(convert_record(r, &mut decls), "export interface Point { \n\tx: number;\n \n}");
    assert!(decls.interfaces.is_empty());
    assert!(decls.enumerations.is_empty());
    let empty = record("Empty", vec![]);
    assert_eq!(convert_record(empty, &mut decls), "export interface Empty { \n \n}");
}

#[test]
fn a_record_with_an_enum_field_registers_both() {
    let mut decls = no_decls();
    let token = convert_schema_to_typescript(
        schema(
            r#"{"type": "record", "name": "Event", "fields": [
                {"name": "id", "type": "long"},
                {"name": "state", "type": {"type": "enum", "name": "State", "symbols": ["AP_ASSOC", "UNREACHABLE"]}},
                {"name": "note", "type": "string"}
            ]}"#,
        ),
        &mut decls,
    );
    assert_eq!(token, "Event");
    assert_eq!(
        decls.enumerations,
        vec!["export enum State{ \n\tAP_ASSOC = \"AP_ASSOC\",\n\tUNREACHABLE = \"UNREACHABLE\" \n}".to_string()]
    );
    assert_eq!(
        decls.interfaces,
        vec!["export interface Event { \n\tid: number;\n\tstate: State;\n\tnote: string;\n \n}".to_string()]
    );
}

#[test]
fn nested_records_are_registered_before_the_record_that_holds_them() {
    let mut decls = no_decls();
    let token = convert_schema_to_typescript(
        schema(
            r#"{"type": "record", "name": "Outer", "fields": [
                {"name": "first", "type": {"type": "record", "name": "Inner", "fields": [
                    {"name": "leaf", "type": {"type": "record", "name": "Leaf", "fields": []}}
                ]}},
                {"name": "second", "type": {"type": "record", "name": "Other", "fields": []}}
            ]}"#,
        ),
        &mut decls,
    );
    assert_eq!(token, "Outer");
    assert_eq!(
        decls.interfaces,
        vec![
            "export interface Leaf { \n \n}".to_string(),
            "export interface Inner { \n\tleaf: Leaf;\n \n}".to_string(),
            "export interface Other { \n \n}".to_string(),
            "export interface Outer { \n\tfirst: Inner;\n\tsecond: Other;\n \n}".to_string(),
        ]
    );
}

#[test]
fn a_type_met_twice_is_registered_twice() {
    let mut decls = no_decls();
    convert_schema_to_typescript(
        schema(
            r#"{"type": "record", "name": "Pair", "fields": [
                {"name": "a", "type": {"type": "enum", "name": "E", "symbols": ["X"]}},
                {"name": "b", "type": {"type": "enum", "name": "E", "symbols": ["X"]}}
            ]}"#,
        ),
        &mut decls,
    );
    assert_eq!(decls.enumerations.len(), 2);
    assert_eq!(decls.enumerations[0], decls.enumerations[1]);
}

#[test]
fn a_field_that_denotes_no_type_is_left_out() {
    let mut with_bad = no_decls();
    let bad = record(
        "R",
        vec![
            field("a", r#""int""#),
            field("broken", "17"),
            field("unknown", r#""Missing""#),
            field("malformed", r#"{"type": "record"}"#),
            field("b", r#""string""#),
        ],
    );
    let mut without = no_decls();
    let good = record("R", vec![field("a", r#""int""#), field("b", r#""string""#)]);
    assert_eq!(convert_record(bad, &mut with_bad), "export interface R { \n\ta: number;\n\tb: string;\n \n}");
    assert_eq!(convert_record(good, &mut without), "export interface R { \n\ta: number;\n\tb: string;\n \n}");
    assert_eq!(with_bad.interfaces, without.interfaces);
    assert_eq!(with_bad.enumerations, without.enumerations);
}

#[test]
fn a_name_used_as_a_type_is_not_looked_up() {
    let mut decls = no_decls();
    let token = convert_schema_to_typescript(
        schema(
            r#"{"type": "record", "name": "Node", "fields": [
                {"name": "value", "type": "long"},
                {"name": "next", "type": "Node"}
            ]}"#,
        ),
        &mut decls,
    );
    assert_eq!(token, "Node");
    assert_eq!(decls.interfaces, vec!["export interface Node { \n\tvalue: number;\n \n}".to_string()]);
}

#[test]
fn declarations_are_added_after_those_already_gathered() {
    let mut decls = TypeScriptDecls {
        interfaces: vec!["first".to_string()],
        enumerations: vec!["one".to_string(), "two".to_string()],
    };
    convert_schema_to_typescript(
        schema(
            r#"{"type": "record", "name": "R", "fields": [
                {"name": "e", "type": {"type": "enum", "name": "E", "symbols": []}}
            ]}"#,
        ),
        &mut decls,
    );
    assert_eq!(
        decls.interfaces,
        vec!["first".to_string(), "export interface R { \n\te: E;\n \n}".to_string()]
    );
    assert_eq!(
        decls.enumerations,
        vec!["one".to_string(), "two".to_string(), "export enum E{ \n \n}".to_string()]
    );
}

#[test]
fn arrays_and_fixed_types_cannot_be_walked() {
    assert!(!is_emittable(&schema(r#"{"type": "array", "items": []}"#)));
    assert!(!is_emittable(&schema(r#"{"type": "fixed", "name": "F", "size": 4}"#)));
    assert!(!is_emittable(&schema(r#"["null", {"type": "fixed", "name": "F", "size": 4}]"#)));
    assert!(!is_emittable(&schema(r#"{"type": "map", "values": {"type": "array", "items": []}}"#)));
    assert!(!is_emittable(&schema(
        r#"{"type": "record", "name": "R", "fields": [
            {"name": "ok", "type": "int"},
            {"name": "list", "type": {"type": "array", "items": ["string"]}}
        ]}"#
    )));
    assert!(!is_emittable(&schema(
        r#"{"type": "record", "name": "R", "fields": [
            {"name": "deep", "type": ["null", {"type": "map", "values": {"type": "fixed", "name": "F", "size": 1}}]}
        ]}"#
    )));
}

#[test]
fn everything_else_can_be_walked() {
    assert!(is_emittable(&schema(r#"[]"#)));
    assert!(is_emittable(&schema(r#"{"type": "map", "values": 3}"#)));
    assert!(is_emittable(&schema(r#"{"type": "enum", "name": "E", "symbols": []}"#)));
    assert!(is_emittable(&schema(
        r#"{"type": "record", "name": "R", "fields": [
            {"name": "skipped", "type": {"type": "array"}},
            {"name": "m", "type": {"type": "map", "values": ["null", "int"]}}
        ]}"#
    )));
}
