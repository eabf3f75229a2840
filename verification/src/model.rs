//! The schema model: the typed nodes of a schema, and how a JSON value is
//! read as one of them.

use vstd::prelude::*;
use crate::json::{group_json_view, member, values_view, JsonModel, JsonValue};
use crate::named::{
    array_of, enum_of, fixed_of, map_of, read_array, read_enum, read_fixed, read_map, read_record,
    record_of,
};
use crate::shape::ShapeError;
use crate::text::{str_eq, texts};

verus! {

/// Why a JSON value is not a schema.
#[derive(Clone, Copy, Debug, PartialEq, Eq)]
pub enum SchemaError {
    /// An object has no member `type` that is a string.
    MissingTypeKey,
    /// The `type` of an object names neither a shape nor a primitive.
    UnknownType,
    /// A string names no primitive.
    UnknownPrimitive,
    /// An object names a shape that it does not have.
    MalformedNamedType(ShapeError),
    /// The value is `null`, a boolean or a number.
    InvalidSchemaShape,
}

/// One node of a schema.
#[derive(Debug, PartialEq, Eq)]
pub enum Type {
    Null,
    String,
    Boolean,
    Int,
    Long,
    Float,
    Double,
    Bytes,
    Record(Box<Record>),
    Enum(Enum),
    Union(Vec<Type>),
    Array(Array),
    MapOf(Box<MapOf>),
    Fixed(Fixed),
}

/// A record: a name and fields, in order.
#[derive(Debug, PartialEq, Eq)]
pub struct Record {
    pub type_tag: String,
    pub name: String,
    pub namespace: Option<String>,
    pub fields: Vec<Field>,
}

/// A field of a record. Its type is kept as it was written and read only
/// when the field is visited.
#[derive(Debug, PartialEq, Eq)]
pub struct Field {
    pub descriptor: JsonValue,
    pub name: String,
}

/// An enumeration: a name and symbols, in order.
#[derive(Debug, PartialEq, Eq)]
pub struct Enum {
    pub type_tag: String,
    pub name: String,
    pub symbols: Vec<String>,
}

/// An array; the types of its items are kept as they were written.
#[derive(Debug, PartialEq, Eq)]
pub struct Array {
    pub type_tag: String,
    pub items: Vec<JsonValue>,
}

/// A map from strings; the type of its values is kept as it was written.
#[derive(Debug, PartialEq, Eq)]
pub struct MapOf {
    pub type_tag: String,
    pub values: JsonValue,
}

/// A blob of a fixed number of bytes.
#[derive(Debug, PartialEq, Eq)]
pub struct Fixed {
    pub type_tag: String,
    pub size: u64,
    pub name: String,
}

/// The mathematical value of a [`Field`].
pub struct FieldModel {
    pub descriptor: JsonModel,
    pub name: Seq<char>,
}

/// The mathematical value of a [`Record`].
pub struct RecordModel {
    pub type_tag: Seq<char>,
    pub name: Seq<char>,
    pub namespace: Option<Seq<char>>,
    pub fields: Seq<FieldModel>,
}

/// The mathematical value of an [`Enum`].
pub struct EnumModel {
    pub type_tag: Seq<char>,
    pub name: Seq<char>,
    pub symbols: Seq<Seq<char>>,
}

/// The mathematical value of an [`Array`].
pub struct ArrayModel {
    pub type_tag: Seq<char>,
    pub items: Seq<JsonModel>,
}

/// The mathematical value of a [`MapOf`].
pub struct MapModel {
    pub type_tag: Seq<char>,
    pub values: JsonModel,
}

/// The mathematical value of a [`Fixed`].
pub struct FixedModel {
    pub type_tag: Seq<char>,
    pub size: u64,
    pub name: Seq<char>,
}

/// The mathematical value of a [`Type`].
pub enum TypeModel {
    Null,
    String,
    Boolean,
    Int,
    Long,
    Float,
    Double,
    Bytes,
    Record(RecordModel),
    Enum(EnumModel),
    Union(Seq<TypeModel>),
    Array(ArrayModel),
    MapOf(MapModel),
    Fixed(FixedModel),
}

impl View for Field {
    type V = FieldModel;

    open spec fn view(&self) -> FieldModel {
        FieldModel { descriptor: self.descriptor@, name: self.name@ }
    }
}

/// The values of `fields`, in order.
pub open spec fn fields_view(fields: Seq<Field>) -> Seq<FieldModel> {
    Seq::new(fields.len(), |i: int| fields[i]@)
}

/// The text of `text` where there is one.
pub open spec fn optional_text(text: Option<String>) -> Option<Seq<char>> {
    match text {
        Some(s) => Some(s@),
        None => None,
    }
}

impl View for Record {
    type V = RecordModel;

    open spec fn view(&self) -> RecordModel {
        RecordModel {
            type_tag: self.type_tag@,
            name: self.name@,
            namespace: optional_text(self.namespace),
            fields: fields_view(self.fields@),
        }
    }
}

impl View for Enum {
    type V = EnumModel;

    open spec fn view(&self) -> EnumModel {
        EnumModel { type_tag: self.type_tag@, name: self.name@, symbols: texts(self.symbols@) }
    }
}

impl View for Array {
    type V = ArrayModel;

    open spec fn view(&self) -> ArrayModel {
        ArrayModel { type_tag: self.type_tag@, items: values_view(self.items@) }
    }
}

impl View for MapOf {
    type V = MapModel;

    open spec fn view(&self) -> MapModel {
        MapModel { type_tag: self.type_tag@, values: self.values@ }
    }
}

impl View for Fixed {
    type V = FixedModel;

    open spec fn view(&self) -> FixedModel {
        FixedModel { type_tag: self.type_tag@, size: self.size, name: self.name@ }
    }
}

impl View for Type {
    type V = TypeModel;

    open spec fn view(&self) -> TypeModel
        decreases self,
    {
        match self {
            Type::Null => TypeModel::Null,
            Type::String => TypeModel::String,
            Type::Boolean => TypeModel::Boolean,
            Type::Int => TypeModel::Int,
            Type::Long => TypeModel::Long,
            Type::Float => TypeModel::Float,
            Type::Double => TypeModel::Double,
            Type::Bytes => TypeModel::Bytes,
            Type::Record(record) => TypeModel::Record(record@),
            Type::Enum(e) => TypeModel::Enum(e@),
            Type::Union(alternatives) => TypeModel::Union(types_view(alternatives@)),
            Type::Array(array) => TypeModel::Array(array@),
            Type::MapOf(map) => TypeModel::MapOf(map@),
            Type::Fixed(fixed) => TypeModel::Fixed(fixed@),
        }
    }
}

/// The values of `types`, in order.
pub open spec fn types_view(types: Seq<Type>) -> Seq<TypeModel>
    decreases types,
{
    if types.len() == 0 {
        Seq::empty()
    } else {
        types_view(types.drop_last()).push(types.last()@)
    }
}

/// `types_view` keeps the length and maps type by type.
pub broadcast proof fn lemma_types_view(types: Seq<Type>)
    ensures
        (#[trigger] types_view(types)).len() == types.len(),
        forall|i: int| 0 <= i < types.len() ==> types_view(types)[i] == types[i]@,
    decreases types.len(),
{
    if types.len() > 0 {
        lemma_types_view(types.drop_last());
        assert(types_view(types) == types_view(types.drop_last()).push(types.last()@));
    }
}

/// The primitive type that `name` names.
pub open spec fn primitive_named(name: Seq<char>) -> Option<TypeModel> {
    if name == "string"@ {
        Some(TypeModel::String)
    } else if name == "null"@ {
        Some(TypeModel::Null)
    } else if name == "boolean"@ {
        Some(TypeModel::Boolean)
    } else if name == "int"@ {
        Some(TypeModel::Int)
    } else if name == "long"@ {
        Some(TypeModel::Long)
    } else if name == "float"@ {
        Some(TypeModel::Float)
    } else if name == "double"@ {
        Some(TypeModel::Double)
    } else if name == "bytes"@ {
        Some(TypeModel::Bytes)
    } else {
        None
    }
}

/// The type that the bare name `name` denotes: a primitive, or nothing.
pub open spec fn primitive_type_of(name: Seq<char>) -> Result<TypeModel, SchemaError> {
    match primitive_named(name) {
        Some(t) => Ok(t),
        None => Err(SchemaError::UnknownPrimitive),
    }
}

/// The type that `value` denotes under the type name `name`. The names of the
/// five shapes ask `value` to have that shape; the names of the primitives ask
/// nothing of it.
pub open spec fn named_type_of(name: Seq<char>, value: JsonModel) -> Result<
    TypeModel,
    SchemaError,
> {
    if name == "record"@ {
        match record_of(value) {
            Ok(record) => Ok(TypeModel::Record(record)),
            Err(e) => Err(SchemaError::MalformedNamedType(e)),
        }
    } else if name == "enum"@ {
        match enum_of(value) {
            Ok(e) => Ok(TypeModel::Enum(e)),
            Err(e) => Err(SchemaError::MalformedNamedType(e)),
        }
    } else if name == "array"@ {
        match array_of(value) {
            Ok(array) => Ok(TypeModel::Array(array)),
            Err(e) => Err(SchemaError::MalformedNamedType(e)),
        }
    } else if name == "map"@ {
        match map_of(value) {
            Ok(map) => Ok(TypeModel::MapOf(map)),
            Err(e) => Err(SchemaError::MalformedNamedType(e)),
        }
    } else if name == "fixed"@ {
        match fixed_of(value) {
            Ok(fixed) => Ok(TypeModel::Fixed(fixed)),
            Err(e) => Err(SchemaError::MalformedNamedType(e)),
        }
    } else {
        match primitive_named(name) {
            Some(t) => Ok(t),
            None => Err(SchemaError::UnknownType),
        }
    }
}

/// The type name of an object: the text of its member `type`, where it has
/// one and that is a string.
pub open spec fn type_name_of(value: JsonModel) -> Option<Seq<char>> {
    match value.get("type"@) {
        Some(found) => found.as_str(),
        None => None,
    }
}

/// The type that `value` denotes.
///
/// An object denotes what its member `type`, a string, names. An array
/// denotes the union of what its items denote; an item that denotes nothing
/// is left out. A string names a primitive. No other value denotes a type.
pub open spec fn type_of(value: JsonModel) -> Result<TypeModel, SchemaError>
    decreases value, 0nat,
{
    match value {
        JsonModel::Object(_) => match type_name_of(value) {
            Some(name) => named_type_of(name, value),
            None => Err(SchemaError::MissingTypeKey),
        },
        JsonModel::Array(items) => Ok(TypeModel::Union(alternatives(items, items.len()))),
        JsonModel::String(name) => primitive_type_of(name),
        _ => Err(SchemaError::InvalidSchemaShape),
    }
}

/// The types that the first `n` of `items` denote, in order, without those
/// that denote none.
pub open spec fn alternatives(items: Seq<JsonModel>, n: nat) -> Seq<TypeModel>
    decreases items, n,
{
    if n == 0 || n > items.len() {
        Seq::empty()
    } else {
        let before = alternatives(items, (n - 1) as nat);
        match type_of(items[n - 1]) {
            Ok(t) => before.push(t),
            Err(_) => before,
        }
    }
}

/// The value of a type that was read, or the error.
pub open spec fn read_view(r: Result<Type, SchemaError>) -> Result<TypeModel, SchemaError> {
    match r {
        Ok(t) => Ok(t@),
        Err(e) => Err(e),
    }
}

/// The primitive type that the bare name `name` denotes.
pub fn primitive_type_name_to_type(name: &str) -> (r: Result<Type, SchemaError>)
    ensures
        read_view(r) == primitive_type_of(name@),
{
    if str_eq(name, "string") {
        Ok(Type::String)
    } else if str_eq(name, "null") {
        Ok(Type::Null)
    } else if str_eq(name, "boolean") {
        Ok(Type::Boolean)
    } else if str_eq(name, "int") {
        Ok(Type::Int)
    } else if str_eq(name, "long") {
        Ok(Type::Long)
    } else if str_eq(name, "float") {
        Ok(Type::Float)
    } else if str_eq(name, "double") {
        Ok(Type::Double)
    } else if str_eq(name, "bytes") {
        Ok(Type::Bytes)
    } else {
        Err(SchemaError::UnknownPrimitive)
    }
}

/// The type that `value` denotes under the type name `name`.
pub fn type_name_to_type(name: &str, value: &JsonValue) -> (r: Result<Type, SchemaError>)
    ensures
        read_view(r) == named_type_of(name@, value@),
{
    if str_eq(name, "record") {
        match read_record(value) {
            Ok(record) => Ok(Type::Record(Box::new(record))),
            Err(e) => Err(SchemaError::MalformedNamedType(e)),
        }
    } else if str_eq(name, "enum") {
        match read_enum(value) {
            Ok(e) => Ok(Type::Enum(e)),
            Err(e) => Err(SchemaError::MalformedNamedType(e)),
        }
    } else if str_eq(name, "array") {
        match read_array(value) {
            Ok(array) => Ok(Type::Array(array)),
            Err(e) => Err(SchemaError::MalformedNamedType(e)),
        }
    } else if str_eq(name, "map") {
        match read_map(value) {
            Ok(map) => Ok(Type::MapOf(Box::new(map))),
            Err(e) => Err(SchemaError::MalformedNamedType(e)),
        }
    } else if str_eq(name, "fixed") {
        match read_fixed(value) {
            Ok(fixed) => Ok(Type::Fixed(fixed)),
            Err(e) => Err(SchemaError::MalformedNamedType(e)),
        }
    } else {
        match primitive_type_name_to_type(name) {
            Ok(t) => Ok(t),
            Err(_) => Err(SchemaError::UnknownType),
        }
    }
}

impl Type {
    /// The type that `value` denotes.
    #[verifier::loop_isolation(false)]
    pub fn try_from(value: &JsonValue) -> (r: Result<Type, SchemaError>)
        ensures
            read_view(r) == type_of(value@),
        decreases value,
    {
        broadcast use group_json_view;

        match value {
            JsonValue::Object(_) => {
                let name = match value.get("type") {
                    Some(found) => found.as_str(),
                    None => None,
                };
                match name {
                    Some(name) => type_name_to_type(name, value),
                    None => Err(SchemaError::MissingTypeKey),
                }
            },
            JsonValue::Array(items) => {
                let ghost all = values_view(items@);
                let mut found: Vec<Type> = Vec::new();
                let mut i: usize = 0;
                while i < items.len()
                    invariant
                        i <= items.len(),
                        all == values_view(items@),
                        types_view(found@) == alternatives(all, i as nat),
                    decreases items.len() - i,
                {
                    broadcast use group_json_view;
                    broadcast use lemma_types_view;

                    match Type::try_from(&items[i]) {
                        Ok(t) => found.push(t),
                        Err(_) => {},
                    }
                    i += 1;
                }
                Ok(Type::Union(found))
            },
            JsonValue::String(name) => primitive_type_name_to_type(name.as_str()),
            _ => Err(SchemaError::InvalidSchemaShape),
        }
    }
}

/// A name of a primitive is none of the names of the five shapes.
pub proof fn lemma_primitive_names_no_shape(name: Seq<char>)
    requires
        primitive_named(name) is Some,
    ensures
        name != "record"@,
        name != "enum"@,
        name != "array"@,
        name != "map"@,
        name != "fixed"@,
{
    reveal_strlit("string");
    reveal_strlit("null");
    reveal_strlit("boolean");
    reveal_strlit("int");
    reveal_strlit("long");
    reveal_strlit("float");
    reveal_strlit("double");
    reveal_strlit("bytes");
    reveal_strlit("record");
    reveal_strlit("enum");
    reveal_strlit("array");
    reveal_strlit("map");
    reveal_strlit("fixed");
    assert("record"@[0] == 'r' && "enum"@[0] == 'e' && "array"@[0] == 'a' && "map"@[0] == 'm');
    assert("fixed"@[0] == 'f' && "fixed"@[1] == 'i');
}

/// The name of a primitive denotes the same type as a bare string and as the
/// `type` of an object, whatever else the object holds.
pub proof fn lemma_primitive_in_object(name: Seq<char>, document: JsonModel)
    requires
        primitive_named(name) is Some,
        document is Object,
        type_name_of(document) == Some(name),
    ensures
        type_of(document) == type_of(JsonModel::String(name)),
        type_of(document) == Ok::<TypeModel, SchemaError>(primitive_named(name)->Some_0),
{
    lemma_primitive_names_no_shape(name);
}

/// The name of a primitive denotes the same type as a bare string and as the
/// only member, `type`, of an object.
pub proof fn lemma_primitive_keyword_forms(name: Seq<char>)
    requires
        primitive_named(name) is Some,
    ensures
        type_of(JsonModel::Object(seq![("type"@, JsonModel::String(name))])) == type_of(
            JsonModel::String(name),
        ),
{
    let members = seq![("type"@, JsonModel::String(name))];
    lemma_primitive_in_object(name, JsonModel::Object(members));
}

} // verus!
