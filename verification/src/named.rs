//! Reading the named shapes: a record, a record's field, an enumeration, an
//! array, a map and a fixed type, each from the JSON value that describes it.

use vstd::prelude::*;
use crate::json::{group_json_view, values_view, JsonModel, JsonNumber, JsonValue};
use crate::model::{
    fields_view, optional_text, Array, ArrayModel, Enum, EnumModel, Field, FieldModel, Fixed,
    FixedModel, MapModel, MapOf, Record, RecordModel,
};
use crate::shape::{bind, bound, slots_view, Shape, ShapeError};
use crate::text::texts;

verus! {

/// The value that a slot holds.
pub open spec fn slot_view(slot: Option<&JsonValue>) -> Option<JsonModel> {
    match slot {
        Some(value) => Some(value@),
        None => None,
    }
}

/// The text found in a slot; empty where the slot holds no string.
pub open spec fn text_in(slot: Option<JsonModel>) -> Seq<char> {
    match slot {
        Some(JsonModel::String(s)) => s,
        _ => Seq::empty(),
    }
}

/// The text found in a slot, where the slot holds a string.
pub open spec fn optional_text_in(slot: Option<JsonModel>) -> Option<Seq<char>> {
    match slot {
        Some(JsonModel::String(s)) => Some(s),
        _ => None,
    }
}

/// The value found in a slot; `null` where the slot is empty.
pub open spec fn value_in(slot: Option<JsonModel>) -> JsonModel {
    match slot {
        Some(value) => value,
        None => JsonModel::Null,
    }
}

/// The size found in a slot; 0 where the slot holds no non-negative integer.
pub open spec fn size_in(slot: Option<JsonModel>) -> u64 {
    match slot {
        Some(JsonModel::Number(JsonNumber::Unsigned(n))) => n,
        _ => 0,
    }
}

/// The items of the array found in a slot; none where the slot holds no array.
pub open spec fn values_in(slot: Option<JsonModel>) -> Seq<JsonModel> {
    match slot {
        Some(JsonModel::Array(items)) => items,
        _ => Seq::empty(),
    }
}

/// The texts of the array of strings found in a slot.
pub open spec fn texts_in(slot: Option<JsonModel>) -> Seq<Seq<char>> {
    Seq::new(values_in(slot).len(), |i: int| text_in(Some(values_in(slot)[i])))
}

/// The field that `value` describes.
pub open spec fn field_of(value: JsonModel) -> Result<FieldModel, ShapeError> {
    match bound(Shape::Field, value) {
        Err(e) => Err(e),
        Ok(slots) => Ok(FieldModel { descriptor: value_in(slots[0]), name: text_in(slots[1]) }),
    }
}

/// The field that `value` describes; a field without a name, of type `null`,
/// where it describes none.
pub open spec fn field_or_blank(value: JsonModel) -> FieldModel {
    match field_of(value) {
        Ok(field) => field,
        Err(_) => FieldModel { descriptor: JsonModel::Null, name: Seq::empty() },
    }
}

/// The fields that the array found in a slot describes.
pub open spec fn fields_in(slot: Option<JsonModel>) -> Seq<FieldModel> {
    Seq::new(values_in(slot).len(), |i: int| field_or_blank(values_in(slot)[i]))
}

/// The record that `value` describes.
pub open spec fn record_of(value: JsonModel) -> Result<RecordModel, ShapeError> {
    match bound(Shape::Record, value) {
        Err(e) => Err(e),
        Ok(slots) => Ok(
            RecordModel {
                type_tag: text_in(slots[0]),
                name: text_in(slots[1]),
                namespace: optional_text_in(slots[2]),
                fields: fields_in(slots[3]),
            },
        ),
    }
}

/// The enumeration that `value` describes.
pub open spec fn enum_of(value: JsonModel) -> Result<EnumModel, ShapeError> {
    match bound(Shape::Enum, value) {
        Err(e) => Err(e),
        Ok(slots) => Ok(
            EnumModel {
                type_tag: text_in(slots[0]),
                name: text_in(slots[1]),
                symbols: texts_in(slots[2]),
            },
        ),
    }
}

/// The array that `value` describes.
pub open spec fn array_of(value: JsonModel) -> Result<ArrayModel, ShapeError> {
    match bound(Shape::Array, value) {
        Err(e) => Err(e),
        Ok(slots) => Ok(ArrayModel { type_tag: text_in(slots[0]), items: values_in(slots[1]) }),
    }
}

/// The map that `value` describes.
pub open spec fn map_of(value: JsonModel) -> Result<MapModel, ShapeError> {
    match bound(Shape::MapOf, value) {
        Err(e) => Err(e),
        Ok(slots) => Ok(MapModel { type_tag: text_in(slots[0]), values: value_in(slots[1]) }),
    }
}

/// The fixed type that `value` describes.
pub open spec fn fixed_of(value: JsonModel) -> Result<FixedModel, ShapeError> {
    match bound(Shape::Fixed, value) {
        Err(e) => Err(e),
        Ok(slots) => Ok(
            FixedModel {
                type_tag: text_in(slots[0]),
                size: size_in(slots[1]),
                name: text_in(slots[2]),
            },
        ),
    }
}

/// The text found in a slot; empty where the slot holds no string.
fn read_text(slot: Option<&JsonValue>) -> (r: String)
    ensures
        r@ == text_in(slot_view(slot)),
{
    match slot {
        Some(JsonValue::String(s)) => s.clone(),
        _ => String::new(),
    }
}

/// The text found in a slot, where the slot holds a string.
fn read_optional_text(slot: Option<&JsonValue>) -> (r: Option<String>)
    ensures
        optional_text(r) == optional_text_in(slot_view(slot)),
{
    match slot {
        Some(JsonValue::String(s)) => Some(s.clone()),
        _ => None,
    }
}

/// The value found in a slot; `null` where the slot is empty.
fn read_value(slot: Option<&JsonValue>) -> (r: JsonValue)
    ensures
        r@ == value_in(slot_view(slot)),
{
    match slot {
        Some(value) => value.clone(),
        None => JsonValue::Null,
    }
}

/// The size found in a slot; 0 where the slot holds no non-negative integer.
fn read_size(slot: Option<&JsonValue>) -> (r: u64)
    ensures
        r == size_in(slot_view(slot)),
{
    match slot {
        Some(JsonValue::Number(JsonNumber::Unsigned(n))) => *n,
        _ => 0,
    }
}

/// The items of the array found in a slot; none where the slot holds no array.
fn read_values(slot: Option<&JsonValue>) -> (r: Vec<JsonValue>)
    ensures
        values_view(r@) == values_in(slot_view(slot)),
{
    broadcast use group_json_view;

    let mut out: Vec<JsonValue> = Vec::new();
    match slot {
        Some(JsonValue::Array(items)) => {
            let mut i: usize = 0;
            while i < items.len()
                invariant
                    i <= items.len(),
                    out.len() == i,
                    forall|k: int| 0 <= k < i ==> out[k]@ == items[k]@,
                decreases items.len() - i,
            {
                out.push(items[i].clone());
                i += 1;
            }
            assert(values_view(out@) =~= values_view(items@));
        },
        _ => {},
    }
    out
}

/// The texts of the array of strings found in a slot.
fn read_texts(slot: Option<&JsonValue>) -> (r: Vec<String>)
    ensures
        texts(r@) == texts_in(slot_view(slot)),
{
    broadcast use group_json_view;

    let mut out: Vec<String> = Vec::new();
    match slot {
        Some(JsonValue::Array(items)) => {
            let ghost all = values_view(items@);
            let mut i: usize = 0;
            while i < items.len()
                invariant
                    i <= items.len(),
                    out.len() == i,
                    all == values_view(items@),
                    forall|k: int| 0 <= k < i ==> out[k]@ == text_in(Some(all[k])),
                decreases items.len() - i,
            {
                broadcast use group_json_view;

                out.push(read_text(Some(&items[i])));
                i += 1;
            }
        },
        _ => {},
    }
    out
}

/// The field that `value` describes.
pub fn read_field(value: &JsonValue) -> (r: Result<Field, ShapeError>)
    ensures
        match field_of(value@) {
            Ok(field) => r matches Ok(found) && found@ == field,
            Err(e) => r matches Err(x) && x == e,
        },
{
    match bind(Shape::Field, value) {
        Err(e) => Err(e),
        Ok(slots) => Ok(Field { descriptor: read_value(slots[0]), name: read_text(slots[1]) }),
    }
}

/// The fields that the array found in a slot describes.
fn read_fields(slot: Option<&JsonValue>) -> (r: Vec<Field>)
    ensures
        fields_view(r@) == fields_in(slot_view(slot)),
{
    broadcast use group_json_view;

    let mut out: Vec<Field> = Vec::new();
    match slot {
        Some(JsonValue::Array(items)) => {
            let ghost all = values_view(items@);
            let mut i: usize = 0;
            while i < items.len()
                invariant
                    i <= items.len(),
                    out.len() == i,
                    all == values_view(items@),
                    forall|k: int| 0 <= k < i ==> out[k]@ == field_or_blank(all[k]),
                decreases items.len() - i,
            {
                broadcast use group_json_view;

                let field = match read_field(&items[i]) {
                    Ok(field) => field,
                    Err(_) => Field { descriptor: JsonValue::Null, name: String::new() },
                };
                out.push(field);
                i += 1;
            }
        },
        _ => {},
    }
    out
}

/// The record that `value` describes.
pub fn read_record(value: &JsonValue) -> (r: Result<Record, ShapeError>)
    ensures
        match record_of(value@) {
            Ok(record) => r matches Ok(found) && found@ == record,
            Err(e) => r matches Err(x) && x == e,
        },
{
    match bind(Shape::Record, value) {
        Err(e) => Err(e),
        Ok(slots) => Ok(
            Record {
                type_tag: read_text(slots[0]),
                name: read_text(slots[1]),
                namespace: read_optional_text(slots[2]),
                fields: read_fields(slots[3]),
            },
        ),
    }
}

/// The enumeration that `value` describes.
pub fn read_enum(value: &JsonValue) -> (r: Result<Enum, ShapeError>)
    ensures
        match enum_of(value@) {
            Ok(e) => r matches Ok(found) && found@ == e,
            Err(e) => r matches Err(x) && x == e,
        },
{
    match bind(Shape::Enum, value) {
        Err(e) => Err(e),
        Ok(slots) => Ok(
            Enum {
                type_tag: read_text(slots[0]),
                name: read_text(slots[1]),
                symbols: read_texts(slots[2]),
            },
        ),
    }
}

/// The array that `value` describes.
pub fn read_array(value: &JsonValue) -> (r: Result<Array, ShapeError>)
    ensures
        match array_of(value@) {
            Ok(array) => r matches Ok(found) && found@ == array,
            Err(e) => r matches Err(x) && x == e,
        },
{
    match bind(Shape::Array, value) {
        Err(e) => Err(e),
        Ok(slots) => Ok(Array { type_tag: read_text(slots[0]), items: read_values(slots[1]) }),
    }
}

/// The map that `value` describes.
pub fn read_map(value: &JsonValue) -> (r: Result<MapOf, ShapeError>)
    ensures
        match map_of(value@) {
            Ok(map) => r matches Ok(found) && found@ == map,
            Err(e) => r matches Err(x) && x == e,
        },
{
    match bind(Shape::MapOf, value) {
        Err(e) => Err(e),
        Ok(slots) => Ok(MapOf { type_tag: read_text(slots[0]), values: read_value(slots[1]) }),
    }
}

/// The fixed type that `value` describes.
pub fn read_fixed(value: &JsonValue) -> (r: Result<Fixed, ShapeError>)
    ensures
        match fixed_of(value@) {
            Ok(fixed) => r matches Ok(found) && found@ == fixed,
            Err(e) => r matches Err(x) && x == e,
        },
{
    match bind(Shape::Fixed, value) {
        Err(e) => Err(e),
        Ok(slots) => Ok(
            Fixed {
                type_tag: read_text(slots[0]),
                size: read_size(slots[1]),
                name: read_text(slots[2]),
            },
        ),
    }
}

} // verus!
