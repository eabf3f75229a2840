//! What holds of the walk of a record: which declarations it registers, in
//! which order, and what a field that cannot be read does to it.

use vstd::prelude::*;
use crate::model::{type_of, EnumModel, FieldModel, RecordModel, SchemaError, TypeModel};
use crate::text::concat;
use crate::typescript_conversion::{
    emitted, enum_text, field_line, fields_emitted, interface_text, primitive_token, symbol_lines,
    Emitted, Walk,
};

verus! {

/// Whether `t` is one of the eight primitive types.
pub open spec fn is_primitive(t: TypeModel) -> bool {
    !(t is Record || t is Enum || t is Union || t is Array || t is MapOf || t is Fixed)
}

/// The expression for a type that is a primitive or an enumeration.
pub open spec fn flat_token(t: TypeModel) -> Seq<char> {
    match t {
        TypeModel::Enum(e) => e.name,
        _ => primitive_token(t),
    }
}

/// Whether the descriptor of each of `fields` denotes a primitive or an
/// enumeration.
pub open spec fn all_flat(fields: Seq<FieldModel>) -> bool {
    forall|i: int|
        0 <= i < fields.len() ==> (type_of((#[trigger] fields[i]).descriptor) matches Ok(t)
            && (is_primitive(t) || t is Enum))
}

/// Whether the descriptor of each of `fields` denotes a primitive.
pub open spec fn all_primitive(fields: Seq<FieldModel>) -> bool {
    forall|i: int|
        0 <= i < fields.len() ==> (type_of((#[trigger] fields[i]).descriptor) matches Ok(t)
            && is_primitive(t))
}

/// The line of each of `fields`, in order, where each denotes a primitive or
/// an enumeration.
pub open spec fn flat_lines(fields: Seq<FieldModel>) -> Seq<Seq<char>> {
    Seq::new(
        fields.len(),
        |i: int| field_line(fields[i].name, flat_token(type_of(fields[i].descriptor)->Ok_0)),
    )
}

/// The declarations of the enumerations among the first `n` of `fields`, in
/// order.
pub open spec fn field_enums(fields: Seq<FieldModel>, n: nat) -> Seq<Seq<char>>
    decreases n,
{
    if n == 0 || n > fields.len() {
        Seq::empty()
    } else {
        let before = field_enums(fields, (n - 1) as nat);
        match type_of(fields[n - 1].descriptor) {
            Ok(TypeModel::Enum(e)) => before.push(enum_text(e)),
            _ => before,
        }
    }
}

/// An enumeration is rendered with one line for each symbol, in the order of
/// the symbols, each line assigning the symbol its own text; the walk
/// registers that declaration and nothing else, and refers to it by name.
pub proof fn lemma_enum_emitted(e: EnumModel)
    ensures
        symbol_lines(e.symbols).len() == e.symbols.len(),
        forall|i: int|
            0 <= i < e.symbols.len() ==> symbol_lines(e.symbols)[i] == "\t"@ + e.symbols[i]
                + " = \""@ + e.symbols[i] + "\""@,
        emitted(TypeModel::Enum(e)) == Some(
            Emitted {
                token: e.name,
                interfaces: Seq::empty(),
                enumerations: seq![enum_text(e)],
            },
        ),
{
}

/// The walk of fields that denote primitives and enumerations yields one line
/// for each field, registers the enumerations, and registers no interface.
pub proof fn lemma_flat_fields_walk(fields: Seq<FieldModel>, n: nat)
    requires
        all_flat(fields),
        n <= fields.len(),
    ensures
        fields_emitted(fields, n) == Some(
            Walk {
                parts: flat_lines(fields).take(n as int),
                interfaces: Seq::empty(),
                enumerations: field_enums(fields, n),
            },
        ),
    decreases n,
{
    if n == 0 {
        assert(flat_lines(fields).take(0) =~= Seq::<Seq<char>>::empty());
    } else {
        lemma_flat_fields_walk(fields, (n - 1) as nat);
        let before = fields_emitted(fields, (n - 1) as nat)->Some_0;
        let field = fields[n - 1];
        let t = type_of(field.descriptor)->Ok_0;
        let inner = emitted(t)->Some_0;
        let walk = fields_emitted(fields, n)->Some_0;
        assert(walk.parts =~= flat_lines(fields).take(n as int));
        assert(walk.enumerations =~= field_enums(fields, n));
    }
}

/// A record whose fields denote primitives and enumerations registers one
/// interface, its own, with one line for each field in the order of the
/// fields, and the enumerations of its fields, in that order.
pub proof fn lemma_record_of_flat_fields(record: RecordModel)
    requires
        all_flat(record.fields),
    ensures
        emitted(TypeModel::Record(record)) == Some(
            Emitted {
                token: record.name,
                interfaces: seq![interface_text(record.name, concat(flat_lines(record.fields)))],
                enumerations: field_enums(record.fields, record.fields.len()),
            },
        ),
{
    let fields = record.fields;
    lemma_flat_fields_walk(fields, fields.len());
    assert(flat_lines(fields).take(fields.len() as int) =~= flat_lines(fields));
    let found = emitted(TypeModel::Record(record))->Some_0;
}

/// Fields that denote primitives hold no enumeration.
pub proof fn lemma_primitive_fields_no_enum(fields: Seq<FieldModel>, n: nat)
    requires
        all_primitive(fields),
        n <= fields.len(),
    ensures
        field_enums(fields, n) == Seq::<Seq<char>>::empty(),
    decreases n,
{
    if n > 0 {
        lemma_primitive_fields_no_enum(fields, (n - 1) as nat);
    }
}

/// A record whose fields all denote primitives registers exactly one
/// declaration: its interface, which holds one line for each field, in the
/// order of the fields.
pub proof fn lemma_record_of_primitives(record: RecordModel)
    requires
        all_primitive(record.fields),
    ensures
        emitted(TypeModel::Record(record)) == Some(
            Emitted {
                token: record.name,
                interfaces: seq![interface_text(record.name, concat(flat_lines(record.fields)))],
                enumerations: Seq::empty(),
            },
        ),
        flat_lines(record.fields).len() == record.fields.len(),
        forall|i: int|
            0 <= i < record.fields.len() ==> flat_lines(record.fields)[i] == field_line(
                record.fields[i].name,
                primitive_token(type_of(record.fields[i].descriptor)->Ok_0),
            ),
{
    lemma_record_of_flat_fields(record);
    lemma_primitive_fields_no_enum(record.fields, record.fields.len());
}

/// Where the field in position `k` is the only one that denotes an
/// enumeration, that enumeration is the only one among the fields.
pub proof fn lemma_single_enum_field(fields: Seq<FieldModel>, k: int, e: EnumModel, n: nat)
    requires
        0 <= k < fields.len(),
        n <= fields.len(),
        type_of(fields[k].descriptor) == Ok::<TypeModel, SchemaError>(
            TypeModel::Enum(e),
        ),
        forall|i: int|
            0 <= i < fields.len() && i != k ==> (type_of((#[trigger] fields[i]).descriptor)
                matches Ok(t) && is_primitive(t)),
    ensures
        field_enums(fields, n) == if n > k {
            seq![enum_text(e)]
        } else {
            Seq::<Seq<char>>::empty()
        },
    decreases n,
{
    if n > 0 {
        lemma_single_enum_field(fields, k, e, (n - 1) as nat);
    }
}

/// A record with one field that denotes an enumeration, among fields that
/// denote primitives, registers exactly two declarations: the enumeration,
/// and its own interface, which refers to the enumeration by name.
pub proof fn lemma_record_with_enum_field(record: RecordModel, k: int, e: EnumModel)
    requires
        0 <= k < record.fields.len(),
        type_of(record.fields[k].descriptor) == Ok::<TypeModel, SchemaError>(
            TypeModel::Enum(e),
        ),
        forall|i: int|
            0 <= i < record.fields.len() && i != k ==> (type_of(
                (#[trigger] record.fields[i]).descriptor,
            ) matches Ok(t) && is_primitive(t)),
    ensures
        emitted(TypeModel::Record(record)) == Some(
            Emitted {
                token: record.name,
                interfaces: seq![interface_text(record.name, concat(flat_lines(record.fields)))],
                enumerations: seq![enum_text(e)],
            },
        ),
        flat_lines(record.fields)[k] == field_line(record.fields[k].name, e.name),
{
    lemma_record_of_flat_fields(record);
    lemma_single_enum_field(record.fields, k, e, record.fields.len());
}

/// The declarations that a record's fields register come before the record's
/// own interface, which is the last that the walk of the record registers.
pub proof fn lemma_record_declared_last(record: RecordModel)
    requires
        emitted(TypeModel::Record(record)) is Some,
    ensures
        ({
            let found = emitted(TypeModel::Record(record))->Some_0;
            let walk = fields_emitted(record.fields, record.fields.len())->Some_0;
            &&& found.interfaces.len() == walk.interfaces.len() + 1
            &&& found.interfaces.drop_last() == walk.interfaces
            &&& found.interfaces.last() == interface_text(record.name, concat(walk.parts))
            &&& found.enumerations == walk.enumerations
        }),
{
    let found = emitted(TypeModel::Record(record))->Some_0;
    let walk = fields_emitted(record.fields, record.fields.len())->Some_0;
}

/// The walk of fields passes over a field whose descriptor denotes no type:
/// up to that field the walk is that of the fields without it, and from that
/// field on it is one field ahead.
pub proof fn lemma_walk_without_field(fields: Seq<FieldModel>, k: int, n: nat)
    requires
        0 <= k < fields.len(),
        n <= fields.len(),
        type_of(fields[k].descriptor) is Err,
    ensures
        n <= k ==> fields_emitted(fields, n) == fields_emitted(fields.remove(k), n),
        n > k ==> fields_emitted(fields, n) == fields_emitted(fields.remove(k), (n - 1) as nat),
    decreases n,
{
    if n > 0 {
        lemma_walk_without_field(fields, k, (n - 1) as nat);
    }
}

/// A field whose descriptor denotes no type is left out of the record's
/// interface, and the rest of the record is rendered as if the field were
/// not there.
pub proof fn lemma_unreadable_field_omitted(record: RecordModel, k: int)
    requires
        0 <= k < record.fields.len(),
        type_of(record.fields[k].descriptor) is Err,
    ensures
        emitted(TypeModel::Record(record)) == emitted(
            TypeModel::Record(
                RecordModel {
                    type_tag: record.type_tag,
                    name: record.name,
                    namespace: record.namespace,
                    fields: record.fields.remove(k),
                },
            ),
        ),
{
    lemma_walk_without_field(record.fields, k, record.fields.len());
}

} // verus!
