//! How far a walk of a type descends. A record and a map keep the types of
//! their parts as they were written, so a walk reads types as it goes; the
//! rank bounds that, and is what the walk's recursion decreases.

use vstd::prelude::*;
use crate::json::{depth, items_depth, lemma_item_depth, JsonModel};
use crate::model::{alternatives, type_of, FieldModel, TypeModel};
use crate::named::{map_of, record_of};
use crate::shape::{bound, fault, lemma_bound_fits, lemma_fields_without_fault, Shape};

verus! {

/// The greatest depth among the type descriptors of `fields`.
pub open spec fn fields_depth(fields: Seq<FieldModel>) -> nat
    decreases fields.len(),
{
    if fields.len() == 0 {
        0
    } else {
        let rest = fields_depth(fields.drop_last());
        let last = depth(fields.last().descriptor);
        if last > rest {
            last
        } else {
            rest
        }
    }
}

/// A bound on how far a walk of `t` descends: through the alternatives of
/// unions, and through the type descriptors that records and maps keep as
/// they were written.
pub open spec fn rank(t: TypeModel) -> nat
    decreases t,
{
    match t {
        TypeModel::Record(record) => 1 + fields_depth(record.fields),
        TypeModel::Union(alternatives) => 1 + types_rank(alternatives),
        TypeModel::MapOf(map) => 1 + depth(map.values),
        _ => 0,
    }
}

/// The greatest rank among `types`.
pub open spec fn types_rank(types: Seq<TypeModel>) -> nat
    decreases types,
{
    if types.len() == 0 {
        0
    } else {
        let rest = types_rank(types.drop_last());
        let last = rank(types.last());
        if last > rest {
            last
        } else {
            rest
        }
    }
}

/// No type descriptor of a field is deeper than `fields_depth` says.
pub proof fn lemma_field_depth(fields: Seq<FieldModel>, i: int)
    requires
        0 <= i < fields.len(),
    ensures
        depth(fields[i].descriptor) <= fields_depth(fields),
    decreases fields.len(),
{
    if i < fields.len() - 1 {
        lemma_field_depth(fields.drop_last(), i);
    }
}

/// A bound on the depth of each type descriptor bounds `fields_depth`.
pub proof fn lemma_fields_depth_bound(fields: Seq<FieldModel>, limit: nat)
    requires
        forall|i: int| 0 <= i < fields.len() ==> depth((#[trigger] fields[i]).descriptor) <= limit,
    ensures
        fields_depth(fields) <= limit,
    decreases fields.len(),
{
    if fields.len() > 0 {
        lemma_fields_depth_bound(fields.drop_last(), limit);
    }
}

/// No type among `types` has a greater rank than `types_rank` says.
pub proof fn lemma_types_rank(types: Seq<TypeModel>, i: int)
    requires
        0 <= i < types.len(),
    ensures
        rank(types[i]) <= types_rank(types),
    decreases types.len(),
{
    if i < types.len() - 1 {
        lemma_types_rank(types.drop_last(), i);
    }
}

/// The type descriptors of a record that was read lie inside the value it was
/// read from.
pub proof fn lemma_record_rank(value: JsonModel)
    ensures
        record_of(value) matches Ok(record) ==> 1 + fields_depth(record.fields) <= depth(value),
{
    if let Ok(record) = record_of(value) {
        let slots = bound(Shape::Record, value)->Ok_0;
        lemma_bound_fits(Shape::Record, value);
        let limit = (depth(value) - 1) as nat;
        let items = slots[3]->Some_0->Array_0;
        assert forall|i: int| 0 <= i < record.fields.len() implies depth(
            (#[trigger] record.fields[i]).descriptor,
        ) <= limit by {
            lemma_fields_without_fault(items, items.len(), i);
            lemma_bound_fits(Shape::Field, items[i]);
            lemma_item_depth(items, i);
        }
        lemma_fields_depth_bound(record.fields, limit);
    }
}

/// A type that was read does not rank above the depth of the value it was
/// read from.
pub proof fn lemma_type_rank(value: JsonModel)
    ensures
        type_of(value) matches Ok(t) ==> rank(t) <= depth(value),
    decreases value, 0nat,
{
    match value {
        JsonModel::Object(_) => {
            lemma_record_rank(value);
            lemma_bound_fits(Shape::MapOf, value);
        },
        JsonModel::Array(items) => {
            lemma_alternatives_rank(items, items.len());
        },
        _ => {},
    }
}

/// The types read from the items of an array do not rank above the depth of
/// the items.
pub proof fn lemma_alternatives_rank(items: Seq<JsonModel>, n: nat)
    requires
        n <= items.len(),
    ensures
        types_rank(alternatives(items, n)) <= items_depth(items),
    decreases items, n,
{
    if n > 0 {
        lemma_alternatives_rank(items, (n - 1) as nat);
        lemma_type_rank(items[n - 1]);
        lemma_item_depth(items, n - 1);
        let before = alternatives(items, (n - 1) as nat);
        if let Ok(t) = type_of(items[n - 1]) {
            assert(before.push(t).drop_last() == before);
        }
    }
}

} // verus!
