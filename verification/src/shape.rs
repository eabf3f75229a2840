//! The named shapes of a schema: which members a record, a record's field, an
//! enum, an array, a map and a fixed type are made of, and how a JSON value is
//! bound to them.
//!
//! A shape is written as a JSON object, whose members are taken in order, or
//! as a JSON array that gives the members by position. Binding stops at the
//! first fault.

use vstd::prelude::*;
use crate::json::{
    depth, group_json_view, items_depth, lemma_item_depth, lemma_member_depth, members_depth,
    members_view, values_view, JsonModel, JsonNumber, JsonValue,
};
use crate::text::str_eq;

verus! {

/// Why a JSON value does not have the shape it is meant to have.
#[derive(Clone, Copy, Debug, PartialEq, Eq)]
pub enum ShapeError {
    /// A value is of a JSON kind that its place does not take.
    InvalidType,
    /// A size is a negative integer.
    InvalidValue,
    /// A shape written by position has too few or too many items.
    InvalidLength,
    /// A member that the shape cannot do without is not given.
    MissingField,
    /// A member is given more than once.
    DuplicateField,
}

/// The shapes that a JSON value can be bound to.
#[derive(Clone, Copy, Debug, PartialEq, Eq)]
pub enum Shape {
    /// A record: type tag, name, optional namespace, fields.
    Record,
    /// A field of a record: type descriptor, name.
    Field,
    /// An enumeration: type tag, name, symbols.
    Enum,
    /// An array: type tag, items.
    Array,
    /// A map: type tag, values.
    MapOf,
    /// A fixed type: type tag, size, name.
    Fixed,
}

/// What a member of a shape holds.
#[derive(Clone, Copy, Debug, PartialEq, Eq)]
pub enum Holds {
    /// A string.
    Text,
    /// A string, `null`, or nothing at all.
    OptionalText,
    /// Any value.
    Anything,
    /// An array of strings.
    Texts,
    /// An array of any values.
    Values,
    /// An array of values of the shape [`Shape::Field`].
    Fields,
    /// A non-negative integer of 64 bits.
    Size,
}

/// The members of a shape as they were found, one slot for each: the value
/// that was given, or `None`.
pub type Slots = Seq<Option<JsonModel>>;

impl Shape {
    /// The number of members of this shape.
    pub open spec fn spec_arity(self) -> nat {
        match self {
            Shape::Record => 4,
            Shape::Field => 2,
            Shape::Enum => 3,
            Shape::Array => 2,
            Shape::MapOf => 2,
            Shape::Fixed => 3,
        }
    }

    /// What the member in position `slot` holds. Position 0 is the type tag of
    /// a named shape, and the type descriptor of a field.
    pub open spec fn spec_holds(self, slot: int) -> Holds {
        match self {
            Shape::Record => if slot == 0 {
                Holds::Text
            } else if slot == 1 {
                Holds::Text
            } else if slot == 2 {
                Holds::OptionalText
            } else {
                Holds::Fields
            },
            Shape::Field => if slot == 0 {
                Holds::Anything
            } else {
                Holds::Text
            },
            Shape::Enum => if slot == 2 {
                Holds::Texts
            } else {
                Holds::Text
            },
            Shape::Array => if slot == 0 {
                Holds::Text
            } else {
                Holds::Values
            },
            Shape::MapOf => if slot == 0 {
                Holds::Text
            } else {
                Holds::Anything
            },
            Shape::Fixed => if slot == 1 {
                Holds::Size
            } else {
                Holds::Text
            },
        }
    }

    /// The position of the member that an object's key names, if it names one.
    /// Position 0 goes by two names, `type_name` and `type`.
    pub open spec fn spec_slot_of(self, key: Seq<char>) -> Option<int> {
        if key == "type_name"@ || key == "type"@ {
            Some(0)
        } else {
            match self {
                Shape::Record => if key == "name"@ {
                    Some(1)
                } else if key == "namespace"@ {
                    Some(2)
                } else if key == "fields"@ {
                    Some(3)
                } else {
                    None
                },
                Shape::Field => if key == "name"@ {
                    Some(1)
                } else {
                    None
                },
                Shape::Enum => if key == "name"@ {
                    Some(1)
                } else if key == "symbols"@ {
                    Some(2)
                } else {
                    None
                },
                Shape::Array => if key == "items"@ {
                    Some(1)
                } else {
                    None
                },
                Shape::MapOf => if key == "values"@ {
                    Some(1)
                } else {
                    None
                },
                Shape::Fixed => if key == "size"@ {
                    Some(1)
                } else if key == "name"@ {
                    Some(2)
                } else {
                    None
                },
            }
        }
    }

    /// The number of members of this shape.
    pub fn arity(self) -> (r: usize)
        ensures
            r == self.spec_arity(),
    {
        match self {
            Shape::Record => 4,
            Shape::Field => 2,
            Shape::Enum => 3,
            Shape::Array => 2,
            Shape::MapOf => 2,
            Shape::Fixed => 3,
        }
    }

    /// What the member in position `slot` holds.
    pub fn holds(self, slot: usize) -> (r: Holds)
        ensures
            r == self.spec_holds(slot as int),
    {
        match self {
            Shape::Record => if slot == 0 {
                Holds::Text
            } else if slot == 1 {
                Holds::Text
            } else if slot == 2 {
                Holds::OptionalText
            } else {
                Holds::Fields
            },
            Shape::Field => if slot == 0 {
                Holds::Anything
            } else {
                Holds::Text
            },
            Shape::Enum => if slot == 2 {
                Holds::Texts
            } else {
                Holds::Text
            },
            Shape::Array => if slot == 0 {
                Holds::Text
            } else {
                Holds::Values
            },
            Shape::MapOf => if slot == 0 {
                Holds::Text
            } else {
                Holds::Anything
            },
            Shape::Fixed => if slot == 1 {
                Holds::Size
            } else {
                Holds::Text
            },
        }
    }

    /// The position of the member that an object's key names, if it names one.
    pub fn slot_of(self, key: &str) -> (r: Option<usize>)
        ensures
            match self.spec_slot_of(key@) {
                Some(s) => r == Some(s as usize) && 0 <= s < self.spec_arity(),
                None => r is None,
            },
    {
        if str_eq(key, "type_name") || str_eq(key, "type") {
            Some(0)
        } else {
            match self {
                Shape::Record => if str_eq(key, "name") {
                    Some(1)
                } else if str_eq(key, "namespace") {
                    Some(2)
                } else if str_eq(key, "fields") {
                    Some(3)
                } else {
                    None
                },
                Shape::Field => if str_eq(key, "name") {
                    Some(1)
                } else {
                    None
                },
                Shape::Enum => if str_eq(key, "name") {
                    Some(1)
                } else if str_eq(key, "symbols") {
                    Some(2)
                } else {
                    None
                },
                Shape::Array => if str_eq(key, "items") {
                    Some(1)
                } else {
                    None
                },
                Shape::MapOf => if str_eq(key, "values") {
                    Some(1)
                } else {
                    None
                },
                Shape::Fixed => if str_eq(key, "size") {
                    Some(1)
                } else if str_eq(key, "name") {
                    Some(2)
                } else {
                    None
                },
            }
        }
    }
}

/// The slots of `shape` with nothing found yet.
pub open spec fn no_slots(shape: Shape) -> Slots {
    Seq::new(shape.spec_arity(), |s: int| None)
}

/// Whether a member that `shape` cannot do without has not been found.
pub open spec fn lacks_member(shape: Shape, slots: Slots) -> bool {
    exists|s: int|
        0 <= s < shape.spec_arity() && (#[trigger] slots[s]) is None && shape.spec_holds(s)
            != Holds::OptionalText
}

/// What is wrong with `value` in a place that holds `holds`; `None` where
/// nothing is.
pub open spec fn fault(holds: Holds, value: JsonModel) -> Option<ShapeError>
    decreases value, 0nat,
{
    match holds {
        Holds::Text => if value is String {
            None
        } else {
            Some(ShapeError::InvalidType)
        },
        Holds::OptionalText => if value is String || value is Null {
            None
        } else {
            Some(ShapeError::InvalidType)
        },
        Holds::Anything => None,
        Holds::Texts => match value {
            JsonModel::Array(items) => if forall|i: int|
                0 <= i < items.len() ==> (#[trigger] items[i]) is String {
                None
            } else {
                Some(ShapeError::InvalidType)
            },
            _ => Some(ShapeError::InvalidType),
        },
        Holds::Values => if value is Array {
            None
        } else {
            Some(ShapeError::InvalidType)
        },
        Holds::Fields => match value {
            JsonModel::Array(items) => fields_fault(items, items.len()),
            _ => Some(ShapeError::InvalidType),
        },
        Holds::Size => match value {
            JsonModel::Number(JsonNumber::Unsigned(_)) => None,
            JsonModel::Number(JsonNumber::Negative(_)) => Some(ShapeError::InvalidValue),
            _ => Some(ShapeError::InvalidType),
        },
    }
}

/// The fault of the first among the first `n` of `items` that is not a field.
pub open spec fn fields_fault(items: Seq<JsonModel>, n: nat) -> Option<ShapeError>
    decreases items, n,
{
    if n == 0 || n > items.len() {
        None
    } else {
        match fields_fault(items, (n - 1) as nat) {
            Some(e) => Some(e),
            None => match bound(Shape::Field, items[n - 1]) {
                Ok(_) => None,
                Err(e) => Some(e),
            },
        }
    }
}

/// The slots of `shape` once the first `n` members of an object have been
/// taken in order. A key that names no member of the shape is passed over; a
/// member that was found before is a fault, and so is a value that its place
/// does not take.
pub open spec fn bound_members(
    shape: Shape,
    members: Seq<(Seq<char>, JsonModel)>,
    n: nat,
) -> Result<Slots, ShapeError>
    decreases members, n,
{
    if n == 0 || n > members.len() {
        Ok(no_slots(shape))
    } else {
        match bound_members(shape, members, (n - 1) as nat) {
            Err(e) => Err(e),
            Ok(slots) => match shape.spec_slot_of(members[n - 1].0) {
                None => Ok(slots),
                Some(s) => if slots[s] is Some {
                    Err(ShapeError::DuplicateField)
                } else {
                    match fault(shape.spec_holds(s), members[n - 1].1) {
                        Some(e) => Err(e),
                        None => Ok(slots.update(s, Some(members[n - 1].1))),
                    }
                },
            },
        }
    }
}

/// The slots of `shape` once its first `n` members have been taken from the
/// items of an array, by position.
pub open spec fn bound_items(shape: Shape, items: Seq<JsonModel>, n: nat) -> Result<
    Slots,
    ShapeError,
>
    decreases items, n,
{
    if n == 0 || n > shape.spec_arity() {
        Ok(no_slots(shape))
    } else {
        match bound_items(shape, items, (n - 1) as nat) {
            Err(e) => Err(e),
            Ok(slots) => if n > items.len() {
                Err(ShapeError::InvalidLength)
            } else {
                match fault(shape.spec_holds(n - 1), items[n - 1]) {
                    Some(e) => Err(e),
                    None => Ok(slots.update(n - 1, Some(items[n - 1]))),
                }
            },
        }
    }
}

/// The members of `shape` as `value` gives them, or the first fault.
///
/// An object gives them by key: after all its members have been taken, a
/// member that was not found is a fault unless it holds an optional text. An
/// array gives them by position and must hold exactly as many items as the
/// shape has members. No other value has a shape.
pub open spec fn bound(shape: Shape, value: JsonModel) -> Result<Slots, ShapeError>
    decreases value, 0nat,
{
    match value {
        JsonModel::Object(members) => match bound_members(shape, members, members.len()) {
            Err(e) => Err(e),
            Ok(slots) => if lacks_member(shape, slots) {
                Err(ShapeError::MissingField)
            } else {
                Ok(slots)
            },
        },
        JsonModel::Array(items) => match bound_items(shape, items, shape.spec_arity()) {
            Err(e) => Err(e),
            Ok(slots) => if items.len() > shape.spec_arity() {
                Err(ShapeError::InvalidLength)
            } else {
                Ok(slots)
            },
        },
        _ => Err(ShapeError::InvalidType),
    }
}

/// Once a fault is found among the fields, it stays the fault.
pub proof fn lemma_fields_fault_stays(items: Seq<JsonModel>, n: nat, m: nat)
    requires
        n <= m <= items.len(),
        fields_fault(items, n) is Some,
    ensures
        fields_fault(items, m) == fields_fault(items, n),
    decreases m,
{
    if n < m {
        lemma_fields_fault_stays(items, n, (m - 1) as nat);
    }
}

/// Where no fault is found among the first `n` items, each of them is a field.
pub proof fn lemma_fields_without_fault(items: Seq<JsonModel>, n: nat, i: int)
    requires
        0 <= i < n <= items.len(),
        fields_fault(items, n) is None,
    ensures
        bound(Shape::Field, items[i]) is Ok,
    decreases n,
{
    if i < n - 1 {
        lemma_fields_without_fault(items, (n - 1) as nat, i);
    }
}

/// Once binding by key has met a fault, it stays the fault.
pub proof fn lemma_bound_members_stays(
    shape: Shape,
    members: Seq<(Seq<char>, JsonModel)>,
    n: nat,
    m: nat,
)
    requires
        n <= m <= members.len(),
        bound_members(shape, members, n) is Err,
    ensures
        bound_members(shape, members, m) == bound_members(shape, members, n),
    decreases m,
{
    if n < m {
        lemma_bound_members_stays(shape, members, n, (m - 1) as nat);
    }
}

/// Once binding by position has met a fault, it stays the fault.
pub proof fn lemma_bound_items_stays(shape: Shape, items: Seq<JsonModel>, n: nat, m: nat)
    requires
        n <= m <= shape.spec_arity(),
        bound_items(shape, items, n) is Err,
    ensures
        bound_items(shape, items, m) == bound_items(shape, items, n),
    decreases m,
{
    if n < m {
        lemma_bound_items_stays(shape, items, n, (m - 1) as nat);
    }
}

/// Whether each value in `slots` is one that its place in `shape` takes, and
/// is no deeper than `limit`.
pub open spec fn slots_fit(shape: Shape, slots: Slots, limit: nat) -> bool {
    &&& slots.len() == shape.spec_arity()
    &&& forall|s: int|
        0 <= s < slots.len() ==> ((#[trigger] slots[s]) matches Some(value) ==> fault(
            shape.spec_holds(s),
            value,
        ) is None && depth(value) <= limit)
}

/// What binding by key has found is taken from the members and fits the shape.
pub proof fn lemma_bound_members_fit(
    shape: Shape,
    members: Seq<(Seq<char>, JsonModel)>,
    n: nat,
)
    requires
        n <= members.len(),
    ensures
        bound_members(shape, members, n) matches Ok(slots) ==> slots_fit(
            shape,
            slots,
            members_depth(members),
        ),
    decreases n,
{
    if n > 0 {
        lemma_bound_members_fit(shape, members, (n - 1) as nat);
        lemma_member_depth(members, n - 1);
    }
}

/// What binding by position has found is taken from the items and fits the
/// shape; the first `n` slots are filled.
pub proof fn lemma_bound_items_fit(shape: Shape, items: Seq<JsonModel>, n: nat)
    requires
        n <= shape.spec_arity(),
    ensures
        bound_items(shape, items, n) matches Ok(slots) ==> slots_fit(
            shape,
            slots,
            items_depth(items),
        ) && forall|s: int| 0 <= s < n ==> (#[trigger] slots[s]) is Some,
    decreases n,
{
    if n > 0 {
        lemma_bound_items_fit(shape, items, (n - 1) as nat);
        if n <= items.len() {
            lemma_item_depth(items, n - 1);
        }
    }
}

/// Where a value has a shape, each member found is a value that its place
/// takes and lies inside the value, and only an optional text can be absent.
pub proof fn lemma_bound_fits(shape: Shape, value: JsonModel)
    ensures
        bound(shape, value) matches Ok(slots) ==> {
            &&& depth(value) > 0
            &&& slots_fit(shape, slots, (depth(value) - 1) as nat)
            &&& forall|s: int|
                0 <= s < slots.len() && (#[trigger] slots[s]) is None ==> shape.spec_holds(s)
                    == Holds::OptionalText
        },
{
    match value {
        JsonModel::Object(members) => {
            lemma_bound_members_fit(shape, members, members.len());
        },
        JsonModel::Array(items) => {
            lemma_bound_items_fit(shape, items, shape.spec_arity());
        },
        _ => {},
    }
}

/// The values of the slots that hold a reference.
pub open spec fn slots_view(slots: Seq<Option<&JsonValue>>) -> Slots {
    Seq::new(
        slots.len(),
        |s: int|
            match slots[s] {
                Some(value) => Some(value@),
                None => None,
            },
    )
}

/// What is wrong with `value` in a place that holds `holds`; `None` where
/// nothing is.
#[verifier::loop_isolation(false)]
pub fn check(holds: Holds, value: &JsonValue) -> (r: Option<ShapeError>)
    ensures
        r == fault(holds, value@),
    decreases value,
{
    broadcast use group_json_view;

    match holds {
        Holds::Text => match value {
            JsonValue::String(_) => None,
            _ => Some(ShapeError::InvalidType),
        },
        Holds::OptionalText => match value {
            JsonValue::String(_) => None,
            JsonValue::Null => None,
            _ => Some(ShapeError::InvalidType),
        },
        Holds::Anything => None,
        Holds::Texts => match value {
            JsonValue::Array(items) => {
                let ghost all = values_view(items@);
                let mut i: usize = 0;
                while i < items.len()
                    invariant
                        i <= items.len(),
                        forall|k: int| 0 <= k < i ==> (#[trigger] all[k]) is String,
                    decreases items.len() - i,
                {
                    match &items[i] {
                        JsonValue::String(_) => {},
                        _ => {
                            assert(!(all[i as int] is String));
                            return Some(ShapeError::InvalidType);
                        },
                    }
                    i += 1;
                }
                None
            },
            _ => Some(ShapeError::InvalidType),
        },
        Holds::Values => match value {
            JsonValue::Array(_) => None,
            _ => Some(ShapeError::InvalidType),
        },
        Holds::Fields => match value {
            JsonValue::Array(items) => {
                let ghost all = values_view(items@);
                let mut i: usize = 0;
                while i < items.len()
                    invariant
                        i <= items.len(),
                        fields_fault(all, i as nat) is None,
                    decreases items.len() - i,
                {
                    match bind(Shape::Field, &items[i]) {
                        Ok(_) => {},
                        Err(e) => {
                            proof {
                                lemma_fields_fault_stays(all, (i + 1) as nat, all.len());
                            }
                            return Some(e);
                        },
                    }
                    i += 1;
                }
                None
            },
            _ => Some(ShapeError::InvalidType),
        },
        Holds::Size => match value {
            JsonValue::Number(JsonNumber::Unsigned(_)) => None,
            JsonValue::Number(JsonNumber::Negative(_)) => Some(ShapeError::InvalidValue),
            _ => Some(ShapeError::InvalidType),
        },
    }
}

/// The slots of `shape` with nothing found yet.
fn empty_slots<'a>(shape: Shape) -> (slots: Vec<Option<&'a JsonValue>>)
    ensures
        slots.len() == shape.spec_arity(),
        slots_view(slots@) == no_slots(shape),
{
    let arity = shape.arity();
    let mut slots: Vec<Option<&'a JsonValue>> = Vec::new();
    while slots.len() < arity
        invariant
            slots.len() <= arity,
            forall|s: int| 0 <= s < slots.len() ==> slots[s] is None,
        decreases arity - slots.len(),
    {
        slots.push(None);
    }
    slots
}

/// Whether every member that `shape` cannot do without has been found.
fn has_members(shape: Shape, slots: &Vec<Option<&JsonValue>>) -> (r: bool)
    requires
        slots.len() == shape.spec_arity(),
    ensures
        r == !lacks_member(shape, slots_view(slots@)),
{
    let arity = shape.arity();
    let mut s: usize = 0;
    while s < arity
        invariant
            s <= arity,
            arity == shape.spec_arity(),
            slots.len() == arity,
            forall|k: int|
                0 <= k < s ==> !((#[trigger] slots_view(slots@)[k]) is None && shape.spec_holds(k)
                    != Holds::OptionalText),
        decreases arity - s,
    {
        if slots[s].is_none() && !matches!(shape.holds(s), Holds::OptionalText) {
            assert(slots_view(slots@)[s as int] is None);
            return false;
        }
        s += 1;
    }
    true
}

/// The slots of `shape` as the members of an object give them, taken in
/// order, or the first fault.
fn bind_members<'a>(shape: Shape, members: &'a Vec<(String, JsonValue)>) -> (r: Result<
    Vec<Option<&'a JsonValue>>,
    ShapeError,
>)
    ensures
        match bound_members(shape, members_view(members@), members.len() as nat) {
            Ok(slots) => r matches Ok(found) && slots_view(found@) == slots && found.len()
                == shape.spec_arity(),
            Err(e) => r matches Err(x) && x == e,
        },
    decreases members,
{
    broadcast use group_json_view;

    let ghost all = members_view(members@);
    let mut slots = empty_slots(shape);
    let mut i: usize = 0;
    while i < members.len()
        invariant
            i <= members.len(),
            all == members_view(members@),
            all.len() == members.len(),
            slots.len() == shape.spec_arity(),
            bound_members(shape, all, i as nat) == Ok::<Slots, ShapeError>(slots_view(slots@)),
        decreases members.len() - i,
    {
        broadcast use group_json_view;

        let ghost before = slots_view(slots@);
        match shape.slot_of(members[i].0.as_str()) {
            None => {},
            Some(s) => {
                if slots[s].is_some() {
                    proof {
                        lemma_bound_members_stays(shape, all, (i + 1) as nat, all.len());
                    }
                    return Err(ShapeError::DuplicateField);
                }
                match check(shape.holds(s), &members[i].1) {
                    Some(e) => {
                        proof {
                            lemma_bound_members_stays(shape, all, (i + 1) as nat, all.len());
                        }
                        return Err(e);
                    },
                    None => {
                        slots.set(s, Some(&members[i].1));
                        assert(slots_view(slots@) == before.update(
                            s as int,
                            Some(all[i as int].1),
                        ));
                    },
                }
            },
        }
        i += 1;
    }
    Ok(slots)
}

/// The slots of `shape` as the items of an array give them, by position, or
/// the first fault.
fn bind_items<'a>(shape: Shape, items: &'a Vec<JsonValue>) -> (r: Result<
    Vec<Option<&'a JsonValue>>,
    ShapeError,
>)
    ensures
        match bound_items(shape, values_view(items@), shape.spec_arity()) {
            Ok(slots) => r matches Ok(found) && slots_view(found@) == slots && found.len()
                == shape.spec_arity(),
            Err(e) => r matches Err(x) && x == e,
        },
    decreases items,
{
    broadcast use group_json_view;

    let ghost all = values_view(items@);
    let arity = shape.arity();
    let mut slots = empty_slots(shape);
    let mut n: usize = 0;
    while n < arity
        invariant
            n <= arity,
            arity == shape.spec_arity(),
            all == values_view(items@),
            all.len() == items.len(),
            slots.len() == arity,
            bound_items(shape, all, n as nat) == Ok::<Slots, ShapeError>(slots_view(slots@)),
        decreases arity - n,
    {
        broadcast use group_json_view;

        let ghost before = slots_view(slots@);
        if n >= items.len() {
            proof {
                lemma_bound_items_stays(shape, all, (n + 1) as nat, arity as nat);
            }
            return Err(ShapeError::InvalidLength);
        }
        match check(shape.holds(n), &items[n]) {
            Some(e) => {
                proof {
                    lemma_bound_items_stays(shape, all, (n + 1) as nat, arity as nat);
                }
                return Err(e);
            },
            None => {
                slots.set(n, Some(&items[n]));
                assert(slots_view(slots@) == before.update(n as int, Some(all[n as int])));
            },
        }
        n += 1;
    }
    Ok(slots)
}

/// The members of `shape` as `value` gives them, each slot with the value
/// found for it, or the first fault.
pub fn bind<'a>(shape: Shape, value: &'a JsonValue) -> (r: Result<
    Vec<Option<&'a JsonValue>>,
    ShapeError,
>)
    ensures
        match bound(shape, value@) {
            Ok(slots) => r matches Ok(found) && slots_view(found@) == slots && found.len()
                == shape.spec_arity(),
            Err(e) => r matches Err(x) && x == e,
        },
    decreases value,
{
    broadcast use group_json_view;

    match value {
        JsonValue::Object(members) => match bind_members(shape, members) {
            Err(e) => Err(e),
            Ok(slots) => if has_members(shape, &slots) {
                Ok(slots)
            } else {
                Err(ShapeError::MissingField)
            },
        },
        JsonValue::Array(items) => match bind_items(shape, items) {
            Err(e) => Err(e),
            Ok(slots) => if items.len() > shape.arity() {
                Err(ShapeError::InvalidLength)
            } else {
                Ok(slots)
            },
        },
        _ => Err(ShapeError::InvalidType),
    }
}

} // verus!
