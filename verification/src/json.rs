//! A generic JSON value, as schema documents are handed to the schema model.

use vstd::prelude::*;
use crate::text::str_eq;

verus! {

/// A JSON number, kept as the integer it denotes where it denotes one.
#[derive(Clone, Copy, Debug, PartialEq, Eq)]
pub enum JsonNumber {
    /// A non-negative integer.
    Unsigned(u64),
    /// A negative integer.
    Negative(i64),
    /// A number written with a fraction or an exponent, or an integer that
    /// does not fit in 64 bits. Its value is not kept: no schema reads it.
    Fraction,
}

/// A JSON value. The members of an object are kept in the order given.
#[derive(Debug, PartialEq, Eq)]
pub enum JsonValue {
    Null,
    Bool(bool),
    Number(JsonNumber),
    String(String),
    Array(Vec<JsonValue>),
    Object(Vec<(String, JsonValue)>),
}

/// The mathematical value of a [`JsonValue`].
pub enum JsonModel {
    Null,
    Bool(bool),
    Number(JsonNumber),
    String(Seq<char>),
    Array(Seq<JsonModel>),
    Object(Seq<(Seq<char>, JsonModel)>),
}

impl View for JsonValue {
    type V = JsonModel;

    open spec fn view(&self) -> JsonModel
        decreases self,
    {
        match self {
            JsonValue::Null => JsonModel::Null,
            JsonValue::Bool(b) => JsonModel::Bool(*b),
            JsonValue::Number(n) => JsonModel::Number(*n),
            JsonValue::String(s) => JsonModel::String(s@),
            JsonValue::Array(items) => JsonModel::Array(values_view(items@)),
            JsonValue::Object(members) => JsonModel::Object(members_view(members@)),
        }
    }
}

/// The values of `items`, in order.
pub open spec fn values_view(items: Seq<JsonValue>) -> Seq<JsonModel>
    decreases items,
{
    if items.len() == 0 {
        Seq::empty()
    } else {
        values_view(items.drop_last()).push(items.last()@)
    }
}

/// The keys and values of `members`, in order.
pub open spec fn members_view(members: Seq<(String, JsonValue)>) -> Seq<(Seq<char>, JsonModel)>
    decreases members,
{
    if members.len() == 0 {
        Seq::empty()
    } else {
        members_view(members.drop_last()).push((members.last().0@, members.last().1@))
    }
}

/// `values_view` keeps the length and maps item by item.
pub broadcast proof fn lemma_values_view(items: Seq<JsonValue>)
    ensures
        (#[trigger] values_view(items)).len() == items.len(),
        forall|i: int| 0 <= i < items.len() ==> values_view(items)[i] == items[i]@,
    decreases items.len(),
{
    if items.len() > 0 {
        lemma_values_view(items.drop_last());
        assert(values_view(items) == values_view(items.drop_last()).push(items.last()@));
    }
}

/// `members_view` keeps the length and maps member by member.
pub broadcast proof fn lemma_members_view(members: Seq<(String, JsonValue)>)
    ensures
        (#[trigger] members_view(members)).len() == members.len(),
        forall|i: int|
            0 <= i < members.len() ==> members_view(members)[i] == (
                members[i].0@,
                members[i].1@,
            ),
    decreases members.len(),
{
    if members.len() > 0 {
        lemma_members_view(members.drop_last());
        assert(members_view(members) == members_view(members.drop_last()).push(
            (members.last().0@, members.last().1@),
        ));
    }
}

pub broadcast group group_json_view {
    lemma_values_view,
    lemma_members_view,
}

/// How deeply arrays and objects are nested in `value`; 0 for a value that is
/// neither.
pub open spec fn depth(value: JsonModel) -> nat
    decreases value,
{
    match value {
        JsonModel::Array(items) => 1 + items_depth(items),
        JsonModel::Object(members) => 1 + members_depth(members),
        _ => 0,
    }
}

/// The greatest depth among `items`.
pub open spec fn items_depth(items: Seq<JsonModel>) -> nat
    decreases items,
{
    if items.len() == 0 {
        0
    } else {
        let rest = items_depth(items.drop_last());
        let last = depth(items.last());
        if last > rest {
            last
        } else {
            rest
        }
    }
}

/// The greatest depth among the values of `members`.
pub open spec fn members_depth(members: Seq<(Seq<char>, JsonModel)>) -> nat
    decreases members,
{
    if members.len() == 0 {
        0
    } else {
        let rest = members_depth(members.drop_last());
        let last = depth(members.last().1);
        if last > rest {
            last
        } else {
            rest
        }
    }
}

/// No item of an array is as deep as the array.
pub proof fn lemma_item_depth(items: Seq<JsonModel>, i: int)
    requires
        0 <= i < items.len(),
    ensures
        depth(items[i]) <= items_depth(items),
        depth(items[i]) < depth(JsonModel::Array(items)),
    decreases items.len(),
{
    if i < items.len() - 1 {
        lemma_item_depth(items.drop_last(), i);
    }
}

/// No member of an object is as deep as the object.
pub proof fn lemma_member_depth(members: Seq<(Seq<char>, JsonModel)>, i: int)
    requires
        0 <= i < members.len(),
    ensures
        depth(members[i].1) <= members_depth(members),
        depth(members[i].1) < depth(JsonModel::Object(members)),
    decreases members.len(),
{
    if i < members.len() - 1 {
        lemma_member_depth(members.drop_last(), i);
    }
}

/// The value of the first member of `members` whose key is `key`.
pub open spec fn member(members: Seq<(Seq<char>, JsonModel)>, key: Seq<char>) -> Option<JsonModel>
    decreases members.len(),
{
    if members.len() == 0 {
        None
    } else if members[0].0 == key {
        Some(members[0].1)
    } else {
        member(members.drop_first(), key)
    }
}

impl JsonModel {
    /// The member of this object named `key`; `None` where there is none, or
    /// where this is no object.
    pub open spec fn get(self, key: Seq<char>) -> Option<JsonModel> {
        match self {
            JsonModel::Object(members) => member(members, key),
            _ => None,
        }
    }

    /// The text of this value where it is a string.
    pub open spec fn as_str(self) -> Option<Seq<char>> {
        match self {
            JsonModel::String(s) => Some(s),
            _ => None,
        }
    }
}

impl JsonValue {
    /// The member of this object named `key`, the first where several are;
    /// `None` where there is none, or where this is no object.
    pub fn get(&self, key: &str) -> (r: Option<&JsonValue>)
        ensures
            match self@.get(key@) {
                Some(v) => r matches Some(found) && found@ == v,
                None => r is None,
            },
    {
        broadcast use group_json_view;

        match self {
            JsonValue::Object(members) => {
                let ghost all = members_view(members@);
                let mut i: usize = 0;
                assert(all.skip(0) == all);
                while i < members.len()
                    invariant
                        i <= members.len(),
                        self@ == JsonModel::Object(all),
                        all.len() == members.len(),
                        forall|k: int|
                            0 <= k < all.len() ==> all[k] == (members[k].0@, members[k].1@),
                        member(all, key@) == member(all.skip(i as int), key@),
                    decreases members.len() - i,
                {
                    assert(all.skip(i as int).drop_first() == all.skip(i + 1));
                    if str_eq(members[i].0.as_str(), key) {
                        return Some(&members[i].1);
                    }
                    i += 1;
                }
                None
            },
            _ => None,
        }
    }

    /// The text of this value where it is a string.
    pub fn as_str(&self) -> (r: Option<&str>)
        ensures
            match self@.as_str() {
                Some(s) => r matches Some(found) && found@ == s,
                None => r is None,
            },
    {
        match self {
            JsonValue::String(s) => Some(s.as_str()),
            _ => None,
        }
    }
}

impl Clone for JsonValue {
    #[verifier::loop_isolation(false)]
    fn clone(&self) -> (r: JsonValue)
        ensures
            r@ == self@,
        decreases self,
    {
        broadcast use group_json_view;

        match self {
            JsonValue::Null => JsonValue::Null,
            JsonValue::Bool(b) => JsonValue::Bool(*b),
            JsonValue::Number(n) => JsonValue::Number(*n),
            JsonValue::String(s) => JsonValue::String(s.clone()),
            JsonValue::Array(items) => {
                let mut out: Vec<JsonValue> = Vec::new();
                let mut i: usize = 0;
                while i < items.len()
                    invariant
                        i <= items.len(),
                        out.len() == i,
                        forall|k: int| 0 <= k < i ==> out[k]@ == items[k]@,
                    decreases items.len() - i,
                {
                    out.push(items[i].clone());
                    i += 1;
                }
                assert(values_view(out@) =~= values_view(items@));
                JsonValue::Array(out)
            },
            JsonValue::Object(members) => {
                let mut out: Vec<(String, JsonValue)> = Vec::new();
                let mut i: usize = 0;
                while i < members.len()
                    invariant
                        i <= members.len(),
                        out.len() == i,
                        forall|k: int|
                            0 <= k < i ==> out[k].0@ == members[k].0@ && out[k].1@ == members[k].1@,
                    decreases members.len() - i,
                {
                    out.push((members[i].0.clone(), members[i].1.clone()));
                    i += 1;
                }
                assert(members_view(out@) =~= members_view(members@));
                JsonValue::Object(out)
            },
        }
    }
}

} // verus!
