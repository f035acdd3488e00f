//! What holds of JSON values and of looking into them.

use crate::json;
use crate::json::{Json, JsonModel};
use vstd::prelude::*;

verus! {

/// A value holds what it is made of: a text its characters, and a list or an
/// object as many values as it has, each in its place.
pub proof fn law_value_holds_its_parts(value: Json, i: int)
    ensures
        value is Null ==> value.model() is Null,
        value is Number ==> value.model() is Number,
        value matches Json::Bool(b) ==> value.model() == JsonModel::Bool(b),
        value matches Json::Text(s) ==> value.model() == JsonModel::Text(s@),
        value matches Json::List(items) ==> (value.model() matches JsonModel::List(parts)
            && parts.len() == items@.len() && (0 <= i < items@.len() ==> parts[i]
            == items@[i].model())),
        value matches Json::Object(entries) ==> (value.model() matches JsonModel::Object(parts)
            && parts.len() == entries@.len() && (0 <= i < entries@.len() ==> parts[i].0
            == entries@[i].0@ && parts[i].1 == entries@[i].1.model())),
{
}

/// An object gives under a key the value of the first entry that has it,
/// whatever the other entries are.
pub proof fn law_field_is_the_first_entry(
    entries: Seq<(Seq<char>, JsonModel)>,
    key: Seq<char>,
    i: int,
)
    requires
        0 <= i < entries.len(),
        entries[i].0 == key,
        forall|j: int| 0 <= j < i ==> (#[trigger] entries[j]).0 != key,
    ensures
        json::field(JsonModel::Object(entries), key) == Some(entries[i].1),
{
    lemma_entry_at(entries, key, i);
}

proof fn lemma_entry_at(entries: Seq<(Seq<char>, JsonModel)>, key: Seq<char>, i: int)
    requires
        0 <= i < entries.len(),
        entries[i].0 == key,
        forall|j: int| 0 <= j < i ==> (#[trigger] entries[j]).0 != key,
    ensures
        json::entry(entries, key) == Some(entries[i].1),
    decreases i,
{
    if i > 0 {
        assert(entries[0].0 != key);
        let rest = entries.drop_first();
        assert forall|j: int| 0 <= j < i - 1 implies (#[trigger] rest[j]).0 != key by {
            assert(rest[j] == entries[j + 1]);
        }
        lemma_entry_at(rest, key, i - 1);
    }
}

/// An object without an entry for a key, and a value that is no object, give
/// nothing under it.
pub proof fn law_no_entry_no_field(value: JsonModel, key: Seq<char>)
    ensures
        value matches JsonModel::Object(entries) ==> (forall|j: int|
            0 <= j < entries.len() ==> (#[trigger] entries[j]).0 != key) ==> json::field(value, key)
            is None,
        !(value is Object) ==> json::field(value, key) is None,
{
    if let JsonModel::Object(entries) = value {
        if forall|j: int| 0 <= j < entries.len() ==> (#[trigger] entries[j]).0 != key {
            lemma_no_entry(entries, key);
        }
    }
}

proof fn lemma_no_entry(entries: Seq<(Seq<char>, JsonModel)>, key: Seq<char>)
    requires
        forall|j: int| 0 <= j < entries.len() ==> (#[trigger] entries[j]).0 != key,
    ensures
        json::entry(entries, key) is None,
    decreases entries.len(),
{
    if entries.len() > 0 {
        assert(entries[0].0 != key);
        let rest = entries.drop_first();
        assert forall|j: int| 0 <= j < rest.len() implies (#[trigger] rest[j]).0 != key by {
            assert(rest[j] == entries[j + 1]);
        }
        lemma_no_entry(rest, key);
    }
}

} // verus!
