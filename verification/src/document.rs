//! Reading and building JSON documents, member by member.

use vstd::prelude::*;
use serde_json::Value;
use crate::assoc::{pairs_map, distinct_keys, lemma_pairs_map_keys, lemma_pairs_map_push,
    lemma_distinct_keys_push};
use crate::json::{Json, JsonNumber, json_model, member_list, value_get, json_number, json_array};

verus! {

/// The JSON number that stands for `n`.
pub open spec fn number_json(n: u64) -> Json {
    Json::Number(JsonNumber::Unsigned(n))
}

/// The JSON array that stands for a run of numbers.
pub open spec fn numbers_json(numbers: Seq<u64>) -> Json {
    Json::Array(numbers.map_values(|n: u64| number_json(n)))
}

/// The run of numbers that a document stands for: it must be an array of
/// unsigned 64-bit integers.
pub open spec fn numbers_of_json(doc: Json) -> Option<Seq<u64>> {
    match doc {
        Json::Array(items) => if forall|i: int|
            0 <= i < items.len() ==> (#[trigger] items[i]).unsigned() is Some {
            Some(items.map_values(|item: Json| item.unsigned()->0))
        } else {
            None
        },
        _ => None,
    }
}

/// The array of a run of numbers stands for that run.
pub proof fn lemma_numbers_round_trip(numbers: Seq<u64>)
    ensures
        numbers_of_json(numbers_json(numbers)) == Some(numbers),
{
    let items = numbers.map_values(|n: u64| number_json(n));
    assert(items.map_values(|item: Json| item.unsigned()->0) == numbers);
}

/// Reads an array of unsigned 64-bit integers.
pub(crate) fn read_numbers(value: &Value) -> (r: Option<Vec<u64>>)
    ensures
        match r {
            Some(numbers) => numbers_of_json(json_model(*value)) == Some(numbers@),
            None => numbers_of_json(json_model(*value)) is None,
        },
{
    let elements = match value.as_array() {
        Some(elements) => elements,
        None => {
            return None;
        },
    };
    let ghost items = elements@.map_values(|e: Value| json_model(e));
    let mut out: Vec<u64> = Vec::new();
    let mut i: usize = 0;
    while i < elements.len()
        invariant
            i <= elements.len(),
            items == elements@.map_values(|e: Value| json_model(e)),
            json_model(*value) == Json::Array(items),
            out@.len() == i,
            forall|k: int| 0 <= k < i ==> (#[trigger] items[k]).unsigned() == Some(out@[k]),
        decreases elements.len() - i,
    {
        match elements[i].as_u64() {
            Some(n) => {
                out.push(n);
            },
            None => {
                assert(items[i as int].unsigned() is None);
                return None;
            },
        }
        i += 1;
    }
    assert(out@ == items.map_values(|item: Json| item.unsigned()->0));
    Some(out)
}

/// Reads the string under a name.
pub(crate) fn read_text(value: &Value, name: &str) -> (r: Option<String>)
    ensures
        match r {
            Some(text) => json_model(*value).member(name@) == Some(Json::Text(text@)),
            None => !(json_model(*value).member(name@) matches Some(Json::Text(_))),
        },
{
    match value_get(value, name) {
        Some(field) => match field.as_str() {
            Some(text) => Some(text.to_string()),
            None => None,
        },
        None => None,
    }
}

/// Builds the array that stands for a run of numbers.
pub(crate) fn numbers_value(numbers: &Vec<u64>) -> (r: Value)
    ensures
        json_model(r) == numbers_json(numbers@),
{
    let mut items: Vec<Value> = Vec::new();
    let mut i: usize = 0;
    while i < numbers.len()
        invariant
            i <= numbers.len(),
            items@.len() == i,
            forall|k: int| 0 <= k < i ==> json_model(#[trigger] items@[k]) == number_json(numbers@[k]),
        decreases numbers.len() - i,
    {
        items.push(json_number(numbers[i]));
        i += 1;
    }
    assert(items@.map_values(|e: Value| json_model(e)) == numbers@.map_values(
        |n: u64| number_json(n),
    ));
    json_array(items)
}

/// Adds a member under a name that the list does not have yet.
pub(crate) fn add_member(members: &mut Vec<(String, Value)>, name: &str, value: Value)
    requires
        distinct_keys(member_list(old(members)@)),
        !pairs_map(member_list(old(members)@)).contains_key(name@),
    ensures
        distinct_keys(member_list(final(members)@)),
        pairs_map(member_list(final(members)@)) == pairs_map(member_list(old(members)@)).insert(
            name@,
            json_model(value),
        ),
{
    proof {
        let before = member_list(members@);
        lemma_pairs_map_keys(before);
        lemma_pairs_map_push(before, name@, json_model(value));
        lemma_distinct_keys_push(before, name@, json_model(value));
    }
    let ghost before = member_list(members@);
    let ghost model = json_model(value);
    members.push((name.to_string(), value));
    assert(member_list(members@) == before.push((name@, model)));
}

/// A list without members: no key occurs in it.
pub(crate) fn no_members() -> (members: Vec<(String, Value)>)
    ensures
        distinct_keys(member_list(members@)),
        pairs_map(member_list(members@)) == Map::<Seq<char>, Json>::empty(),
{
    let members: Vec<(String, Value)> = Vec::new();
    assert(member_list(members@) == Seq::<(Seq<char>, Json)>::empty());
    members
}

/// The names under which the documents of this library keep their members
/// differ from one another, as far as two of them stand in one object.
pub proof fn lemma_member_names_differ()
    ensures
        "model"@ != "prompt"@,
        "model"@ != "response"@,
        "model"@ != "context"@,
        "model"@ != "stream"@,
        "prompt"@ != "response"@,
        "prompt"@ != "context"@,
        "prompt"@ != "stream"@,
        "response"@ != "context"@,
        "stream"@ != "context"@,
        "body"@ != "expiry"@,
        "body"@ != "etag"@,
        "body"@ != "last_modified"@,
        "expiry"@ != "etag"@,
        "expiry"@ != "last_modified"@,
        "etag"@ != "last_modified"@,
{
    reveal_strlit("model");
    reveal_strlit("prompt");
    reveal_strlit("response");
    reveal_strlit("context");
    reveal_strlit("stream");
    reveal_strlit("body");
    reveal_strlit("expiry");
    reveal_strlit("etag");
    reveal_strlit("last_modified");
    assert("model"@.len() == 5);
    assert("prompt"@.len() == 6);
    assert("response"@.len() == 8);
    assert("context"@.len() == 7);
    assert("stream"@.len() == 6);
    assert("body"@.len() == 4);
    assert("expiry"@.len() == 6);
    assert("etag"@.len() == 4);
    assert("last_modified"@.len() == 13);
    assert("prompt"@[0] == 'p');
    assert("stream"@[0] == 's');
    assert("body"@[0] == 'b');
    assert("etag"@[0] == 'e');
}

} // verus!
