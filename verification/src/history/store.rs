//! The stored form of the log: one JSON document,
//! `{"entries": [{"model": .., "prompt": .., "response": .., "context": [..]}, ..]}`,
//! the entries oldest first.

use vstd::prelude::*;
use std::collections::VecDeque;
use serde_json::Value;
use crate::json::{Json, json_model, parsed_json, printed_json, parse_json, value_get,
    json_string, json_array, json_object, print_json};
use crate::document::{numbers_json, numbers_of_json, lemma_numbers_round_trip, read_numbers,
    read_text, numbers_value, add_member, no_members, lemma_member_names_differ};
use crate::history::{Entry, EntryView, Data};

verus! {

/// The document that stands for an entry.
pub open spec fn entry_json(entry: EntryView) -> Json {
    Json::Object(
        map![
            "model"@ => Json::Text(entry.model),
            "prompt"@ => Json::Text(entry.prompt),
            "response"@ => Json::Text(entry.response),
            "context"@ => numbers_json(entry.context),
        ],
    )
}

/// The document that stands for a log.
pub open spec fn log_json(log: Seq<EntryView>) -> Json {
    Json::Object(
        map!["entries"@ => Json::Array(log.map_values(|entry: EntryView| entry_json(entry)))],
    )
}

/// The entry that a document stands for: it must be an object with a string
/// under `model`, `prompt` and `response` and an array of unsigned 64-bit
/// integers under `context`.
pub open spec fn entry_of_json(doc: Json) -> Option<EntryView> {
    match (
        doc.member("model"@),
        doc.member("prompt"@),
        doc.member("response"@),
        doc.member("context"@),
    ) {
        (
            Some(Json::Text(model)),
            Some(Json::Text(prompt)),
            Some(Json::Text(response)),
            Some(numbers),
        ) => match numbers_of_json(numbers) {
            Some(context) => Some(EntryView { model, prompt, response, context }),
            None => None,
        },
        _ => None,
    }
}

/// The log that a document stands for: it must be an object with an array of
/// entries under `entries`.
pub open spec fn log_of_json(doc: Json) -> Option<Seq<EntryView>> {
    match doc.member("entries"@) {
        Some(Json::Array(items)) => if forall|i: int|
            0 <= i < items.len() ==> entry_of_json(#[trigger] items[i]) is Some {
            Some(items.map_values(|item: Json| entry_of_json(item)->0))
        } else {
            None
        },
        _ => None,
    }
}

/// The log that the contents of a file stand for. Contents that are no JSON
/// document, or a document of another shape, stand for the empty log.
pub open spec fn log_of_text(contents: Seq<char>) -> Seq<EntryView> {
    match parsed_json(contents) {
        Some(doc) => match log_of_json(doc) {
            Some(log) => log,
            None => Seq::empty(),
        },
        None => Seq::empty(),
    }
}

fn read_entry(value: &Value) -> (r: Option<Entry>)
    ensures
        match r {
            Some(entry) => entry_of_json(json_model(*value)) == Some(entry@),
            None => entry_of_json(json_model(*value)) is None,
        },
{
    let model = match read_text(value, "model") {
        Some(text) => text,
        None => {
            return None;
        },
    };
    let prompt = match read_text(value, "prompt") {
        Some(text) => text,
        None => {
            return None;
        },
    };
    let response = match read_text(value, "response") {
        Some(text) => text,
        None => {
            return None;
        },
    };
    let context = match value_get(value, "context") {
        Some(field) => match read_numbers(field) {
            Some(context) => context,
            None => {
                return None;
            },
        },
        None => {
            return None;
        },
    };
    Some(Entry { model, prompt, response, context })
}

fn read_log(value: &Value) -> (r: Option<Data>)
    ensures
        match r {
            Some(data) => log_of_json(json_model(*value)) == Some(data@),
            None => log_of_json(json_model(*value)) is None,
        },
{
    let elements = match value_get(value, "entries") {
        Some(field) => match field.as_array() {
            Some(elements) => elements,
            None => {
                return None;
            },
        },
        None => {
            return None;
        },
    };
    let ghost items = elements@.map_values(|e: Value| json_model(e));
    let mut entries: VecDeque<Entry> = VecDeque::new();
    let mut i: usize = 0;
    while i < elements.len()
        invariant
            i <= elements.len(),
            items == elements@.map_values(|e: Value| json_model(e)),
            json_model(*value).member("entries"@) == Some(Json::Array(items)),
            entries@.len() == i,
            forall|k: int| 0 <= k < i ==> entry_of_json(#[trigger] items[k]) == Some(entries@[k]@),
        decreases elements.len() - i,
    {
        match read_entry(&elements[i]) {
            Some(entry) => {
                entries.push_back(entry);
            },
            None => {
                assert(entry_of_json(items[i as int]) is None);
                return None;
            },
        }
        i += 1;
    }
    let data = Data { entries };
    assert(data@ == items.map_values(|item: Json| entry_of_json(item)->0));
    Some(data)
}

/// Reads the log from the contents of its file. Contents that cannot be read
/// as a log give the empty log.
pub fn decode_log(contents: &str) -> (data: Data)
    ensures
        data@ == log_of_text(contents@),
{
    match parse_json(contents) {
        Some(value) => match read_log(&value) {
            Some(data) => data,
            None => Data::new(),
        },
        None => Data::new(),
    }
}

fn entry_value(entry: &Entry) -> (r: Value)
    ensures
        json_model(r) == entry_json(entry@),
{
    proof {
        lemma_member_names_differ();
    }
    let mut members = no_members();
    add_member(&mut members, "model", json_string(entry.model.clone()));
    add_member(&mut members, "prompt", json_string(entry.prompt.clone()));
    add_member(&mut members, "response", json_string(entry.response.clone()));
    add_member(&mut members, "context", numbers_value(&entry.context));
    json_object(members)
}

fn log_value(data: &Data) -> (r: Value)
    ensures
        json_model(r) == log_json(data@),
{
    let mut items: Vec<Value> = Vec::new();
    let mut i: usize = 0;
    while i < data.entries.len()
        invariant
            i <= data.entries.len(),
            items@.len() == i,
            forall|k: int| 0 <= k < i ==> json_model(#[trigger] items@[k]) == entry_json(data@[k]),
        decreases data.entries.len() - i,
    {
        items.push(entry_value(&data.entries[i]));
        i += 1;
    }
    assert(items@.map_values(|e: Value| json_model(e)) == data@.map_values(
        |entry: EntryView| entry_json(entry),
    ));
    let mut members = no_members();
    add_member(&mut members, "entries", json_array(items));
    json_object(members)
}

/// Writes the log as the contents of its file. `None` where the document
/// cannot be written as text.
pub fn encode_log(data: &Data) -> (r: Option<String>)
    ensures
        match r {
            Some(contents) => printed_json(log_json(data@)) == Some(contents@),
            None => printed_json(log_json(data@)) is None,
        },
{
    let value = log_value(data);
    print_json(&value)
}

/// The document of an entry stands for that entry.
pub proof fn lemma_entry_round_trip(entry: EntryView)
    ensures
        entry_of_json(entry_json(entry)) == Some(entry),
{
    lemma_member_names_differ();
    lemma_numbers_round_trip(entry.context);
    assert(entry_json(entry).member("context"@) == Some(numbers_json(entry.context)));
}

/// The document of a log stands for that log: what is written is what is read
/// back, entry for entry and in the same order.
pub proof fn lemma_log_round_trip(log: Seq<EntryView>)
    ensures
        log_of_json(log_json(log)) == Some(log),
{
    let items = log.map_values(|entry: EntryView| entry_json(entry));
    assert(log_json(log).member("entries"@) == Some(Json::Array(items)));
    assert forall|i: int| 0 <= i < items.len() implies entry_of_json(#[trigger] items[i]) == Some(
        log[i],
    ) by {
        lemma_entry_round_trip(log[i]);
    }
    assert(items.map_values(|item: Json| entry_of_json(item)->0) == log);
}

/// Where the written text parses back into the document that was written,
/// loading what was saved gives the log that was saved.
pub proof fn lemma_saved_log_loads_equal(log: Seq<EntryView>, contents: Seq<char>)
    requires
        printed_json(log_json(log)) == Some(contents),
        parsed_json(contents) == Some(log_json(log)),
    ensures
        log_of_text(contents) == log,
{
    lemma_log_round_trip(log);
}

} // verus!
