//! The stored form of the collection: one JSON document,
//! `{"entries": {<key>: {"body": .., "expiry": .., "etag": .., "last_modified": ..}, ..}}`.
//! A member that an entry does not set is written as `null`; on reading it may
//! also be left out.

use vstd::prelude::*;
use serde_json::Value;
use crate::assoc::{pairs_map, distinct_keys, lemma_pairs_map_push, lemma_pairs_map_keys,
    lemma_pairs_map_value, lemma_pairs_map_values};
use crate::json::{Json, JsonNumber, json_model, member_list, parsed_json, printed_json,
    parse_json, value_get, value_members, json_null, json_string, json_number, json_object,
    print_json};
use crate::document::{number_json, read_text, add_member, no_members,
    lemma_member_names_differ};
use crate::ttl::{CacheEntry, CacheEntryView, CacheData};

verus! {

/// The document that stands for an optional number.
pub open spec fn optional_number_json(n: Option<u64>) -> Json {
    match n {
        Some(n) => number_json(n),
        None => Json::Null,
    }
}

/// The document that stands for an optional text.
pub open spec fn optional_text_json(text: Option<Seq<char>>) -> Json {
    match text {
        Some(text) => Json::Text(text),
        None => Json::Null,
    }
}

/// The document that stands for an entry.
pub open spec fn entry_json(entry: CacheEntryView) -> Json {
    Json::Object(
        map![
            "body"@ => Json::Text(entry.body),
            "expiry"@ => optional_number_json(entry.expiry),
            "etag"@ => optional_text_json(entry.etag),
            "last_modified"@ => optional_number_json(entry.last_modified),
        ],
    )
}

/// The document that stands for a collection.
pub open spec fn cache_json(cache: Map<Seq<char>, CacheEntryView>) -> Json {
    Json::Object(
        map![
            "entries"@ => Json::Object(cache.map_values(|entry: CacheEntryView| entry_json(entry))),
        ],
    )
}

/// The optional number that a member stands for: none where the member is
/// missing or `null`. A member of another kind stands for nothing.
pub open spec fn optional_number_of(member: Option<Json>) -> Option<Option<u64>> {
    match member {
        None => Some(None),
        Some(Json::Null) => Some(None),
        Some(Json::Number(JsonNumber::Unsigned(n))) => Some(Some(n)),
        Some(_) => None,
    }
}

/// The optional text that a member stands for: none where the member is
/// missing or `null`. A member of another kind stands for nothing.
pub open spec fn optional_text_of(member: Option<Json>) -> Option<Option<Seq<char>>> {
    match member {
        None => Some(None),
        Some(Json::Null) => Some(None),
        Some(Json::Text(text)) => Some(Some(text)),
        Some(_) => None,
    }
}

/// The entry that a document stands for: it must be an object with a string
/// under `body`; `expiry` and `last_modified` are optional numbers, `etag` is
/// an optional string.
pub open spec fn entry_of_json(doc: Json) -> Option<CacheEntryView> {
    match (
        doc.member("body"@),
        optional_number_of(doc.member("expiry"@)),
        optional_text_of(doc.member("etag"@)),
        optional_number_of(doc.member("last_modified"@)),
    ) {
        (Some(Json::Text(body)), Some(expiry), Some(etag), Some(last_modified)) => Some(
            CacheEntryView { body, expiry, etag, last_modified },
        ),
        _ => None,
    }
}

/// The collection that a document stands for: it must be an object with an
/// object under `entries`, each of whose members stands for an entry.
pub open spec fn cache_of_json(doc: Json) -> Option<Map<Seq<char>, CacheEntryView>> {
    match doc.member("entries"@) {
        Some(Json::Object(members)) => if forall|key: Seq<char>|
            members.contains_key(key) ==> entry_of_json(#[trigger] members[key]) is Some {
            Some(members.map_values(|member: Json| entry_of_json(member)->0))
        } else {
            None
        },
        _ => None,
    }
}

/// The collection that the contents of a file stand for. Contents that are no
/// JSON document, or a document of another shape, stand for the empty
/// collection.
pub open spec fn cache_of_text(contents: Seq<char>) -> Map<Seq<char>, CacheEntryView> {
    match parsed_json(contents) {
        Some(doc) => match cache_of_json(doc) {
            Some(cache) => cache,
            None => Map::empty(),
        },
        None => Map::empty(),
    }
}

fn read_optional_number(value: &Value, name: &str) -> (r: Option<Option<u64>>)
    ensures
        r == optional_number_of(json_model(*value).member(name@)),
{
    match value_get(value, name) {
        Some(field) => match field.as_u64() {
            Some(n) => Some(Some(n)),
            None => if field.is_null() {
                Some(None)
            } else {
                None
            },
        },
        None => Some(None),
    }
}

fn read_optional_text(value: &Value, name: &str) -> (r: Option<Option<String>>)
    ensures
        match r {
            Some(Some(text)) => optional_text_of(json_model(*value).member(name@)) == Some(
                Some(text@),
            ),
            Some(None) => optional_text_of(json_model(*value).member(name@)) == Some(
                None::<Seq<char>>,
            ),
            None => optional_text_of(json_model(*value).member(name@)) is None,
        },
{
    match value_get(value, name) {
        Some(field) => match field.as_str() {
            Some(text) => Some(Some(text.to_string())),
            None => if field.is_null() {
                Some(None)
            } else {
                None
            },
        },
        None => Some(None),
    }
}

fn read_entry(value: &Value) -> (r: Option<CacheEntry>)
    ensures
        match r {
            Some(entry) => entry_of_json(json_model(*value)) == Some(entry@),
            None => entry_of_json(json_model(*value)) is None,
        },
{
    let body = match read_text(value, "body") {
        Some(body) => body,
        None => {
            return None;
        },
    };
    let expiry = match read_optional_number(value, "expiry") {
        Some(expiry) => expiry,
        None => {
            return None;
        },
    };
    let etag = match read_optional_text(value, "etag") {
        Some(etag) => etag,
        None => {
            return None;
        },
    };
    let last_modified = match read_optional_number(value, "last_modified") {
        Some(last_modified) => last_modified,
        None => {
            return None;
        },
    };
    Some(CacheEntry { body, expiry, etag, last_modified })
}

fn read_cache(value: &Value) -> (r: Option<CacheData>)
    ensures
        match r {
            Some(data) => cache_of_json(json_model(*value)) == Some(data@),
            None => cache_of_json(json_model(*value)) is None,
        },
{
    let pairs = match value_get(value, "entries") {
        Some(field) => match value_members(field) {
            Some(pairs) => pairs,
            None => {
                return None;
            },
        },
        None => {
            return None;
        },
    };
    let ghost listed = pairs@.map_values(|m: (&String, &Value)| (m.0@, json_model(*m.1)));
    let ghost members = pairs_map(listed);
    let ghost read = |member: Json| entry_of_json(member)->0;
    let ghost read_pair = |pair: (Seq<char>, Json)| (pair.0, entry_of_json(pair.1)->0);
    let mut data = CacheData::new();
    let mut i: usize = 0;
    while i < pairs.len()
        invariant
            i <= pairs.len(),
            listed == pairs@.map_values(|m: (&String, &Value)| (m.0@, json_model(*m.1))),
            members == pairs_map(listed),
            distinct_keys(listed),
            json_model(*value).member("entries"@) == Some(Json::Object(members)),
            read_pair == |pair: (Seq<char>, Json)| (pair.0, entry_of_json(pair.1)->0),
            forall|k: int| 0 <= k < i ==> entry_of_json((#[trigger] listed[k]).1) is Some,
            data@ == pairs_map(listed.take(i as int).map_values(read_pair)),
        decreases pairs.len() - i,
    {
        proof {
            lemma_pairs_map_value(listed, i as int);
        }
        match read_entry(pairs[i].1) {
            Some(entry) => {
                proof {
                    let done = listed.take(i as int).map_values(read_pair);
                    lemma_pairs_map_push(done, listed[i as int].0, entry@);
                    assert(listed.take(i + 1).map_values(read_pair) == done.push(
                        (listed[i as int].0, entry@),
                    ));
                }
                data.insert(pairs[i].0.clone(), entry);
            },
            None => {
                assert(entry_of_json(members[listed[i as int].0]) is None);
                return None;
            },
        }
        i += 1;
    }
    proof {
        assert(listed.take(pairs.len() as int) == listed);
        lemma_pairs_map_values(listed, read);
        assert(listed.map_values(read_pair) == listed.map_values(
            |pair: (Seq<char>, Json)| (pair.0, read(pair.1)),
        ));
        lemma_pairs_map_keys(listed);
        assert forall|key: Seq<char>| members.contains_key(key) implies entry_of_json(
            #[trigger] members[key],
        ) is Some by {
            let k = choose|k: int| 0 <= k < listed.len() && (#[trigger] listed[k]).0 == key;
            lemma_pairs_map_value(listed, k);
        }
    }
    Some(data)
}

/// Reads the collection from the contents of its file. Contents that cannot
/// be read as a collection give the empty collection.
pub fn decode_cache(contents: &str) -> (data: CacheData)
    ensures
        data@ == cache_of_text(contents@),
{
    match parse_json(contents) {
        Some(value) => match read_cache(&value) {
            Some(data) => data,
            None => CacheData::new(),
        },
        None => CacheData::new(),
    }
}

fn optional_number_value(n: Option<u64>) -> (r: Value)
    ensures
        json_model(r) == optional_number_json(n),
{
    match n {
        Some(n) => json_number(n),
        None => json_null(),
    }
}

fn optional_text_value(text: &Option<String>) -> (r: Value)
    ensures
        json_model(r) == optional_text_json(
            match text {
                Some(text) => Some(text@),
                None => None,
            },
        ),
{
    match text {
        Some(text) => json_string(text.clone()),
        None => json_null(),
    }
}

fn entry_value(entry: &CacheEntry) -> (r: Value)
    ensures
        json_model(r) == entry_json(entry@),
{
    proof {
        lemma_member_names_differ();
    }
    let mut members = no_members();
    add_member(&mut members, "body", json_string(entry.body.clone()));
    add_member(&mut members, "expiry", optional_number_value(entry.expiry));
    add_member(&mut members, "etag", optional_text_value(&entry.etag));
    add_member(&mut members, "last_modified", optional_number_value(entry.last_modified));
    json_object(members)
}

fn cache_value(data: &CacheData) -> (r: Value)
    ensures
        json_model(r) == cache_json(data@),
{
    let ghost write = |entry: CacheEntryView| entry_json(entry);
    let ghost write_pair = |pair: (Seq<char>, CacheEntryView)| (pair.0, entry_json(pair.1));
    let mut entries: Vec<(String, Value)> = Vec::new();
    let count = data.len();
    let mut i: usize = 0;
    while i < count
        invariant
            i <= count,
            count == data.listing().len(),
            write_pair == |pair: (Seq<char>, CacheEntryView)| (pair.0, entry_json(pair.1)),
            member_list(entries@) == data.listing().take(i as int).map_values(write_pair),
        decreases count - i,
    {
        let (key, entry) = data.pair_at(i);
        let ghost before = member_list(entries@);
        entries.push((key.clone(), entry_value(entry)));
        proof {
            assert(member_list(entries@) == before.push(write_pair(data.listing()[i as int])));
            assert(data.listing().take(i + 1).map_values(write_pair) == data.listing().take(
                i as int,
            ).map_values(write_pair).push(write_pair(data.listing()[i as int])));
        }
        i += 1;
    }
    proof {
        let written = member_list(entries@);
        assert(data.listing().take(count as int) == data.listing());
        assert(distinct_keys(written)) by {
            assert forall|a: int, b: int| 0 <= a < b < written.len() implies (
            #[trigger] written[a]).0 != (#[trigger] written[b]).0 by {
                assert(written[a].0 == data.listing()[a].0);
                assert(written[b].0 == data.listing()[b].0);
            }
        }
        lemma_pairs_map_values(data.listing(), write);
        assert(written == data.listing().map_values(
            |pair: (Seq<char>, CacheEntryView)| (pair.0, write(pair.1)),
        ));
    }
    let mut members = no_members();
    add_member(&mut members, "entries", json_object(entries));
    json_object(members)
}

/// Writes the collection as the contents of its file. `None` where the
/// document cannot be written as text.
pub fn encode_cache(data: &CacheData) -> (r: Option<String>)
    ensures
        match r {
            Some(contents) => printed_json(cache_json(data@)) == Some(contents@),
            None => printed_json(cache_json(data@)) is None,
        },
{
    let value = cache_value(data);
    print_json(&value)
}

/// The document of an entry stands for that entry.
pub proof fn lemma_entry_round_trip(entry: CacheEntryView)
    ensures
        entry_of_json(entry_json(entry)) == Some(entry),
{
    lemma_member_names_differ();
    assert(entry_json(entry).member("expiry"@) == Some(optional_number_json(entry.expiry)));
    assert(entry_json(entry).member("etag"@) == Some(optional_text_json(entry.etag)));
    assert(entry_json(entry).member("last_modified"@) == Some(
        optional_number_json(entry.last_modified),
    ));
}

/// The document of a collection stands for that collection: what is written
/// is what is read back, key for key.
pub proof fn lemma_cache_round_trip(cache: Map<Seq<char>, CacheEntryView>)
    ensures
        cache_of_json(cache_json(cache)) == Some(cache),
{
    let members = cache.map_values(|entry: CacheEntryView| entry_json(entry));
    assert(cache_json(cache).member("entries"@) == Some(Json::Object(members)));
    assert forall|key: Seq<char>| members.contains_key(key) implies entry_of_json(
        #[trigger] members[key],
    ) == Some(cache[key]) by {
        lemma_entry_round_trip(cache[key]);
    }
    assert(members.map_values(|member: Json| entry_of_json(member)->0) =~= cache);
}

/// Where the written text parses back into the document that was written,
/// loading what was saved gives the collection that was saved.
pub proof fn lemma_saved_cache_loads_equal(
    cache: Map<Seq<char>, CacheEntryView>,
    contents: Seq<char>,
)
    requires
        printed_json(cache_json(cache)) == Some(contents),
        parsed_json(contents) == Some(cache_json(cache)),
    ensures
        cache_of_text(contents) == cache,
{
    lemma_cache_round_trip(cache);
}

} // verus!
