use guest_cache::ttl::store::{decode_cache, encode_cache};
use guest_cache::ttl::{CacheData, CacheEntry, FileCache};

#[test]
fn new_ttl_cache_answers_nothing() {
    let cache = FileCache::new("cache.json");
    assert_eq!(cache.get_response("http://a", 0), None);
    assert_eq!(cache.get_response("", u64::MAX), None);
}

#[test]
fn ttl_cache_knows_its_file_and_its_data() {
    let mut cache = FileCache::new("some/dir/cache.json");
    assert_eq!(cache.file_path(), "some/dir/cache.json");
    assert_eq!(cache.data().len(), 0);
    cache.add_response("k", "b", Some(3), Some("tag"), Some(4));
    assert_eq!(cache.file_path(), "some/dir/cache.json");
    assert_eq!(cache.data().len(), 1);
    let entry = cache.data().get("k").unwrap();
    assert_eq!(entry.body, "b");
    assert_eq!(entry.expiry, Some(3));
    assert_eq!(entry.etag, Some(String::from("tag")));
    assert_eq!(entry.last_modified, Some(4));
}

#[test]
fn key_never_stored_is_a_miss() {
    let mut cache = FileCache::new("cache.json");
    cache.add_response("http://a", "A", None, None, None);
    cache.invalidate("http://b");
    assert_eq!(cache.get_response("http://b", 0), None);
    assert_eq!(cache.get_response("http://A", 0), None);
    assert_eq!(cache.get_response("http://a/", 0), None);
}

#[test]
fn entry_is_fresh_at_its_expiry_and_stale_after() {
    let mut cache = FileCache::new("cache.json");
    cache.add_response("k", "body", Some(100), None, None);
    assert_eq!(cache.get_response("k", 0), Some(String::from("body")));
    assert_eq!(cache.get_response("k", 99), Some(String::from("body")));
    assert_eq!(cache.get_response("k", 100), Some(String::from("body")));
    assert_eq!(cache.get_response("k", 101), None);
    assert_eq!(cache.get_response("k", u64::MAX), None);
}

#[test]
fn entry_with_the_greatest_expiry_is_always_fresh() {
    let mut cache = FileCache::new("cache.json");
    cache.add_response("k", "body", Some(u64::MAX), None, None);
    assert_eq!(cache.get_response("k", u64::MAX), Some(String::from("body")));
}

#[test]
fn entry_with_expiry_zero_is_fresh_only_at_zero() {
    let mut cache = FileCache::new("cache.json");
    cache.add_response("k", "body", Some(0), None, None);
    assert_eq!(cache.get_response("k", 0), Some(String::from("body")));
    assert_eq!(cache.get_response("k", 1), None);
}

#[test]
fn entry_without_expiry_is_always_fresh() {
    let mut cache = FileCache::new("cache.json");
    cache.add_response("k", "body", None, Some("tag"), Some(5));
    assert_eq!(cache.get_response("k", 0), Some(String::from("body")));
    assert_eq!(cache.get_response("k", u64::MAX), Some(String::from("body")));
}

#[test]
fn stale_entry_stays_stored() {
    let mut cache = FileCache::new("cache.json");
    cache.add_response("k", "body", Some(10), None, None);
    assert_eq!(cache.get_response("k", 11), None);
    assert_eq!(cache.get_response("k", 10), Some(String::from("body")));
}

#[test]
fn storing_again_replaces_the_whole_entry() {
    let mut cache = FileCache::new("cache.json");
    cache.add_response("k", "old", Some(10), Some("old-tag"), Some(1));
    cache.add_response("k", "new", None, None, None);
    assert_eq!(cache.get_response("k", 11), Some(String::from("new")));
    let data = decode_cache(&cache.save_cache().unwrap());
    assert_eq!(data.len(), 1);
    let entry = data.get("k").unwrap();
    assert_eq!(entry.body, "new");
    assert_eq!(entry.expiry, None);
    assert_eq!(entry.etag, None);
    assert_eq!(entry.last_modified, None);
}

#[test]
fn storing_again_takes_the_new_expiry() {
    let mut cache = FileCache::new("cache.json");
    cache.add_response("k", "old", None, None, None);
    cache.add_response("k", "new", Some(5), Some("t"), Some(2));
    assert_eq!(cache.get_response("k", 5), Some(String::from("new")));
    assert_eq!(cache.get_response("k", 6), None);
}

#[test]
fn storing_under_one_key_leaves_the_others() {
    let mut cache = FileCache::new("cache.json");
    cache.add_response("a", "A", Some(1), None, None);
    cache.add_response("b", "B", None, None, None);
    cache.add_response("a", "A2", Some(2), None, None);
    assert_eq!(cache.get_response("b", 9), Some(String::from("B")));
    assert_eq!(cache.get_response("a", 2), Some(String::from("A2")));
}

#[test]
fn invalidate_removes_only_its_key() {
    let mut cache = FileCache::new("cache.json");
    cache.add_response("a", "A", None, None, None);
    cache.add_response("b", "B", None, None, None);
    cache.add_response("c", "C", None, None, None);
    cache.invalidate("b");
    assert_eq!(cache.get_response("a", 0), Some(String::from("A")));
    assert_eq!(cache.get_response("b", 0), None);
    assert_eq!(cache.get_response("c", 0), Some(String::from("C")));
    cache.invalidate("b");
    cache.invalidate("missing");
    assert_eq!(cache.get_response("a", 0), Some(String::from("A")));
    assert_eq!(cache.get_response("c", 0), Some(String::from("C")));
}

#[test]
fn clear_leaves_every_key_a_miss() {
    let mut cache = FileCache::new("cache.json");
    cache.add_response("a", "A", None, None, None);
    cache.add_response("b", "B", Some(50), None, None);
    cache.clear();
    assert_eq!(cache.get_response("a", 0), None);
    assert_eq!(cache.get_response("b", 0), None);
    assert_eq!(cache.save_cache(), Some(String::from("{\"entries\":{}}")));
}

#[test]
fn saved_collection_is_one_json_document() {
    let mut cache = FileCache::new("cache.json");
    cache.add_response("http://x/?q=\"1\"", "<html>\n</html>", Some(7), Some("W/\"abc\""), Some(3));
    cache.add_response("plain", "p", None, None, None);
    let text = cache.save_cache().unwrap();
    let doc: serde_json::Value = serde_json::from_str(&text).unwrap();
    let entries = doc.get("entries").unwrap().as_object().unwrap();
    assert_eq!(entries.len(), 2);
    let first = entries.get("http://x/?q=\"1\"").unwrap();
    assert_eq!(first.get("body").unwrap().as_str(), Some("<html>\n</html>"));
    assert_eq!(first.get("expiry").unwrap().as_u64(), Some(7));
    assert_eq!(first.get("etag").unwrap().as_str(), Some("W/\"abc\""));
    assert_eq!(first.get("last_modified").unwrap().as_u64(), Some(3));
    let second = entries.get("plain").unwrap();
    assert_eq!(second.get("body").unwrap().as_str(), Some("p"));
    assert!(second.get("expiry").unwrap().is_null());
    assert!(second.get("etag").unwrap().is_null());
    assert!(second.get("last_modified").unwrap().is_null());
}

#[test]
fn saved_collection_loads_as_an_equal_collection() {
    let mut cache = FileCache::new("cache.json");
    cache.add_response("b", "B", Some(20), Some("tag"), Some(u64::MAX));
    cache.add_response("a", "A", None, None, None);
    cache.add_response("\u{e9}", "accent", Some(0), None, Some(0));
    let first = cache.save_cache().unwrap();
    let mut again = FileCache::new("cache.json");
    again.load_cache(&first);
    assert_eq!(again.save_cache().unwrap(), first);
    assert_eq!(again.get_response("b", 20), Some(String::from("B")));
    assert_eq!(again.get_response("b", 21), None);
    assert_eq!(again.get_response("a", 21), Some(String::from("A")));
    assert_eq!(again.get_response("\u{e9}", 0), Some(String::from("accent")));
    let data = decode_cache(&first);
    assert_eq!(data.len(), 3);
    let entry = data.get("b").unwrap();
    assert_eq!(entry.etag, Some(String::from("tag")));
    assert_eq!(entry.last_modified, Some(u64::MAX));
}

#[test]
fn loads_the_documented_layout_with_members_left_out() {
    let text = "{\"entries\":{\"k\":{\"body\":\"b\"},\"j\":{\"body\":\"c\",\"expiry\":5,\"etag\":null}}}";
    let mut cache = FileCache::new("cache.json");
    cache.load_cache(text);
    assert_eq!(cache.get_response("k", 1000), Some(String::from("b")));
    assert_eq!(cache.get_response("j", 5), Some(String::from("c")));
    assert_eq!(cache.get_response("j", 6), None);
}

#[test]
fn unreadable_contents_load_as_the_empty_collection() {
    let bad = [
        "",
        "garbage",
        "[]",
        "{}",
        "{\"entries\":[]}",
        "{\"entries\":{\"k\":5}}",
        "{\"entries\":{\"k\":{}}}",
        "{\"entries\":{\"k\":{\"body\":1}}}",
        "{\"entries\":{\"k\":{\"body\":\"b\",\"expiry\":-1}}}",
        "{\"entries\":{\"k\":{\"body\":\"b\",\"expiry\":\"soon\"}}}",
        "{\"entries\":{\"k\":{\"body\":\"b\",\"etag\":3}}}",
        "{\"entries\":{\"k\":{\"body\":\"b\",\"last_modified\":1.5}}}",
        "{\"entries\":{\"good\":{\"body\":\"b\"},\"bad\":{\"body\":null}}}",
    ];
    for text in bad {
        let mut cache = FileCache::new("cache.json");
        cache.add_response("k", "old", None, None, None);
        cache.add_response("good", "old", None, None, None);
        cache.load_cache(text);
        assert_eq!(cache.get_response("k", 0), None);
        assert_eq!(cache.get_response("good", 0), None);
        assert_eq!(cache.save_cache(), Some(String::from("{\"entries\":{}}")));
    }
}

#[test]
fn cache_data_keeps_one_entry_per_key() {
    let mut data = CacheData::new();
    assert_eq!(data.len(), 0);
    assert!(data.get("a").is_none());
    data.insert(String::from("a"), CacheEntry { body: String::from("1"), expiry: None, etag: None, last_modified: None });
    data.insert(String::from("b"), CacheEntry { body: String::from("2"), expiry: Some(2), etag: None, last_modified: None });
    data.insert(String::from("a"), CacheEntry { body: String::from("3"), expiry: Some(3), etag: None, last_modified: None });
    assert_eq!(data.len(), 2);
    assert_eq!(data.get("a").unwrap().body, "3");
    assert_eq!(data.get("a").unwrap().expiry, Some(3));
    assert_eq!(data.get("b").unwrap().body, "2");
    let (key, entry) = data.pair_at(0);
    assert_eq!(key, "a");
    assert_eq!(entry.body, "3");
    data.remove("a");
    assert_eq!(data.len(), 1);
    assert!(data.get("a").is_none());
    assert_eq!(data.get("b").unwrap().body, "2");
    data.remove("a");
    assert_eq!(data.len(), 1);
}

#[test]
fn encode_cache_of_given_data() {
    let mut data = CacheData::new();
    data.insert(String::from("k"), CacheEntry { body: String::from("b"), expiry: Some(9), etag: Some(String::from("t")), last_modified: None });
    assert_eq!(
        encode_cache(&data),
        Some(String::from("{\"entries\":{\"k\":{\"body\":\"b\",\"etag\":\"t\",\"expiry\":9,\"last_modified\":null}}}"))
    );
}
