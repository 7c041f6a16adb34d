//! The expiry-time cache: one entry per key, each with an optional expiry.
//!
//! An entry answers a lookup until the time passes its expiry; an entry without
//! an expiry answers always. Storing under a key that is present replaces the
//! entry as a whole.

pub mod store;

use vstd::prelude::*;
use crate::json::printed_json;
use crate::ttl::store::{cache_of_text, cache_json, decode_cache, encode_cache};
use crate::assoc::{pairs_map, distinct_keys, has_key, lemma_pairs_map_keys, lemma_pairs_map_value,
    lemma_pairs_map_push, lemma_pairs_map_update, lemma_pairs_map_remove,
    lemma_pairs_map_without_key, lemma_distinct_keys_push};

verus! {

/// What is stored under a key.
pub struct CacheEntry {
    pub body: String,
    /// The last time at which the entry is fresh; `None` where it stays fresh.
    pub expiry: Option<u64>,
    /// Kept with the entry; no decision reads it.
    pub etag: Option<String>,
    /// Kept with the entry; no decision reads it.
    pub last_modified: Option<u64>,
}

/// The mathematical value of a [`CacheEntry`].
pub struct CacheEntryView {
    pub body: Seq<char>,
    pub expiry: Option<u64>,
    pub etag: Option<Seq<char>>,
    pub last_modified: Option<u64>,
}

impl View for CacheEntry {
    type V = CacheEntryView;

    open spec fn view(&self) -> CacheEntryView {
        CacheEntryView {
            body: self.body@,
            expiry: self.expiry,
            etag: match self.etag {
                Some(etag) => Some(etag@),
                None => None,
            },
            last_modified: self.last_modified,
        }
    }
}

/// The stored collection: a map from keys to entries, kept as a list of pairs
/// in which no key occurs twice.
pub struct CacheData {
    entries: Vec<(String, CacheEntry)>,
}

impl View for CacheData {
    type V = Map<Seq<char>, CacheEntryView>;

    open spec fn view(&self) -> Map<Seq<char>, CacheEntryView> {
        pairs_map(self.listing())
    }
}

/// The keys and values of a list of stored pairs.
spec fn listed(entries: Seq<(String, CacheEntry)>) -> Seq<(Seq<char>, CacheEntryView)> {
    entries.map_values(|pair: (String, CacheEntry)| (pair.0@, pair.1@))
}

impl CacheData {
    /// The keys and entries in the order in which they are kept.
    pub closed spec fn listing(&self) -> Seq<(Seq<char>, CacheEntryView)> {
        listed(self.entries@)
    }

    #[verifier::type_invariant]
    closed spec fn no_key_twice(&self) -> bool {
        distinct_keys(self.listing())
    }

    /// Hands out the list of pairs and leaves none behind. A change is made to
    /// the list in hand and the list is put back, so that at no time a key
    /// occurs twice in the collection.
    fn take(&mut self) -> (entries: Vec<(String, CacheEntry)>)
        ensures
            listed(entries@) == old(self).listing(),
            distinct_keys(listed(entries@)),
    {
        proof {
            use_type_invariant(&*self);
        }
        let mut entries: Vec<(String, CacheEntry)> = Vec::new();
        assert(listed(entries@) == Seq::<(Seq<char>, CacheEntryView)>::empty());
        core::mem::swap(&mut self.entries, &mut entries);
        entries
    }

    /// The empty collection.
    pub fn new() -> (data: Self)
        ensures
            data@ == Map::<Seq<char>, CacheEntryView>::empty(),
            data.listing() == Seq::<(Seq<char>, CacheEntryView)>::empty(),
    {
        let data = CacheData { entries: Vec::new() };
        assert(data.listing() == Seq::<(Seq<char>, CacheEntryView)>::empty());
        data
    }

    /// The number of entries. No key occurs twice among them.
    pub fn len(&self) -> (n: usize)
        ensures
            n == self.listing().len(),
            distinct_keys(self.listing()),
    {
        proof {
            use_type_invariant(self);
        }
        self.entries.len()
    }

    /// The key and the entry at a place of the listing.
    pub fn pair_at(&self, i: usize) -> (pair: (&String, &CacheEntry))
        requires
            i < self.listing().len(),
        ensures
            (pair.0@, pair.1@) == self.listing()[i as int],
    {
        let pair = &self.entries[i];
        (&pair.0, &pair.1)
    }

    /// The place of a key in the listing.
    fn position(&self, key: &String) -> (r: Option<usize>)
        ensures
            match r {
                Some(i) => i < self.listing().len() && self.listing()[i as int].0 == key@,
                None => !has_key(self.listing(), key@),
            },
    {
        let mut i: usize = 0;
        while i < self.entries.len()
            invariant
                i <= self.entries.len(),
                forall|j: int| 0 <= j < i ==> (#[trigger] self.listing()[j]).0 != key@,
            decreases self.entries.len() - i,
        {
            if self.entries[i].0 == *key {
                return Some(i);
            }
            i += 1;
        }
        None
    }

    /// The entry stored under a key.
    pub fn get(&self, key: &str) -> (r: Option<&CacheEntry>)
        ensures
            match r {
                Some(entry) => self@.contains_key(key@) && self@[key@] == entry@,
                None => !self@.contains_key(key@),
            },
    {
        let wanted = key.to_string();
        proof {
            use_type_invariant(self);
            lemma_pairs_map_keys(self.listing());
        }
        match self.position(&wanted) {
            Some(i) => {
                proof {
                    lemma_pairs_map_value(self.listing(), i as int);
                }
                Some(&self.entries[i].1)
            },
            None => None,
        }
    }

    /// Stores an entry under a key, in the place of the entry that the key had.
    pub fn insert(&mut self, key: String, entry: CacheEntry)
        ensures
            final(self)@ == old(self)@.insert(key@, entry@),
    {
        let ghost before = self.listing();
        let found = self.position(&key);
        let mut entries = self.take();
        match found {
            Some(i) => {
                proof {
                    lemma_pairs_map_update(before, i as int, entry@);
                }
                let ghost pair = (key@, entry@);
                entries.set(i, (key, entry));
                assert(listed(entries@) == before.update(i as int, pair));
            },
            None => {
                proof {
                    lemma_pairs_map_push(before, key@, entry@);
                    lemma_distinct_keys_push(before, key@, entry@);
                }
                let ghost pair = (key@, entry@);
                entries.push((key, entry));
                assert(listed(entries@) == before.push(pair));
            },
        }
        *self = CacheData { entries };
    }

    /// Removes the entry stored under a key, if there is one.
    pub fn remove(&mut self, key: &str)
        ensures
            final(self)@ == old(self)@.remove(key@),
    {
        let wanted = key.to_string();
        let ghost before = self.listing();
        let found = self.position(&wanted);
        let mut entries = self.take();
        match found {
            Some(i) => {
                proof {
                    lemma_pairs_map_remove(before, i as int);
                }
                entries.remove(i);
                assert(listed(entries@) == before.remove(i as int));
            },
            None => {
                proof {
                    lemma_pairs_map_without_key(before, key@);
                }
            },
        }
        *self = CacheData { entries };
    }
}

/// Whether an entry is fresh at a time: the time has not passed its expiry.
/// At the expiry itself the entry is still fresh.
pub open spec fn is_fresh(entry: CacheEntryView, now: u64) -> bool {
    match entry.expiry {
        Some(expiry) => now <= expiry,
        None => true,
    }
}

/// The answer from the cache at a time: the body stored under the key, where
/// there is an entry and it is fresh.
pub open spec fn lookup(cache: Map<Seq<char>, CacheEntryView>, key: Seq<char>, now: u64) -> Option<
    Seq<char>,
> {
    if cache.contains_key(key) && is_fresh(cache[key], now) {
        Some(cache[key].body)
    } else {
        None
    }
}

/// A cache of fetched bodies, kept in the file at `file_path`.
///
/// The value holds the collection as it was read from the file; the caller
/// writes it back after a change.
pub struct FileCache {
    file_path: String,
    data: CacheData,
}

impl View for FileCache {
    type V = Map<Seq<char>, CacheEntryView>;

    closed spec fn view(&self) -> Map<Seq<char>, CacheEntryView> {
        self.data@
    }
}

impl FileCache {
    /// The path of the file that holds the cache.
    pub closed spec fn path(&self) -> Seq<char> {
        self.file_path@
    }

    /// A cache at `file_path` with nothing stored.
    pub fn new(file_path: &str) -> (cache: Self)
        ensures
            cache.path() == file_path@,
            cache@ == Map::<Seq<char>, CacheEntryView>::empty(),
    {
        FileCache { file_path: file_path.to_string(), data: CacheData::new() }
    }

    /// The path of the file that holds the cache.
    pub fn file_path(&self) -> (path: &str)
        ensures
            path@ == self.path(),
    {
        self.file_path.as_str()
    }

    /// The collection that the cache holds.
    pub fn data(&self) -> (data: &CacheData)
        ensures
            data@ == self@,
    {
        &self.data
    }

    /// Takes the contents of the cache file for the stored collection. Contents
    /// that cannot be read as a collection leave the cache empty.
    pub fn load_cache(&mut self, contents: &str)
        ensures
            final(self).path() == old(self).path(),
            final(self)@ == cache_of_text(contents@),
    {
        self.data = decode_cache(contents);
    }

    /// The contents to write to the cache file: the collection as one JSON
    /// document. `None` where the document cannot be written as text; the file
    /// is then left as it is.
    pub fn save_cache(&self) -> (r: Option<String>)
        ensures
            match r {
                Some(contents) => printed_json(cache_json(self@)) == Some(contents@),
                None => printed_json(cache_json(self@)) is None,
            },
    {
        encode_cache(&self.data)
    }

    /// Stores a body under a key. An entry that the key had is replaced as a
    /// whole: nothing of it is kept.
    pub fn add_response(
        &mut self,
        key: &str,
        body: &str,
        expiry: Option<u64>,
        etag: Option<&str>,
        last_modified: Option<u64>,
    )
        ensures
            final(self).path() == old(self).path(),
            final(self)@ == old(self)@.insert(
                key@,
                CacheEntryView {
                    body: body@,
                    expiry,
                    etag: match etag {
                        Some(etag) => Some(etag@),
                        None => None,
                    },
                    last_modified,
                },
            ),
    {
        let entry = CacheEntry {
            body: body.to_string(),
            expiry,
            etag: match etag {
                Some(etag) => Some(etag.to_string()),
                None => None,
            },
            last_modified,
        };
        self.data.insert(key.to_string(), entry);
    }

    /// Looks a key up at a time: the stored body, unless there is no entry or
    /// the time has passed the entry's expiry.
    pub fn get_response(&self, key: &str, current_time: u64) -> (r: Option<String>)
        ensures
            match r {
                Some(body) => lookup(self@, key@, current_time) == Some(body@),
                None => lookup(self@, key@, current_time) is None,
            },
    {
        match self.data.get(key) {
            Some(entry) => {
                if let Some(expiry) = entry.expiry {
                    if current_time > expiry {
                        return None;
                    }
                }
                Some(entry.body.clone())
            },
            None => None,
        }
    }

    /// Removes the entry of a key, if there is one.
    pub fn invalidate(&mut self, key: &str)
        ensures
            final(self).path() == old(self).path(),
            final(self)@ == old(self)@.remove(key@),
    {
        self.data.remove(key);
    }

    /// Removes every entry. No key is answered from the cache afterwards.
    pub fn clear(&mut self)
        ensures
            final(self).path() == old(self).path(),
            final(self)@ == Map::<Seq<char>, CacheEntryView>::empty(),
            forall|key: Seq<char>, now: u64| #[trigger] lookup(final(self)@, key, now) is None,
    {
        self.data = CacheData::new();
    }
}

/// A change to the collection.
pub enum Change {
    /// An entry is stored under a key.
    Store { key: Seq<char>, entry: CacheEntryView },
    /// The entry of a key is removed.
    Invalidate { key: Seq<char> },
    /// Every entry is removed.
    Clear,
}

/// The collection after a change.
pub open spec fn changed(cache: Map<Seq<char>, CacheEntryView>, change: Change) -> Map<
    Seq<char>,
    CacheEntryView,
> {
    match change {
        Change::Store { key, entry } => cache.insert(key, entry),
        Change::Invalidate { key } => cache.remove(key),
        Change::Clear => Map::empty(),
    }
}

/// The collection after a run of changes, starting with nothing stored.
pub open spec fn replayed(changes: Seq<Change>) -> Map<Seq<char>, CacheEntryView>
    decreases changes.len(),
{
    if changes.len() == 0 {
        Map::empty()
    } else {
        changed(replayed(changes.drop_last()), changes.last())
    }
}

/// A key under which nothing was ever stored is a miss at every time.
pub proof fn lemma_never_stored_is_a_miss(changes: Seq<Change>, key: Seq<char>, now: u64)
    requires
        forall|i: int|
            0 <= i < changes.len() ==> !(#[trigger] changes[i] matches Change::Store {
                key: stored,
                ..
            } && stored == key),
    ensures
        !replayed(changes).contains_key(key),
        lookup(replayed(changes), key, now) is None,
    decreases changes.len(),
{
    if changes.len() > 0 {
        let before = changes.drop_last();
        assert forall|i: int| 0 <= i < before.len() implies !(#[trigger] before[i] matches Change::Store {
            key: stored,
            ..
        } && stored == key) by {
            assert(before[i] == changes[i]);
        }
        lemma_never_stored_is_a_miss(before, key, now);
        assert(changes.last() == changes[changes.len() - 1]);
    }
}

/// An entry with an expiry answers at the time of its expiry and no longer at
/// the next.
pub proof fn lemma_fresh_until_expiry(
    cache: Map<Seq<char>, CacheEntryView>,
    key: Seq<char>,
    entry: CacheEntryView,
    expiry: u64,
)
    requires
        entry.expiry == Some(expiry),
    ensures
        lookup(cache.insert(key, entry), key, expiry) == Some(entry.body),
        expiry < u64::MAX ==> lookup(cache.insert(key, entry), key, (expiry + 1) as u64) is None,
        forall|now: u64|
            #[trigger] lookup(cache.insert(key, entry), key, now) is Some <==> now <= expiry,
{
}

/// An entry without an expiry answers at every time.
pub proof fn lemma_fresh_without_expiry(
    cache: Map<Seq<char>, CacheEntryView>,
    key: Seq<char>,
    entry: CacheEntryView,
    now: u64,
)
    requires
        entry.expiry is None,
    ensures
        lookup(cache.insert(key, entry), key, now) == Some(entry.body),
{
}

/// Storing under a key replaces what the key had as a whole: afterwards the
/// key has the new entry, whatever it had before, and a lookup sees the new
/// body and the new expiry only. Other keys are answered as before.
pub proof fn lemma_store_replaces(
    cache: Map<Seq<char>, CacheEntryView>,
    key: Seq<char>,
    entry: CacheEntryView,
    now: u64,
)
    ensures
        cache.insert(key, entry)[key] == entry,
        lookup(cache.insert(key, entry), key, now) == if is_fresh(entry, now) {
            Some(entry.body)
        } else {
            None
        },
        forall|other: Seq<char>|
            other != key ==> #[trigger] lookup(cache.insert(key, entry), other, now) == lookup(
                cache,
                other,
                now,
            ),
{
}

/// After its entry is removed a key is a miss at every time; other keys are
/// answered as before.
pub proof fn lemma_invalidated_is_a_miss(
    cache: Map<Seq<char>, CacheEntryView>,
    key: Seq<char>,
    now: u64,
)
    ensures
        lookup(cache.remove(key), key, now) is None,
        forall|other: Seq<char>|
            other != key ==> #[trigger] lookup(cache.remove(key), other, now) == lookup(
                cache,
                other,
                now,
            ),
{
}

} // verus!
