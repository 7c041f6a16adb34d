//! The bounded-log cache: a chronological record of model answers.
//!
//! The log holds at most [`MAX_ITEMS`] entries, oldest first. A new entry goes
//! to the newest end; when the log is full the oldest entry leaves first. Reading
//! never reorders the log.

pub mod store;

use vstd::prelude::*;
use std::collections::VecDeque;
use crate::json::printed_json;
use crate::text::{lowercased, is_substring, to_lowercase, contains, lemma_text_occurs_in_itself};
use crate::history::store::{log_of_text, log_json, decode_log, encode_log};

verus! {

/// The number of entries that the log holds at most.
pub const MAX_ITEMS: usize = 1000;

/// One recorded answer of a model.
pub struct Entry {
    pub model: String,
    pub prompt: String,
    pub response: String,
    /// The conversation context that the provider returned with the answer.
    pub context: Vec<u64>,
}

/// The mathematical value of an [`Entry`].
pub struct EntryView {
    pub model: Seq<char>,
    pub prompt: Seq<char>,
    pub response: Seq<char>,
    pub context: Seq<u64>,
}

impl View for Entry {
    type V = EntryView;

    open spec fn view(&self) -> EntryView {
        EntryView {
            model: self.model@,
            prompt: self.prompt@,
            response: self.response@,
            context: self.context@,
        }
    }
}

/// The stored collection: the entries, oldest first.
pub struct Data {
    pub entries: VecDeque<Entry>,
}

impl View for Data {
    type V = Seq<EntryView>;

    open spec fn view(&self) -> Seq<EntryView> {
        self.entries@.map_values(|e: Entry| e@)
    }
}

impl Data {
    /// The empty collection.
    pub fn new() -> (data: Self)
        ensures
            data@ == Seq::<EntryView>::empty(),
    {
        Data { entries: VecDeque::new() }
    }
}

/// Whether two names stand for the same model: they are equal in lower case.
pub open spec fn same_model(recorded: Seq<char>, requested: Seq<char>) -> bool {
    lowercased(recorded) == lowercased(requested)
}

/// Whether an entry answers a request: it is of the requested model, and its
/// prompt in lower case contains the requested prompt in lower case.
pub open spec fn answers(entry: EntryView, model: Seq<char>, prompt: Seq<char>) -> bool {
    &&& same_model(entry.model, model)
    &&& is_substring(lowercased(prompt), lowercased(entry.prompt))
}

/// Whether `i` is the place of the oldest entry that answers the request.
pub open spec fn is_oldest_answer(
    log: Seq<EntryView>,
    model: Seq<char>,
    prompt: Seq<char>,
    i: int,
) -> bool {
    &&& 0 <= i < log.len()
    &&& answers(log[i], model, prompt)
    &&& forall|j: int| 0 <= j < i ==> !answers(#[trigger] log[j], model, prompt)
}

/// The cached response to a request: that of the oldest entry that answers it.
pub open spec fn find_response(log: Seq<EntryView>, model: Seq<char>, prompt: Seq<char>) -> Option<
    Seq<char>,
> {
    if exists|i: int| is_oldest_answer(log, model, prompt, i) {
        Some(log[choose|i: int| is_oldest_answer(log, model, prompt, i)].response)
    } else {
        None
    }
}

/// Whether `i` is the place of the newest entry recorded for the model, the
/// case of letters set aside.
pub open spec fn is_newest_of_model(log: Seq<EntryView>, model: Seq<char>, i: int) -> bool {
    &&& 0 <= i < log.len()
    &&& same_model(log[i].model, model)
    &&& forall|j: int| i < j < log.len() ==> !same_model(#[trigger] log[j].model, model)
}

/// The context of the newest entry recorded for the model.
pub open spec fn find_latest_context(log: Seq<EntryView>, model: Seq<char>) -> Option<Seq<u64>> {
    if exists|i: int| is_newest_of_model(log, model, i) {
        Some(log[choose|i: int| is_newest_of_model(log, model, i)].context)
    } else {
        None
    }
}

/// The log after an entry is recorded: a full log loses its oldest entry, then
/// the new entry is put at the newest end.
pub open spec fn appended(log: Seq<EntryView>, entry: EntryView) -> Seq<EntryView> {
    if log.len() >= MAX_ITEMS {
        log.drop_first().push(entry)
    } else {
        log.push(entry)
    }
}

/// At most one place holds the oldest answer to a request.
pub proof fn lemma_oldest_answer_unique(
    log: Seq<EntryView>,
    model: Seq<char>,
    prompt: Seq<char>,
    i: int,
    j: int,
)
    requires
        is_oldest_answer(log, model, prompt, i),
        is_oldest_answer(log, model, prompt, j),
    ensures
        i == j,
{
    if i < j {
        assert(!answers(log[i], model, prompt));
    } else if j < i {
        assert(!answers(log[j], model, prompt));
    }
}

/// At most one place holds the newest entry of a model.
pub proof fn lemma_newest_of_model_unique(log: Seq<EntryView>, model: Seq<char>, i: int, j: int)
    requires
        is_newest_of_model(log, model, i),
        is_newest_of_model(log, model, j),
    ensures
        i == j,
{
    if i < j {
        assert(!same_model(log[j].model, model));
    } else if j < i {
        assert(!same_model(log[i].model, model));
    }
}

/// A cache of model answers, kept in the file at `file_path`.
///
/// The value holds the collection as it was read from the file; the caller
/// writes it back after a change.
pub struct FileCache {
    file_path: String,
    data: Data,
}

impl View for FileCache {
    type V = Seq<EntryView>;

    closed spec fn view(&self) -> Seq<EntryView> {
        self.data@
    }
}

impl FileCache {
    /// The path of the file that holds the cache.
    pub closed spec fn path(&self) -> Seq<char> {
        self.file_path@
    }

    /// A cache at `file_path` with nothing stored.
    pub fn new(file_path: &str) -> (cache: Self)
        ensures
            cache.path() == file_path@,
            cache@ == Seq::<EntryView>::empty(),
    {
        FileCache { file_path: file_path.to_string(), data: Data::new() }
    }

    /// The path of the file that holds the cache.
    pub fn file_path(&self) -> (path: &str)
        ensures
            path@ == self.path(),
    {
        self.file_path.as_str()
    }

    /// The collection that the cache holds.
    pub fn data(&self) -> (data: &Data)
        ensures
            data@ == self@,
    {
        &self.data
    }

    /// Takes the contents of the cache file for the stored log. Contents that
    /// cannot be read as a log leave the cache empty.
    pub fn load_cache(&mut self, contents: &str)
        ensures
            final(self).path() == old(self).path(),
            final(self)@ == log_of_text(contents@),
    {
        self.data = decode_log(contents);
    }

    /// The contents to write to the cache file: the log as one JSON document.
    /// `None` where the document cannot be written as text; the file is then
    /// left as it is.
    pub fn save_cache(&self) -> (r: Option<String>)
        ensures
            match r {
                Some(contents) => printed_json(log_json(self@)) == Some(contents@),
                None => printed_json(log_json(self@)) is None,
            },
    {
        encode_log(&self.data)
    }

    /// Records an answer. A log that already holds [`MAX_ITEMS`] entries loses
    /// its oldest entry first.
    pub fn add_response(&mut self, model: &str, prompt: &str, response: &str, context: &Vec<u64>)
        ensures
            final(self).path() == old(self).path(),
            final(self)@ == appended(
                old(self)@,
                EntryView {
                    model: model@,
                    prompt: prompt@,
                    response: response@,
                    context: context@,
                },
            ),
            old(self)@.len() <= MAX_ITEMS ==> final(self)@.len() <= MAX_ITEMS,
    {
        let entry = Entry {
            model: model.to_string(),
            prompt: prompt.to_string(),
            response: response.to_string(),
            context: context.clone(),
        };
        if self.data.entries.len() >= MAX_ITEMS {
            self.data.entries.pop_front();
        }
        self.data.entries.push_back(entry);
    }

    /// Looks a request up: the response of the oldest entry whose model is the
    /// requested one and whose prompt contains the requested prompt, both
    /// compared in lower case.
    pub fn get_response(&self, model: &str, prompt: &str) -> (r: Option<String>)
        ensures
            match r {
                Some(response) => find_response(self@, model@, prompt@) == Some(response@),
                None => find_response(self@, model@, prompt@) is None,
            },
    {
        let prompt_lower = to_lowercase(prompt);
        let model_lower = to_lowercase(model);
        let mut i: usize = 0;
        while i < self.data.entries.len()
            invariant
                i <= self.data.entries.len(),
                prompt_lower@ == lowercased(prompt@),
                model_lower@ == lowercased(model@),
                forall|j: int| 0 <= j < i ==> !answers(#[trigger] self@[j], model@, prompt@),
            decreases self.data.entries.len() - i,
        {
            let entry = &self.data.entries[i];
            if to_lowercase(entry.model.as_str()) == model_lower && contains(
                to_lowercase(entry.prompt.as_str()).as_str(),
                prompt_lower.as_str(),
            ) {
                proof {
                    assert(is_oldest_answer(self@, model@, prompt@, i as int));
                    let k = choose|k: int| is_oldest_answer(self@, model@, prompt@, k);
                    lemma_oldest_answer_unique(self@, model@, prompt@, i as int, k);
                }
                return Some(entry.response.clone());
            }
            i += 1;
        }
        proof {
            assert forall|k: int| !is_oldest_answer(self@, model@, prompt@, k) by {
                if 0 <= k < self@.len() {
                    assert(!answers(self@[k], model@, prompt@));
                }
            }
        }
        None
    }

    /// The context of the newest entry recorded for the model, the case of
    /// letters set aside as in [`FileCache::get_response`]. Entries of other
    /// models are passed over.
    pub fn get_latest_context(&self, model: &str) -> (r: Option<Vec<u64>>)
        ensures
            match r {
                Some(context) => find_latest_context(self@, model@) == Some(context@),
                None => find_latest_context(self@, model@) is None,
            },
    {
        let model_lower = to_lowercase(model);
        let mut i: usize = self.data.entries.len();
        while i > 0
            invariant
                i <= self.data.entries.len(),
                model_lower@ == lowercased(model@),
                forall|j: int|
                    i <= j < self@.len() ==> !same_model(
                        #[trigger] self@[j].model,
                        model@,
                    ),
            decreases i,
        {
            i -= 1;
            let entry = &self.data.entries[i];
            if to_lowercase(entry.model.as_str()) == model_lower {
                proof {
                    assert(is_newest_of_model(self@, model@, i as int));
                    let k = choose|k: int| is_newest_of_model(self@, model@, k);
                    lemma_newest_of_model_unique(self@, model@, i as int, k);
                }
                return Some(entry.context.clone());
            }
        }
        proof {
            assert forall|k: int| !is_newest_of_model(self@, model@, k) by {
                if 0 <= k < self@.len() {
                    assert(!same_model(self@[k].model, model@));
                }
            }
        }
        None
    }

    /// Removes every entry. No request is answered from the cache afterwards.
    pub fn clear(&mut self)
        ensures
            final(self).path() == old(self).path(),
            final(self)@ == Seq::<EntryView>::empty(),
            forall|model: Seq<char>, prompt: Seq<char>|
                #[trigger] find_response(final(self)@, model, prompt) is None,
            forall|model: Seq<char>| #[trigger] find_latest_context(final(self)@, model) is None,
    {
        self.data = Data::new();
        proof {
            assert forall|model: Seq<char>, prompt: Seq<char>|
                #[trigger] find_response(self@, model, prompt) is None by {
                lemma_empty_log_answers_nothing(model, prompt);
            }
        }
    }
}

/// The log that results from recording the given entries one after the other,
/// starting with nothing stored.
pub open spec fn recorded(entries: Seq<EntryView>) -> Seq<EntryView>
    decreases entries.len(),
{
    if entries.len() == 0 {
        Seq::empty()
    } else {
        appended(recorded(entries.drop_last()), entries.last())
    }
}

/// The newest entries of a run, at most [`MAX_ITEMS`] of them.
pub open spec fn newest(entries: Seq<EntryView>) -> Seq<EntryView> {
    if entries.len() <= MAX_ITEMS {
        entries
    } else {
        entries.subrange(entries.len() - MAX_ITEMS, entries.len() as int)
    }
}

/// Recording an entry in a log within its bound leaves the log within its
/// bound.
pub proof fn lemma_appended_keeps_bound(log: Seq<EntryView>, entry: EntryView)
    requires
        log.len() <= MAX_ITEMS,
    ensures
        appended(log, entry).len() <= MAX_ITEMS,
{
}

/// An empty log answers no request and holds no context.
pub proof fn lemma_empty_log_answers_nothing(model: Seq<char>, prompt: Seq<char>)
    ensures
        find_response(Seq::empty(), model, prompt) is None,
        find_latest_context(Seq::empty(), model) is None,
{
}

/// Where some entry answers a request, the response is that of the oldest such
/// entry: the first entry that answers is the one at the place found.
pub proof fn lemma_find_response_is_oldest(
    log: Seq<EntryView>,
    model: Seq<char>,
    prompt: Seq<char>,
    i: int,
)
    requires
        is_oldest_answer(log, model, prompt, i),
    ensures
        find_response(log, model, prompt) == Some(log[i].response),
{
    let k = choose|k: int| is_oldest_answer(log, model, prompt, k);
    lemma_oldest_answer_unique(log, model, prompt, i, k);
}

/// A request is answered from the log exactly where some entry answers it.
pub proof fn lemma_find_response_hits(log: Seq<EntryView>, model: Seq<char>, prompt: Seq<char>)
    ensures
        find_response(log, model, prompt) is Some <==> exists|i: int|
            0 <= i < log.len() && answers(#[trigger] log[i], model, prompt),
{
    if exists|i: int| 0 <= i < log.len() && answers(#[trigger] log[i], model, prompt) {
        let i = choose|i: int| 0 <= i < log.len() && answers(#[trigger] log[i], model, prompt);
        lemma_oldest_answer_exists(log, model, prompt, i);
    }
}

/// Where the entry at `i` answers a request, some place at or before `i` holds
/// the oldest answer.
proof fn lemma_oldest_answer_exists(
    log: Seq<EntryView>,
    model: Seq<char>,
    prompt: Seq<char>,
    i: int,
)
    requires
        0 <= i < log.len(),
        answers(log[i], model, prompt),
    ensures
        exists|k: int| 0 <= k <= i && is_oldest_answer(log, model, prompt, k),
    decreases i,
{
    if exists|j: int| 0 <= j < i && answers(#[trigger] log[j], model, prompt) {
        let j = choose|j: int| 0 <= j < i && answers(#[trigger] log[j], model, prompt);
        lemma_oldest_answer_exists(log, model, prompt, j);
    } else {
        assert(is_oldest_answer(log, model, prompt, i));
    }
}

/// Recording entries one after the other keeps the newest [`MAX_ITEMS`] of
/// them, in the order in which they came.
pub proof fn lemma_recorded_keeps_newest(entries: Seq<EntryView>)
    ensures
        recorded(entries) == newest(entries),
    decreases entries.len(),
{
    if entries.len() > 0 {
        let before = entries.drop_last();
        lemma_recorded_keeps_newest(before);
        assert(appended(newest(before), entries.last()) == newest(entries));
    }
}

/// Recording one entry more than the log can hold leaves exactly
/// [`MAX_ITEMS`] entries: all but the one recorded first.
pub proof fn lemma_one_too_many_drops_the_first(entries: Seq<EntryView>)
    requires
        entries.len() == MAX_ITEMS + 1,
    ensures
        recorded(entries).len() == MAX_ITEMS,
        recorded(entries) == entries.drop_first(),
{
    lemma_recorded_keeps_newest(entries);
}

/// A request that none of the recorded entries answers is a miss.
pub proof fn lemma_never_recorded_is_a_miss(
    entries: Seq<EntryView>,
    model: Seq<char>,
    prompt: Seq<char>,
)
    requires
        forall|i: int| 0 <= i < entries.len() ==> !answers(#[trigger] entries[i], model, prompt),
    ensures
        find_response(recorded(entries), model, prompt) is None,
{
    lemma_recorded_keeps_newest(entries);
    lemma_find_response_hits(recorded(entries), model, prompt);
}

/// The log holds no context for a model of which no entry was recorded.
pub proof fn lemma_model_never_recorded_has_no_context(entries: Seq<EntryView>, model: Seq<char>)
    requires
        forall|i: int|
            0 <= i < entries.len() ==> !same_model(#[trigger] entries[i].model, model),
    ensures
        find_latest_context(recorded(entries), model) is None,
{
    lemma_recorded_keeps_newest(entries);
    let log = recorded(entries);
    assert forall|k: int| !is_newest_of_model(log, model, k) by {
        if 0 <= k < log.len() {
            if entries.len() <= MAX_ITEMS {
                assert(log[k] == entries[k]);
            } else {
                assert(log[k] == entries[k + entries.len() - MAX_ITEMS]);
            }
        }
    }
}

/// An entry that was just recorded gives the context for its model, whatever
/// the log held before and whatever the case of the model's letters.
pub proof fn lemma_latest_context_is_of_newest_entry(
    log: Seq<EntryView>,
    entry: EntryView,
    model: Seq<char>,
)
    requires
        same_model(entry.model, model),
    ensures
        find_latest_context(appended(log, entry), model) == Some(entry.context),
{
    let after = appended(log, entry);
    let last = after.len() - 1;
    assert(after[last] == entry);
    assert(is_newest_of_model(after, model, last));
    let k = choose|k: int| is_newest_of_model(after, model, k);
    lemma_newest_of_model_unique(after, model, last, k);
}

/// Where some entry is of the model at or before place `i`, some place holds
/// the newest entry of the model.
proof fn lemma_newest_of_model_exists(log: Seq<EntryView>, model: Seq<char>, i: int)
    requires
        0 <= i < log.len(),
        same_model(log[i].model, model),
    ensures
        exists|k: int| i <= k < log.len() && is_newest_of_model(log, model, k),
    decreases log.len() - i,
{
    if exists|j: int| i < j < log.len() && same_model(#[trigger] log[j].model, model) {
        let j = choose|j: int| i < j < log.len() && same_model(#[trigger] log[j].model, model);
        lemma_newest_of_model_exists(log, model, j);
    } else {
        assert(is_newest_of_model(log, model, i));
    }
}

/// The log holds a context for a model exactly where some entry is of that
/// model.
pub proof fn lemma_find_latest_context_hits(log: Seq<EntryView>, model: Seq<char>)
    ensures
        find_latest_context(log, model) is Some <==> exists|i: int|
            0 <= i < log.len() && same_model(#[trigger] log[i].model, model),
{
    if exists|i: int| 0 <= i < log.len() && same_model(#[trigger] log[i].model, model) {
        let i = choose|i: int| 0 <= i < log.len() && same_model(#[trigger] log[i].model, model);
        lemma_newest_of_model_exists(log, model, i);
    }
}

/// A model of which the log answers a request has a context in the log: both
/// lookups take the same names for the same model.
pub proof fn lemma_answered_model_has_context(
    log: Seq<EntryView>,
    model: Seq<char>,
    prompt: Seq<char>,
)
    requires
        find_response(log, model, prompt) is Some,
    ensures
        find_latest_context(log, model) is Some,
{
    lemma_find_response_hits(log, model, prompt);
    let i = choose|i: int| 0 <= i < log.len() && answers(#[trigger] log[i], model, prompt);
    assert(same_model(log[i].model, model));
    lemma_find_latest_context_hits(log, model);
}

/// Once an answer is recorded, its context is the one that the log holds for
/// its model.
pub proof fn lemma_recorded_context_is_latest(log: Seq<EntryView>, entry: EntryView)
    ensures
        find_latest_context(appended(log, entry), entry.model) == Some(entry.context),
{
        lemma_latest_context_is_of_newest_entry(log, entry, entry.model);
}

/// An entry recorded for another model leaves the context of a model as it
/// was, as long as no entry had to leave the log.
pub proof fn lemma_other_model_keeps_context(
    log: Seq<EntryView>,
    entry: EntryView,
    model: Seq<char>,
)
    requires
        log.len() < MAX_ITEMS,
        !same_model(entry.model, model),
    ensures
        find_latest_context(appended(log, entry), model) == find_latest_context(log, model),
{
    let after = log.push(entry);
    assert forall|k: int| is_newest_of_model(after, model, k) <==> is_newest_of_model(
        log,
        model,
        k,
    ) by {
        if 0 <= k < log.len() {
            assert(after[k] == log[k]);
            if is_newest_of_model(log, model, k) {
                assert forall|j: int| k < j < after.len() implies !same_model(
                    #[trigger] after[j].model,
                    model,
                ) by {
                    if j < log.len() {
                        assert(after[j] == log[j]);
                    }
                }
            }
            if is_newest_of_model(after, model, k) {
                assert forall|j: int| k < j < log.len() implies !same_model(
                    #[trigger] log[j].model,
                    model,
                ) by {
                    assert(after[j] == log[j]);
                }
            }
        }
    }
    if exists|k: int| is_newest_of_model(log, model, k) {
        let k = choose|k: int| is_newest_of_model(log, model, k);
        assert(is_newest_of_model(after, model, k));
        let k2 = choose|k2: int| is_newest_of_model(after, model, k2);
        lemma_newest_of_model_unique(after, model, k, k2);
        assert(after[k] == log[k]);
    }
}

/// Once an answer is recorded, the request it was recorded for is a hit,
/// whatever the log held before: the log gives the new response, or that of an
/// older entry that answers the request too.
pub proof fn lemma_recorded_request_is_a_hit(log: Seq<EntryView>, entry: EntryView)
    ensures
        answers(entry, entry.model, entry.prompt),
        find_response(appended(log, entry), entry.model, entry.prompt) is Some,
{
    lemma_text_occurs_in_itself(lowercased(entry.prompt));
    let after = appended(log, entry);
    assert(after[after.len() - 1] == entry);
    lemma_find_response_hits(after, entry.model, entry.prompt);
}

/// Among the entries that answer a request the oldest wins: an entry recorded
/// later never displaces a response that the log already gives, as long as no
/// entry had to leave the log.
pub proof fn lemma_older_answer_wins(
    log: Seq<EntryView>,
    entry: EntryView,
    model: Seq<char>,
    prompt: Seq<char>,
)
    requires
        log.len() < MAX_ITEMS,
        find_response(log, model, prompt) is Some,
    ensures
        find_response(appended(log, entry), model, prompt) == find_response(log, model, prompt),
{
    let after = log.push(entry);
    let i = choose|i: int| is_oldest_answer(log, model, prompt, i);
    assert(after[i] == log[i]);
    assert forall|j: int| 0 <= j < i implies !answers(#[trigger] after[j], model, prompt) by {
        assert(after[j] == log[j]);
    }
    lemma_find_response_is_oldest(after, model, prompt, i);
}

} // verus!
