//! The get-or-fetch operation: answer from the cache, or fetch, record and
//! answer.
//!
//! One operation serves both caches; the [`Policy`] of a request says which
//! cache answers it and what a miss fetches.
//!
//! - Under [`Policy::Expiry`] a key is answered by its entry while that is
//!   fresh. On a miss the body is fetched at the key and stored under it
//!   without an expiry.
//! - Under [`Policy::History`] a prompt is answered by the oldest entry of the
//!   model whose prompt contains it. On a miss the model is asked, with the
//!   conversation context of its newest entry; its streamed answer is decoded
//!   and recorded.
//!
//! Reading and writing the cache file and fetching are the caller's part.
//! [`get_or_fetch`] and [`ask`] begin a request and [`resume`] carries it on:
//! each says which [`Action`] comes next; the caller performs it and reports
//! the outcome as an [`Event`], until the action is [`Action::Return`]. The
//! file is read anew for every decision and nothing is held between two
//! requests.

use vstd::prelude::*;
use crate::json::{parsed_json, printed_json};
use crate::text::text_lines;
use crate::decoder::{chunks_of_lines, decoded_text, decoded_context, parse_ollama_stream};
use crate::history;
use crate::history::EntryView;
use crate::history::store::{log_of_text, log_json, lemma_saved_log_loads_equal};
use crate::ttl;
use crate::ttl::CacheEntryView;
use crate::ttl::store::{cache_of_text, cache_json, lemma_saved_cache_loads_equal};

verus! {

/// Which cache answers a request, and what the request asks for.
pub enum Policy {
    /// A key, answered by an entry that is fresh at `current_time`.
    Expiry { key: String, current_time: u64 },
    /// A prompt to a model, answered from the log of earlier answers.
    History { model: String, prompt: String },
}

/// The mathematical value of a [`Policy`].
pub enum PolicyView {
    Expiry { key: Seq<char>, current_time: u64 },
    History { model: Seq<char>, prompt: Seq<char> },
}

impl View for Policy {
    type V = PolicyView;

    open spec fn view(&self) -> PolicyView {
        match self {
            Policy::Expiry { key, current_time } => PolicyView::Expiry {
                key: key@,
                current_time: *current_time,
            },
            Policy::History { model, prompt } => PolicyView::History {
                model: model@,
                prompt: prompt@,
            },
        }
    }
}

/// How far a request has come.
pub enum Phase {
    /// The cache file is being read, to look the request up.
    Looking,
    /// The answer is being fetched.
    Fetching,
    /// The cache file is being read again, to record the answer. The context
    /// is the one that came with the answer; it stays empty under
    /// [`Policy::Expiry`].
    Recording { answer: String, context: Vec<u64> },
    /// The cache file is being written.
    Writing { answer: String },
    /// The request is closed.
    Finished,
}

/// The mathematical value of a [`Phase`].
pub enum PhaseView {
    Looking,
    Fetching,
    Recording { answer: Seq<char>, context: Seq<u64> },
    Writing { answer: Seq<char> },
    Finished,
}

impl View for Phase {
    type V = PhaseView;

    open spec fn view(&self) -> PhaseView {
        match self {
            Phase::Looking => PhaseView::Looking,
            Phase::Fetching => PhaseView::Fetching,
            Phase::Recording { answer, context } => PhaseView::Recording {
                answer: answer@,
                context: context@,
            },
            Phase::Writing { answer } => PhaseView::Writing { answer: answer@ },
            Phase::Finished => PhaseView::Finished,
        }
    }
}

/// A request under way: the cache file, the policy, and the phase reached.
pub struct Session {
    pub file_path: String,
    pub policy: Policy,
    pub phase: Phase,
}

/// The mathematical value of a [`Session`].
pub struct SessionView {
    pub file_path: Seq<char>,
    pub policy: PolicyView,
    pub phase: PhaseView,
}

impl View for Session {
    type V = SessionView;

    open spec fn view(&self) -> SessionView {
        SessionView { file_path: self.file_path@, policy: self.policy@, phase: self.phase@ }
    }
}

/// What the caller reports back.
pub enum Event {
    /// The contents of the cache file; empty where it could not be read.
    Contents(String),
    /// What the provider sent, or `None` where fetching failed.
    Fetched(Option<String>),
    /// Writing the cache file was attempted.
    Written,
}

/// The mathematical value of an [`Event`].
pub enum EventView {
    Contents(Seq<char>),
    Fetched(Option<Seq<char>>),
    Written,
}

impl View for Event {
    type V = EventView;

    open spec fn view(&self) -> EventView {
        match self {
            Event::Contents(contents) => EventView::Contents(contents@),
            Event::Fetched(Some(sent)) => EventView::Fetched(Some(sent@)),
            Event::Fetched(None) => EventView::Fetched(None),
            Event::Written => EventView::Written,
        }
    }
}

/// What the caller is to do next.
pub enum Action {
    /// Read the file and report its contents.
    ReadFromFile { file_name: String },
    /// Fetch the body at the address and report it.
    ManualGet { url: String },
    /// Ask the model and report the stream it sent.
    AskModel { model: String, prompt: String, context: Vec<u64> },
    /// Replace the contents of the file and report that.
    WriteToFile { data: String, file_name: String },
    /// Hand the answer to whoever asked: `None` where there is none.
    Return(Option<String>),
}

/// The mathematical value of an [`Action`].
pub enum ActionView {
    ReadFromFile { file_name: Seq<char> },
    ManualGet { url: Seq<char> },
    AskModel { model: Seq<char>, prompt: Seq<char>, context: Seq<u64> },
    WriteToFile { data: Seq<char>, file_name: Seq<char> },
    Return(Option<Seq<char>>),
}

impl View for Action {
    type V = ActionView;

    open spec fn view(&self) -> ActionView {
        match self {
            Action::ReadFromFile { file_name } => ActionView::ReadFromFile { file_name: file_name@ },
            Action::ManualGet { url } => ActionView::ManualGet { url: url@ },
            Action::AskModel { model, prompt, context } => ActionView::AskModel {
                model: model@,
                prompt: prompt@,
                context: context@,
            },
            Action::WriteToFile { data, file_name } => ActionView::WriteToFile {
                data: data@,
                file_name: file_name@,
            },
            Action::Return(Some(answer)) => ActionView::Return(Some(answer@)),
            Action::Return(None) => ActionView::Return(None),
        }
    }
}

/// The entry that a fetched body is stored as: no expiry and nothing else set.
pub open spec fn fetched_entry(body: Seq<char>) -> CacheEntryView {
    CacheEntryView { body, expiry: None, etag: None, last_modified: None }
}

/// The context to send along with a prompt: that of the newest entry recorded
/// for the model, empty where there is none.
pub open spec fn context_for(log: Seq<EntryView>, model: Seq<char>) -> Seq<u64> {
    match history::find_latest_context(log, model) {
        Some(context) => context,
        None => Seq::empty(),
    }
}

/// What the cache file answers to a request.
pub open spec fn cached(policy: PolicyView, contents: Seq<char>) -> Option<Seq<char>> {
    match policy {
        PolicyView::Expiry { key, current_time } => ttl::lookup(
            cache_of_text(contents),
            key,
            current_time,
        ),
        PolicyView::History { model, prompt } => history::find_response(
            log_of_text(contents),
            model,
            prompt,
        ),
    }
}

/// What a miss fetches, given the cache file.
pub open spec fn fetch_for(policy: PolicyView, contents: Seq<char>) -> ActionView {
    match policy {
        PolicyView::Expiry { key, .. } => ActionView::ManualGet { url: key },
        PolicyView::History { model, prompt } => ActionView::AskModel {
            model,
            prompt,
            context: context_for(log_of_text(contents), model),
        },
    }
}

/// The answer, and the context that came with it, in what the provider sent:
/// a fetched body is the answer as it is; the stream of a model is decoded.
pub open spec fn answer_in(policy: PolicyView, sent: Seq<char>) -> (Seq<char>, Seq<u64>) {
    match policy {
        PolicyView::Expiry { .. } => (sent, Seq::empty()),
        PolicyView::History { .. } => {
            let chunks = chunks_of_lines(text_lines(sent));
            (decoded_text(chunks), decoded_context(chunks))
        },
    }
}

/// The contents of the cache file once the answer is recorded in it; `None`
/// where they cannot be put into text.
pub open spec fn recorded_contents(
    policy: PolicyView,
    contents: Seq<char>,
    answer: Seq<char>,
    context: Seq<u64>,
) -> Option<Seq<char>> {
    match policy {
        PolicyView::Expiry { key, .. } => printed_json(
            cache_json(cache_of_text(contents).insert(key, fetched_entry(answer))),
        ),
        PolicyView::History { model, prompt } => printed_json(
            log_json(
                history::appended(
                    log_of_text(contents),
                    EntryView { model, prompt, response: answer, context },
                ),
            ),
        ),
    }
}

/// The session and the action at the start of a request: the cache file is
/// read.
pub open spec fn first_step(file_path: Seq<char>, policy: PolicyView) -> (SessionView, ActionView) {
    (
        SessionView { file_path, policy, phase: PhaseView::Looking },
        ActionView::ReadFromFile { file_name: file_path },
    )
}

/// The phase and the action that follow an event.
///
/// - The file was read to look the request up: a cached answer is returned;
///   otherwise the answer is fetched.
/// - Fetching failed: nothing is returned and nothing is stored.
/// - The provider sent something: the answer is taken from it and the file is
///   read again.
/// - The file was read to record the answer: the file with the answer recorded
///   is written; where that cannot be put into text the write is left out and
///   the answer is returned at once.
/// - The file was written: the answer is returned.
/// - An event that the phase does not wait for closes the request without an
///   answer.
pub open spec fn next_step(session: SessionView, event: EventView) -> (PhaseView, ActionView) {
    match (session.phase, event) {
        (PhaseView::Looking, EventView::Contents(contents)) => match cached(
            session.policy,
            contents,
        ) {
            Some(answer) => (PhaseView::Finished, ActionView::Return(Some(answer))),
            None => (PhaseView::Fetching, fetch_for(session.policy, contents)),
        },
        (PhaseView::Fetching, EventView::Fetched(None)) => (
            PhaseView::Finished,
            ActionView::Return(None),
        ),
        (PhaseView::Fetching, EventView::Fetched(Some(sent))) => {
            let (answer, context) = answer_in(session.policy, sent);
            (
                PhaseView::Recording { answer, context },
                ActionView::ReadFromFile { file_name: session.file_path },
            )
        },
        (PhaseView::Recording { answer, context }, EventView::Contents(contents)) => {
            match recorded_contents(session.policy, contents, answer, context) {
                Some(data) => (
                    PhaseView::Writing { answer },
                    ActionView::WriteToFile { data, file_name: session.file_path },
                ),
                None => (PhaseView::Finished, ActionView::Return(Some(answer))),
            }
        },
        (PhaseView::Writing { answer }, EventView::Written) => (
            PhaseView::Finished,
            ActionView::Return(Some(answer)),
        ),
        _ => (PhaseView::Finished, ActionView::Return(None)),
    }
}

/// Begins a request under a policy.
fn begin(file_path: String, policy: Policy) -> (r: (Session, Action))
    ensures
        (r.0@, r.1@) == first_step(file_path@, policy@),
{
    let file_name = file_path.clone();
    (Session { file_path, policy, phase: Phase::Looking }, Action::ReadFromFile { file_name })
}

/// Begins to answer a key at a time from the cache of fetched bodies.
pub fn get_or_fetch(file_path: String, key: String, current_time: u64) -> (r: (Session, Action))
    ensures
        (r.0@, r.1@) == first_step(file_path@, PolicyView::Expiry { key: key@, current_time }),
{
    begin(file_path, Policy::Expiry { key, current_time })
}

/// Begins to answer a prompt to a model from the cache of model answers.
pub fn ask(file_path: String, model: String, prompt: String) -> (r: (Session, Action))
    ensures
        (r.0@, r.1@) == first_step(
            file_path@,
            PolicyView::History { model: model@, prompt: prompt@ },
        ),
{
    begin(file_path, Policy::History { model, prompt })
}

/// Looks the request up in the cache file: the cached answer, or what to
/// fetch.
fn look_up(file_path: &str, policy: &Policy, contents: &str) -> (r: (Phase, Action))
    ensures
        (r.0@, r.1@) == match cached(policy@, contents@) {
            Some(answer) => (PhaseView::Finished, ActionView::Return(Some(answer))),
            None => (PhaseView::Fetching, fetch_for(policy@, contents@)),
        },
{
    match policy {
        Policy::Expiry { key, current_time } => {
            let mut cache = ttl::FileCache::new(file_path);
            cache.load_cache(contents);
            match cache.get_response(key.as_str(), *current_time) {
                Some(cached) => (Phase::Finished, Action::Return(Some(cached))),
                None => (Phase::Fetching, Action::ManualGet { url: key.clone() }),
            }
        },
        Policy::History { model, prompt } => {
            let mut cache = history::FileCache::new(file_path);
            cache.load_cache(contents);
            match cache.get_response(model.as_str(), prompt.as_str()) {
                Some(cached) => (Phase::Finished, Action::Return(Some(cached))),
                None => {
                    let context = match cache.get_latest_context(model.as_str()) {
                        Some(context) => context,
                        None => Vec::new(),
                    };
                    (
                        Phase::Fetching,
                        Action::AskModel { model: model.clone(), prompt: prompt.clone(), context },
                    )
                },
            }
        },
    }
}

/// Records the answer in the cache file: the new contents of the file.
fn record(file_path: &str, policy: &Policy, contents: &str, answer: &str, context: &Vec<u64>) -> (r:
    Option<String>)
    ensures
        match r {
            Some(data) => recorded_contents(policy@, contents@, answer@, context@) == Some(data@),
            None => recorded_contents(policy@, contents@, answer@, context@) is None,
        },
{
    match policy {
        Policy::Expiry { key, .. } => {
            let mut cache = ttl::FileCache::new(file_path);
            cache.load_cache(contents);
            cache.add_response(key.as_str(), answer, None, None, None);
            cache.save_cache()
        },
        Policy::History { model, prompt } => {
            let mut cache = history::FileCache::new(file_path);
            cache.load_cache(contents);
            cache.add_response(model.as_str(), prompt.as_str(), answer, context);
            cache.save_cache()
        },
    }
}

/// Takes the outcome of the last action and says what comes next.
pub fn resume(session: Session, event: Event) -> (r: (Session, Action))
    ensures
        r.0@.file_path == session@.file_path,
        r.0@.policy == session@.policy,
        (r.0@.phase, r.1@) == next_step(session@, event@),
{
    let Session { file_path, policy, phase } = session;
    let (next, action) = match (phase, event) {
        (Phase::Looking, Event::Contents(contents)) => look_up(
            file_path.as_str(),
            &policy,
            contents.as_str(),
        ),
        (Phase::Fetching, Event::Fetched(None)) => (Phase::Finished, Action::Return(None)),
        (Phase::Fetching, Event::Fetched(Some(sent))) => {
            let (answer, context) = match &policy {
                Policy::Expiry { .. } => (sent, Vec::new()),
                Policy::History { .. } => parse_ollama_stream(sent.as_str()),
            };
            (Phase::Recording { answer, context }, Action::ReadFromFile { file_name: file_path.clone() })
        },
        (Phase::Recording { answer, context }, Event::Contents(contents)) => {
            match record(
                file_path.as_str(),
                &policy,
                contents.as_str(),
                answer.as_str(),
                &context,
            ) {
                Some(data) => (
                    Phase::Writing { answer },
                    Action::WriteToFile { data, file_name: file_path.clone() },
                ),
                None => (Phase::Finished, Action::Return(Some(answer))),
            }
        },
        (Phase::Writing { answer }, Event::Written) => (
            Phase::Finished,
            Action::Return(Some(answer)),
        ),
        _ => (Phase::Finished, Action::Return(None)),
    };
    (Session { file_path, policy, phase: next }, action)
}

/// The session after the phase and action that follow an event.
pub open spec fn advanced(session: SessionView, event: EventView) -> SessionView {
    SessionView {
        file_path: session.file_path,
        policy: session.policy,
        phase: next_step(session, event).0,
    }
}

/// A request that the cache file answers is closed with that answer after one
/// read: nothing is fetched and nothing is written.
pub proof fn lemma_hit_returns_at_once(
    file_path: Seq<char>,
    policy: PolicyView,
    contents: Seq<char>,
)
    requires
        cached(policy, contents) is Some,
    ensures
        next_step(first_step(file_path, policy).0, EventView::Contents(contents)) == (
            PhaseView::Finished,
            ActionView::Return(cached(policy, contents)),
        ),
{
}

/// A request that the cache file does not answer, and for which fetching
/// fails, is closed without an answer: nothing is written.
pub proof fn lemma_failed_fetch_returns_nothing(
    file_path: Seq<char>,
    policy: PolicyView,
    contents: Seq<char>,
)
    requires
        cached(policy, contents) is None,
    ensures
        ({
            let looking = first_step(file_path, policy).0;
            let fetching = advanced(looking, EventView::Contents(contents));
            &&& next_step(looking, EventView::Contents(contents)) == (
                PhaseView::Fetching,
                fetch_for(policy, contents),
            )
            &&& next_step(fetching, EventView::Fetched(None)) == (
                PhaseView::Finished,
                ActionView::Return(None),
            )
        }),
{
}

/// A request that the cache file does not answer is closed with the answer in
/// what the provider sent, whatever the file holds when it is read again and
/// whether or not it can be written.
pub proof fn lemma_miss_returns_the_fetched_answer(
    file_path: Seq<char>,
    policy: PolicyView,
    contents: Seq<char>,
    sent: Seq<char>,
    reread: Seq<char>,
)
    requires
        cached(policy, contents) is None,
    ensures
        ({
            let answer = answer_in(policy, sent).0;
            let looking = first_step(file_path, policy).0;
            let fetching = advanced(looking, EventView::Contents(contents));
            let recording = advanced(fetching, EventView::Fetched(Some(sent)));
            let last = advanced(recording, EventView::Contents(reread));
            let step = next_step(recording, EventView::Contents(reread));
            &&& next_step(fetching, EventView::Fetched(Some(sent))).1 == ActionView::ReadFromFile {
                file_name: file_path,
            }
            &&& step.1 is WriteToFile ==> next_step(last, EventView::Written) == (
                PhaseView::Finished,
                ActionView::Return(Some(answer)),
            )
            &&& !(step.1 is WriteToFile) ==> step == (
                PhaseView::Finished,
                ActionView::Return(Some(answer)),
            )
        }),
{
}

/// Once an answer is recorded and written, the cache file answers the same
/// request, provided that the written text parses back into the document that
/// was written. Under [`Policy::Expiry`] the answer is the body just stored, at
/// every time.
pub proof fn lemma_recorded_answer_is_cached(
    policy: PolicyView,
    contents: Seq<char>,
    answer: Seq<char>,
    context: Seq<u64>,
    data: Seq<char>,
)
    requires
        recorded_contents(policy, contents, answer, context) == Some(data),
        match policy {
            PolicyView::Expiry { key, .. } => parsed_json(data) == Some(
                cache_json(cache_of_text(contents).insert(key, fetched_entry(answer))),
            ),
            PolicyView::History { model, prompt } => parsed_json(data) == Some(
                log_json(
                    history::appended(
                        log_of_text(contents),
                        EntryView { model, prompt, response: answer, context },
                    ),
                ),
            ),
        },
    ensures
        cached(policy, data) is Some,
        policy is Expiry ==> cached(policy, data) == Some(answer),
{
    match policy {
        PolicyView::Expiry { key, .. } => {
            lemma_saved_cache_loads_equal(
                cache_of_text(contents).insert(key, fetched_entry(answer)),
                data,
            );
        },
        PolicyView::History { model, prompt } => {
            let entry = EntryView { model, prompt, response: answer, context };
            lemma_saved_log_loads_equal(history::appended(log_of_text(contents), entry), data);
            history::lemma_recorded_request_is_a_hit(log_of_text(contents), entry);
        },
    }
}

} // verus!
