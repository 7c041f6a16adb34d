//! A get-or-fetch cache mediator.
//!
//! A cache answers a request from what it has stored, or says what to ask of an
//! external provider and records the answer. Two freshness policies are offered:
//! [`ttl`] keeps one entry per key with an optional expiry time, [`history`] keeps
//! a bounded chronological log of model answers and threads the conversation
//! context of the newest matching entry into the next request.
//!
//! Nothing here touches a file or the network. The caller reads and writes the
//! cache file and performs the fetch, following the actions that [`mediator`]
//! hands out one by one.
//!
//! Around the two caches stand what the providers need: [`decoder`] turns the
//! chunked stream of an inference provider into one answer, [`ollama`] frames
//! the request to such a provider, and [`http`] frames a plain HTTP request and
//! reads the body of its reply. [`json`], [`text`] and [`url`] hold the
//! operations of other libraries that the rest relies on without proof.

pub mod assoc;
pub mod json;
pub mod document;
pub mod text;
pub mod decoder;
pub mod ollama;
pub mod history;
pub mod ttl;
pub mod mediator;
pub mod url;
pub mod http;
pub mod guest;
