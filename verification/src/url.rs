//! The part of the `url` crate that the library relies on. The contract of
//! [`parse_url`] is believed, not proved.

use vstd::prelude::*;

verus! {

/// What the library reads of a parsed address.
pub struct UrlParts {
    /// The host, where the address has one.
    pub host: Option<String>,
    /// The port, or the default port of the scheme where that is known.
    pub port: Option<u16>,
    /// The path, percent-encoded.
    pub path: String,
    /// The query, percent-encoded, where the address has one.
    pub query: Option<String>,
}

/// The mathematical value of [`UrlParts`].
pub struct UrlPartsView {
    pub host: Option<Seq<char>>,
    pub port: Option<u16>,
    pub path: Seq<char>,
    pub query: Option<Seq<char>>,
}

impl View for UrlParts {
    type V = UrlPartsView;

    open spec fn view(&self) -> UrlPartsView {
        UrlPartsView {
            host: match self.host {
                Some(host) => Some(host@),
                None => None,
            },
            port: self.port,
            path: self.path@,
            query: match self.query {
                Some(query) => Some(query@),
                None => None,
            },
        }
    }
}

/// What `Url::parse` makes of `text`, read through `Url::host_str`,
/// `Url::port_or_known_default`, `Url::path` and `Url::query`; `None` where the
/// text is no absolute address.
pub uninterp spec fn parsed_url(text: Seq<char>) -> Option<UrlPartsView>;

/// `Url::parse`, with the error dropped, and the four parts of the result that
/// the library reads, each through its getter.
///
/// Claims that the parts depend on the text alone.
#[verifier::external_body]
pub(crate) fn parse_url(text: &str) -> (r: Option<UrlParts>)
    ensures
        match r {
            Some(parts) => parsed_url(text@) == Some(parts@),
            None => parsed_url(text@) is None,
        },
{
    let url = url::Url::parse(text).ok()?;
    Some(
        UrlParts {
            host: url.host_str().map(String::from),
            port: url.port_or_known_default(),
            path: url.path().to_string(),
            query: url.query().map(String::from),
        },
    )
}

} // verus!
