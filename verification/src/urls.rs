//! Parsed URLs as plain values.
use vstd::prelude::*;

use crate::ollama::service::managed_base_url;

verus! {

/// The parts of a parsed absolute URL that the library reads.
#[derive(Clone, Debug, PartialEq, Eq)]
pub struct UrlParts {
    pub serialization: String,
    pub scheme: String,
    pub username: String,
    pub password: Option<String>,
    pub host: Option<String>,
    pub path: String,
    pub query: Option<String>,
    pub fragment: Option<String>,
}

/// The value of [`UrlParts`] as character sequences.
pub struct UrlView {
    pub serialization: Seq<char>,
    pub scheme: Seq<char>,
    pub username: Seq<char>,
    pub password: Option<Seq<char>>,
    pub host: Option<Seq<char>>,
    pub path: Seq<char>,
    pub query: Option<Seq<char>>,
    pub fragment: Option<Seq<char>>,
}

pub open spec fn opt_view(o: Option<String>) -> Option<Seq<char>> {
    match o {
        Some(s) => Some(s@),
        None => None,
    }
}

impl View for UrlParts {
    type V = UrlView;

    open spec fn view(&self) -> UrlView {
        UrlView {
            serialization: self.serialization@,
            scheme: self.scheme@,
            username: self.username@,
            password: opt_view(self.password),
            host: opt_view(self.host),
            path: self.path@,
            query: opt_view(self.query),
            fragment: opt_view(self.fragment),
        }
    }
}

/// A URL that did not parse: the reason, and its text.
#[derive(Debug)]
pub struct UrlParseFailure {
    pub error: url::ParseError,
    pub message: String,
}

/// What `url::Url::parse` makes of a text: the URL, or the text of its error.
pub uninterp spec fn url_parse_outcome(input: Seq<char>) -> core::result::Result<UrlView, Seq<char>>;

/// `url::Url::parse`, read out through `as_str`, `scheme`, `username`, `password`,
/// `host_str`, `path`, `query` and `fragment`, and on failure the error with its
/// `Display` text. The contract claims only that the outcome is a function of
/// the input text, named by `url_parse_outcome`. `host_str` is `None` exactly
/// where `host` is `None` (both test the same internal host kind).
/// One more fact is stated: a text of the form `http://127.0.0.1:<port>/api`
/// (any `u16` port) parses, as the URL Standard that the crate follows reads it,
/// to an `http` URL with an IPv4 host, no credentials, no query and no fragment.
#[verifier::external_body]
pub(crate) fn parse_url(input: &str) -> (r: core::result::Result<UrlParts, UrlParseFailure>)
    ensures
        match r {
            Ok(parts) => {
                &&& url_parse_outcome(input@) == Ok::<UrlView, Seq<char>>(parts@)
                &&& managed_base_url(input@) ==> {
                    &&& parts@.scheme == "http"@
                    &&& parts@.username.len() == 0
                    &&& parts@.password is None
                    &&& parts@.host is Some
                    &&& parts@.query is None
                    &&& parts@.fragment is None
                }
            },
            Err(failure) => {
                &&& url_parse_outcome(input@) == Err::<UrlView, Seq<char>>(failure.message@)
                &&& !managed_base_url(input@)
            },
        },
{
    match url::Url::parse(input) {
        Ok(url) => Ok(UrlParts {
            serialization: url.as_str().to_string(),
            scheme: url.scheme().to_string(),
            username: url.username().to_string(),
            password: url.password().map(|value| value.to_string()),
            host: url.host_str().map(|value| value.to_string()),
            path: url.path().to_string(),
            query: url.query().map(|value| value.to_string()),
            fragment: url.fragment().map(|value| value.to_string()),
        }),
        Err(error) => Err(UrlParseFailure { error, message: error.to_string() }),
    }
}

/// The URL a text parses to, if any.
pub open spec fn parsed_url(input: Seq<char>) -> Option<UrlView> {
    match url_parse_outcome(input) {
        Ok(u) => Some(u),
        Err(_) => None,
    }
}

/// Whether a link may be followed from a chat: web and mail links only.
pub open spec fn link_scheme_ok(scheme: Seq<char>) -> bool {
    scheme == "http"@ || scheme == "https"@ || scheme == "mailto"@
}

/// The address a link in a reply may open: the URL as the `url` crate writes
/// it back, when it parses and is a web or mail link.
pub open spec fn safe_uri_of(value: Seq<char>) -> Option<Seq<char>> {
    match parsed_url(value) {
        Some(u) => if link_scheme_ok(u.scheme) {
            Some(u.serialization)
        } else {
            None
        },
        None => None,
    }
}

pub fn safe_uri(value: &str) -> (r: Option<String>)
    ensures
        opt_view(r) == safe_uri_of(value@),
{
    match parse_url(value) {
        Ok(parts) => {
            let scheme = parts.scheme.as_str();
            if crate::text::str_eq(scheme, "http") || crate::text::str_eq(scheme, "https")
                || crate::text::str_eq(scheme, "mailto") {
                Some(parts.serialization)
            } else {
                None
            }
        },
        Err(_) => None,
    }
}

} // verus!
