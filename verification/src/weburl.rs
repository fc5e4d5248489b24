//! The parts of a URL that this library reads, as plain values, and the
//! operations of the `url` crate that produce them.
//!
//! The `url` crate implements the WHATWG URL standard, whose parsing and
//! serialization rules take pages to state. What `Url::parse` and the setters
//! return is therefore given a name here, as a function of their arguments,
//! and the rest of the library is verified against those names. A `Url` is
//! carried between the calls by its serialization, which `Url::parse` reads
//! back to the same URL.

use vstd::prelude::*;

verus! {

/// The parts of a parsed URL that the library reads.
pub struct UrlParts {
    /// The whole URL as the parser wrote it (`Url::as_str`).
    pub serialization: String,
    /// `Url::scheme`.
    pub scheme: String,
    /// `Url::host_str`.
    pub host: Option<String>,
    /// `Url::port`: the explicit port, absent when the URL names none or names
    /// the scheme's default.
    pub port: Option<u16>,
    /// `Url::path`.
    pub path: String,
}

/// The mathematical value of [`UrlParts`].
pub struct UrlView {
    pub serialization: Seq<char>,
    pub scheme: Seq<char>,
    pub host: Option<Seq<char>>,
    pub port: Option<u16>,
    pub path: Seq<char>,
}

impl View for UrlParts {
    type V = UrlView;

    open spec fn view(&self) -> UrlView {
        UrlView {
            serialization: self.serialization@,
            scheme: self.scheme@,
            host: match self.host {
                Some(h) => Some(h@),
                None => None,
            },
            port: self.port,
            path: self.path@,
        }
    }
}

impl UrlParts {
    pub fn clone_parts(&self) -> (r: UrlParts)
        ensures
            r@ == self@,
    {
        UrlParts {
            serialization: self.serialization.clone(),
            scheme: self.scheme.clone(),
            host: match &self.host {
                Some(h) => Some(h.clone()),
                None => None,
            },
            port: self.port,
            path: self.path.clone(),
        }
    }
}

pub open spec fn opt_string_view(s: Option<String>) -> Option<Seq<char>> {
    match s {
        Some(v) => Some(v@),
        None => None,
    }
}

pub open spec fn opt_url_view(u: Option<UrlParts>) -> Option<UrlView> {
    match u {
        Some(v) => Some(v@),
        None => None,
    }
}

/// What `Url::parse` makes of a string: `None` where it returns an error.
pub uninterp spec fn parsed_url(input: Seq<char>) -> Option<UrlView>;

/// The serialization after `Url::set_host(host)` on the URL serialized as
/// `url`; `None` where the setter refuses or `url` is not a URL.
pub uninterp spec fn url_with_host(url: Seq<char>, host: Option<Seq<char>>) -> Option<Seq<char>>;

/// The serialization after `Url::set_port(port)`; `None` where the setter
/// refuses or `url` is not a URL.
pub uninterp spec fn url_with_port(url: Seq<char>, port: Option<u16>) -> Option<Seq<char>>;

/// The serialization after `Url::set_scheme(scheme)`; `None` where the setter
/// refuses or `url` is not a URL.
pub uninterp spec fn url_with_scheme(url: Seq<char>, scheme: Seq<char>) -> Option<Seq<char>>;

/// The serialization after `Url::set_path(path)`; `None` where `url` is not a
/// URL.
pub uninterp spec fn url_with_path(url: Seq<char>, path: Seq<char>) -> Option<Seq<char>>;

/// The serialization after `Url::set_query(query)`; `None` where `url` is not
/// a URL.
pub uninterp spec fn url_with_query(url: Seq<char>, query: Option<Seq<char>>) -> Option<Seq<char>>;

/// The serialization after `Url::set_fragment(fragment)`; `None` where `url`
/// is not a URL.
pub uninterp spec fn url_with_fragment(url: Seq<char>, fragment: Option<Seq<char>>) -> Option<
    Seq<char>,
>;

/// Calls `url::Url::parse` and reads the parts back with `as_str`, `scheme`,
/// `host_str`, `port` and `path`. Claimed: the result is [`parsed_url`] of the
/// input, a function of the input alone.
#[verifier::external_body]
pub(crate) fn parse_url(input: &str) -> (r: Option<UrlParts>)
    ensures
        opt_url_view(r) == parsed_url(input@),
{
    match url::Url::parse(input) {
        Ok(url) => Some(
            UrlParts {
                serialization: url.as_str().to_string(),
                scheme: url.scheme().to_string(),
                host: url.host_str().map(|host| host.to_string()),
                port: url.port(),
                path: url.path().to_string(),
            },
        ),
        Err(_) => None,
    }
}

/// Calls `url::Url::set_host` on the URL that `url` serializes. Claimed: the
/// result is [`url_with_host`] of the arguments.
#[verifier::external_body]
pub(crate) fn set_url_host(url: &str, host: Option<&str>) -> (r: Option<String>)
    ensures
        opt_string_view(r) == url_with_host(url@, match host {
            Some(h) => Some(h@),
            None => None,
        }),
{
    let mut parsed = url::Url::parse(url).ok()?;
    parsed.set_host(host).ok()?;
    Some(parsed.to_string())
}

/// Calls `url::Url::set_port` on the URL that `url` serializes. Claimed: the
/// result is [`url_with_port`] of the arguments.
#[verifier::external_body]
pub(crate) fn set_url_port(url: &str, port: Option<u16>) -> (r: Option<String>)
    ensures
        opt_string_view(r) == url_with_port(url@, port),
{
    let mut parsed = url::Url::parse(url).ok()?;
    parsed.set_port(port).ok()?;
    Some(parsed.to_string())
}

/// Calls `url::Url::set_scheme` on the URL that `url` serializes. Claimed:
/// the result is [`url_with_scheme`] of the arguments.
#[verifier::external_body]
pub(crate) fn set_url_scheme(url: &str, scheme: &str) -> (r: Option<String>)
    ensures
        opt_string_view(r) == url_with_scheme(url@, scheme@),
{
    let mut parsed = url::Url::parse(url).ok()?;
    parsed.set_scheme(scheme).ok()?;
    Some(parsed.to_string())
}

/// Calls `url::Url::set_path` on the URL that `url` serializes. Claimed: the
/// result is [`url_with_path`] of the arguments.
#[verifier::external_body]
pub(crate) fn set_url_path(url: &str, path: &str) -> (r: Option<String>)
    ensures
        opt_string_view(r) == url_with_path(url@, path@),
{
    let mut parsed = url::Url::parse(url).ok()?;
    parsed.set_path(path);
    Some(parsed.to_string())
}

/// Calls `url::Url::set_query` on the URL that `url` serializes. Claimed: the
/// result is [`url_with_query`] of the arguments.
#[verifier::external_body]
pub(crate) fn set_url_query(url: &str, query: Option<&str>) -> (r: Option<String>)
    ensures
        opt_string_view(r) == url_with_query(url@, match query {
            Some(q) => Some(q@),
            None => None,
        }),
{
    let mut parsed = url::Url::parse(url).ok()?;
    parsed.set_query(query);
    Some(parsed.to_string())
}

/// Calls `url::Url::set_fragment` on the URL that `url` serializes. Claimed:
/// the result is [`url_with_fragment`] of the arguments.
#[verifier::external_body]
pub(crate) fn set_url_fragment(url: &str, fragment: Option<&str>) -> (r: Option<String>)
    ensures
        opt_string_view(r) == url_with_fragment(url@, match fragment {
            Some(f) => Some(f@),
            None => None,
        }),
{
    let mut parsed = url::Url::parse(url).ok()?;
    parsed.set_fragment(fragment);
    Some(parsed.to_string())
}

} // verus!
