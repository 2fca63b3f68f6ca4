//! Web addresses, held as the serialization that the `url` crate gives them.
//!
//! The library never keeps a `url::Url`; it keeps the string that
//! `Url::as_str` returns and asks the `url` crate again for each component.
//! What the `url` crate computes is named here and not restated.
use vstd::prelude::*;
use crate::error::{Error, ErrorView};

verus! {

/// `Url::parse(input)`: the serialization of the parsed URL, or the text of
/// the parse error.
pub uninterp spec fn url_parse(input: Seq<char>) -> Result<Seq<char>, Seq<char>>;

/// `Url::parse(base)` followed by `join(input)`: the serialization of the
/// joined URL, or the text of the first error.
pub uninterp spec fn url_join(base: Seq<char>, input: Seq<char>) -> Result<Seq<char>, Seq<char>>;

/// `Url::scheme` of the URL serialized as `href` (empty if `href` does not parse).
pub uninterp spec fn url_scheme(href: Seq<char>) -> Seq<char>;

/// `Url::host_str` of the URL serialized as `href`.
pub uninterp spec fn url_host(href: Seq<char>) -> Option<Seq<char>>;

/// `Url::domain` of the URL serialized as `href` (a host that is a name, not an address).
pub uninterp spec fn url_domain(href: Seq<char>) -> Option<Seq<char>>;

/// `Url::path` of the URL serialized as `href` (empty if `href` does not parse).
pub uninterp spec fn url_path(href: Seq<char>) -> Seq<char>;

/// `Url::query` of the URL serialized as `href` (none if `href` does not parse).
pub uninterp spec fn url_query(href: Seq<char>) -> Option<Seq<char>>;

/// View of a `Result<String, String>`.
pub open spec fn string_result_view(r: Result<String, String>) -> Result<Seq<char>, Seq<char>> {
    match r {
        Ok(s) => Ok(s@),
        Err(e) => Err(e@),
    }
}

/// View of an `Option<String>`.
pub open spec fn string_option_view(r: Option<String>) -> Option<Seq<char>> {
    match r {
        Some(s) => Some(s@),
        None => None,
    }
}

/// Calls `url::Url::parse`; claimed: the result is the fixed function
/// `url_parse` of the input (serialization on success, error text on failure).
#[verifier::external_body]
fn parse_url_text(input: &str) -> (r: Result<String, String>)
    ensures
        string_result_view(r) == url_parse(input@),
{
    match url::Url::parse(input) {
        Ok(u) => Ok(u.as_str().to_string()),
        Err(e) => Err(e.to_string()),
    }
}

/// Calls `url::Url::parse` on `base` and then `Url::join`; claimed: the
/// result is the fixed function `url_join` of the two inputs.
#[verifier::external_body]
fn join_url_text(base: &str, input: &str) -> (r: Result<String, String>)
    ensures
        string_result_view(r) == url_join(base@, input@),
{
    match url::Url::parse(base) {
        Ok(b) => match b.join(input) {
            Ok(u) => Ok(u.as_str().to_string()),
            Err(e) => Err(e.to_string()),
        },
        Err(e) => Err(e.to_string()),
    }
}

/// Calls `url::Url::scheme` on the URL parsed from `href`; claimed: the
/// result is `url_scheme(href)`.
#[verifier::external_body]
fn scheme_text(href: &str) -> (r: String)
    ensures
        r@ == url_scheme(href@),
{
    match url::Url::parse(href) {
        Ok(u) => u.scheme().to_string(),
        Err(_) => String::new(),
    }
}

/// Calls `url::Url::host_str` on the URL parsed from `href`; claimed: the
/// result is `url_host(href)`.
#[verifier::external_body]
fn host_text(href: &str) -> (r: Option<String>)
    ensures
        string_option_view(r) == url_host(href@),
{
    match url::Url::parse(href) {
        Ok(u) => u.host_str().map(String::from),
        Err(_) => None,
    }
}

/// Calls `url::Url::domain` on the URL parsed from `href`; claimed: the
/// result is `url_domain(href)`.
#[verifier::external_body]
fn domain_text(href: &str) -> (r: Option<String>)
    ensures
        string_option_view(r) == url_domain(href@),
{
    match url::Url::parse(href) {
        Ok(u) => u.domain().map(String::from),
        Err(_) => None,
    }
}

/// Calls `url::Url::path` on the URL parsed from `href`; claimed: the
/// result is `url_path(href)`.
#[verifier::external_body]
fn path_text(href: &str) -> (r: String)
    ensures
        r@ == url_path(href@),
{
    match url::Url::parse(href) {
        Ok(u) => u.path().to_string(),
        Err(_) => String::new(),
    }
}

/// Calls `url::Url::query` on the URL parsed from `href`; claimed: the
/// result is `url_query(href)`.
#[verifier::external_body]
fn query_text(href: &str) -> (r: Option<String>)
    ensures
        string_option_view(r) == url_query(href@),
{
    match url::Url::parse(href) {
        Ok(u) => u.query().map(String::from),
        Err(_) => None,
    }
}

/// An absolute URL, held as its serialization.
#[derive(Debug, Clone)]
pub struct WebUrl {
    href: String,
}

impl View for WebUrl {
    type V = Seq<char>;

    closed spec fn view(&self) -> Seq<char> {
        self.href@
    }
}

/// The library's view of what `Url::parse` returns.
pub open spec fn parse_view(r: Result<WebUrl, Error>, input: Seq<char>) -> bool {
    match url_parse(input) {
        Ok(h) => r matches Ok(u) && u@ == h,
        Err(e) => r matches Err(err) && err@ == ErrorView::ParseUrl(e),
    }
}

/// The library's view of what `Url::join` returns.
pub open spec fn join_view(r: Result<WebUrl, Error>, base: Seq<char>, input: Seq<char>) -> bool {
    match url_join(base, input) {
        Ok(h) => r matches Ok(u) && u@ == h,
        Err(e) => r matches Err(err) && err@ == ErrorView::ParseUrl(e),
    }
}

impl WebUrl {
    /// Parses an absolute URL (`Url::parse`); a failure becomes `Error::ParseUrl`.
    pub fn parse(input: &str) -> (r: Result<WebUrl, Error>)
        ensures
            parse_view(r, input@),
    {
        match parse_url_text(input) {
            Ok(h) => Ok(WebUrl { href: h }),
            Err(e) => Err(Error::ParseUrl(e)),
        }
    }

    /// Resolves `input` against this URL (`Url::join`); a failure becomes
    /// `Error::ParseUrl`.
    pub fn join(&self, input: &str) -> (r: Result<WebUrl, Error>)
        ensures
            join_view(r, self@, input@),
    {
        match join_url_text(self.href.as_str(), input) {
            Ok(h) => Ok(WebUrl { href: h }),
            Err(e) => Err(Error::ParseUrl(e)),
        }
    }

    /// The serialization (`Url::as_str` / `to_string`).
    pub fn as_string(&self) -> (r: String)
        ensures
            r@ == self@,
    {
        self.href.clone()
    }

    /// The scheme, lower-cased, without the `:`.
    pub fn scheme(&self) -> (r: String)
        ensures
            r@ == url_scheme(self@),
    {
        scheme_text(self.href.as_str())
    }

    /// The host, if the URL has one.
    pub fn host_str(&self) -> (r: Option<String>)
        ensures
            string_option_view(r) == url_host(self@),
    {
        host_text(self.href.as_str())
    }

    /// The host when it is a domain name.
    pub fn domain(&self) -> (r: Option<String>)
        ensures
            string_option_view(r) == url_domain(self@),
    {
        domain_text(self.href.as_str())
    }

    /// The path component.
    pub fn path(&self) -> (r: String)
        ensures
            r@ == url_path(self@),
    {
        path_text(self.href.as_str())
    }

    /// The query component, if there is one.
    pub fn query(&self) -> (r: Option<String>)
        ensures
            string_option_view(r) == url_query(self@),
    {
        query_text(self.href.as_str())
    }
}

} // verus!
