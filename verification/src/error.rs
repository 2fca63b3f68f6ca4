//! The library's error type.
use vstd::prelude::*;
use crate::text::{chars_of, push_str, string_from_chars, IntParseError, int_parse_error_message};

verus! {

/// Everything that can go wrong while saving a thread.
///
/// Failures reported by outside services (file system, network, TOML)
/// carry the text that those services gave.
#[derive(Debug, Clone)]
pub enum Error {
    Io(String),
    Http(String),
    HttpStatus(String),
    Acquire(String),
    ParseUrl(String),
    ParseInt(IntParseError),
    InvalidForum(String),
    BrowserCookie(String),
    Login(String),
    ThreadInfo(String),
    HtmlParse(String),
    Path(String),
    Browser(String),
    Anyhow(String),
    TomlDeserialize(String),
    TomlSerialize(String),
    Other(String),
}

/// The mathematical value of an [`Error`]: its variant and its text.
pub enum ErrorView {
    Io(Seq<char>),
    Http(Seq<char>),
    HttpStatus(Seq<char>),
    Acquire(Seq<char>),
    ParseUrl(Seq<char>),
    ParseInt(IntParseError),
    InvalidForum(Seq<char>),
    BrowserCookie(Seq<char>),
    Login(Seq<char>),
    ThreadInfo(Seq<char>),
    HtmlParse(Seq<char>),
    Path(Seq<char>),
    Browser(Seq<char>),
    Anyhow(Seq<char>),
    TomlDeserialize(Seq<char>),
    TomlSerialize(Seq<char>),
    Other(Seq<char>),
}

impl View for Error {
    type V = ErrorView;

    open spec fn view(&self) -> ErrorView {
        match self {
            Error::Io(s) => ErrorView::Io(s@),
            Error::Http(s) => ErrorView::Http(s@),
            Error::HttpStatus(s) => ErrorView::HttpStatus(s@),
            Error::Acquire(s) => ErrorView::Acquire(s@),
            Error::ParseUrl(s) => ErrorView::ParseUrl(s@),
            Error::ParseInt(e) => ErrorView::ParseInt(*e),
            Error::InvalidForum(s) => ErrorView::InvalidForum(s@),
            Error::BrowserCookie(s) => ErrorView::BrowserCookie(s@),
            Error::Login(s) => ErrorView::Login(s@),
            Error::ThreadInfo(s) => ErrorView::ThreadInfo(s@),
            Error::HtmlParse(s) => ErrorView::HtmlParse(s@),
            Error::Path(s) => ErrorView::Path(s@),
            Error::Browser(s) => ErrorView::Browser(s@),
            Error::Anyhow(s) => ErrorView::Anyhow(s@),
            Error::TomlDeserialize(s) => ErrorView::TomlDeserialize(s@),
            Error::TomlSerialize(s) => ErrorView::TomlSerialize(s@),
            Error::Other(s) => ErrorView::Other(s@),
        }
    }
}

/// The text an error displays: a fixed heading per variant, then its detail.
pub open spec fn error_message(e: ErrorView) -> Seq<char> {
    match e {
        ErrorView::Io(s) => "IO error: "@ + s,
        ErrorView::Http(s) => "HTTP error: "@ + s,
        ErrorView::HttpStatus(s) => "HTTP status error: "@ + s,
        ErrorView::Acquire(s) => "Acquire error: "@ + s,
        ErrorView::ParseUrl(s) => "URL parse error: "@ + s,
        ErrorView::ParseInt(k) => "Parse int error: "@ + int_parse_error_message(k),
        ErrorView::InvalidForum(s) => "InvalidForum "@ + s,
        ErrorView::BrowserCookie(s) => "Browser cookie error: "@ + s,
        ErrorView::Login(s) => "Login error: "@ + s,
        ErrorView::ThreadInfo(s) => "Node error: "@ + s,
        ErrorView::HtmlParse(s) => "HTML parse error: "@ + s,
        ErrorView::Path(s) => "Path error: "@ + s,
        ErrorView::Browser(s) => "Browser error: "@ + s,
        ErrorView::Anyhow(s) => "Anyhow error: "@ + s,
        ErrorView::TomlDeserialize(s) => "Toml deserialize error: "@ + s,
        ErrorView::TomlSerialize(s) => "Toml serialize error: "@ + s,
        ErrorView::Other(s) => "Other error: "@ + s,
    }
}

fn heading_then(heading: &str, detail: &str) -> (r: String)
    ensures
        r@ == heading@ + detail@,
{
    let mut v = chars_of(heading);
    push_str(&mut v, detail);
    string_from_chars(&v)
}

impl Error {
    /// The text this error displays.
    pub fn message(&self) -> (r: String)
        ensures
            r@ == error_message(self@),
    {
        match self {
            Error::Io(s) => heading_then("IO error: ", s.as_str()),
            Error::Http(s) => heading_then("HTTP error: ", s.as_str()),
            Error::HttpStatus(s) => heading_then("HTTP status error: ", s.as_str()),
            Error::Acquire(s) => heading_then("Acquire error: ", s.as_str()),
            Error::ParseUrl(s) => heading_then("URL parse error: ", s.as_str()),
            Error::ParseInt(k) => {
                let m = k.message();
                heading_then("Parse int error: ", m.as_str())
            },
            Error::InvalidForum(s) => heading_then("InvalidForum ", s.as_str()),
            Error::BrowserCookie(s) => heading_then("Browser cookie error: ", s.as_str()),
            Error::Login(s) => heading_then("Login error: ", s.as_str()),
            Error::ThreadInfo(s) => heading_then("Node error: ", s.as_str()),
            Error::HtmlParse(s) => heading_then("HTML parse error: ", s.as_str()),
            Error::Path(s) => heading_then("Path error: ", s.as_str()),
            Error::Browser(s) => heading_then("Browser error: ", s.as_str()),
            Error::Anyhow(s) => heading_then("Anyhow error: ", s.as_str()),
            Error::TomlDeserialize(s) => heading_then("Toml deserialize error: ", s.as_str()),
            Error::TomlSerialize(s) => heading_then("Toml serialize error: ", s.as_str()),
            Error::Other(s) => heading_then("Other error: ", s.as_str()),
        }
    }
}

} // verus!
