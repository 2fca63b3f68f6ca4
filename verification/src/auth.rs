//! How a forum is logged into, and the cookie lines that a login carries.
use vstd::prelude::*;
use crate::address::{parse_view, WebUrl};
use crate::error::{Error, ErrorView};
use crate::text::{chars_of, push_str, split_char, split_spec, string_from_chars, trim, trim_spec};

verus! {

/// The browsers whose cookie stores can be read.
#[derive(Debug, Clone, Copy, PartialEq, Eq)]
pub enum SupportedBrowser {
    Chrome,
    Firefox,
    Edge,
    Opera,
}

/// The name a browser is shown under (its `Debug` text).
pub open spec fn browser_name(b: SupportedBrowser) -> Seq<char> {
    match b {
        SupportedBrowser::Chrome => "Chrome"@,
        SupportedBrowser::Firefox => "Firefox"@,
        SupportedBrowser::Edge => "Edge"@,
        SupportedBrowser::Opera => "Opera"@,
    }
}

impl SupportedBrowser {
    /// The name this browser is shown under.
    pub fn name(&self) -> (r: &'static str)
        ensures
            r@ == browser_name(*self),
    {
        match self {
            SupportedBrowser::Chrome => "Chrome",
            SupportedBrowser::Firefox => "Firefox",
            SupportedBrowser::Edge => "Edge",
            SupportedBrowser::Opera => "Opera",
        }
    }

    /// The error reported when this browser's cookie store cannot be read
    /// for `domain`, with the reader's own explanation `detail`.
    pub fn cookie_error(&self, domain: &str, detail: &str) -> (r: Error)
        ensures
            r@ == ErrorView::BrowserCookie(
                "Browser: "@ + browser_name(*self) + ", Domain: '"@ + domain@ + "', Error: "@
                    + detail@,
            ),
    {
        let mut v = chars_of("Browser: ");
        push_str(&mut v, self.name());
        push_str(&mut v, ", Domain: '");
        push_str(&mut v, domain);
        push_str(&mut v, "', Error: ");
        push_str(&mut v, detail);
        Error::BrowserCookie(string_from_chars(&v))
    }
}

/// How the library authenticates against a forum.
#[derive(Debug, Clone)]
pub enum AuthMethod {
    CookieString(String),
    CookieFromBrowser(SupportedBrowser),
    UsernamePassword { username: String, password: String },
    Guest,
}

impl AuthMethod {
    /// Log in with a literal `Cookie` header value.
    pub fn from_cookie_str(cookie_str: &str) -> (r: Self)
        ensures
            r matches AuthMethod::CookieString(c) && c@ == cookie_str@,
    {
        AuthMethod::CookieString(String::from_str(cookie_str))
    }

    /// Log in with the cookies a browser holds.
    pub fn from_browser(browser: SupportedBrowser) -> (r: Self)
        ensures
            r == AuthMethod::CookieFromBrowser(browser),
    {
        AuthMethod::CookieFromBrowser(browser)
    }

    /// Log in with a user name and a password.
    pub fn from_username_password(username: &str, password: &str) -> (r: Self)
        ensures
            r matches AuthMethod::UsernamePassword { username: u, password: p } && u@ == username@
                && p@ == password@,
    {
        AuthMethod::UsernamePassword {
            username: String::from_str(username),
            password: String::from_str(password),
        }
    }
}

impl AuthMethod {
    /// A copy of this login.
    pub fn copy(&self) -> (r: Self)
        ensures
            r == *self,
    {
        match self {
            AuthMethod::CookieString(c) => AuthMethod::CookieString(c.clone()),
            AuthMethod::CookieFromBrowser(b) => AuthMethod::CookieFromBrowser(*b),
            AuthMethod::UsernamePassword { username, password } => AuthMethod::UsernamePassword {
                username: username.clone(),
                password: password.clone(),
            },
            AuthMethod::Guest => AuthMethod::Guest,
        }
    }
}

impl Default for AuthMethod {
    /// Guests need no login.
    fn default() -> (r: Self)
        ensures
            r matches AuthMethod::Guest,
    {
        AuthMethod::Guest
    }
}

/// The browser identity every client presents.
pub const USER_AGENT: &'static str = "Mozilla/5.0 (Windows NT 10.0; Win64; x64) AppleWebKit/537.36 (KHTML, like Gecko) Chrome/91.0.4472.124 Safari/537.36";

/// The cookie line stored for one cookie of a forum's domain.
pub open spec fn cookie_line(cookie: Seq<char>, domain: Seq<char>) -> Seq<char> {
    cookie + ";Domain=."@ + domain + "; Path=/"@
}

/// Cookie line for `name=value` on `domain`, as a browser cookie is stored.
pub fn browser_cookie_line(name: &str, value: &str, domain: &str) -> (r: String)
    ensures
        r@ == cookie_line(name@ + "="@ + value@, domain@),
{
    let mut v = chars_of(name);
    push_str(&mut v, "=");
    push_str(&mut v, value);
    push_str(&mut v, ";Domain=.");
    push_str(&mut v, domain);
    push_str(&mut v, "; Path=/");
    string_from_chars(&v)
}

/// The cookie lines stored for a literal cookie string: one line per piece
/// of the string split at `;`, with the piece trimmed.
pub open spec fn cookie_string_lines(cookie_str: Seq<char>, domain: Seq<char>) -> Seq<Seq<char>> {
    split_spec(cookie_str, ';').map_values(|piece: Seq<char>| cookie_line(trim_spec(piece), domain))
}

/// The cookie lines for a literal cookie string on `domain`.
pub fn cookie_string_lines_exec(cookie_str: &str, domain: &str) -> (r: Vec<String>)
    ensures
        r@.len() == cookie_string_lines(cookie_str@, domain@).len(),
        forall|i: int|
            0 <= i < r@.len() ==> (#[trigger] r@[i])@ == cookie_string_lines(cookie_str@, domain@)[i],
{
    let cs = chars_of(cookie_str);
    let pieces = split_char(&cs, ';');
    let mut lines: Vec<String> = Vec::new();
    let mut i: usize = 0;
    while i < pieces.len()
        invariant
            cs@ == cookie_str@,
            pieces@.len() == split_spec(cs@, ';').len(),
            forall|j: int| 0 <= j < pieces@.len() ==> (#[trigger] pieces@[j])@ == split_spec(cs@, ';')[j],
            i <= pieces.len(),
            lines@.len() == i,
            forall|j: int|
                0 <= j < i ==> (#[trigger] lines@[j])@ == cookie_string_lines(cookie_str@, domain@)[j],
        decreases pieces.len() - i,
    {
        let mut v = trim(&pieces[i]);
        push_str(&mut v, ";Domain=.");
        push_str(&mut v, domain);
        push_str(&mut v, "; Path=/");
        lines.push(string_from_chars(&v));
        i = i + 1;
    }
    lines
}

/// The address cookies of `domain` are stored under: `https://{domain}`.
pub fn cookie_origin(domain: &str) -> (r: Result<WebUrl, Error>)
    ensures
        parse_view(r, "https://"@ + domain@),
{
    let mut v = chars_of("https://");
    push_str(&mut v, domain);
    let s = string_from_chars(&v);
    WebUrl::parse(s.as_str())
}

} // verus!
