//! Rules shared by all forums.
use vstd::prelude::*;
use crate::address::{url_host, url_parse, WebUrl};
use crate::error::{Error, ErrorView};
use crate::text::{chars_of, decimal_spec, push_decimal, push_str, string_from_chars};

verus! {

/// The host of a forum's base address, or empty when it has none or does
/// not parse (`Url::parse(base).host_str().unwrap_or_default()`).
pub open spec fn base_url_domain(base_url: Seq<char>) -> Seq<char> {
    match url_parse(base_url) {
        Ok(h) => match url_host(h) {
            Some(host) => host,
            None => Seq::empty(),
        },
        Err(_) => Seq::empty(),
    }
}

/// Executable `base_url_domain`.
pub fn domain_of_base_url(base_url: &str) -> (r: String)
    ensures
        r@ == base_url_domain(base_url@),
{
    match WebUrl::parse(base_url) {
        Ok(u) => match u.host_str() {
            Some(h) => h,
            None => String::new(),
        },
        Err(_) => String::new(),
    }
}

/// The complaint about an address that is not a thread address of `forum`.
pub open spec fn not_thread_url_message(url: Seq<char>, forum: Seq<char>) -> Seq<char> {
    "'"@ + url + "'不是标准的"@ + forum + "帖子网址"@
}

/// Executable `not_thread_url_message`, optionally followed by `": {detail}"`.
pub fn not_thread_url_text(url: &str, forum: &str, detail: Option<&str>) -> (r: String)
    ensures
        r@ == match detail {
            Some(d) => not_thread_url_message(url@, forum@) + ": "@ + d@,
            None => not_thread_url_message(url@, forum@),
        },
{
    let mut v = chars_of("'");
    push_str(&mut v, url);
    push_str(&mut v, "'不是标准的");
    push_str(&mut v, forum);
    push_str(&mut v, "帖子网址");
    match detail {
        Some(d) => {
            push_str(&mut v, ": ");
            push_str(&mut v, d);
        },
        None => {},
    }
    string_from_chars(&v)
}

/// View of a `(thread id, page)` result.
pub open spec fn tid_pn_view(r: Result<(String, usize), Error>) -> Result<(Seq<char>, usize), ErrorView> {
    match r {
        Ok((t, p)) => Ok((t@, p)),
        Err(e) => Err(e@),
    }
}

/// The pages that the arrow keys lead to from page `pn` of `last`:
/// the previous page when there is one, the next page when it exists.
pub open spec fn arrow_pages(pn: usize, last: usize) -> (Option<usize>, Option<usize>) {
    (
        if pn >= 2 { Some((pn - 1) as usize) } else { None },
        if pn + 1 <= last { Some((pn + 1) as usize) } else { None },
    )
}

/// Executable `arrow_pages`; page numbers start at 1.
pub fn arrow_pages_exec(pn: usize, last: usize) -> (r: (Option<usize>, Option<usize>))
    requires
        1 <= pn < usize::MAX,
    ensures
        r == arrow_pages(pn, last),
{
    let prev = if pn - 1 >= 1 { Some(pn - 1) } else { None };
    let next = if pn + 1 <= last { Some(pn + 1) } else { None };
    (prev, next)
}

/// The `onkeydown` handler of a page-number box: on Enter it goes to the
/// local file whose name `file_for_value` gives for the typed value.
pub open spec fn page_jump_handler(file_for_value: Seq<char>) -> Seq<char> {
    "if(event.keyCode==13){window.location=`"@ + file_for_value + "`;doane(event);}"@
}

/// Executable `page_jump_handler`.
pub fn page_jump_handler_text(file_for_value: &str) -> (r: String)
    ensures
        r@ == page_jump_handler(file_for_value@),
{
    let mut v = chars_of("if(event.keyCode==13){window.location=`");
    push_str(&mut v, file_for_value);
    push_str(&mut v, "`;doane(event);}");
    string_from_chars(&v)
}

/// The decimal text of a page number.
pub fn page_text(pn: usize) -> (r: String)
    ensures
        r@ == decimal_spec(pn as nat),
{
    let mut v: Vec<char> = Vec::new();
    push_decimal(&mut v, pn);
    assert(v@ =~= decimal_spec(pn as nat));
    string_from_chars(&v)
}

/// Directory, under a forum's directory, that holds the saved pages.
pub open spec fn posts_sub_dir() -> Seq<char> {
    "posts"@
}

/// Directory, under a forum's directory, that holds the saved assets.
pub open spec fn assets_sub_dir() -> Seq<char> {
    "assets"@
}

/// Executable `posts_sub_dir`.
pub fn posts_sub_dir_exec() -> (r: String)
    ensures
        r@ == posts_sub_dir(),
{
    String::from_str("posts")
}

/// Executable `assets_sub_dir`.
pub fn assets_sub_dir_exec() -> (r: String)
    ensures
        r@ == assets_sub_dir(),
{
    String::from_str("assets")
}

/// A thread title made safe for a file name's separators: `/` and `\`
/// become `_`.
pub open spec fn title_without_separators(title: Seq<char>) -> Seq<char> {
    crate::text::replace_all_spec(
        crate::text::replace_all_spec(title, "/"@, "_"@),
        "\\"@,
        "_"@,
    )
}

/// Executable `title_without_separators`.
pub fn title_without_separators_exec(title: &str) -> (r: String)
    ensures
        r@ == title_without_separators(title@),
{
    proof {
        reveal_strlit("/");
        reveal_strlit("\\");
    }
    let once = crate::text::str_replace(title, "/", "_");
    crate::text::str_replace(once.as_str(), "\\", "_")
}

/// A thread title as it stands in the name of the file that opens the
/// thread: without separators, and with the characters file systems refuse
/// made `_` (see `crate::assets::file_safe`).
pub open spec fn entry_title(title: Seq<char>) -> Seq<char> {
    crate::assets::file_safe(title_without_separators(title))
}

/// Name of the file, in the forum's directory, that opens a saved thread:
/// `{thread_id}-{cleaned title}.html`.
pub open spec fn thread_entry_name(thread_id: Seq<char>, cleaned_title: Seq<char>) -> Seq<char> {
    thread_id + "-"@ + cleaned_title + ".html"@
}

/// Executable `thread_entry_name`.
pub fn thread_entry_name_exec(thread_id: &str, cleaned_title: &str) -> (r: String)
    ensures
        r@ == thread_entry_name(thread_id@, cleaned_title@),
{
    let mut v = chars_of(thread_id);
    push_str(&mut v, "-");
    push_str(&mut v, cleaned_title);
    push_str(&mut v, ".html");
    string_from_chars(&v)
}

/// Content of the entry file: an immediate redirect to the first saved page.
pub open spec fn thread_entry_content(first_page_file: Seq<char>) -> Seq<char> {
    "<meta http-equiv=\"refresh\" content=\"0;url="@ + posts_sub_dir() + "/"@ + first_page_file
        + "\">"@
}

/// Executable `thread_entry_content`.
pub fn thread_entry_content_exec(first_page_file: &str) -> (r: String)
    ensures
        r@ == thread_entry_content(first_page_file@),
{
    let mut v = chars_of("<meta http-equiv=\"refresh\" content=\"0;url=");
    push_str(&mut v, "posts");
    push_str(&mut v, "/");
    push_str(&mut v, first_page_file);
    push_str(&mut v, "\">");
    string_from_chars(&v)
}

/// The script that turns saved pages with the arrow keys: left opens
/// `prev`, right opens `next`, when there is one.
pub open spec fn keyboard_nav_script(prev: Option<Seq<char>>, next: Option<Seq<char>>) -> Seq<char> {
    "document.onkeyup=function(e){"@ + match prev {
        Some(p) => "if(e.keyCode==37){window.location='"@ + p + "';}"@,
        None => Seq::empty(),
    } + match next {
        Some(n) => "if(e.keyCode==39){window.location='"@ + n + "';}"@,
        None => Seq::empty(),
    } + "};"@
}

/// Executable `keyboard_nav_script`.
pub fn keyboard_nav_script_text(prev: Option<&str>, next: Option<&str>) -> (r: String)
    ensures
        r@ == keyboard_nav_script(
            match prev {
                Some(p) => Some(p@),
                None => None,
            },
            match next {
                Some(n) => Some(n@),
                None => None,
            },
        ),
{
    let mut v = chars_of("document.onkeyup=function(e){");
    match prev {
        Some(p) => {
            push_str(&mut v, "if(e.keyCode==37){window.location='");
            push_str(&mut v, p);
            push_str(&mut v, "';}");
        },
        None => {},
    }
    match next {
        Some(n) => {
            push_str(&mut v, "if(e.keyCode==39){window.location='");
            push_str(&mut v, n);
            push_str(&mut v, "';}");
        },
        None => {},
    }
    push_str(&mut v, "};");
    string_from_chars(&v)
}

/// An element removal that a saved page undergoes before its assets are
/// localised, by CSS selector.
#[derive(Debug, Clone)]
pub enum Removal {
    /// The first element that matches.
    First(String),
    /// The first element that matches the first selector, or, when there is
    /// none, the first that matches the second.
    FirstOr(String, String),
    /// Every element that matches.
    Every(String),
    /// Inside the first element that matches the first selector, the first
    /// element that matches the second.
    FirstWithin(String, String),
    /// When an element matches the first selector, the first element of the
    /// page that matches the second.
    FirstIfPresent(String, String),
}

/// The value of a [`Removal`].
pub enum RemovalView {
    First(Seq<char>),
    FirstOr(Seq<char>, Seq<char>),
    Every(Seq<char>),
    FirstWithin(Seq<char>, Seq<char>),
    FirstIfPresent(Seq<char>, Seq<char>),
}

impl View for Removal {
    type V = RemovalView;

    open spec fn view(&self) -> RemovalView {
        match self {
            Removal::First(a) => RemovalView::First(a@),
            Removal::FirstOr(a, b) => RemovalView::FirstOr(a@, b@),
            Removal::Every(a) => RemovalView::Every(a@),
            Removal::FirstWithin(a, b) => RemovalView::FirstWithin(a@, b@),
            Removal::FirstIfPresent(a, b) => RemovalView::FirstIfPresent(a@, b@),
        }
    }
}

/// View of a list of removals.
pub open spec fn removals_view(v: Seq<Removal>) -> Seq<RemovalView> {
    v.map_values(|r: Removal| r@)
}

} // verus!
