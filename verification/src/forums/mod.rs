//! The supported forums.
use vstd::prelude::*;
use crate::error::{Error, ErrorView};
use crate::forums::common::{
    arrow_pages, arrow_pages_exec, base_url_domain, page_jump_handler, page_jump_handler_text,
    page_text, thread_entry_content, thread_entry_content_exec, thread_entry_name,
    thread_entry_name_exec, tid_pn_view, title_without_separators, title_without_separators_exec,
};
use crate::text::decimal_spec;
use crate::forums::discuz::{discuz_filename, discuz_thread_url, discuz_tid_pn, DiscuzForum, DiscuzForumConfig};
use crate::forums::nga::{nga_filename, nga_pn_from_filename, nga_thread_url, nga_tid_pn, NGAForum, NGAForumConfig};
use crate::forums::v2ex::{v2ex_filename, v2ex_thread_url, v2ex_tid_pn, V2exForum, V2exForumConfig};
use crate::auth::AuthMethod;

pub mod common;
pub mod discuz;
pub mod nga;
pub mod nga_media;
pub mod nga_script;
pub mod pages;
pub mod v2ex;

verus! {

/// The settings of one configured forum.
#[derive(Debug, Clone)]
pub enum ForumConfig {
    Discuz(DiscuzForumConfig),
    V2ex(V2exForumConfig),
    NGA(NGAForumConfig),
}

/// The base address of a configured forum.
pub open spec fn forum_config_base_url(c: ForumConfig) -> Seq<char> {
    match c {
        ForumConfig::Discuz(d) => d.base_url@,
        ForumConfig::V2ex(v) => v.base_url@,
        ForumConfig::NGA(n) => n.base_url@,
    }
}

/// The host a configured forum is known by.
pub open spec fn forum_config_domain(c: ForumConfig) -> Seq<char> {
    base_url_domain(forum_config_base_url(c))
}

/// What building a forum from settings `c` gives: the forum, or the
/// refusal of a login the forum does not accept.
pub open spec fn build_forum_result(c: ForumConfig, r: Result<Forum, Error>) -> bool {
    match c {
        ForumConfig::Discuz(c) => r matches Ok(Forum::Discuz(f)) && f.config == c && f.domain@ == base_url_domain(
            c.base_url@,
        ),
        ForumConfig::V2ex(c) => if c.auth_method is UsernamePassword {
            r matches Err(e) && e@ == ErrorView::Login(
                c.name@ + "不支持用户名密码登录，请使用其他登录方式"@,
            )
        } else {
            r matches Ok(Forum::V2ex(f)) && f.config == c && f.domain@ == base_url_domain(c.base_url@)
        },
        ForumConfig::NGA(c) => if c.auth_method is UsernamePassword {
            r matches Err(e) && e@ == ErrorView::Login(
                c.name@ + "用户名密码登录需要验证码，请使用Cookie登录"@,
            )
        } else if c.auth_method is Guest {
            r matches Err(e) && e@ == ErrorView::Login(c.name@ + "限制游客访问，请使用Cookie登录后下载"@)
        } else {
            r matches Ok(Forum::NGA(f)) && f.config == c && f.domain@ == base_url_domain(c.base_url@)
        },
    }
}

impl ForumConfig {
    /// A copy of these settings.
    pub fn copy(&self) -> (r: Self)
        ensures
            r == *self,
    {
        match self {
            ForumConfig::Discuz(c) => ForumConfig::Discuz(c.copy()),
            ForumConfig::V2ex(c) => ForumConfig::V2ex(c.copy()),
            ForumConfig::NGA(c) => ForumConfig::NGA(c.copy()),
        }
    }

    /// The host this forum is known by.
    pub fn domain(&self) -> (r: String)
        ensures
            r@ == forum_config_domain(*self),
    {
        match self {
            ForumConfig::Discuz(c) => c.domain(),
            ForumConfig::V2ex(c) => c.domain(),
            ForumConfig::NGA(c) => c.domain(),
        }
    }

    /// The forum these settings describe, refusing logins the forum does not
    /// accept (V2EX: password; NGA: password and guest).  Building the HTTP
    /// client, and the Discuz password login, happen outside.
    pub fn build_forum(self) -> (r: Result<Forum, Error>)
        ensures
            build_forum_result(self, r),
    {
        match self {
            ForumConfig::Discuz(c) => Ok(Forum::Discuz(c.build_forum())),
            ForumConfig::V2ex(c) => match c.build_forum() {
                Err(e) => Err(e),
                Ok(f) => Ok(Forum::V2ex(f)),
            },
            ForumConfig::NGA(c) => match c.build_forum() {
                Err(e) => Err(e),
                Ok(f) => Ok(Forum::NGA(f)),
            },
        }
    }

    /// How this forum is logged into.
    pub fn auth_method(&self) -> (r: &AuthMethod)
        ensures
            *r == match *self {
                ForumConfig::Discuz(c) => c.auth_method,
                ForumConfig::V2ex(c) => c.auth_method,
                ForumConfig::NGA(c) => c.auth_method,
            },
    {
        match self {
            ForumConfig::Discuz(c) => &c.auth_method,
            ForumConfig::V2ex(c) => &c.auth_method,
            ForumConfig::NGA(c) => &c.auth_method,
        }
    }
}

impl From<DiscuzForumConfig> for ForumConfig {
    fn from(c: DiscuzForumConfig) -> Self {
        ForumConfig::Discuz(c)
    }
}

impl vstd::std_specs::convert::FromSpecImpl<DiscuzForumConfig> for ForumConfig {
    open spec fn obeys_from_spec() -> bool {
        true
    }

    open spec fn from_spec(c: DiscuzForumConfig) -> Self {
        ForumConfig::Discuz(c)
    }
}

impl From<V2exForumConfig> for ForumConfig {
    fn from(c: V2exForumConfig) -> Self {
        ForumConfig::V2ex(c)
    }
}

impl vstd::std_specs::convert::FromSpecImpl<V2exForumConfig> for ForumConfig {
    open spec fn obeys_from_spec() -> bool {
        true
    }

    open spec fn from_spec(c: V2exForumConfig) -> Self {
        ForumConfig::V2ex(c)
    }
}

/// A forum ready to be read.
#[derive(Debug, Clone)]
pub enum Forum {
    Discuz(DiscuzForum),
    V2ex(V2exForum),
    NGA(NGAForum),
}

/// The display name of a forum.
pub open spec fn forum_name(f: Forum) -> Seq<char> {
    match f {
        Forum::Discuz(d) => d.config.name@,
        Forum::V2ex(v) => v.config.name@,
        Forum::NGA(n) => n.config.name@,
    }
}

/// `(thread id, page)` of an address on this forum.
pub open spec fn forum_tid_pn(f: Forum, url: Seq<char>) -> Result<(Seq<char>, usize), ErrorView> {
    match f {
        Forum::Discuz(d) => discuz_tid_pn(d.config.name@, url),
        Forum::V2ex(v) => v2ex_tid_pn(v.config.name@, url),
        Forum::NGA(_) => nga_tid_pn(url),
    }
}

/// Address of page `pn` of thread `tid` on this forum.
pub open spec fn forum_thread_url(f: Forum, tid: Seq<char>, pn: Seq<char>) -> Seq<char> {
    match f {
        Forum::Discuz(d) => discuz_thread_url(d.config.base_url@, d.config.thread_url_template@, tid, pn),
        Forum::V2ex(v) => v2ex_thread_url(v.config.base_url@, tid, pn),
        Forum::NGA(n) => nga_thread_url(n.config.base_url@, tid, pn),
    }
}

/// Local file name of page `pn` of thread `tid` on this forum.
pub open spec fn forum_filename(f: Forum, tid: Seq<char>, pn: Seq<char>) -> Seq<char> {
    match f {
        Forum::Discuz(_) => discuz_filename(tid, pn),
        Forum::V2ex(_) => v2ex_filename(tid, pn),
        Forum::NGA(_) => nga_filename(tid, pn),
    }
}

/// The page number of a saved file of thread `tid`; only NGA names its
/// saved pages in a way it reads back.
pub open spec fn forum_pn_from_filename(f: Forum, filename: Seq<char>, tid: Seq<char>) -> Option<usize> {
    match f {
        Forum::NGA(_) => nga_pn_from_filename(filename, tid),
        _ => None,
    }
}

/// Pause between two page requests on this forum.
pub open spec fn forum_interval_ms(f: Forum) -> u64 {
    match f {
        Forum::Discuz(d) => d.config.interval_ms,
        Forum::V2ex(v) => v.config.interval_ms,
        Forum::NGA(n) => n.config.interval_ms,
    }
}

impl Forum {
    /// The display name.
    pub fn name(&self) -> (r: &str)
        ensures
            r@ == forum_name(*self),
    {
        match self {
            Forum::Discuz(d) => d.name(),
            Forum::V2ex(v) => v.name(),
            Forum::NGA(n) => n.name(),
        }
    }

    /// Thread id and page number of an address on this forum.
    pub fn extract_tid_pn(&self, url: &str) -> (r: Result<(String, usize), Error>)
        ensures
            tid_pn_view(r) == forum_tid_pn(*self, url@),
    {
        match self {
            Forum::Discuz(d) => d.extract_tid_pn(url),
            Forum::V2ex(v) => v.extract_tid_pn(url),
            Forum::NGA(n) => n.extract_tid_pn(url),
        }
    }

    /// Address of page `pn` of thread `tid`.
    pub fn generate_thread_url(&self, tid: &str, pn: &str) -> (r: String)
        ensures
            r@ == forum_thread_url(*self, tid@, pn@),
    {
        match self {
            Forum::Discuz(d) => d.generate_thread_url(tid, pn),
            Forum::V2ex(v) => v.generate_thread_url(tid, pn),
            Forum::NGA(n) => n.generate_thread_url(tid, pn),
        }
    }

    /// Local file name of page `pn` of thread `tid`.
    pub fn generate_filename(&self, tid: &str, pn: &str) -> (r: String)
        ensures
            r@ == forum_filename(*self, tid@, pn@),
    {
        match self {
            Forum::Discuz(d) => d.generate_filename(tid, pn),
            Forum::V2ex(v) => v.generate_filename(tid, pn),
            Forum::NGA(n) => n.generate_filename(tid, pn),
        }
    }

    /// The page number of a saved file of thread `tid`, if this forum reads
    /// it back.
    pub fn extract_pn_from_filename(&self, filename: &str, tid: &str) -> (r: Option<usize>)
        ensures
            r == forum_pn_from_filename(*self, filename@, tid@),
    {
        match self {
            Forum::NGA(n) => n.extract_pn_from_filename(filename, tid),
            _ => None,
        }
    }

    /// The saved files that the arrow keys lead to from page `pn` of `last`
    /// of thread `tid`: the previous page's when there is one, the next
    /// page's when it exists.
    pub fn neighbour_files(&self, tid: &str, pn: usize, last: usize) -> (r: (Option<String>, Option<String>))
        requires
            1 <= pn < usize::MAX,
        ensures
            crate::address::string_option_view(r.0) == match arrow_pages(pn, last).0 {
                Some(p) => Some(forum_filename(*self, tid@, decimal_spec(p as nat))),
                None => None,
            },
            crate::address::string_option_view(r.1) == match arrow_pages(pn, last).1 {
                Some(p) => Some(forum_filename(*self, tid@, decimal_spec(p as nat))),
                None => None,
            },
    {
        let (prev, next) = arrow_pages_exec(pn, last);
        let a = match prev {
            Some(p) => Some(self.generate_filename(tid, page_text(p).as_str())),
            None => None,
        };
        let b = match next {
            Some(p) => Some(self.generate_filename(tid, page_text(p).as_str())),
            None => None,
        };
        (a, b)
    }

    /// The `onkeydown` handler of the page-number box of a saved page of
    /// thread `tid`: Enter opens the saved file of the typed page.
    pub fn page_jump_handler(&self, tid: &str) -> (r: String)
        ensures
            r@ == page_jump_handler(forum_filename(*self, tid@, "${this.value}"@)),
    {
        let target = self.generate_filename(tid, "${this.value}");
        page_jump_handler_text(target.as_str())
    }

    /// Name of the file, in the forum's directory, that opens a saved
    /// thread: `{thread_id}-{title}.html`, the title cleaned by
    /// `entry_title`.
    pub fn entry_file_name(&self, thread_id: &str, title: &str) -> (r: String)
        ensures
            r@ == thread_entry_name(thread_id@, crate::forums::common::entry_title(title@)),
    {
        let once = title_without_separators_exec(title);
        let cleaned = crate::assets::file_safe_exec(&crate::text::chars_of(once.as_str()));
        thread_entry_name_exec(thread_id, cleaned.as_str())
    }

    /// Content of that file: a redirect to the saved first page.
    pub fn entry_file_content(&self, thread_id: &str) -> (r: String)
        ensures
            r@ == thread_entry_content(forum_filename(*self, thread_id@, "1"@)),
    {
        let first = self.generate_filename(thread_id, "1");
        thread_entry_content_exec(first.as_str())
    }

    /// Pause between two page requests.
    pub fn interval_ms(&self) -> (r: u64)
        ensures
            r == forum_interval_ms(*self),
    {
        match self {
            Forum::Discuz(d) => d.interval_ms(),
            Forum::V2ex(v) => v.interval_ms(),
            Forum::NGA(n) => n.interval_ms(),
        }
    }
}

} // verus!
