//! The V2EX forum.
use vstd::prelude::*;
use crate::address::string_option_view;
use crate::auth::AuthMethod;
use crate::error::{Error, ErrorView};
use crate::forums::common::{
    removals_view, Removal, RemovalView, base_url_domain, domain_of_base_url,
    not_thread_url_message, not_thread_url_text, page_text, tid_pn_view,
};
use crate::forums::discuz::{default_interval, discuz_title, thread_info_result_view, DiscuzForum};
use crate::patterns::{slash_t_captures, slash_t_spans};
use crate::text::{
    after_last, after_last_spec, chars_of, contains_seq, decimal_spec, has_prefix, parse_usize,
    parse_usize_range, parse_usize_spec, push_str, str_contains, str_eq, str_starts_with,
    string_from_chars, sub_string, trim, trim_end_char, trim_end_char_spec, trim_spec,
};
use crate::types::{ThreadInfo, ThreadInfoView};

verus! {

/// Settings of the V2EX forum.
#[derive(Debug, Clone)]
pub struct V2exForumConfig {
    pub name: String,
    pub base_url: String,
    pub auth_method: AuthMethod,
    pub remove_ads: bool,
    pub remove_user_info: bool,
    pub remove_reply_box: bool,
    pub interval_ms: u64,
}

impl Default for V2exForumConfig {
    /// Guest access to `https://v2ex.com`.
    fn default() -> (r: Self)
        ensures
            r.name@ == "V2ex"@,
            r.base_url@ == "https://v2ex.com"@,
            r.auth_method matches AuthMethod::Guest,
            r.remove_ads && r.remove_user_info && r.remove_reply_box,
            r.interval_ms == 1500,
    {
        V2exForumConfig {
            name: String::from_str("V2ex"),
            base_url: String::from_str("https://v2ex.com"),
            auth_method: AuthMethod::Guest,
            remove_ads: true,
            remove_user_info: true,
            remove_reply_box: true,
            interval_ms: default_interval(),
        }
    }
}

impl V2exForumConfig {
    /// A copy of these settings.
    pub fn copy(&self) -> (r: Self)
        ensures
            r == *self,
    {
        V2exForumConfig {
            name: self.name.clone(),
            base_url: self.base_url.clone(),
            auth_method: self.auth_method.copy(),
            remove_ads: self.remove_ads,
            remove_user_info: self.remove_user_info,
            remove_reply_box: self.remove_reply_box,
            interval_ms: self.interval_ms,
        }
    }

    /// The forum these settings describe; V2EX has no password login.
    pub fn build_forum(self) -> (r: Result<V2exForum, Error>)
        ensures
            self.auth_method is UsernamePassword ==> (r matches Err(e) && e@ == ErrorView::Login(
                self.name@ + "不支持用户名密码登录，请使用其他登录方式"@,
            )),
            !(self.auth_method is UsernamePassword) ==> (r matches Ok(f) && f.config == self
                && f.domain@ == base_url_domain(self.base_url@)),
    {
        V2exForum::from_config(self)
    }

    /// The host of the base address (empty when there is none).
    pub fn domain(&self) -> (r: String)
        ensures
            r@ == base_url_domain(self.base_url@),
    {
        domain_of_base_url(self.base_url.as_str())
    }
}

/// The V2EX forum ready to be read.
#[derive(Debug, Clone)]
pub struct V2exForum {
    pub config: V2exForumConfig,
    pub domain: String,
}

/// `(thread id, page)` of a V2EX address `/t/{tid}` with an optional
/// `?p={page}` right after; a page that does not parse counts as 1.
pub open spec fn v2ex_tid_pn(name: Seq<char>, url: Seq<char>) -> Result<(Seq<char>, usize), ErrorView> {
    match slash_t_captures(url) {
        None => Err(ErrorView::ThreadInfo(not_thread_url_message(url, name))),
        Some((t, page)) => Ok(
            (
                t,
                match page {
                    Some(p) => match parse_usize_spec(p) {
                        Ok(n) => n,
                        Err(_) => 1,
                    },
                    None => 1,
                },
            ),
        ),
    }
}

/// Address of page `pn` of thread `tid` (page `1` has no page query).
pub open spec fn v2ex_thread_url(base: Seq<char>, tid: Seq<char>, pn: Seq<char>) -> Seq<char> {
    if pn == "1"@ {
        base + "/t/"@ + tid
    } else {
        base + "/t/"@ + tid + "?p="@ + pn
    }
}

/// Local file name of page `pn` of thread `tid`.
pub open spec fn v2ex_filename(tid: Seq<char>, pn: Seq<char>) -> Seq<char> {
    "t-"@ + tid + "-"@ + pn + ".html"@
}

/// A number read from an attribute, or 1 when absent or not a number.
pub open spec fn number_or_one(attr: Option<Seq<char>>) -> usize {
    match attr {
        Some(a) => match parse_usize_spec(a) {
            Ok(n) => n,
            Err(_) => 1,
        },
        None => 1,
    }
}

/// What a V2EX page tells: the thread id from its address, the title from
/// its heading (required), page count and current page from the page box's
/// `max` and `value` attributes.
pub open spec fn v2ex_thread_info(
    name: Seq<char>,
    url: Seq<char>,
    heading: Option<Seq<char>>,
    max_attr: Option<Seq<char>>,
    value_attr: Option<Seq<char>>,
) -> Result<ThreadInfoView, ErrorView> {
    match v2ex_tid_pn(name, url) {
        Err(e) => Err(e),
        Ok((tid, _)) => match heading {
            None => Err(ErrorView::ThreadInfo("获取标题失败"@)),
            Some(h) => Ok(
                ThreadInfoView {
                    title: discuz_title(h),
                    thread_id: tid,
                    total_pages: number_or_one(max_attr),
                    current_pn: number_or_one(value_attr),
                    page_size: 100,
                },
            ),
        },
    }
}

/// The local target of a page link: the number after the last `=` (1 when
/// it is not a number), unless it is beyond the last page.
pub open spec fn v2ex_local_link(href: Seq<char>, thread_id: Seq<char>, last: usize) -> Option<Seq<char>> {
    let pn = match parse_usize_spec(after_last_spec(href, '=')) {
        Ok(n) => n,
        Err(_) => 1,
    };
    if pn > last {
        None
    } else {
        Some(v2ex_filename(thread_id, decimal_spec(pn as nat)))
    }
}

fn number_or_one_exec(attr: Option<String>) -> (r: usize)
    ensures
        r == number_or_one(string_option_view(attr)),
{
    match attr {
        Some(a) => match parse_usize(a.as_str()) {
            Ok(n) => n,
            Err(_) => 1,
        },
        None => 1,
    }
}

fn v2ex_filename_text(tid: &str, pn: &str) -> (r: String)
    ensures
        r@ == v2ex_filename(tid@, pn@),
{
    let mut v = chars_of("t-");
    push_str(&mut v, tid);
    push_str(&mut v, "-");
    push_str(&mut v, pn);
    push_str(&mut v, ".html");
    string_from_chars(&v)
}

impl V2exForum {
    /// The forum for `config`, its host taken from the base address; V2EX
    /// has no password login.
    pub fn from_config(config: V2exForumConfig) -> (r: Result<Self, Error>)
        ensures
            config.auth_method is UsernamePassword ==> (r matches Err(e) && e@ == ErrorView::Login(
                config.name@ + "不支持用户名密码登录，请使用其他登录方式"@,
            )),
            !(config.auth_method is UsernamePassword) ==> (r matches Ok(f) && f.config == config
                && f.domain@ == base_url_domain(config.base_url@)),
    {
        match Self::check_auth_method(&config) {
            Err(e) => Err(e),
            Ok(()) => {
                let domain = config.domain();
                Ok(V2exForum { config, domain })
            },
        }
    }

    /// The forum named `name` at `base_url_str` (trailing `/` removed), with
    /// every other setting at its default; V2EX has no password login.
    pub fn try_new(name: &str, base_url_str: &str, auth_method: AuthMethod) -> (r: Result<Self, Error>)
        ensures
            auth_method is UsernamePassword ==> (r matches Err(e) && e@ == ErrorView::Login(
                name@ + "不支持用户名密码登录，请使用其他登录方式"@,
            )),
            !(auth_method is UsernamePassword) ==> (r matches Ok(f) && f.config.name@ == name@
                && f.config.base_url@ == trim_end_char_spec(base_url_str@, '/') && f.config.auth_method
                == auth_method && f.config.remove_ads && f.config.remove_user_info
                && f.config.remove_reply_box && f.config.interval_ms == 1500 && f.domain@
                == base_url_domain(f.config.base_url@)),
    {
        let base = trim_end_char(&chars_of(base_url_str), '/');
        let config = V2exForumConfig {
            name: String::from_str(name),
            base_url: string_from_chars(&base),
            auth_method,
            remove_ads: true,
            remove_user_info: true,
            remove_reply_box: true,
            interval_ms: default_interval(),
        };
        Self::from_config(config)
    }

    /// V2EX has no password login.
    pub fn check_auth_method(config: &V2exForumConfig) -> (r: Result<(), Error>)
        ensures
            config.auth_method is UsernamePassword ==> (r matches Err(e) && e@ == ErrorView::Login(
                config.name@ + "不支持用户名密码登录，请使用其他登录方式"@,
            )),
            !(config.auth_method is UsernamePassword) ==> r is Ok,
    {
        match &config.auth_method {
            AuthMethod::UsernamePassword { .. } => {
                let mut v = chars_of(config.name.as_str());
                push_str(&mut v, "不支持用户名密码登录，请使用其他登录方式");
                Err(Error::Login(string_from_chars(&v)))
            },
            _ => Ok(()),
        }
    }

    /// The forum's display name.
    pub fn name(&self) -> (r: &str)
        ensures
            r@ == self.config.name@,
    {
        self.config.name.as_str()
    }

    /// The forum's host.
    pub fn domain(&self) -> (r: &str)
        ensures
            r@ == self.domain@,
    {
        self.domain.as_str()
    }

    /// The forum's base address.
    pub fn base_url(&self) -> (r: &str)
        ensures
            r@ == self.config.base_url@,
    {
        self.config.base_url.as_str()
    }

    /// Whether `url` lies under the base address.
    pub fn match_url(&self, url: &str) -> (r: bool)
        ensures
            r == has_prefix(url@, self.config.base_url@),
    {
        str_starts_with(url, self.config.base_url.as_str())
    }

    /// Pause between two page requests.
    pub fn interval_ms(&self) -> (r: u64)
        ensures
            r == self.config.interval_ms,
    {
        self.config.interval_ms
    }

    /// The page that shows who is logged in.
    pub fn home_url(&self) -> (r: String)
        ensures
            r@ == self.config.base_url@ + "/"@,
    {
        let mut v = chars_of(self.config.base_url.as_str());
        push_str(&mut v, "/");
        string_from_chars(&v)
    }

    /// The user name: the trimmed text of the first member link, when it
    /// exists and is not empty.
    pub fn extract_username(link_text: Option<String>) -> (r: Option<String>)
        ensures
            string_option_view(r) == match string_option_view(link_text) {
                Some(t) => if trim_spec(t).len() > 0 {
                    Some(trim_spec(t))
                } else {
                    None
                },
                None => None,
            },
    {
        match link_text {
            Some(t) => {
                let v = trim(&chars_of(t.as_str()));
                if v.len() > 0 {
                    Some(string_from_chars(&v))
                } else {
                    None
                }
            },
            None => None,
        }
    }

    /// Thread id and page number of a V2EX address.
    pub fn extract_tid_pn(&self, page_url: &str) -> (r: Result<(String, usize), Error>)
        ensures
            tid_pn_view(r) == v2ex_tid_pn(self.config.name@, page_url@),
    {
        let s = chars_of(page_url);
        match slash_t_spans(&s) {
            None => Err(Error::ThreadInfo(not_thread_url_text(page_url, self.config.name.as_str(), None))),
            Some((a, b, page)) => {
                let tid = sub_string(&s, a, b);
                let pn = match page {
                    Some((c, d)) => match parse_usize_range(&s, c, d) {
                        Ok(n) => n,
                        Err(_) => 1,
                    },
                    None => 1,
                };
                Ok((tid, pn))
            },
        }
    }

    /// Address of page `pn` of thread `tid`.
    pub fn generate_thread_url(&self, tid: &str, pn: &str) -> (r: String)
        ensures
            r@ == v2ex_thread_url(self.config.base_url@, tid@, pn@),
    {
        let mut v = chars_of(self.config.base_url.as_str());
        push_str(&mut v, "/t/");
        push_str(&mut v, tid);
        if !str_eq(pn, "1") {
            push_str(&mut v, "?p=");
            push_str(&mut v, pn);
        }
        string_from_chars(&v)
    }

    /// Local file name of page `pn` of thread `tid`.
    pub fn generate_filename(&self, tid: &str, pn: &str) -> (r: String)
        ensures
            r@ == v2ex_filename(tid@, pn@),
    {
        v2ex_filename_text(tid, pn)
    }

    /// What a V2EX page tells (see `v2ex_thread_info`).
    pub fn extract_thread_info(
        &self,
        thread_url: &str,
        heading: Option<String>,
        max_attr: Option<String>,
        value_attr: Option<String>,
    ) -> (r: Result<ThreadInfo, Error>)
        ensures
            thread_info_result_view(r) == v2ex_thread_info(
                self.config.name@,
                thread_url@,
                string_option_view(heading),
                string_option_view(max_attr),
                string_option_view(value_attr),
            ),
    {
        let (thread_id, _) = match self.extract_tid_pn(thread_url) {
            Ok(x) => x,
            Err(e) => return Err(e),
        };
        let title = match DiscuzForum::extract_title(heading) {
            Ok(t) => t,
            Err(e) => return Err(e),
        };
        let total_pages = number_or_one_exec(max_attr);
        let current_pn = number_or_one_exec(value_attr);
        Ok(ThreadInfo { title, thread_id, total_pages, current_pn, page_size: 100 })
    }

    /// The local target of a page link on a saved page of `thread_id`
    /// (which has `last` pages), or `None` when the link stays.
    pub fn localize_page_link(&self, href: &str, thread_id: &str, last: usize) -> (r: Option<String>)
        ensures
            string_option_view(r) == v2ex_local_link(href@, thread_id@, last),
    {
        let tail = after_last(&chars_of(href), '=');
        assert(tail@.subrange(0, tail@.len() as int) =~= tail@);
        let pn = match parse_usize_range(&tail, 0, tail.len()) {
            Ok(n) => n,
            Err(_) => 1,
        };
        if pn > last {
            None
        } else {
            let p = page_text(pn);
            Some(v2ex_filename_text(thread_id, p.as_str()))
        }
    }

    /// Whether a head script is the traffic guard (`protectTraffic()`) that
    /// saved pages drop.
    pub fn is_traffic_guard_script(script_text: &str) -> (r: bool)
        ensures
            r == contains_seq(script_text@, "protectTraffic()"@),
    {
        str_contains(script_text, "protectTraffic()")
    }
}

/// What a saved V2EX page loses, as configured: the user links of the top
/// bar and of the share button, the user box and the campaign of the right
/// bar (when the page has one), and the reply box.
pub open spec fn v2ex_removals(c: V2exForumConfig) -> Seq<RemovalView> {
    (if c.remove_user_info {
        seq![
            RemovalView::First("a[href^='/member/']"@),
            RemovalView::First("a.tb[onclick^='window.open']"@),
            RemovalView::FirstWithin("#Rightbar"@, ".box"@),
        ]
    } else {
        Seq::empty()
    }) + (if c.remove_ads {
        seq![RemovalView::FirstIfPresent("#Rightbar"@, "#pro-campaign-container"@)]
    } else {
        Seq::empty()
    }) + (if c.remove_reply_box {
        seq![RemovalView::First("#reply-box"@)]
    } else {
        Seq::empty()
    })
}

impl V2exForum {
    /// The removals a page of this forum undergoes (see `v2ex_removals`).
    pub fn removals(&self) -> (r: Vec<Removal>)
        ensures
            removals_view(r@) == v2ex_removals(self.config),
    {
        let mut r: Vec<Removal> = Vec::new();
        if self.config.remove_user_info {
            r.push(Removal::First(String::from_str("a[href^='/member/']")));
            r.push(Removal::First(String::from_str("a.tb[onclick^='window.open']")));
            r.push(Removal::FirstWithin(String::from_str("#Rightbar"), String::from_str(".box")));
        }
        let ghost a = removals_view(r@);
        if self.config.remove_ads {
            r.push(
                Removal::FirstIfPresent(
                    String::from_str("#Rightbar"),
                    String::from_str("#pro-campaign-container"),
                ),
            );
        }
        let ghost b = removals_view(r@);
        if self.config.remove_reply_box {
            r.push(Removal::First(String::from_str("#reply-box")));
        }
        proof {
            let cf = self.config;
            assert(a =~= (if cf.remove_user_info {
                seq![
                    RemovalView::First("a[href^='/member/']"@),
                    RemovalView::First("a.tb[onclick^='window.open']"@),
                    RemovalView::FirstWithin("#Rightbar"@, ".box"@),
                ]
            } else {
                Seq::empty()
            }));
            assert(b =~= a + (if cf.remove_ads {
                seq![RemovalView::FirstIfPresent("#Rightbar"@, "#pro-campaign-container"@)]
            } else {
                Seq::empty()
            }));
            assert(removals_view(r@) =~= b + (if cf.remove_reply_box {
                seq![RemovalView::First("#reply-box"@)]
            } else {
                Seq::empty()
            }));
        }
        r
    }
}

} // verus!
