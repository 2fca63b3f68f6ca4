//! Forums built on Discuz.
use vstd::prelude::*;
use crate::address::string_option_view;
use crate::auth::AuthMethod;
use crate::error::{Error, ErrorView};
use crate::forums::common::{
    removals_view, Removal, RemovalView, base_url_domain, domain_of_base_url,
    not_thread_url_message, not_thread_url_text, page_text, tid_pn_view,
};
use crate::patterns::{thread_dash_captures, thread_dash_spans, tid_query_captures, tid_query_spans};
use crate::text::{
    chars_of, contains_seq, decimal_spec, has_prefix, int_parse_error_message, parse_usize_range,
    parse_usize_spec, push_str, replace_all_spec, str_contains, str_replace, str_starts_with,
    string_from_chars, sub_string, trim, trim_end_char, trim_end_char_spec, trim_spec,
};
use crate::types::{ThreadInfo, ThreadInfoView};

verus! {

/// `true`, the default of every on/off clean-up setting.
pub fn default_true() -> (r: bool)
    ensures
        r,
{
    true
}

/// 1500 ms, the default pause between two page requests.
pub fn default_interval() -> (r: u64)
    ensures
        r == 1500,
{
    1500
}

/// The default relative address of a thread page.
pub open spec fn default_thread_url_template_spec() -> Seq<char> {
    "thread-{tid}-{pn}-1.html"@
}

/// `thread-{tid}-{pn}-1.html`.
pub fn default_thread_url_template() -> (r: String)
    ensures
        r@ == default_thread_url_template_spec(),
{
    String::from_str("thread-{tid}-{pn}-1.html")
}

/// CSS selectors of the parts of a Discuz page that the library reads or removes.
#[derive(Debug, Clone)]
pub struct DiscuzSelectors {
    pub thread_title: String,
    pub pg_divs: String,
    pub pgbtn: String,
    pub pn_input: String,
    pub username: String,
    pub user_info: String,
    pub login_box: String,
    pub reply_box: String,
    pub ads: String,
    pub charset: String,
}

impl Default for DiscuzSelectors {
    /// The selectors of a stock Discuz theme.
    fn default() -> (r: Self)
        ensures
            r.thread_title@ == "h1"@,
            r.pg_divs@ == "div.pg"@,
            r.pgbtn@ == "div.pgbtn"@,
            r.pn_input@ == "input.px[name='custompage']"@,
            r.username@ == "strong.vwmy"@,
            r.user_info@ == "#um"@,
            r.login_box@ == "div.y.pns"@,
            r.reply_box@ == "#f_pst"@,
            r.ads@ == ".wp.a_h"@,
            r.charset@ == "meta[charset='gbk']"@,
    {
        DiscuzSelectors {
            thread_title: String::from_str("h1"),
            pg_divs: String::from_str("div.pg"),
            pgbtn: String::from_str("div.pgbtn"),
            pn_input: String::from_str("input.px[name='custompage']"),
            username: String::from_str("strong.vwmy"),
            user_info: String::from_str("#um"),
            login_box: String::from_str("div.y.pns"),
            reply_box: String::from_str("#f_pst"),
            ads: String::from_str(".wp.a_h"),
            charset: String::from_str("meta[charset='gbk']"),
        }
    }
}

impl DiscuzSelectors {
    /// A copy of these selectors.
    pub fn copy(&self) -> (r: Self)
        ensures
            r == *self,
    {
        DiscuzSelectors {
            thread_title: self.thread_title.clone(),
            pg_divs: self.pg_divs.clone(),
            pgbtn: self.pgbtn.clone(),
            pn_input: self.pn_input.clone(),
            username: self.username.clone(),
            user_info: self.user_info.clone(),
            login_box: self.login_box.clone(),
            reply_box: self.reply_box.clone(),
            ads: self.ads.clone(),
            charset: self.charset.clone(),
        }
    }
}

/// Settings of one Discuz forum.
#[derive(Debug, Clone)]
pub struct DiscuzForumConfig {
    pub name: String,
    pub base_url: String,
    pub auth_method: AuthMethod,
    pub remove_ads: bool,
    pub remove_user_info: bool,
    pub remove_reply_box: bool,
    pub interval_ms: u64,
    pub thread_url_template: String,
    pub selectors: DiscuzSelectors,
}

impl Default for DiscuzForumConfig {
    /// A guest configuration named `Discuz` with no base address.
    fn default() -> (r: Self)
        ensures
            r.name@ == "Discuz"@,
            r.base_url@ == Seq::<char>::empty(),
            r.auth_method matches AuthMethod::Guest,
            r.remove_ads && r.remove_user_info && r.remove_reply_box,
            r.interval_ms == 1500,
            r.thread_url_template@ == default_thread_url_template_spec(),
            r.selectors.thread_title@ == "h1"@,
    {
        DiscuzForumConfig {
            name: String::from_str("Discuz"),
            base_url: String::new(),
            auth_method: AuthMethod::Guest,
            remove_ads: true,
            remove_user_info: true,
            remove_reply_box: true,
            interval_ms: default_interval(),
            thread_url_template: default_thread_url_template(),
            selectors: DiscuzSelectors::default(),
        }
    }
}

impl DiscuzForumConfig {
    /// A copy of these settings.
    pub fn copy(&self) -> (r: Self)
        ensures
            r == *self,
    {
        DiscuzForumConfig {
            name: self.name.clone(),
            base_url: self.base_url.clone(),
            auth_method: self.auth_method.copy(),
            remove_ads: self.remove_ads,
            remove_user_info: self.remove_user_info,
            remove_reply_box: self.remove_reply_box,
            interval_ms: self.interval_ms,
            thread_url_template: self.thread_url_template.clone(),
            selectors: self.selectors.copy(),
        }
    }

    /// The forum these settings describe.  (Building the HTTP client, and
    /// the password login when one is configured, happen outside.)
    pub fn build_forum(self) -> (r: DiscuzForum)
        ensures
            r.config == self,
            r.domain@ == base_url_domain(self.base_url@),
    {
        DiscuzForum::from_config(self)
    }

    /// The host of the base address (empty when there is none).
    pub fn domain(&self) -> (r: String)
        ensures
            r@ == base_url_domain(self.base_url@),
    {
        domain_of_base_url(self.base_url.as_str())
    }
}

/// A Discuz forum ready to be read: its settings and its host.
#[derive(Debug, Clone)]
pub struct DiscuzForum {
    pub config: DiscuzForumConfig,
    pub domain: String,
}

/// `(thread id, page)` of a Discuz address: `thread-{tid}-{page}` first,
/// else `tid={tid}` with an optional `&page={page}` later on the same line
/// (page 1 when absent); the page must parse as `usize`.
pub open spec fn discuz_tid_pn(name: Seq<char>, url: Seq<char>) -> Result<(Seq<char>, usize), ErrorView> {
    let caps: Option<(Seq<char>, Seq<char>)> = match thread_dash_captures(url) {
        Some((t, p)) => Some((t, p)),
        None => match tid_query_captures(url) {
            Some((t, Some(p))) => Some((t, p)),
            Some((t, None)) => Some((t, "1"@)),
            None => None,
        },
    };
    match caps {
        None => Err(ErrorView::ThreadInfo(not_thread_url_message(url, name))),
        Some((t, p)) => match parse_usize_spec(p) {
            Ok(n) => Ok((t, n)),
            Err(e) => Err(
                ErrorView::ThreadInfo(
                    not_thread_url_message(url, name) + ": "@ + int_parse_error_message(e),
                ),
            ),
        },
    }
}

/// The address of page `pn` of thread `tid`: the base address, `/`, and the
/// template with `{tid}` and then `{pn}` replaced.
pub open spec fn discuz_thread_url(base: Seq<char>, template: Seq<char>, tid: Seq<char>, pn: Seq<char>) -> Seq<char> {
    base + "/"@ + replace_all_spec(replace_all_spec(template, "{tid}"@, tid), "{pn}"@, pn)
}

/// Local file name of page `pn` of thread `tid`.
pub open spec fn discuz_filename(tid: Seq<char>, pn: Seq<char>) -> Seq<char> {
    "thread-"@ + tid + "-"@ + pn + "-1.html"@
}

/// A heading text as a title: line breaks removed, then trimmed.
pub open spec fn discuz_title(text: Seq<char>) -> Seq<char> {
    trim_spec(replace_all_spec(text, "\n"@, Seq::empty()))
}

/// Number of pages named by the page links `hrefs`: the largest page number
/// among the links that are thread addresses, and at least 1.
pub open spec fn discuz_total_pages(hrefs: Seq<Seq<char>>) -> usize
    decreases hrefs.len(),
{
    if hrefs.len() == 0 {
        1
    } else {
        let prev = discuz_total_pages(hrefs.drop_last());
        match discuz_tid_pn(Seq::empty(), hrefs.last()) {
            Ok((_, pn)) => if pn > prev {
                pn
            } else {
                prev
            },
            Err(_) => prev,
        }
    }
}

/// What a thread page tells: thread id and page from its address, the title
/// from its heading (required), the page count from its page links.
pub open spec fn discuz_thread_info(
    name: Seq<char>,
    url: Seq<char>,
    heading: Option<Seq<char>>,
    page_links: Option<Seq<Seq<char>>>,
) -> Result<ThreadInfoView, ErrorView> {
    match discuz_tid_pn(name, url) {
        Err(e) => Err(e),
        Ok((tid, pn)) => match heading {
            None => Err(ErrorView::ThreadInfo("获取标题失败"@)),
            Some(h) => Ok(
                ThreadInfoView {
                    title: discuz_title(h),
                    thread_id: tid,
                    total_pages: match page_links {
                        Some(links) => discuz_total_pages(links),
                        None => 1,
                    },
                    current_pn: pn,
                    page_size: 40,
                },
            ),
        },
    }
}

/// View of a list of strings.
pub open spec fn strings_view(v: Seq<String>) -> Seq<Seq<char>> {
    v.map_values(|s: String| s@)
}

/// The page-link target a saved page gets: links to a page of the same thread
/// that exists become the local file of that page; others stay.
pub open spec fn discuz_local_link(href: Seq<char>, thread_id: Seq<char>, last: usize) -> Option<Seq<char>> {
    match discuz_tid_pn(Seq::empty(), href) {
        Ok((tid, pn)) => if tid == thread_id && pn <= last {
            Some(discuz_filename(tid, decimal_spec(pn as nat)))
        } else {
            None
        },
        Err(_) => None,
    }
}

/// The view of a `Result<ThreadInfo, Error>`.
pub open spec fn thread_info_result_view(r: Result<ThreadInfo, Error>) -> Result<ThreadInfoView, ErrorView> {
    match r {
        Ok(i) => Ok(i@),
        Err(e) => Err(e@),
    }
}

impl DiscuzForum {
    /// A forum for `config`, its host taken from the base address.
    /// (Building the HTTP client and logging in happen outside.)
    pub fn from_config(config: DiscuzForumConfig) -> (r: Self)
        ensures
            r.domain@ == base_url_domain(config.base_url@),
            r.config == config,
    {
        let domain = config.domain();
        DiscuzForum { config, domain }
    }

    /// A forum named `name` at `base_url_str` (trailing `/` removed), with
    /// every other setting at its default.
    pub fn try_new(name: &str, base_url_str: &str, auth_method: AuthMethod) -> (r: Self)
        ensures
            r.config.name@ == name@,
            r.config.base_url@ == trim_end_char_spec(base_url_str@, '/'),
            r.config.auth_method == auth_method,
            r.config.remove_ads && r.config.remove_user_info && r.config.remove_reply_box,
            r.config.interval_ms == 1500,
            r.config.thread_url_template@ == default_thread_url_template_spec(),
            r.domain@ == base_url_domain(r.config.base_url@),
    {
        let base = trim_end_char(&chars_of(base_url_str), '/');
        let config = DiscuzForumConfig {
            name: String::from_str(name),
            base_url: string_from_chars(&base),
            auth_method,
            remove_ads: true,
            remove_user_info: true,
            remove_reply_box: true,
            interval_ms: default_interval(),
            thread_url_template: default_thread_url_template(),
            selectors: DiscuzSelectors::default(),
        };
        Self::from_config(config)
    }

    /// The forum's display name.
    pub fn name(&self) -> (r: &str)
        ensures
            r@ == self.config.name@,
    {
        self.config.name.as_str()
    }

    /// The forum's host.
    pub fn domain(&self) -> (r: &str)
        ensures
            r@ == self.domain@,
    {
        self.domain.as_str()
    }

    /// The forum's base address.
    pub fn base_url(&self) -> (r: &str)
        ensures
            r@ == self.config.base_url@,
    {
        self.config.base_url.as_str()
    }

    /// Whether `url` lies under the base address.
    pub fn match_url(&self, url: &str) -> (r: bool)
        ensures
            r == has_prefix(url@, self.config.base_url@),
    {
        str_starts_with(url, self.config.base_url.as_str())
    }

    /// Pause between two page requests.
    pub fn interval_ms(&self) -> (r: u64)
        ensures
            r == self.config.interval_ms,
    {
        self.config.interval_ms
    }

    /// The login form's address: the base address without trailing `/`,
    /// then the Discuz login query.
    pub fn login_url(&self) -> (r: String)
        ensures
            r@ == trim_end_char_spec(self.config.base_url@, '/')
                + "/member.php?mod=logging&action=login&loginsubmit=yes&infloat=yes&lssubmit=yes&inajax=1"@,
    {
        let mut v = trim_end_char(&chars_of(self.config.base_url.as_str()), '/');
        push_str(
            &mut v,
            "/member.php?mod=logging&action=login&loginsubmit=yes&infloat=yes&lssubmit=yes&inajax=1",
        );
        string_from_chars(&v)
    }

    /// Judges the reply to a login: it failed when the reply says `登录失败`.
    pub fn check_login_reply(reply: &str) -> (r: Result<(), Error>)
        ensures
            contains_seq(reply@, "登录失败"@) ==> (r matches Err(e) && e@ == ErrorView::Login(
                "登录失败，请检查用户名和密码"@,
            )),
            !contains_seq(reply@, "登录失败"@) ==> r is Ok,
    {
        if str_contains(reply, "登录失败") {
            Err(Error::Login(String::from_str("登录失败，请检查用户名和密码")))
        } else {
            Ok(())
        }
    }

    /// The page that shows who is logged in.
    pub fn home_url(&self) -> (r: String)
        ensures
            r@ == self.config.base_url@ + "/home.php?mod=space&do=thread&view=me"@,
    {
        let mut v = chars_of(self.config.base_url.as_str());
        push_str(&mut v, "/home.php?mod=space&do=thread&view=me");
        string_from_chars(&v)
    }

    /// The user name shown on a page (the trimmed text of the user-name
    /// element), if the element exists.
    pub fn extract_username(element_text: Option<String>) -> (r: Option<String>)
        ensures
            string_option_view(r) == match string_option_view(element_text) {
                Some(t) => Some(trim_spec(t)),
                None => None,
            },
    {
        match element_text {
            Some(t) => Some(string_from_chars(&trim(&chars_of(t.as_str())))),
            None => None,
        }
    }

    /// Whether a logged-in user was found; `未登录` otherwise.
    pub fn check_username(username: Option<String>) -> (r: Result<String, Error>)
        ensures
            match username {
                Some(u) => r matches Ok(v) && v@ == u@,
                None => r matches Err(e) && e@ == ErrorView::Login("未登录"@),
            },
    {
        match username {
            Some(u) => Ok(u),
            None => Err(Error::Login(String::from_str("未登录"))),
        }
    }

    /// Thread id and page number of a Discuz thread address.
    pub fn extract_tid_pn(&self, page_url: &str) -> (r: Result<(String, usize), Error>)
        ensures
            tid_pn_view(r) == discuz_tid_pn(self.config.name@, page_url@),
    {
        tid_pn_of(self.config.name.as_str(), page_url)
    }

    /// Address of page `pn` of thread `tid`.
    pub fn generate_thread_url(&self, tid: &str, pn: &str) -> (r: String)
        ensures
            r@ == discuz_thread_url(self.config.base_url@, self.config.thread_url_template@, tid@, pn@),
    {
        proof {
            reveal_strlit("{tid}");
            reveal_strlit("{pn}");
        }
        let once = str_replace(self.config.thread_url_template.as_str(), "{tid}", tid);
        let twice = str_replace(once.as_str(), "{pn}", pn);
        let mut v = chars_of(self.config.base_url.as_str());
        push_str(&mut v, "/");
        push_str(&mut v, twice.as_str());
        string_from_chars(&v)
    }

    /// Local file name of page `pn` of thread `tid`.
    pub fn generate_filename(&self, tid: &str, pn: &str) -> (r: String)
        ensures
            r@ == discuz_filename(tid@, pn@),
    {
        discuz_filename_text(tid, pn)
    }

    /// The title from the heading's text.
    pub fn extract_title(heading: Option<String>) -> (r: Result<String, Error>)
        ensures
            match heading {
                Some(h) => r matches Ok(t) && t@ == discuz_title(h@),
                None => r matches Err(e) && e@ == ErrorView::ThreadInfo("获取标题失败"@),
            },
    {
        match heading {
            Some(h) => {
                proof {
                    reveal_strlit("\n");
                    reveal_strlit("");
                    assert(""@ =~= Seq::<char>::empty());
                }
                let flat = str_replace(h.as_str(), "\n", "");
                Ok(string_from_chars(&trim(&chars_of(flat.as_str()))))
            },
            None => Err(Error::ThreadInfo(String::from_str("获取标题失败"))),
        }
    }

    /// The page count named by the links of the first page bar.
    pub fn extract_total_pages(page_links: &Vec<String>) -> (r: usize)
        ensures
            r == discuz_total_pages(strings_view(page_links@)),
    {
        let mut total: usize = 1;
        let mut i: usize = 0;
        while i < page_links.len()
            invariant
                i <= page_links.len(),
                total == discuz_total_pages(strings_view(page_links@.take(i as int))),
            decreases page_links.len() - i,
        {
            let r = tid_pn_of("", page_links[i].as_str());
            proof {
                assert(strings_view(page_links@.take(i + 1)).drop_last() =~= strings_view(
                    page_links@.take(i as int),
                ));
                assert(strings_view(page_links@.take(i + 1)).last() == page_links@[i as int]@);
                reveal_strlit("");
                assert(""@ =~= Seq::<char>::empty());
            }
            match r {
                Ok((_, pn)) => {
                    if pn > total {
                        total = pn;
                    }
                },
                Err(_) => {},
            }
            i = i + 1;
        }
        assert(page_links@.take(page_links.len() as int) =~= page_links@);
        total
    }

    /// What a thread page tells, from the page's address, the text of its
    /// title heading (if found) and the links of its first page bar (if found).
    pub fn extract_thread_info(
        &self,
        thread_url: &str,
        heading: Option<String>,
        page_links: Option<&Vec<String>>,
    ) -> (r: Result<ThreadInfo, Error>)
        ensures
            thread_info_result_view(r) == discuz_thread_info(
                self.config.name@,
                thread_url@,
                string_option_view(heading),
                match page_links {
                    Some(l) => Some(strings_view(l@)),
                    None => None,
                },
            ),
    {
        let (thread_id, current_pn) = match self.extract_tid_pn(thread_url) {
            Ok(x) => x,
            Err(e) => return Err(e),
        };
        let title = match Self::extract_title(heading) {
            Ok(t) => t,
            Err(e) => return Err(e),
        };
        let total_pages = match page_links {
            Some(l) => Self::extract_total_pages(l),
            None => 1,
        };
        Ok(ThreadInfo { title, thread_id, total_pages, current_pn, page_size: 40 })
    }

    /// The local target of a page link on a saved page of `thread_id`
    /// (which has `last` pages), or `None` when the link stays.
    pub fn localize_page_link(&self, href: &str, thread_id: &str, last: usize) -> (r: Option<String>)
        ensures
            string_option_view(r) == discuz_local_link(href@, thread_id@, last),
    {
        match tid_pn_of("", href) {
            Ok((tid, pn)) => {
                proof {
                    reveal_strlit("");
                assert(""@ =~= Seq::<char>::empty());
                }
                if crate::text::str_eq(tid.as_str(), thread_id) && pn <= last {
                    let p = page_text(pn);
                    Some(discuz_filename_text(tid.as_str(), p.as_str()))
                } else {
                    None
                }
            },
            Err(_) => {
                proof {
                    reveal_strlit("");
                assert(""@ =~= Seq::<char>::empty());
                }
                None
            },
        }
    }

    /// Whether a script is the page's own arrow-key handler (its trimmed
    /// text starts with `document.onkeyup`), which saved pages drop.
    pub fn is_arrow_key_script(script_text: &str) -> (r: bool)
        ensures
            r == has_prefix(trim_spec(script_text@), "document.onkeyup"@),
    {
        let t = trim(&chars_of(script_text));
        crate::text::starts_with(&t, &chars_of("document.onkeyup"))
    }
}

/// Executable `discuz_filename`.
fn discuz_filename_text(tid: &str, pn: &str) -> (r: String)
    ensures
        r@ == discuz_filename(tid@, pn@),
{
    let mut v = chars_of("thread-");
    push_str(&mut v, tid);
    push_str(&mut v, "-");
    push_str(&mut v, pn);
    push_str(&mut v, "-1.html");
    string_from_chars(&v)
}

/// Executable `discuz_tid_pn`.
fn tid_pn_of(name: &str, page_url: &str) -> (r: Result<(String, usize), Error>)
    ensures
        tid_pn_view(r) == discuz_tid_pn(name@, page_url@),
{
    let s = chars_of(page_url);
    let caps: Option<(usize, usize, Option<(usize, usize)>)> = match thread_dash_spans(&s) {
        Some((a, b, c, d)) => Some((a, b, Some((c, d)))),
        None => tid_query_spans(&s),
    };
    match caps {
        None => Err(Error::ThreadInfo(not_thread_url_text(page_url, name, None))),
        Some((a, b, page)) => {
            let tid = sub_string(&s, a, b);
            let parsed = match page {
                Some((c, d)) => parse_usize_range(&s, c, d),
                None => {
                    let one = chars_of("1");
                    proof {
                        assert(one@.subrange(0, one@.len() as int) =~= one@);
                    }
                    parse_usize_range(&one, 0, one.len())
                },
            };
            match parsed {
                Ok(n) => Ok((tid, n)),
                Err(e) => {
                    let m = e.message();
                    Err(Error::ThreadInfo(not_thread_url_text(page_url, name, Some(m.as_str()))))
                },
            }
        },
    }
}

/// What a saved Discuz page loses, as configured: the user panel (or, for
/// a guest, the login box), the reply box, every advertisement, and the
/// `gbk` charset declaration (pages are saved as UTF-8).
pub open spec fn discuz_removals(c: DiscuzForumConfig) -> Seq<RemovalView> {
    (if c.remove_user_info {
        seq![RemovalView::FirstOr(c.selectors.user_info@, c.selectors.login_box@)]
    } else {
        Seq::empty()
    }) + (if c.remove_reply_box {
        seq![RemovalView::First(c.selectors.reply_box@)]
    } else {
        Seq::empty()
    }) + (if c.remove_ads {
        seq![RemovalView::Every(c.selectors.ads@)]
    } else {
        Seq::empty()
    }) + seq![RemovalView::First(c.selectors.charset@)]
}

impl DiscuzForum {
    /// The removals a page of this forum undergoes (see `discuz_removals`).
    pub fn removals(&self) -> (r: Vec<Removal>)
        ensures
            removals_view(r@) == discuz_removals(self.config),
    {
        let s = &self.config.selectors;
        let mut r: Vec<Removal> = Vec::new();
        if self.config.remove_user_info {
            r.push(Removal::FirstOr(s.user_info.clone(), s.login_box.clone()));
        }
        let ghost a = removals_view(r@);
        if self.config.remove_reply_box {
            r.push(Removal::First(s.reply_box.clone()));
        }
        let ghost b = removals_view(r@);
        if self.config.remove_ads {
            r.push(Removal::Every(s.ads.clone()));
        }
        let ghost c = removals_view(r@);
        r.push(Removal::First(s.charset.clone()));
        proof {
            let cf = self.config;
            assert(a =~= (if cf.remove_user_info {
                seq![RemovalView::FirstOr(cf.selectors.user_info@, cf.selectors.login_box@)]
            } else {
                Seq::empty()
            }));
            assert(b =~= a + (if cf.remove_reply_box {
                seq![RemovalView::First(cf.selectors.reply_box@)]
            } else {
                Seq::empty()
            }));
            assert(c =~= b + (if cf.remove_ads {
                seq![RemovalView::Every(cf.selectors.ads@)]
            } else {
                Seq::empty()
            }));
            assert(removals_view(r@) =~= c + seq![RemovalView::First(cf.selectors.charset@)]);
        }
        r
    }
}

} // verus!
