//! The NGA forum.
use vstd::prelude::*;
use crate::address::string_option_view;
use crate::auth::AuthMethod;
use crate::error::{Error, ErrorView};
use crate::forums::common::{
    base_url_domain, domain_of_base_url, not_thread_url_message, not_thread_url_text, tid_pn_view,
};
use crate::forums::discuz::{default_interval, strings_view, thread_info_result_view};
use crate::patterns::{
    digit_run, digit_run_exec, first_from, lazy_end, lazy_end_literal, literal_stop, space_run,
    space_run_exec, tid_query_captures, tid_query_spans,
};
use crate::text::{
    chars_of, contains, contains_seq, has_prefix, has_suffix, int_parse_error_message, occurs_at,
    occurs_at_exec, parse_usize_range, parse_usize_spec, push_str, starts_with, ends_with,
    str_starts_with, string_from_chars, sub_string,
};
use crate::types::{ThreadInfo, ThreadInfoView};

verus! {

/// Settings of the NGA forum.
#[derive(Debug, Clone)]
pub struct NGAForumConfig {
    pub name: String,
    pub base_url: String,
    pub auth_method: AuthMethod,
    pub remove_ads: bool,
    pub remove_user_info: bool,
    pub remove_reply_box: bool,
    pub interval_ms: u64,
}

impl Default for NGAForumConfig {
    /// `https://nga.178.com` as a guest (which NGA refuses; see `check_auth_method`).
    fn default() -> (r: Self)
        ensures
            r.name@ == "NGA"@,
            r.base_url@ == "https://nga.178.com"@,
            r.auth_method matches AuthMethod::Guest,
            r.remove_ads && r.remove_user_info && r.remove_reply_box,
            r.interval_ms == 1500,
    {
        NGAForumConfig {
            name: String::from_str("NGA"),
            base_url: String::from_str("https://nga.178.com"),
            auth_method: AuthMethod::default(),
            remove_ads: true,
            remove_user_info: true,
            remove_reply_box: true,
            interval_ms: default_interval(),
        }
    }
}

impl NGAForumConfig {
    /// A copy of these settings.
    pub fn copy(&self) -> (r: Self)
        ensures
            r == *self,
    {
        NGAForumConfig {
            name: self.name.clone(),
            base_url: self.base_url.clone(),
            auth_method: self.auth_method.copy(),
            remove_ads: self.remove_ads,
            remove_user_info: self.remove_user_info,
            remove_reply_box: self.remove_reply_box,
            interval_ms: self.interval_ms,
        }
    }

    /// The forum these settings describe; NGA refuses password and guest
    /// logins (see `NGAForum::check_auth_method`).
    pub fn build_forum(self) -> (r: Result<NGAForum, Error>)
        ensures
            self.auth_method is UsernamePassword ==> (r matches Err(e) && e@ == ErrorView::Login(
                self.name@ + "用户名密码登录需要验证码，请使用Cookie登录"@,
            )),
            self.auth_method is Guest ==> (r matches Err(e) && e@ == ErrorView::Login(
                self.name@ + "限制游客访问，请使用Cookie登录后下载"@,
            )),
            !(self.auth_method is UsernamePassword) && !(self.auth_method is Guest) ==> (r matches Ok(
                f,
            ) && f.config == self && f.domain@ == base_url_domain(self.base_url@)),
    {
        NGAForum::from_config(self)
    }

    /// The host of the base address (empty when there is none).
    pub fn domain(&self) -> (r: String)
        ensures
            r@ == base_url_domain(self.base_url@),
    {
        domain_of_base_url(self.base_url.as_str())
    }

    /// The same settings with another login.
    pub fn with_auth_method(self, auth_method: AuthMethod) -> (r: Self)
        ensures
            r == (NGAForumConfig { auth_method, ..self }),
    {
        NGAForumConfig { auth_method, ..self }
    }
}

/// The NGA forum ready to be read.
#[derive(Debug, Clone)]
pub struct NGAForum {
    pub config: NGAForumConfig,
    pub domain: String,
}

/// `(thread id, page)` of an NGA address: `tid={tid}` with an optional
/// `&page={page}` later on the same line (page 1 when absent); the page must
/// parse as `usize`.
pub open spec fn nga_tid_pn(url: Seq<char>) -> Result<(Seq<char>, usize), ErrorView> {
    match tid_query_captures(url) {
        None => Err(ErrorView::ThreadInfo(not_thread_url_message(url, "NGA"@))),
        Some((t, None)) => Ok((t, 1)),
        Some((t, Some(p))) => match parse_usize_spec(p) {
            Ok(n) => Ok((t, n)),
            Err(e) => Err(
                ErrorView::ThreadInfo(
                    not_thread_url_message(url, "NGA"@) + ": "@ + int_parse_error_message(e),
                ),
            ),
        },
    }
}

/// Address of page `pn` of thread `tid`.
pub open spec fn nga_thread_url(base: Seq<char>, tid: Seq<char>, pn: Seq<char>) -> Seq<char> {
    base + "/read.php?tid="@ + tid + "&page="@ + pn
}

/// Local file name of page `pn` of thread `tid`.
pub open spec fn nga_filename(tid: Seq<char>, pn: Seq<char>) -> Seq<char> {
    "tid="@ + tid + "&page="@ + pn + ".html"@
}

/// The page number of a saved file of thread `tid`: the part between
/// `tid={tid}&page=` and `.html`, when that is a number.
pub open spec fn nga_pn_from_filename(filename: Seq<char>, tid: Seq<char>) -> Option<usize> {
    let prefix = "tid="@ + tid + "&page="@;
    if has_prefix(filename, prefix) && has_suffix(filename, ".html"@) {
        match parse_usize_spec(filename.subrange(prefix.len() as int, filename.len() - 5)) {
            Ok(n) => Some(n),
            Err(_) => None,
        }
    } else {
        None
    }
}

// ---------------------------------------------------------------------------
// var __PAGE = {0:'/read.php?tid=(\d+)',1:(\d+),2:(\d+),3:(\d+)};
// (the `.` before `php` matches any character but a line break)
// ---------------------------------------------------------------------------

/// Start of the pagination statement, up to the `.` wildcard.
pub open spec fn page_var_head() -> Seq<char> {
    "var __PAGE = {0:'/read"@
}

/// The four captured spans of a pagination statement at `i`, if one is there:
/// thread id, page count, current page, page size.
pub open spec fn page_var_at(s: Seq<char>, i: int) -> Option<(int, int, int, int, int, int, int, int)> {
    let k = i + 22;
    let a = k + 9;
    let n1 = digit_run(s, a);
    let b = a + n1 + 4;
    let n2 = digit_run(s, b);
    let c = b + n2 + 3;
    let n3 = digit_run(s, c);
    let d = c + n3 + 3;
    let n4 = digit_run(s, d);
    if occurs_at(s, i, page_var_head()) && k < s.len() && s[k] != '\n' && occurs_at(
        s,
        k + 1,
        "php?tid="@,
    ) && n1 >= 1 && occurs_at(s, a + n1, "',1:"@) && n2 >= 1 && occurs_at(s, b + n2, ",2:"@) && n3
        >= 1 && occurs_at(s, c + n3, ",3:"@) && n4 >= 1 && occurs_at(s, d + n4, "};"@) {
        Some((a, a + n1, b, b + n2, c, c + n3, d, d + n4))
    } else {
        None
    }
}

/// `page_var_at` as a predicate value.
pub open spec fn page_var_pred() -> spec_fn(Seq<char>, int) -> bool {
    |t: Seq<char>, k: int| page_var_at(t, k) is Some
}

/// Captures of the leftmost pagination statement in `s`.
pub open spec fn page_var_captures(s: Seq<char>) -> Option<(Seq<char>, Seq<char>, Seq<char>, Seq<char>)> {
    match first_from(s, 0, page_var_pred()) {
        Some(i) => match page_var_at(s, i) {
            Some((a1, a2, b1, b2, c1, c2, d1, d2)) => Some(
                (s.subrange(a1, a2), s.subrange(b1, b2), s.subrange(c1, c2), s.subrange(d1, d2)),
            ),
            None => None,
        },
        None => None,
    }
}

/// Pagination `(thread id, page count, current page, page size)` from the
/// page's scripts, from index `i` on: the first script that mentions
/// `__PAGE` and holds a pagination statement decides; a number that does not
/// parse ends the search with that error.
pub open spec fn pagination_from(scripts: Seq<Seq<char>>, i: int) -> Result<
    (Seq<char>, usize, usize, usize),
    ErrorView,
>
    decreases scripts.len() - i,
{
    if i < 0 || i >= scripts.len() {
        Err(ErrorView::ThreadInfo("提取页码失败"@))
    } else if !contains_seq(scripts[i], "__PAGE"@) {
        pagination_from(scripts, i + 1)
    } else {
        match page_var_captures(scripts[i]) {
            None => pagination_from(scripts, i + 1),
            Some((tid, total, pn, ps)) => match parse_usize_spec(total) {
                Err(e) => Err(ErrorView::ParseInt(e)),
                Ok(t) => match parse_usize_spec(pn) {
                    Err(e) => Err(ErrorView::ParseInt(e)),
                    Ok(p) => match parse_usize_spec(ps) {
                        Err(e) => Err(ErrorView::ParseInt(e)),
                        Ok(z) => Ok((tid, t, p, z)),
                    },
                },
            },
        }
    }
}

/// What an NGA page tells: thread id and page from its address, page count
/// and page size from its pagination statement (1 and 20 when there is
/// none), the title from the subject heading (required, taken as is).
pub open spec fn nga_thread_info(
    url: Seq<char>,
    scripts: Seq<Seq<char>>,
    subject: Option<Seq<char>>,
) -> Result<ThreadInfoView, ErrorView> {
    match nga_tid_pn(url) {
        Err(e) => Err(e),
        Ok((tid, pn)) => {
            let (total, ps) = match pagination_from(scripts, 0) {
                Ok((_, t, _, z)) => (t, z),
                Err(_) => (1usize, 20usize),
            };
            match subject {
                None => Err(ErrorView::ThreadInfo("获取标题失败"@)),
                Some(title) => Ok(
                    ThreadInfoView {
                        title,
                        thread_id: tid,
                        total_pages: total,
                        current_pn: pn,
                        page_size: ps,
                    },
                ),
            }
        },
    }
}

// ---------------------------------------------------------------------------
// __CURRENT_UNAME\s*=\s*'(?P<uname>.+?)',
// ---------------------------------------------------------------------------

/// The span of the user name in a `__CURRENT_UNAME = '...',` assignment at `i`.
pub open spec fn uname_at(s: Seq<char>, i: int) -> Option<(int, int)> {
    let p = i + 15 + space_run(s, i + 15);
    let q = p + 1 + space_run(s, p + 1);
    if occurs_at(s, i, "__CURRENT_UNAME"@) && p < s.len() && s[p] == '=' && q < s.len() && s[q]
        == '\'' {
        match lazy_end(s, q + 2, literal_stop("',"@)) {
            Some(e) => Some((q + 1, e)),
            None => None,
        }
    } else {
        None
    }
}

/// `uname_at` as a predicate value.
pub open spec fn uname_pred() -> spec_fn(Seq<char>, int) -> bool {
    |t: Seq<char>, k: int| uname_at(t, k) is Some
}

/// The user name of the leftmost `__CURRENT_UNAME` assignment in `s`.
pub open spec fn nga_username(s: Seq<char>) -> Option<Seq<char>> {
    match first_from(s, 0, uname_pred()) {
        Some(i) => match uname_at(s, i) {
            Some((b, e)) => Some(s.subrange(b, e)),
            None => None,
        },
        None => None,
    }
}

pub(crate) fn uname_at_exec(s: &Vec<char>, i: usize, lit: &Vec<char>, stop: &Vec<char>) -> (r: Option<(usize, usize)>)
    requires
        lit@ == "__CURRENT_UNAME"@,
        stop@ == "',"@,
    ensures
        match r {
            Some((b, e)) => uname_at(s@, i as int) == Some((b as int, e as int)) && b <= e <= s.len(),
            None => uname_at(s@, i as int) is None,
        },
{
    proof {
        reveal_strlit("__CURRENT_UNAME");
    }
    if !occurs_at_exec(s, i, lit) {
        return None;
    }
    let w1 = space_run_exec(s, i + 15);
    let p = i + 15 + w1;
    if p >= s.len() || s[p] != '=' {
        return None;
    }
    let w2 = space_run_exec(s, p + 1);
    let q = p + 1 + w2;
    if q >= s.len() || s[q] != '\'' {
        return None;
    }
    if q + 1 >= s.len() {
        return None;
    }
    match lazy_end_literal(s, q + 2, stop) {
        Some(e) => Some((q + 1, e)),
        None => None,
    }
}

fn page_var_at_exec(s: &Vec<char>, i: usize, lits: &Vec<Vec<char>>) -> (r: Option<
    (usize, usize, usize, usize, usize, usize, usize, usize),
>)
    requires
        lits@.len() == 6,
        lits@[0]@ == page_var_head(),
        lits@[1]@ == "php?tid="@,
        lits@[2]@ == "',1:"@,
        lits@[3]@ == ",2:"@,
        lits@[4]@ == ",3:"@,
        lits@[5]@ == "};"@,
    ensures
        match r {
            Some((a1, a2, b1, b2, c1, c2, d1, d2)) => page_var_at(s@, i as int) == Some(
                (
                    a1 as int,
                    a2 as int,
                    b1 as int,
                    b2 as int,
                    c1 as int,
                    c2 as int,
                    d1 as int,
                    d2 as int,
                ),
            ) && a1 <= a2 <= b1 <= b2 <= c1 <= c2 <= d1 <= d2 <= s.len(),
            None => page_var_at(s@, i as int) is None,
        },
{
    proof {
        reveal_strlit("var __PAGE = {0:'/read");
        reveal_strlit("php?tid=");
        reveal_strlit("',1:");
        reveal_strlit(",2:");
        reveal_strlit(",3:");
        reveal_strlit("};");
    }
    if !occurs_at_exec(s, i, &lits[0]) {
        return None;
    }
    let k = i + 22;
    if k >= s.len() || s[k] == '\n' || !occurs_at_exec(s, k + 1, &lits[1]) {
        return None;
    }
    let a = k + 9;
    let n1 = digit_run_exec(s, a);
    if n1 == 0 || !occurs_at_exec(s, a + n1, &lits[2]) {
        return None;
    }
    let b = a + n1 + 4;
    let n2 = digit_run_exec(s, b);
    if n2 == 0 || !occurs_at_exec(s, b + n2, &lits[3]) {
        return None;
    }
    let c = b + n2 + 3;
    let n3 = digit_run_exec(s, c);
    if n3 == 0 || !occurs_at_exec(s, c + n3, &lits[4]) {
        return None;
    }
    let d = c + n3 + 3;
    let n4 = digit_run_exec(s, d);
    if n4 == 0 || !occurs_at_exec(s, d + n4, &lits[5]) {
        return None;
    }
    Some((a, a + n1, b, b + n2, c, c + n3, d, d + n4))
}

fn page_var_literals() -> (r: Vec<Vec<char>>)
    ensures
        r@.len() == 6,
        r@[0]@ == page_var_head(),
        r@[1]@ == "php?tid="@,
        r@[2]@ == "',1:"@,
        r@[3]@ == ",2:"@,
        r@[4]@ == ",3:"@,
        r@[5]@ == "};"@,
{
    let mut r: Vec<Vec<char>> = Vec::new();
    r.push(chars_of("var __PAGE = {0:'/read"));
    r.push(chars_of("php?tid="));
    r.push(chars_of("',1:"));
    r.push(chars_of(",2:"));
    r.push(chars_of(",3:"));
    r.push(chars_of("};"));
    r
}

/// Spans of the leftmost pagination statement in `s`.
fn page_var_spans(s: &Vec<char>) -> (r: Option<(usize, usize, usize, usize, usize, usize, usize, usize)>)
    ensures
        match r {
            Some((a1, a2, b1, b2, c1, c2, d1, d2)) => a1 <= a2 <= b1 <= b2 <= c1 <= c2 <= d1 <= d2
                <= s.len() && page_var_captures(s@) == Some(
                (
                    s@.subrange(a1 as int, a2 as int),
                    s@.subrange(b1 as int, b2 as int),
                    s@.subrange(c1 as int, c2 as int),
                    s@.subrange(d1 as int, d2 as int),
                ),
            ),
            None => page_var_captures(s@) is None,
        },
{
    let lits = page_var_literals();
    let mut i: usize = 0;
    while i < s.len()
        invariant
            i <= s.len(),
            lits@.len() == 6,
            lits@[0]@ == page_var_head(),
            lits@[1]@ == "php?tid="@,
            lits@[2]@ == "',1:"@,
            lits@[3]@ == ",2:"@,
            lits@[4]@ == ",3:"@,
            lits@[5]@ == "};"@,
            first_from(s@, 0, page_var_pred()) == first_from(s@, i as int, page_var_pred()),
        decreases s.len() - i,
    {
        match page_var_at_exec(s, i, &lits) {
            Some(spans) => {
                return Some(spans);
            },
            None => {},
        }
        i = i + 1;
    }
    match page_var_at_exec(s, s.len(), &lits) {
        Some(spans) => {
            return Some(spans);
        },
        None => {},
    }
    assert(first_from(s@, s@.len() as int + 1, page_var_pred()) is None);
    None
}

/// View of a pagination result.
pub open spec fn pagination_view(r: Result<(String, usize, usize, usize), Error>) -> Result<
    (Seq<char>, usize, usize, usize),
    ErrorView,
> {
    match r {
        Ok((t, a, b, c)) => Ok((t@, a, b, c)),
        Err(e) => Err(e@),
    }
}

/// Pagination `(thread id, page count, current page, page size)` from the
/// texts of the page's scripts (see `pagination_from`).
pub fn extract_pagination_info(scripts: &Vec<String>) -> (r: Result<(String, usize, usize, usize), Error>)
    ensures
        pagination_view(r) == pagination_from(strings_view(scripts@), 0),
{
    let marker = chars_of("__PAGE");
    let ghost sv = strings_view(scripts@);
    let mut i: usize = 0;
    while i < scripts.len()
        invariant
            i <= scripts.len(),
            marker@ == "__PAGE"@,
            sv == strings_view(scripts@),
            pagination_from(sv, 0) == pagination_from(sv, i as int),
        decreases scripts.len() - i,
    {
        let text = chars_of(scripts[i].as_str());
        assert(sv[i as int] == text@);
        if contains(&text, &marker) {
            match page_var_spans(&text) {
                Some((a1, a2, b1, b2, c1, c2, d1, d2)) => {
                    let total = match parse_usize_range(&text, b1, b2) {
                        Ok(n) => n,
                        Err(e) => return Err(Error::ParseInt(e)),
                    };
                    let pn = match parse_usize_range(&text, c1, c2) {
                        Ok(n) => n,
                        Err(e) => return Err(Error::ParseInt(e)),
                    };
                    let ps = match parse_usize_range(&text, d1, d2) {
                        Ok(n) => n,
                        Err(e) => return Err(Error::ParseInt(e)),
                    };
                    return Ok((sub_string(&text, a1, a2), total, pn, ps));
                },
                None => {},
            }
        }
        i = i + 1;
    }
    Err(Error::ThreadInfo(String::from_str("提取页码失败")))
}

fn nga_filename_text(tid: &str, pn: &str) -> (r: String)
    ensures
        r@ == nga_filename(tid@, pn@),
{
    let mut v = chars_of("tid=");
    push_str(&mut v, tid);
    push_str(&mut v, "&page=");
    push_str(&mut v, pn);
    push_str(&mut v, ".html");
    string_from_chars(&v)
}

impl NGAForum {
    /// The forum for `config`, its host taken from the base address; NGA
    /// refuses password and guest logins (see `check_auth_method`).
    pub fn from_config(config: NGAForumConfig) -> (r: Result<Self, Error>)
        ensures
            config.auth_method is UsernamePassword ==> (r matches Err(e) && e@ == ErrorView::Login(
                config.name@ + "用户名密码登录需要验证码，请使用Cookie登录"@,
            )),
            config.auth_method is Guest ==> (r matches Err(e) && e@ == ErrorView::Login(
                config.name@ + "限制游客访问，请使用Cookie登录后下载"@,
            )),
            !(config.auth_method is UsernamePassword) && !(config.auth_method is Guest) ==> (r matches Ok(
                f,
            ) && f.config == config && f.domain@ == base_url_domain(config.base_url@)),
    {
        match Self::check_auth_method(&config) {
            Err(e) => Err(e),
            Ok(()) => {
                let domain = config.domain();
                Ok(NGAForum { config, domain })
            },
        }
    }

    /// NGA needs cookies: a password login needs a captcha and guests are refused.
    pub fn check_auth_method(config: &NGAForumConfig) -> (r: Result<(), Error>)
        ensures
            config.auth_method is UsernamePassword ==> (r matches Err(e) && e@ == ErrorView::Login(
                config.name@ + "用户名密码登录需要验证码，请使用Cookie登录"@,
            )),
            config.auth_method is Guest ==> (r matches Err(e) && e@ == ErrorView::Login(
                config.name@ + "限制游客访问，请使用Cookie登录后下载"@,
            )),
            !(config.auth_method is UsernamePassword) && !(config.auth_method is Guest) ==> r is Ok,
    {
        match &config.auth_method {
            AuthMethod::UsernamePassword { .. } => {
                let mut v = chars_of(config.name.as_str());
                push_str(&mut v, "用户名密码登录需要验证码，请使用Cookie登录");
                Err(Error::Login(string_from_chars(&v)))
            },
            AuthMethod::Guest => {
                let mut v = chars_of(config.name.as_str());
                push_str(&mut v, "限制游客访问，请使用Cookie登录后下载");
                Err(Error::Login(string_from_chars(&v)))
            },
            _ => Ok(()),
        }
    }

    /// The forum's display name.
    pub fn name(&self) -> (r: &str)
        ensures
            r@ == self.config.name@,
    {
        self.config.name.as_str()
    }

    /// The forum's host.
    pub fn domain(&self) -> (r: &str)
        ensures
            r@ == self.domain@,
    {
        self.domain.as_str()
    }

    /// The forum's base address.
    pub fn base_url(&self) -> (r: &str)
        ensures
            r@ == self.config.base_url@,
    {
        self.config.base_url.as_str()
    }

    /// Whether `url` lies under the base address.
    pub fn match_url(&self, url: &str) -> (r: bool)
        ensures
            r == has_prefix(url@, self.config.base_url@),
    {
        str_starts_with(url, self.config.base_url.as_str())
    }

    /// Pause between two page requests.
    pub fn interval_ms(&self) -> (r: u64)
        ensures
            r == self.config.interval_ms,
    {
        self.config.interval_ms
    }

    /// The page fetched to see who is logged in: `https://` before the base address.
    pub fn home_url(&self) -> (r: String)
        ensures
            r@ == "https://"@ + self.config.base_url@,
    {
        let mut v = chars_of("https://");
        push_str(&mut v, self.config.base_url.as_str());
        string_from_chars(&v)
    }

    /// The logged-in user named in a page's text, if any.
    pub fn extract_username(page_text: &str) -> (r: Option<String>)
        ensures
            string_option_view(r) == nga_username(page_text@),
    {
        let s = chars_of(page_text);
        let lit = chars_of("__CURRENT_UNAME");
        let stop = chars_of("',");
        proof {
            reveal_strlit("__CURRENT_UNAME");
            reveal_strlit("',");
        }
        let mut i: usize = 0;
        while i < s.len()
            invariant
                i <= s.len(),
                s@ == page_text@,
                lit@ == "__CURRENT_UNAME"@,
                stop@ == "',"@,
                first_from(s@, 0, uname_pred()) == first_from(s@, i as int, uname_pred()),
            decreases s.len() - i,
        {
            match uname_at_exec(&s, i, &lit, &stop) {
                Some((b, e)) => {
                    return Some(sub_string(&s, b, e));
                },
                None => {},
            }
            i = i + 1;
        }
        match uname_at_exec(&s, s.len(), &lit, &stop) {
            Some((b, e)) => {
                return Some(sub_string(&s, b, e));
            },
            None => {},
        }
        assert(first_from(s@, s@.len() as int + 1, uname_pred()) is None);
        None
    }

    /// Whether a logged-in user was found; `未登录` otherwise.
    pub fn check_username(page_text: &str) -> (r: Result<String, Error>)
        ensures
            match nga_username(page_text@) {
                Some(u) => r matches Ok(v) && v@ == u,
                None => r matches Err(e) && e@ == ErrorView::Login("未登录"@),
            },
    {
        match Self::extract_username(page_text) {
            Some(u) => Ok(u),
            None => Err(Error::Login(String::from_str("未登录"))),
        }
    }

    /// Thread id and page number of an NGA address.
    pub fn extract_tid_pn(&self, page_url: &str) -> (r: Result<(String, usize), Error>)
        ensures
            tid_pn_view(r) == nga_tid_pn(page_url@),
    {
        let s = chars_of(page_url);
        match tid_query_spans(&s) {
            None => Err(Error::ThreadInfo(not_thread_url_text(page_url, "NGA", None))),
            Some((a, b, None)) => Ok((sub_string(&s, a, b), 1)),
            Some((a, b, Some((c, d)))) => match parse_usize_range(&s, c, d) {
                Ok(n) => Ok((sub_string(&s, a, b), n)),
                Err(e) => {
                    let m = e.message();
                    Err(Error::ThreadInfo(not_thread_url_text(page_url, "NGA", Some(m.as_str()))))
                },
            },
        }
    }

    /// Address of page `pn` of thread `tid`.
    pub fn generate_thread_url(&self, tid: &str, pn: &str) -> (r: String)
        ensures
            r@ == nga_thread_url(self.config.base_url@, tid@, pn@),
    {
        let mut v = chars_of(self.config.base_url.as_str());
        push_str(&mut v, "/read.php?tid=");
        push_str(&mut v, tid);
        push_str(&mut v, "&page=");
        push_str(&mut v, pn);
        string_from_chars(&v)
    }

    /// Local file name of page `pn` of thread `tid`.
    pub fn generate_filename(&self, tid: &str, pn: &str) -> (r: String)
        ensures
            r@ == nga_filename(tid@, pn@),
    {
        nga_filename_text(tid, pn)
    }

    /// The page number of a saved file of thread `tid`, if it is one.
    pub fn extract_pn_from_filename(&self, filename: &str, tid: &str) -> (r: Option<usize>)
        ensures
            r == nga_pn_from_filename(filename@, tid@),
    {
        let f = chars_of(filename);
        let mut prefix = chars_of("tid=");
        push_str(&mut prefix, tid);
        push_str(&mut prefix, "&page=");
        let suffix = chars_of(".html");
        proof {
            reveal_strlit(".html");
            reveal_strlit("tid=");
            reveal_strlit("&page=");
        }
        if starts_with(&f, &prefix) && ends_with(&f, &suffix) {
            proof {
                lemma_prefix_suffix_apart(f@, prefix@, tid@);
            }
            match parse_usize_range(&f, prefix.len(), f.len() - 5) {
                Ok(n) => Some(n),
                Err(_) => None,
            }
        } else {
            None
        }
    }

    /// What an NGA page tells, from its address, the texts of its scripts
    /// and the text of its subject heading (if found).
    pub fn extract_thread_info(&self, thread_url: &str, scripts: &Vec<String>, subject: Option<String>) -> (r: Result<
        ThreadInfo,
        Error,
    >)
        ensures
            thread_info_result_view(r) == nga_thread_info(
                thread_url@,
                strings_view(scripts@),
                string_option_view(subject),
            ),
    {
        let (thread_id, pn) = match self.extract_tid_pn(thread_url) {
            Ok(x) => x,
            Err(e) => return Err(e),
        };
        let (total_pages, ps) = match extract_pagination_info(scripts) {
            Ok((_, t, _, z)) => (t, z),
            Err(_) => (1, 20),
        };
        match subject {
            None => Err(Error::ThreadInfo(String::from_str("获取标题失败"))),
            Some(title) => Ok(
                ThreadInfo { title, thread_id, total_pages, current_pn: pn, page_size: ps },
            ),
        }
    }
}

/// In a file name that starts with `tid={tid}&page=` and ends with `.html`,
/// the two do not overlap: `.html` cannot begin inside the prefix, whose
/// last character is `=`.
pub proof fn lemma_prefix_suffix_apart(f: Seq<char>, prefix: Seq<char>, tid: Seq<char>)
    requires
        prefix == "tid="@ + tid + "&page="@,
        has_prefix(f, prefix),
        has_suffix(f, ".html"@),
    ensures
        prefix.len() + 5 <= f.len(),
{
    reveal_strlit(".html");
    reveal_strlit("tid=");
    reveal_strlit("&page=");
    if prefix.len() + 5 > f.len() {
        let j = f.len() - 5;
        // f[j..] is ".html" and j < prefix.len(); f[prefix.len() - 1] is '='
        let k = prefix.len() - 1;
        assert(prefix[k] == '=');
        assert(f.subrange(0, prefix.len() as int)[k] == f[k]);
        assert(f[k] == '=');
        assert(j <= k);
        assert(f.subrange(j, j + 5)[k - j] == f[k]);
        assert(".html"@[k - j] != '=');
    }
}

} // verus!
