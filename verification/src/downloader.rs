//! The downloader's settings and its decisions: which forum a thread
//! belongs to, which pages to fetch, what to report, which links and
//! assets to localise.
use vstd::prelude::*;
use crate::address::{url_parse, WebUrl};

use crate::error::{Error, ErrorView};
use crate::forums::discuz::strings_view;
use crate::forums::{build_forum_result, forum_config_domain, Forum, ForumConfig};
use crate::text::{chars_of, decimal_spec, push_str, string_from_chars, vec_eq};

verus! {

/// Where a download starts.
#[derive(Debug, Clone, Copy, PartialEq, Eq)]
pub enum DownloadStrategy {
    /// Fetch every page again.
    FromStart,
    /// Continue after the last page already saved.
    ResumeLatest,
}

impl Default for DownloadStrategy {
    /// Resuming is the default.
    fn default() -> (r: Self)
        ensures
            r == DownloadStrategy::ResumeLatest,
    {
        DownloadStrategy::ResumeLatest
    }
}

/// The downloader's settings.
#[derive(Debug, Clone)]
pub struct DownloaderConfig {
    /// The configured forums.
    pub forums: Vec<ForumConfig>,
    /// HTML attributes that may hold links to assets.
    pub downloadable_attrs: Vec<String>,
    /// File extensions of assets worth saving.
    pub downloadable_extensions: Vec<String>,
    /// Longest file path allowed.
    pub max_path_length: usize,
    /// Length of the hash used in generated asset file names.
    pub path_hash_length: usize,
    /// How deep assets that link to assets are followed.
    pub max_depth: usize,
    /// Directory that receives everything.
    pub store_dir: String,
    /// How many requests may run at once.
    pub semaphore_count: usize,
    /// `en` or `zh`; none means the system's.
    pub language: Option<String>,
    /// Where a download starts.
    pub strategy: DownloadStrategy,
}

/// The attributes scanned by default.
pub open spec fn default_attrs() -> Seq<Seq<char>> {
    seq!["href"@, "src"@, "data-src"@, "file"@, "zoomfile"@, "poster"@, "style"@]
}

/// The extensions saved by default.
pub open spec fn default_extensions() -> Seq<Seq<char>> {
    seq![
        "png"@,
        "jpg"@,
        "jpeg"@,
        "gif"@,
        "svg"@,
        "webp"@,
        "tiff"@,
        "bmp"@,
        "js"@,
        "mjs"@,
        "css"@,
        "scss"@,
        "less"@,
        "woff"@,
        "woff2"@,
        "ttf"@,
        "eot"@,
        "otf"@,
        "mp4"@,
        "webm"@,
        "ogg"@,
        "mp3"@,
        "wav"@,
        "aac"@,
        "flac"@,
    ]
}

fn strings_from(items: &Vec<&str>) -> (r: Vec<String>)
    ensures
        strings_view(r@) == items@.map_values(|s: &str| s@),
{
    let mut out: Vec<String> = Vec::new();
    let mut i: usize = 0;
    while i < items.len()
        invariant
            i <= items.len(),
            strings_view(out@) =~= items@.take(i as int).map_values(|s: &str| s@),
        decreases items.len() - i,
    {
        let ghost before = strings_view(out@);
        out.push(String::from_str(items[i]));
        assert(strings_view(out@) =~= before.push(items@[i as int]@));
        assert(items@.take(i + 1).map_values(|s: &str| s@) =~= items@.take(i as int).map_values(
            |s: &str| s@,
        ).push(items@[i as int]@));
        i = i + 1;
    }
    assert(items@.take(items.len() as int) =~= items@);
    out
}

impl Default for DownloaderConfig {
    /// No forums, `./data`, paths up to 240 characters with 16-character
    /// hashes, depth 3, 8 requests at once, the system language, resuming,
    /// and the default attributes and extensions.
    fn default() -> (r: Self)
        ensures
            r.forums@.len() == 0,
            strings_view(r.downloadable_attrs@) == default_attrs(),
            strings_view(r.downloadable_extensions@) == default_extensions(),
            r.max_path_length == 240,
            r.path_hash_length == 16,
            r.max_depth == 3,
            r.store_dir@ == "./data"@,
            r.semaphore_count == 8,
            r.language is None,
            r.strategy == DownloadStrategy::ResumeLatest,
    {
        let attrs = vec!["href", "src", "data-src", "file", "zoomfile", "poster", "style"];
        let exts = vec![
            "png",
            "jpg",
            "jpeg",
            "gif",
            "svg",
            "webp",
            "tiff",
            "bmp",
            "js",
            "mjs",
            "css",
            "scss",
            "less",
            "woff",
            "woff2",
            "ttf",
            "eot",
            "otf",
            "mp4",
            "webm",
            "ogg",
            "mp3",
            "wav",
            "aac",
            "flac",
        ];
        let a = strings_from(&attrs);
        let e = strings_from(&exts);
        assert(attrs@.map_values(|s: &str| s@) =~= default_attrs());
        assert(exts@.map_values(|s: &str| s@) =~= default_extensions());
        DownloaderConfig {
            forums: Vec::new(),
            downloadable_attrs: a,
            downloadable_extensions: e,
            max_path_length: 240,
            path_hash_length: 16,
            max_depth: 3,
            store_dir: String::from_str("./data"),
            semaphore_count: 8,
            language: None,
            strategy: DownloadStrategy::default(),
        }
    }
}

impl DownloaderConfig {
    /// Accepts settings read from a file only when they name at least one
    /// forum.  The attribute and extension lists are sets: repeats are
    /// dropped, first occurrences kept.
    pub fn check_loaded(self) -> (r: Result<DownloaderConfig, Error>)
        ensures
            self.forums@.len() == 0 ==> (r matches Err(e) && e@ == ErrorView::Other(
                "No forums found in the config file"@,
            )),
            self.forums@.len() > 0 ==> (r matches Ok(c) && c.forums == self.forums
                && strings_view(c.downloadable_attrs@) == distinct_in_order(
                strings_view(self.downloadable_attrs@),
                self.downloadable_attrs@.len() as int,
            ) && strings_view(c.downloadable_extensions@) == distinct_in_order(
                strings_view(self.downloadable_extensions@),
                self.downloadable_extensions@.len() as int,
            ) && no_repeats(strings_view(c.downloadable_attrs@)) && no_repeats(
                strings_view(c.downloadable_extensions@),
            ) && c.max_path_length == self.max_path_length && c.path_hash_length
                == self.path_hash_length && c.max_depth == self.max_depth && c.store_dir
                == self.store_dir && c.semaphore_count == self.semaphore_count && c.language
                == self.language && c.strategy == self.strategy),
    {
        if self.forums.len() == 0 {
            return Err(Error::Other(String::from_str("No forums found in the config file")));
        }
        let attrs = distinct_strings(&self.downloadable_attrs);
        let exts = distinct_strings(&self.downloadable_extensions);
        proof {
            lemma_distinct_no_repeats(
                strings_view(self.downloadable_attrs@),
                self.downloadable_attrs@.len() as int,
            );
            lemma_distinct_no_repeats(
                strings_view(self.downloadable_extensions@),
                self.downloadable_extensions@.len() as int,
            );
        }
        Ok(DownloaderConfig { downloadable_attrs: attrs, downloadable_extensions: exts, ..self })
    }
}

/// No item occurs twice.
pub open spec fn no_repeats(s: Seq<Seq<char>>) -> bool {
    forall|i: int, j: int| 0 <= i < j < s.len() ==> s[i] != s[j]
}

/// The distinct items of a sequence have no repeats.
pub proof fn lemma_distinct_no_repeats(ds: Seq<Seq<char>>, n: int)
    ensures
        no_repeats(distinct_in_order(ds, n)),
    decreases n,
{
    if 0 < n <= ds.len() {
        lemma_distinct_no_repeats(ds, n - 1);
        let prev = distinct_in_order(ds, n - 1);
        if !prev.contains(ds[n - 1]) {
            let next = prev.push(ds[n - 1]);
            assert forall|i: int, j: int| 0 <= i < j < next.len() implies next[i] != next[j] by {
                if j == prev.len() {
                    assert(next[i] == prev[i]);
                }
            }
        }
    }
}

/// The distinct strings of `v`, in order of first appearance.
pub fn distinct_strings(v: &Vec<String>) -> (r: Vec<String>)
    ensures
        strings_view(r@) == distinct_in_order(strings_view(v@), v@.len() as int),
{
    let mut out: Vec<String> = Vec::new();
    let ghost ds = strings_view(v@);
    let mut i: usize = 0;
    while i < v.len()
        invariant
            i <= v.len(),
            ds == strings_view(v@),
            strings_view(out@) == distinct_in_order(ds, i as int),
        decreases v.len() - i,
    {
        let d = &v[i];
        let seen = crate::css::contains_string(&out, d.as_str());
        assert(ds[i as int] == d@);
        if !seen {
            let ghost before = strings_view(out@);
            out.push(d.clone());
            assert(strings_view(out@) =~= before.push(d@));
        }
        i = i + 1;
    }
    out
}

// ---------------------------------------------------------------------------
// Which forum a thread belongs to
// ---------------------------------------------------------------------------

/// Index of the last forum in `forums[..n]` known by `domain` (the one a
/// map built in order keeps).
pub open spec fn last_forum_with(domains: Seq<Seq<char>>, domain: Seq<char>, n: int) -> Option<int>
    decreases n,
{
    if n <= 0 || n > domains.len() {
        None
    } else if domains[n - 1] == domain {
        Some(n - 1)
    } else {
        last_forum_with(domains, domain, n - 1)
    }
}

/// The distinct items of `domains[..n]`, in order of first appearance.
pub open spec fn distinct_in_order(domains: Seq<Seq<char>>, n: int) -> Seq<Seq<char>>
    decreases n,
{
    if n <= 0 || n > domains.len() {
        Seq::empty()
    } else {
        let prev = distinct_in_order(domains, n - 1);
        if prev.contains(domains[n - 1]) {
            prev
        } else {
            prev.push(domains[n - 1])
        }
    }
}

/// `'{d}'` for each domain, joined by `, `.
pub open spec fn quoted_list(ds: Seq<Seq<char>>) -> Seq<char>
    decreases ds.len(),
{
    if ds.len() == 0 {
        Seq::empty()
    } else if ds.len() == 1 {
        "'"@ + ds[0] + "'"@
    } else {
        quoted_list(ds.drop_last()) + ", '"@ + ds.last() + "'"@
    }
}

/// The complaint about a domain that no configured forum has.
pub open spec fn unknown_forum_message(domain: Seq<char>, known: Seq<Seq<char>>) -> Seq<char> {
    "'"@ + domain + "' not in supported forums: ["@ + quoted_list(known) + "]"@
}

/// The downloader's settings together with the domain of each configured forum.
#[derive(Debug)]
pub struct Downloader {
    pub config: DownloaderConfig,
    /// The domain of each configured forum, in the same order.
    pub forum_domains: Vec<String>,
}

impl Downloader {
    /// The domains, one per configured forum.
    pub open spec fn domains(&self) -> Seq<Seq<char>> {
        strings_view(self.forum_domains@)
    }

    /// The domain list matches the configured forums.
    pub open spec fn wf(&self) -> bool {
        &&& self.forum_domains@.len() == self.config.forums@.len()
        &&& forall|i: int|
            0 <= i < self.forum_domains@.len() ==> (#[trigger] self.forum_domains@[i])@
                == forum_config_domain(self.config.forums@[i])
    }

    /// The domain of each configured forum, in order.
    pub open spec fn config_domains(config: DownloaderConfig) -> Seq<Seq<char>> {
        config.forums@.map_values(|c: ForumConfig| forum_config_domain(c))
    }

    /// A downloader for these settings.
    pub fn from_config(config: DownloaderConfig) -> (r: Self)
        ensures
            r.wf(),
            r.config == config,
            r.domains() == Self::config_domains(config),
    {
        let mut domains: Vec<String> = Vec::new();
        let mut i: usize = 0;
        while i < config.forums.len()
            invariant
                i <= config.forums.len(),
                domains@.len() == i,
                forall|j: int|
                    0 <= j < i ==> (#[trigger] domains@[j])@ == forum_config_domain(config.forums@[j]),
            decreases config.forums.len() - i,
        {
            domains.push(config.forums[i].domain());
            i = i + 1;
        }
        let r = Downloader { config, forum_domains: domains };
        assert(r.domains() =~= Self::config_domains(r.config));
        r
    }

    /// The domains of the configured forums, each once, in order of first appearance.
    pub fn supported_forums(&self) -> (r: Vec<String>)
        requires
            self.wf(),
        ensures
            strings_view(r@) == distinct_in_order(self.domains(), self.domains().len() as int),
    {
        distinct_strings(&self.forum_domains)
    }

    /// The forum known by `domain`, built from its settings (see
    /// `find_forum` and `ForumConfig::build_forum`).
    pub fn get_forum(&self, domain: &str) -> (r: Result<Forum, Error>)
        requires
            self.wf(),
        ensures
            match last_forum_with(self.domains(), domain@, self.domains().len() as int) {
                Some(k) => build_forum_result(self.config.forums@[k], r),
                None => r matches Err(e) && e@ == ErrorView::InvalidForum(
                    unknown_forum_message(
                        domain@,
                        distinct_in_order(self.domains(), self.domains().len() as int),
                    ),
                ),
            },
    {
        match self.find_forum(domain) {
            Ok(c) => c.copy().build_forum(),
            Err(e) => Err(e),
        }
    }

    /// The configuration of the forum known by `domain` (the last one
    /// configured with it), or the complaint listing the known domains.
    pub fn find_forum(&self, domain: &str) -> (r: Result<&ForumConfig, Error>)
        requires
            self.wf(),
        ensures
            match last_forum_with(self.domains(), domain@, self.domains().len() as int) {
                Some(k) => r matches Ok(c) && *c == self.config.forums@[k],
                None => r matches Err(e) && e@ == ErrorView::InvalidForum(
                    unknown_forum_message(
                        domain@,
                        distinct_in_order(self.domains(), self.domains().len() as int),
                    ),
                ),
            },
    {
        let want = chars_of(domain);
        let mut n = self.forum_domains.len();
        while n > 0
            invariant
                n <= self.forum_domains.len(),
                self.wf(),
                want@ == domain@,
                last_forum_with(self.domains(), domain@, self.domains().len() as int)
                    == last_forum_with(self.domains(), domain@, n as int),
            decreases n,
        {
            let d = chars_of(self.forum_domains[n - 1].as_str());
            assert(self.domains()[n - 1] == d@);
            if vec_eq(&d, &want) {
                return Ok(&self.config.forums[n - 1]);
            }
            n = n - 1;
        }
        let known = self.supported_forums();
        let mut v = chars_of("'");
        push_str(&mut v, domain);
        push_str(&mut v, "' not in supported forums: [");
        let listed = quoted_list_exec(&known);
        push_str(&mut v, listed.as_str());
        push_str(&mut v, "]");
        Err(Error::InvalidForum(string_from_chars(&v)))
    }
}

/// Executable `quoted_list`.
pub fn quoted_list_exec(ds: &Vec<String>) -> (r: String)
    ensures
        r@ == quoted_list(strings_view(ds@)),
{
    let mut v: Vec<char> = Vec::new();
    let mut i: usize = 0;
    while i < ds.len()
        invariant
            i <= ds.len(),
            v@ == quoted_list(strings_view(ds@).take(i as int)),
        decreases ds.len() - i,
    {
        let ghost prev = strings_view(ds@).take(i as int);
        if i == 0 {
            push_str(&mut v, "'");
        } else {
            push_str(&mut v, ", '");
        }
        push_str(&mut v, ds[i].as_str());
        push_str(&mut v, "'");
        proof {
            let next = strings_view(ds@).take(i + 1);
            assert(next.drop_last() =~= prev);
            assert(next.last() == ds@[i as int]@);
            if i == 0 {
                assert(prev.len() == 0);
                assert(v@ =~= "'"@ + ds@[i as int]@ + "'"@);
            } else {
                assert(v@ =~= quoted_list(prev) + ", '"@ + ds@[i as int]@ + "'"@);
            }
        }
        i = i + 1;
    }
    assert(strings_view(ds@).take(ds.len() as int) =~= strings_view(ds@));
    string_from_chars(&v)
}

// ---------------------------------------------------------------------------
// Which pages to fetch
// ---------------------------------------------------------------------------

/// The largest of `saved[..n]`, and at least 1.
pub open spec fn max_saved_page(saved: Seq<usize>, n: int) -> usize
    decreases n,
{
    if n <= 0 || n > saved.len() {
        1
    } else {
        let prev = max_saved_page(saved, n - 1);
        if saved[n - 1] > prev {
            saved[n - 1]
        } else {
            prev
        }
    }
}

/// The page a download starts from: 1, or, when resuming, the last page
/// already saved (which is fetched again, since it may have been incomplete).
pub open spec fn start_page_spec(strategy: DownloadStrategy, saved: Seq<usize>) -> usize {
    match strategy {
        DownloadStrategy::FromStart => 1,
        DownloadStrategy::ResumeLatest => max_saved_page(saved, saved.len() as int),
    }
}

/// The page a download starts from, given the page numbers of the files
/// already saved for the thread.
pub fn start_page(strategy: DownloadStrategy, saved_pages: &Vec<usize>) -> (r: usize)
    ensures
        r == start_page_spec(strategy, saved_pages@),
        r >= 1,
{
    match strategy {
        DownloadStrategy::FromStart => 1,
        DownloadStrategy::ResumeLatest => {
            let mut best: usize = 1;
            let mut i: usize = 0;
            while i < saved_pages.len()
                invariant
                    i <= saved_pages.len(),
                    best == max_saved_page(saved_pages@, i as int),
                    best >= 1,
                decreases saved_pages.len() - i,
            {
                if saved_pages[i] > best {
                    best = saved_pages[i];
                }
                i = i + 1;
            }
            best
        },
    }
}

/// How many pages a download handles: all of them, or, when resuming from
/// `start > 1`, page 1 plus pages `start..=total`.
pub open spec fn download_page_count(total: usize, start: usize) -> usize {
    if start > 1 {
        ((if total >= start { total - start } else { 0 }) + 2) as usize
    } else {
        total
    }
}

/// Executable `download_page_count`.
pub fn download_page_count_exec(total: usize, start: usize) -> (r: usize)
    ensures
        r == download_page_count(total, start),
{
    if start > 1 {
        total.saturating_sub(start) + 2
    } else {
        total
    }
}

/// The pages fetched after the first: `max(start, 2)..=total`, in order.
pub open spec fn later_pages(total: usize, start: usize) -> Seq<usize> {
    let first: int = if start > 2 { start as int } else { 2 };
    Seq::new(
        (if total >= first { total - first + 1 } else { 0 }) as nat,
        |k: int| (first + k) as usize,
    )
}

/// Executable `later_pages`.
pub fn later_pages_exec(total: usize, start: usize) -> (r: Vec<usize>)
    ensures
        r@ == later_pages(total, start),
{
    let first: usize = if start > 2 { start } else { 2 };
    let mut out: Vec<usize> = Vec::new();
    if total < first {
        assert(out@ =~= later_pages(total, start));
        return out;
    }
    let count = total - first + 1;
    let mut k: usize = 0;
    while k < count
        invariant
            first == (if start > 2 { start } else { 2 }),
            total >= first,
            count == total - first + 1,
            k <= count,
            out@ =~= later_pages(total, start).take(k as int),
        decreases count - k,
    {
        out.push(first + k);
        k = k + 1;
    }
    assert(later_pages(total, start).take(count as int) =~= later_pages(total, start));
    out
}

// ---------------------------------------------------------------------------
// What is reported
// ---------------------------------------------------------------------------

/// A message to show, as a key of the message catalogue and named arguments.
#[derive(Debug, Clone)]
pub struct Message {
    pub key: String,
    pub args: Vec<(String, String)>,
}

/// Whether `m` has this key and these arguments.
pub open spec fn message_is(m: Message, key: Seq<char>, args: Seq<(Seq<char>, Seq<char>)>) -> bool {
    m.key@ == key && crate::css::table_view(m.args@) == args
}

fn message0(key: &str) -> (r: Message)
    ensures
        message_is(r, key@, Seq::empty()),
{
    let args: Vec<(String, String)> = Vec::new();
    assert(crate::css::table_view(args@) =~= Seq::<(Seq<char>, Seq<char>)>::empty());
    Message { key: String::from_str(key), args }
}

fn message1(key: &str, n1: &str, v1: String) -> (r: Message)
    ensures
        message_is(r, key@, seq![(n1@, v1@)]),
{
    let mut args: Vec<(String, String)> = Vec::new();
    args.push((String::from_str(n1), v1));
    assert(crate::css::table_view(args@) =~= seq![(n1@, args@[0].1@)]);
    Message { key: String::from_str(key), args }
}

fn message2(key: &str, n1: &str, v1: String, n2: &str, v2: String) -> (r: Message)
    ensures
        message_is(r, key@, seq![(n1@, v1@), (n2@, v2@)]),
{
    let mut args: Vec<(String, String)> = Vec::new();
    args.push((String::from_str(n1), v1));
    args.push((String::from_str(n2), v2));
    assert(crate::css::table_view(args@) =~= seq![(n1@, args@[0].1@), (n2@, args@[1].1@)]);
    Message { key: String::from_str(key), args }
}

fn message3(key: &str, n1: &str, v1: String, n2: &str, v2: String, n3: &str, v3: String) -> (r: Message)
    ensures
        message_is(r, key@, seq![(n1@, v1@), (n2@, v2@), (n3@, v3@)]),
{
    let mut args: Vec<(String, String)> = Vec::new();
    args.push((String::from_str(n1), v1));
    args.push((String::from_str(n2), v2));
    args.push((String::from_str(n3), v3));
    assert(crate::css::table_view(args@) =~= seq![
        (n1@, args@[0].1@),
        (n2@, args@[1].1@),
        (n3@, args@[2].1@),
    ]);
    Message { key: String::from_str(key), args }
}

/// `downloading-thread` with the thread's address.
pub fn downloading_thread_message(url: &str) -> (r: Message)
    ensures
        message_is(r, "downloading-thread"@, seq![("url"@, url@)]),
{
    message1("downloading-thread", "url", String::from_str(url))
}

/// `username` with the forum and the shown user name.
pub fn username_message(forum: &str, shown_username: &str) -> (r: Message)
    ensures
        message_is(r, "username"@, seq![("forum"@, forum@), ("username"@, shown_username@)]),
{
    message2("username", "forum", String::from_str(forum), "username", String::from_str(shown_username))
}

/// `not-login` with the forum.
pub fn not_login_message(forum: &str) -> (r: Message)
    ensures
        message_is(r, "not-login"@, seq![("forum"@, forum@)]),
{
    message1("not-login", "forum", String::from_str(forum))
}

/// `started-downloading` with the title and the page count.
pub fn started_downloading_message(title: &str, total_pages: usize) -> (r: Message)
    ensures
        message_is(
            r,
            "started-downloading"@,
            seq![("title"@, title@), ("pages"@, decimal_spec(total_pages as nat))],
        ),
{
    message2(
        "started-downloading",
        "title",
        String::from_str(title),
        "pages",
        crate::text::usize_to_string(total_pages),
    )
}

/// `resume-from-page` with the page resumed from.
pub fn resume_message(start: usize) -> (r: Message)
    ensures
        message_is(r, "resume-from-page"@, seq![("page"@, decimal_spec(start as nat))]),
{
    message1("resume-from-page", "page", crate::text::usize_to_string(start))
}

/// `initializing`.
pub fn initializing_message() -> (r: Message)
    ensures
        message_is(r, "initializing"@, Seq::empty()),
{
    message0("initializing")
}

/// `page-saved` before fetching page `current_pn` of `total`: it reports the
/// page before it as saved and the pause.
pub fn page_saved_message(current_pn: usize, total: usize, interval_ms: u64) -> (r: Message)
    requires
        current_pn >= 1,
    ensures
        message_is(
            r,
            "page-saved"@,
            seq![
                ("current"@, decimal_spec((current_pn - 1) as nat)),
                ("total"@, decimal_spec(total as nat)),
                ("ms"@, decimal_spec(interval_ms as nat)),
            ],
        ),
{
    message3(
        "page-saved",
        "current",
        crate::text::usize_to_string(current_pn - 1),
        "total",
        crate::text::usize_to_string(total),
        "ms",
        crate::text::u64_to_string(interval_ms),
    )
}

/// `requesting-page` for page `current_pn` of `total`.
pub fn requesting_page_message(current_pn: usize, total: usize) -> (r: Message)
    ensures
        message_is(
            r,
            "requesting-page"@,
            seq![("current"@, decimal_spec(current_pn as nat)), ("total"@, decimal_spec(total as nat))],
        ),
{
    message2(
        "requesting-page",
        "current",
        crate::text::usize_to_string(current_pn),
        "total",
        crate::text::usize_to_string(total),
    )
}

/// `error-fetching-page` with the page (a number, `1` or `unknown`) and the error.
pub fn error_fetching_page_message(page: &str, error: &str) -> (r: Message)
    ensures
        message_is(r, "error-fetching-page"@, seq![("page"@, page@), ("error"@, error@)]),
{
    message2("error-fetching-page", "page", String::from_str(page), "error", String::from_str(error))
}

/// `interval-ms-zero`: pages are fetched all at once.
pub fn interval_zero_message() -> (r: Message)
    ensures
        message_is(r, "interval-ms-zero"@, Seq::empty()),
{
    message0("interval-ms-zero")
}

/// `all-pages-fetched`.
pub fn all_pages_fetched_message() -> (r: Message)
    ensures
        message_is(r, "all-pages-fetched"@, Seq::empty()),
{
    message0("all-pages-fetched")
}

/// `thread-complete` with the entry file's path.
pub fn thread_complete_message(path: &str) -> (r: Message)
    ensures
        message_is(r, "thread-complete"@, seq![("path"@, path@)]),
{
    message1("thread-complete", "path", String::from_str(path))
}

/// `downloading-asset` with the asset's address.
pub fn downloading_asset_message(url: &str) -> (r: Message)
    ensures
        message_is(r, "downloading-asset"@, seq![("url"@, url@)]),
{
    message1("downloading-asset", "url", String::from_str(url))
}

/// The host of a thread address, or empty when it is not a domain name;
/// an address that does not parse is an error.
pub fn thread_domain(thread_url: &str) -> (r: Result<String, Error>)
    ensures
        match url_parse(thread_url@) {
            Ok(h) => r matches Ok(d) && d@ == match crate::address::url_domain(h) {
                Some(x) => x,
                None => Seq::<char>::empty(),
            },
            Err(e) => r matches Err(err) && err@ == ErrorView::ParseUrl(e),
        },
{
    match WebUrl::parse(thread_url) {
        Ok(u) => match u.domain() {
            Some(d) => Ok(d),
            None => Ok(String::new()),
        },
        Err(e) => Err(e),
    }
}

} // verus!
