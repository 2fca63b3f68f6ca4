//! Deciding what happens to the links of a saved page and to the assets
//! they lead to.
use vstd::prelude::*;
use crate::address::{string_option_view, url_host, url_join, url_parse, url_path, url_query, WebUrl};
use dashmap::DashMap;
use crate::css::{
    css_matches, css_raw_refs, is_http_url, refs_view, resolve_css_refs, resolve_refs_from, CssRef,
};
use crate::error::{Error, ErrorView};
use crate::forums::discuz::strings_view;
use crate::text::{
    after_last, after_last_spec, chars_of, ends_with, has_suffix, split_char, split_spec, starts_with, str_eq,
    string_from_chars, vec_eq,
};

verus! {

/// The extension of the URL serialized as `href`: what follows the last `.`
/// of its path (the whole path when there is none).
pub open spec fn url_extension(href: Seq<char>) -> Seq<char> {
    after_last_spec(url_path(href), '.')
}

/// Executable `url_extension`.
pub fn url_extension_exec(url: &WebUrl) -> (r: Vec<char>)
    ensures
        r@ == url_extension(url@),
{
    let p = chars_of(url.path().as_str());
    after_last(&p, '.')
}

/// Whether the URL serialized as `href` has one of the `extensions`.
pub open spec fn has_listed_extension(href: Seq<char>, extensions: Seq<Seq<char>>) -> bool {
    extensions.contains(url_extension(href))
}

/// Whether `url` has one of the `extensions`.
pub fn is_downloadable(url: &WebUrl, extensions: &Vec<String>) -> (r: bool)
    ensures
        r == has_listed_extension(url@, strings_view(extensions@)),
{
    let ext = url_extension_exec(url);
    let s = crate::text::string_from_chars(&ext);
    crate::css::contains_string(extensions, s.as_str())
}

/// How an asset is saved, by its extension.
#[derive(Debug, Clone, Copy, PartialEq, Eq)]
pub enum AssetKind {
    /// `htm`, `html`: a page, whose own links are localised.
    Html,
    /// `css`, `scss`, `less`: a style sheet, whose `url(...)` references are localised.
    Css,
    /// `js`, `mjs`: a script, saved as text.
    Script,
    /// Anything else, saved as bytes.
    Other,
}

/// The kind of an asset with extension `ext`.
pub open spec fn asset_kind_of(ext: Seq<char>) -> AssetKind {
    if ext == "htm"@ || ext == "html"@ {
        AssetKind::Html
    } else if ext == "css"@ || ext == "scss"@ || ext == "less"@ {
        AssetKind::Css
    } else if ext == "js"@ || ext == "mjs"@ {
        AssetKind::Script
    } else {
        AssetKind::Other
    }
}

/// The kind of the asset at `url`.
pub fn asset_kind(url: &WebUrl) -> (r: AssetKind)
    ensures
        r == asset_kind_of(url_extension(url@)),
{
    let e = url_extension_exec(url);
    let s = crate::text::string_from_chars(&e);
    let t = s.as_str();
    if str_eq(t, "htm") || str_eq(t, "html") {
        AssetKind::Html
    } else if str_eq(t, "css") || str_eq(t, "scss") || str_eq(t, "less") {
        AssetKind::Css
    } else if str_eq(t, "js") || str_eq(t, "mjs") {
        AssetKind::Script
    } else {
        AssetKind::Other
    }
}

// ---------------------------------------------------------------------------
// Where the copy of an asset is saved
// ---------------------------------------------------------------------------

/// `c`, or `_` when file systems refuse it in a name (`<>:"|?*`).
pub open spec fn file_safe_char(c: char) -> char {
    if c == '<' || c == '>' || c == ':' || c == '"' || c == '|' || c == '?' || c == '*' {
        '_'
    } else {
        c
    }
}

/// `s` with every character that file systems refuse in a name made `_`.
pub open spec fn file_safe(s: Seq<char>) -> Seq<char> {
    s.map_values(|c: char| file_safe_char(c))
}

/// The non-empty pieces among `pieces[..n]`, made file-safe, in order.
pub open spec fn path_names(pieces: Seq<Seq<char>>, n: int) -> Seq<Seq<char>>
    decreases n,
{
    if n <= 0 || n > pieces.len() {
        Seq::empty()
    } else if pieces[n - 1].len() > 0 {
        path_names(pieces, n - 1).push(file_safe(pieces[n - 1]))
    } else {
        path_names(pieces, n - 1)
    }
}

/// The names, from the asset directory down, of the file the asset at the
/// URL serialized as `href` is saved to: its host (`local` when it has
/// none), the non-empty segments of its path, `index` when the path ends
/// with `/` or has no segment, and the query, when there is one, put before
/// the last name with `_`; every name made file-safe.
pub open spec fn asset_path_names(href: Seq<char>) -> Seq<Seq<char>> {
    let host = match url_host(href) {
        Some(h) => h,
        None => "local"@,
    };
    let path = url_path(href);
    let pieces = split_spec(path, '/');
    let segs = path_names(pieces, pieces.len() as int);
    let names = seq![file_safe(host)] + segs;
    let names = if has_suffix(path, "/"@) || segs.len() == 0 {
        names.push("index"@)
    } else {
        names
    };
    match url_query(href) {
        Some(q) => names.update(names.len() - 1, file_safe(q) + "_"@ + names.last()),
        None => names,
    }
}

/// Executable `file_safe`.
pub fn file_safe_exec(s: &Vec<char>) -> (r: String)
    ensures
        r@ == file_safe(s@),
{
    let mut out: Vec<char> = Vec::new();
    let mut i: usize = 0;
    while i < s.len()
        invariant
            i <= s.len(),
            out@ == s@.take(i as int).map_values(|c: char| file_safe_char(c)),
        decreases s.len() - i,
    {
        let c = s[i];
        let d = if c == '<' || c == '>' || c == ':' || c == '"' || c == '|' || c == '?' || c == '*' {
            '_'
        } else {
            c
        };
        out.push(d);
        proof {
            assert(s@.take(i + 1) =~= s@.take(i as int).push(c));
        }
        i = i + 1;
    }
    proof {
        assert(s@.take(s.len() as int) =~= s@);
    }
    string_from_chars(&out)
}

/// The names of the file the asset at `url` is saved to, from the asset
/// directory down (see `asset_path_names`).
pub fn asset_path(url: &WebUrl) -> (r: Vec<String>)
    ensures
        strings_view(r@) == asset_path_names(url@),
{
    proof {
        reveal_strlit("local");
        reveal_strlit("/");
        reveal_strlit("index");
        reveal_strlit("_");
    }
    let host = match url.host_str() {
        Some(h) => h,
        None => String::from_str("local"),
    };
    let mut names: Vec<String> = Vec::new();
    names.push(file_safe_exec(&chars_of(host.as_str())));
    let path = chars_of(url.path().as_str());
    let pieces = split_char(&path, '/');
    let ghost ps = split_spec(path@, '/');
    let ghost first = file_safe(host@);
    let mut i: usize = 0;
    while i < pieces.len()
        invariant
            i <= pieces.len(),
            pieces@.len() == ps.len(),
            forall|k: int| 0 <= k < pieces@.len() ==> (#[trigger] pieces@[k])@ == ps[k],
            strings_view(names@) == seq![first] + path_names(ps, i as int),
        decreases pieces.len() - i,
    {
        assert(pieces@[i as int]@ == ps[i as int]);
        if pieces[i].len() > 0 {
            let name = file_safe_exec(&pieces[i]);
            let ghost before = strings_view(names@);
            names.push(name);
            assert(strings_view(names@) =~= before.push(name@));
        }
        i = i + 1;
    }
    let ghost segs = path_names(ps, ps.len() as int);
    assert(strings_view(names@) == seq![first] + segs);
    if ends_with(&path, &chars_of("/")) || names.len() == 1 {
        let ghost before = strings_view(names@);
        names.push(String::from_str("index"));
        assert(strings_view(names@) =~= before.push("index"@));
    }
    let n = names.len();
    match url.query() {
        Some(q) => {
            let ghost before = strings_view(names@);
            let mut v = chars_of(file_safe_exec(&chars_of(q.as_str())).as_str());
            v.push('_');
            assert(v@ =~= file_safe(q@) + "_"@);
            let last = chars_of(names[n - 1].as_str());
            assert(last@ == before.last());
            crate::text::push_all(&mut v, &last);
            let joined = string_from_chars(&v);
            assert(joined@ == file_safe(q@) + "_"@ + before.last());
            names.set(n - 1, joined);
            assert(strings_view(names@) =~= before.update(n - 1, file_safe(q@) + "_"@ + before.last()));
        },
        None => {},
    }
    names
}

// ---------------------------------------------------------------------------
// The ledger of assets
// ---------------------------------------------------------------------------

/// `dashmap::DashMap`, the concurrent map the ledger keeps its entries in;
/// opaque here, its contents named by `asset_entries`.
#[verifier::external_type_specification]
#[verifier::external_body]
#[verifier::reject_recursive_types(K)]
#[verifier::reject_recursive_types(V)]
#[verifier::reject_recursive_types(S)]
pub struct ExDashMap<K, V, S>(dashmap::DashMap<K, V, S>);

/// What a map of assets holds: for each address, the file its copy was
/// saved to, or none while it is being fetched (or after its fetch failed).
pub uninterp spec fn asset_entries(m: DashMap<String, Option<String>>) -> Map<
    Seq<char>,
    Option<Seq<char>>,
>;

/// Calls `DashMap::new`; claimed: the map has no entry.
#[verifier::external_body]
fn new_asset_map() -> (r: DashMap<String, Option<String>>)
    ensures
        asset_entries(r).dom().is_empty(),
{
    DashMap::new()
}

/// Calls `DashMap::get` and clones the entry's value; claimed: the entry of
/// `url`, if there is one.
#[verifier::external_body]
fn asset_map_get(m: &DashMap<String, Option<String>>, url: &str) -> (r: Option<Option<String>>)
    ensures
        match r {
            Some(v) => asset_entries(*m).dom().contains(url@) && asset_entries(*m)[url@]
                == string_option_view(v),
            None => !asset_entries(*m).dom().contains(url@),
        },
{
    match m.get(url) {
        Some(entry) => Some(entry.value().clone()),
        None => None,
    }
}

/// Calls `DashMap::insert`; claimed: the entry of `url` becomes `state`,
/// the others stay.
#[verifier::external_body]
fn asset_map_insert(m: &mut DashMap<String, Option<String>>, url: &str, state: Option<String>)
    ensures
        asset_entries(*final(m)) == asset_entries(*old(m)).insert(url@, string_option_view(state)),
{
    m.insert(url.to_string(), state);
}

/// Which assets are known: saved (with their file), or in progress.
///
/// `DashMap` can be changed through a shared reference; `asset_entries`
/// reads the map as a value all the same, which is sound because `entries`
/// is private and every change to it goes through `record` (and `begin`),
/// which take the ledger by `&mut`.
#[derive(Debug)]
pub struct AssetLedger {
    entries: DashMap<String, Option<String>>,
}

/// What happens to an asset that a page links to.
#[derive(Debug, Clone, Copy, PartialEq, Eq)]
pub enum AssetStep {
    /// The address is already known: saved, or being saved.
    Known,
    /// Its file already exists; it is now recorded as saved.
    OnDisk,
    /// It is fetched now and saved as this kind.
    Fetch(AssetKind),
}

impl AssetLedger {
    /// What the ledger records for `url`: `Some(Some(file))` when saved,
    /// `Some(None)` when in progress, `None` when unknown.
    pub closed spec fn get(&self, url: Seq<char>) -> Option<Option<Seq<char>>> {
        if asset_entries(self.entries).dom().contains(url) {
            Some(asset_entries(self.entries)[url])
        } else {
            None
        }
    }

    /// An empty ledger.
    pub fn new() -> (r: Self)
        ensures
            forall|u: Seq<char>| r.get(u) is None,
    {
        AssetLedger { entries: new_asset_map() }
    }

    /// Whether `url` is known.
    pub fn contains(&self, url: &str) -> (r: bool)
        ensures
            r == self.get(url@) is Some,
    {
        asset_map_get(&self.entries, url).is_some()
    }

    /// The file recorded for `url`, if it was saved.
    pub fn saved_file(&self, url: &str) -> (r: Option<String>)
        ensures
            string_option_view(r) == match self.get(url@) {
                Some(Some(p)) => Some(p),
                _ => None,
            },
    {
        match asset_map_get(&self.entries, url) {
            Some(v) => v,
            None => None,
        }
    }

    /// Records `url` as `state` (a saved file, or in progress).
    pub fn record(&mut self, url: &str, state: Option<String>)
        ensures
            forall|u: Seq<char>|
                #[trigger] final(self).get(u) == if u == url@ {
                    Some(string_option_view(state))
                } else {
                    old(self).get(u)
                },
    {
        asset_map_insert(&mut self.entries, url, state);
    }

    /// Decides what happens to the asset at `url` whose file would be
    /// `file_path` (`file_exists` says whether that file is already there):
    /// a known address is left alone; an existing file is recorded as saved;
    /// otherwise the address must parse, is recorded as in progress, and is
    /// fetched according to its kind.
    pub fn begin(&mut self, url: &str, file_path: &str, file_exists: bool) -> (r: Result<AssetStep, Error>)
        ensures
            old(self).get(url@) is Some ==> r == Ok::<AssetStep, Error>(AssetStep::Known) && forall|
                u: Seq<char>,
            | #[trigger] final(self).get(u) == old(self).get(u),
            old(self).get(url@) is None && file_exists ==> r == Ok::<AssetStep, Error>(AssetStep::OnDisk)
                && forall|u: Seq<char>|
                #[trigger] final(self).get(u) == if u == url@ {
                    Some(Some(file_path@))
                } else {
                    old(self).get(u)
                },
            old(self).get(url@) is None && !file_exists ==> match url_parse(url@) {
                Ok(h) => r == Ok::<AssetStep, Error>(AssetStep::Fetch(asset_kind_of(url_extension(h))))
                    && forall|u: Seq<char>|
                    #[trigger] final(self).get(u) == if u == url@ {
                        Some(None::<Seq<char>>)
                    } else {
                        old(self).get(u)
                    },
                Err(e) => r matches Err(err) && err@ == ErrorView::ParseUrl(e) && forall|u: Seq<char>|
                    #[trigger] final(self).get(u) == old(self).get(u),
            },
    {
        if self.contains(url) {
            return Ok(AssetStep::Known);
        }
        if file_exists {
            self.record(url, Some(String::from_str(file_path)));
            return Ok(AssetStep::OnDisk);
        }
        let parsed = match WebUrl::parse(url) {
            Ok(u) => u,
            Err(e) => return Err(e),
        };
        let kind = asset_kind(&parsed);
        self.record(url, None);
        Ok(AssetStep::Fetch(kind))
    }
}

/// The addresses among `urls[..n]` whose copy `ledger` records as saved,
/// in order.
pub open spec fn saved_among(ledger: AssetLedger, urls: Seq<Seq<char>>, n: int) -> Seq<Seq<char>>
    decreases n,
{
    if n <= 0 || n > urls.len() {
        Seq::empty()
    } else if ledger.get(urls[n - 1]) matches Some(Some(_)) {
        saved_among(ledger, urls, n - 1).push(urls[n - 1])
    } else {
        saved_among(ledger, urls, n - 1)
    }
}

proof fn lemma_saved_among(ledger: AssetLedger, urls: Seq<Seq<char>>, n: int)
    requires
        0 <= n <= urls.len(),
    ensures
        forall|u: Seq<char>|
            saved_among(ledger, urls, n).contains(u) <==> (urls.take(n).contains(u) && ledger.get(
                u,
            ) matches Some(Some(_))),
    decreases n,
{
    if n > 0 {
        lemma_saved_among(ledger, urls, n - 1);
        let prev = saved_among(ledger, urls, n - 1);
        assert(urls.take(n) =~= urls.take(n - 1).push(urls[n - 1]));
        assert forall|u: Seq<char>| urls.take(n).contains(u) <==> (urls.take(n - 1).contains(u) || u
            == urls[n - 1]) by {
            if urls.take(n).contains(u) {
                let j = choose|j: int| 0 <= j < n && #[trigger] urls.take(n)[j] == u;
                if j < n - 1 {
                    assert(urls.take(n - 1)[j] == u);
                }
            }
            if urls.take(n - 1).contains(u) {
                let j = choose|j: int| 0 <= j < n - 1 && #[trigger] urls.take(n - 1)[j] == u;
                assert(urls.take(n)[j] == u);
            }
            if u == urls[n - 1] {
                assert(urls.take(n)[n - 1] == u);
            }
        }
        if ledger.get(urls[n - 1]) matches Some(Some(_)) {
            assert forall|u: Seq<char>| prev.push(urls[n - 1]).contains(u) <==> (prev.contains(u) || u
                == urls[n - 1]) by {
                if prev.push(urls[n - 1]).contains(u) {
                    let j = choose|j: int| 0 <= j < prev.len() + 1 && #[trigger] prev.push(urls[n - 1])[j] == u;
                    if j < prev.len() {
                        assert(prev[j] == u);
                    }
                }
                if prev.contains(u) {
                    let j = choose|j: int| 0 <= j < prev.len() && #[trigger] prev[j] == u;
                    assert(prev.push(urls[n - 1])[j] == u);
                }
                if u == urls[n - 1] {
                    assert(prev.push(urls[n - 1])[prev.len() as int] == u);
                }
            }
        }
    } else {
        assert(urls.take(0) =~= Seq::<Seq<char>>::empty());
    }
}

/// The addresses among `urls` whose copy was saved — the only ones a saved
/// page may point at locally (one still in progress, or whose fetch failed,
/// is not).
pub fn saved_addresses(ledger: &AssetLedger, urls: &Vec<String>) -> (r: Vec<String>)
    ensures
        strings_view(r@) == saved_among(*ledger, strings_view(urls@), urls@.len() as int),
        forall|u: Seq<char>|
            strings_view(r@).contains(u) <==> (strings_view(urls@).contains(u) && ledger.get(u) matches Some(
                Some(_),
            )),
{
    let ghost us = strings_view(urls@);
    let mut out: Vec<String> = Vec::new();
    let mut i: usize = 0;
    while i < urls.len()
        invariant
            i <= urls.len(),
            us == strings_view(urls@),
            strings_view(out@) == saved_among(*ledger, us, i as int),
        decreases urls.len() - i,
    {
        assert(us[i as int] == urls@[i as int]@);
        match ledger.saved_file(urls[i].as_str()) {
            Some(_) => {
                let ghost before = strings_view(out@);
                out.push(urls[i].clone());
                assert(strings_view(out@) =~= before.push(urls@[i as int]@));
            },
            None => {},
        }
        i = i + 1;
    }
    proof {
        lemma_saved_among(*ledger, us, us.len() as int);
        assert(us.take(us.len() as int) =~= us);
    }
    out
}

// ---------------------------------------------------------------------------
// Links of a saved page
// ---------------------------------------------------------------------------

/// The address relative links of a page resolve against: its `<base href>`
/// if present, else its own address, made into a directory with `join(".")`.
pub open spec fn document_base_spec(page_url: Seq<char>, base_href: Option<Seq<char>>) -> Result<
    Seq<char>,
    ErrorView,
> {
    let s = match base_href {
        Some(b) => b,
        None => page_url,
    };
    match url_parse(s) {
        Err(e) => Err(ErrorView::ParseUrl(e)),
        Ok(h) => match url_join(h, "."@) {
            Err(e) => Err(ErrorView::ParseUrl(e)),
            Ok(d) => Ok(d),
        },
    }
}

/// Executable `document_base_spec`.
pub fn document_base(page_url: &str, base_href: Option<String>) -> (r: Result<WebUrl, Error>)
    ensures
        match document_base_spec(page_url@, string_option_view(base_href)) {
            Ok(d) => r matches Ok(u) && u@ == d,
            Err(e) => r matches Err(err) && err@ == e,
        },
{
    let parsed = match base_href {
        Some(b) => WebUrl::parse(b.as_str()),
        None => WebUrl::parse(page_url),
    };
    match parsed {
        Err(e) => Err(e),
        Ok(u) => u.join("."),
    }
}

/// What becomes of one attribute value of a saved page.
#[derive(Debug, Clone)]
pub enum AttrPlan {
    /// Left as it is.
    Keep,
    /// Set to its absolute address; `downloadable` when it names an asset worth saving.
    Link { abs_url: WebUrl, downloadable: bool },
    /// Style text with `url(...)` references: these are the ones to localise
    /// (none: the attribute is left as it is).
    Styles(Vec<CssRef>),
}

/// View of an [`AttrPlan`].
pub enum AttrPlanView {
    Keep,
    Link(Seq<char>, bool),
    Styles(Seq<(Seq<char>, Seq<char>)>),
}

/// View of an [`AttrPlan`] value.
pub open spec fn attr_plan_view(p: AttrPlan) -> AttrPlanView {
    match p {
        AttrPlan::Keep => AttrPlanView::Keep,
        AttrPlan::Link { abs_url, downloadable } => AttrPlanView::Link(abs_url@, downloadable),
        AttrPlan::Styles(refs) => AttrPlanView::Styles(refs_view(refs@)),
    }
}

/// What becomes of attribute value `value`, resolved against `base`: an
/// empty value stays; a value with `url(...)` references has those
/// resolved (see `resolve_refs_from`, passing over what cannot be joined);
/// any other value is joined to `base` and, when that gives an
/// `http`/`https`-like address, set to it.
pub open spec fn attr_plan_spec(value: Seq<char>, base: Seq<char>, extensions: Seq<Seq<char>>) -> AttrPlanView {
    if value.len() == 0 {
        AttrPlanView::Keep
    } else if css_matches(value).len() > 0 {
        match resolve_refs_from(css_raw_refs(value), base, false, 0, Seq::empty()) {
            Ok(refs) => AttrPlanView::Styles(refs),
            Err(_) => AttrPlanView::Styles(Seq::empty()),
        }
    } else {
        match url_join(base, value) {
            Err(_) => AttrPlanView::Keep,
            Ok(h) => if is_http_url(h) {
                AttrPlanView::Link(h, has_listed_extension(h, extensions))
            } else {
                AttrPlanView::Keep
            },
        }
    }
}

/// Decides what becomes of an attribute value of a saved page.
pub fn plan_attribute(value: &str, base: &WebUrl, extensions: &Vec<String>) -> (r: AttrPlan)
    ensures
        attr_plan_view(r) == attr_plan_spec(value@, base@, strings_view(extensions@)),
{
    let v = chars_of(value);
    if v.len() == 0 {
        return AttrPlan::Keep;
    }
    let raws = crate::css::css_raw_refs_exec(value);
    if raws.len() > 0 {
        proof {
            assert(css_raw_refs(value@).len() == css_matches(value@).len());
        }
        return match resolve_css_refs(value, base, false) {
            Ok(refs) => AttrPlan::Styles(refs),
            Err(_) => {
                let none: Vec<CssRef> = Vec::new();
                assert(refs_view(none@) =~= Seq::<(Seq<char>, Seq<char>)>::empty());
                AttrPlan::Styles(none)
            },
        };
    }
    proof {
        assert(css_raw_refs(value@).len() == css_matches(value@).len());
    }
    match base.join(value) {
        Err(_) => AttrPlan::Keep,
        Ok(u) => {
            let scheme = chars_of(u.scheme().as_str());
            if starts_with(&scheme, &chars_of("http")) {
                let d = is_downloadable(&u, extensions);
                AttrPlan::Link { abs_url: u, downloadable: d }
            } else {
                AttrPlan::Keep
            }
        },
    }
}

} // verus!
