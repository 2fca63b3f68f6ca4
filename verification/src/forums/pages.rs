//! What each forum reads from a page and how it rewrites the page, over
//! the document-tree queries and edits of `crate::html`.
use vstd::prelude::*;
use crate::address::string_option_view;
use crate::error::{Error, ErrorView};
use crate::forums::common::{removals_view, Removal, RemovalView};
use crate::forums::discuz::{discuz_thread_info, strings_view, thread_info_result_view, DiscuzForum};
use crate::forums::nga::{nga_thread_info, nga_username};
use crate::forums::v2ex::{v2ex_thread_info, V2exForum};
use crate::forums::Forum;
use crate::html::{
    all_texts, first_attr, first_in, first_text, group0, html_attrs, html_texts, page_text, remove_every,
    remove_first, removed_every, removed_first,
};
use crate::forums::nga::NGAForum;
use crate::forums::nga_media::{page_images, page_images_spec, smiley_base, smiley_images, smileys_from};
use crate::forums::nga_script::{adapted_script, pairs_view};
use crate::forums::common::{arrow_pages, keyboard_nav_script, keyboard_nav_script_text, page_jump_handler};
use crate::forums::discuz::discuz_local_link;
use crate::forums::v2ex::v2ex_local_link;
use crate::forums::forum_filename;
use crate::text::{decimal_spec, has_prefix};
use crate::html::{
    attr_groups_view, css_selector_valid, groups_view, html_with_attrs, same_shape, select_attrs, select_texts,
    selector_compiles, set_picked_attrs, sets_view,
};
use crate::html::{append_fragment, html_appended, html_inserted_after, html_text, html_without, insert_after_first};
use crate::text::{chars_of, contains_seq, push_all, push_str, string_from_chars, trim_spec};
use crate::types::{ThreadInfo, ThreadInfoView};

verus! {

// ---------------------------------------------------------------------------
// Removals
// ---------------------------------------------------------------------------

/// The page after one removal.
pub open spec fn removal_applied(html: Seq<char>, r: RemovalView) -> Seq<char> {
    match r {
        RemovalView::First(s) => removed_first(html, ":root"@, s),
        RemovalView::FirstOr(a, b) => if first_in(html_texts(html, ":root"@, a)) is Some {
            removed_first(html, ":root"@, a)
        } else {
            removed_first(html, ":root"@, b)
        },
        RemovalView::Every(s) => removed_every(html, s),
        RemovalView::FirstWithin(o, i) => removed_first(html, o, i),
        RemovalView::FirstIfPresent(c, t) => if first_in(html_texts(html, ":root"@, c)) is Some {
            removed_first(html, ":root"@, t)
        } else {
            html
        },
    }
}

/// The page after the removals, in order.
pub open spec fn removals_applied(html: Seq<char>, rs: Seq<RemovalView>) -> Seq<char>
    decreases rs.len(),
{
    if rs.len() == 0 {
        html
    } else {
        removals_applied(removal_applied(html, rs[0]), rs.drop_first())
    }
}

/// Whether the page has an element that matches `selector`.
fn has_match(html: &str, selector: &str) -> (r: bool)
    ensures
        r == first_in(html_texts(html@, ":root"@, selector@)) is Some,
{
    first_text(html, selector).is_some()
}

/// Applies one removal.
pub fn apply_removal(html: &str, removal: &Removal) -> (r: String)
    ensures
        r@ == removal_applied(html@, removal@),
{
    match removal {
        Removal::First(s) => remove_first(html, ":root", s.as_str()),
        Removal::FirstOr(a, b) => if has_match(html, a.as_str()) {
            remove_first(html, ":root", a.as_str())
        } else {
            remove_first(html, ":root", b.as_str())
        },
        Removal::Every(s) => remove_every(html, s.as_str()),
        Removal::FirstWithin(o, i) => remove_first(html, o.as_str(), i.as_str()),
        Removal::FirstIfPresent(c, t) => if has_match(html, c.as_str()) {
            remove_first(html, ":root", t.as_str())
        } else {
            String::from_str(html)
        },
    }
}

/// Applies the removals in order.
pub fn apply_removals(html: &str, removals: &Vec<Removal>) -> (r: String)
    ensures
        r@ == removals_applied(html@, removals_view(removals@)),
{
    let ghost rv = removals_view(removals@);
    let mut cur = String::from_str(html);
    let mut i: usize = 0;
    assert(rv.skip(0) =~= rv);
    while i < removals.len()
        invariant
            i <= removals.len(),
            rv == removals_view(removals@),
            removals_applied(html@, rv) == removals_applied(cur@, rv.skip(i as int)),
        decreases removals.len() - i,
    {
        let next = apply_removal(cur.as_str(), &removals[i]);
        proof {
            assert(rv.skip(i as int)[0] == removals@[i as int]@);
            assert(rv.skip(i as int).drop_first() =~= rv.skip(i + 1));
        }
        cur = next;
        i = i + 1;
    }
    proof {
        assert(rv.skip(i as int) =~= Seq::<RemovalView>::empty());
    }
    cur
}

// ---------------------------------------------------------------------------
// What a page tells
// ---------------------------------------------------------------------------

/// The values present among `vs`, in order.
pub open spec fn present_values(vs: Seq<Option<Seq<char>>>) -> Seq<Seq<char>>
    decreases vs.len(),
{
    if vs.len() == 0 {
        Seq::empty()
    } else {
        let rest = present_values(vs.drop_last());
        match vs.last() {
            Some(v) => rest.push(v),
            None => rest,
        }
    }
}

/// Attribute `attr` of the page's first element that matches `selector`.
pub open spec fn first_attr_of(html: Seq<char>, selector: Seq<char>, attr: Seq<char>) -> Option<Seq<char>> {
    match first_in(html_attrs(html, ":root"@, selector, attr)) {
        Some(Some(v)) => Some(v),
        _ => None,
    }
}

/// The `href`s of the links inside the page's first element that matches
/// `divs`, when there is one.
pub open spec fn page_links_of(html: Seq<char>, divs: Seq<char>) -> Option<Seq<Seq<char>>> {
    let g = html_attrs(html, divs, "a"@, "href"@);
    if g.len() > 0 {
        Some(present_values(g[0]))
    } else {
        None
    }
}

/// What a page of forum `f` at `url` tells about its thread: Discuz reads
/// the title heading and the links of the first page-number box; V2EX the
/// `h1` heading and the page box's `max` and `value`; NGA its scripts and
/// the subject heading.
pub open spec fn page_thread_info(f: Forum, url: Seq<char>, html: Seq<char>) -> Result<ThreadInfoView, ErrorView> {
    match f {
        Forum::Discuz(d) => discuz_thread_info(
            d.config.name@,
            url,
            first_in(html_texts(html, ":root"@, d.config.selectors.thread_title@)),
            page_links_of(html, d.config.selectors.pg_divs@),
        ),
        Forum::V2ex(v) => v2ex_thread_info(
            v.config.name@,
            url,
            first_in(html_texts(html, ":root"@, "h1"@)),
            first_attr_of(html, "input.page_input"@, "max"@),
            first_attr_of(html, "input.page_input"@, "value"@),
        ),
        Forum::NGA(_) => nga_thread_info(
            url,
            group0(html_texts(html, ":root"@, "script"@)),
            first_in(html_texts(html, ":root"@, "h3#postsubject0"@)),
        ),
    }
}

/// The user a page shows as logged in: Discuz's username element, trimmed;
/// V2EX's first member link, trimmed (none when empty); NGA's
/// `__CURRENT_UNAME` setting.
pub open spec fn page_username(f: Forum, html: Seq<char>) -> Option<Seq<char>> {
    match f {
        Forum::Discuz(d) => match first_in(html_texts(html, ":root"@, d.config.selectors.username@)) {
            Some(t) => Some(trim_spec(t)),
            None => None,
        },
        Forum::V2ex(_) => match first_in(html_texts(html, ":root"@, "a[href^='/member/']"@)) {
            Some(t) => if trim_spec(t).len() > 0 {
                Some(trim_spec(t))
            } else {
                None
            },
            None => None,
        },
        Forum::NGA(_) => nga_username(crate::html::html_text(html)),
    }
}

/// The values present among `vs`, in order.
fn present_values_exec(vs: &Vec<Option<String>>) -> (r: Vec<String>)
    ensures
        strings_view(r@) == present_values(vs@.map_values(|a: Option<String>| string_option_view(a))),
{
    let ghost vv = vs@.map_values(|a: Option<String>| string_option_view(a));
    let mut out: Vec<String> = Vec::new();
    let mut i: usize = 0;
    while i < vs.len()
        invariant
            i <= vs.len(),
            vv == vs@.map_values(|a: Option<String>| string_option_view(a)),
            strings_view(out@) == present_values(vv.take(i as int)),
        decreases vs.len() - i,
    {
        proof {
            assert(vv.take(i + 1).drop_last() =~= vv.take(i as int));
            assert(vv.take(i + 1).last() == string_option_view(vs@[i as int]));
        }
        match &vs[i] {
            Some(v) => {
                let ghost before = strings_view(out@);
                out.push(v.clone());
                assert(strings_view(out@) =~= before.push(v@));
            },
            None => {},
        }
        i = i + 1;
    }
    proof {
        assert(vv.take(vs.len() as int) =~= vv);
    }
    out
}

impl Forum {
    /// What the page `html` at `page_url` tells about its thread (see
    /// `page_thread_info`).
    pub fn thread_info_of_page(&self, page_url: &str, html: &str) -> (r: Result<ThreadInfo, Error>)
        ensures
            thread_info_result_view(r) == page_thread_info(*self, page_url@, html@),
    {
        match self {
            Forum::Discuz(d) => {
                let heading = first_text(html, d.config.selectors.thread_title.as_str());
                let groups = crate::html::select_attrs(html, d.config.selectors.pg_divs.as_str(), "a", "href");
                if groups.len() > 0 {
                    let links = present_values_exec(&groups[0]);
                    proof {
                        assert(crate::html::attr_groups_view(groups@)[0] == groups@[0]@.map_values(
                            |a: Option<String>| string_option_view(a),
                        ));
                    }
                    d.extract_thread_info(page_url, heading, Some(&links))
                } else {
                    d.extract_thread_info(page_url, heading, None)
                }
            },
            Forum::V2ex(v) => {
                let heading = first_text(html, "h1");
                let max = first_attr(html, "input.page_input", "max");
                let value = first_attr(html, "input.page_input", "value");
                v.extract_thread_info(page_url, heading, max, value)
            },
            Forum::NGA(n) => {
                let scripts = all_texts(html, "script");
                let subject = first_text(html, "h3#postsubject0");
                n.extract_thread_info(page_url, &scripts, subject)
            },
        }
    }

    /// The user the page `html` shows as logged in (see `page_username`).
    pub fn username_of_page(&self, html: &str) -> (r: Option<String>)
        ensures
            string_option_view(r) == page_username(*self, html@),
    {
        match self {
            Forum::Discuz(d) => DiscuzForum::extract_username(first_text(html, d.config.selectors.username.as_str())),
            Forum::V2ex(_) => V2exForum::extract_username(first_text(html, "a[href^='/member/']")),
            Forum::NGA(_) => crate::forums::nga::NGAForum::extract_username(page_text(html).as_str()),
        }
    }
}

// ---------------------------------------------------------------------------
// Before the assets: removals and the NGA settings script
// ---------------------------------------------------------------------------

/// An element loading the script at `src`, marked to be taken out again
/// after the assets are saved.
pub open spec fn script_fragment(src: Seq<char>) -> Seq<char> {
    "<script src=\""@ + src + "\" class=\"ngaPatch\"/>"@
}

/// An element with the script `text`.
pub open spec fn inline_script(text: Seq<char>) -> Seq<char> {
    "<script type=\"text/javascript\">"@ + text + "</script>"@
}

/// An image element for `src`, marked as `script_fragment` marks.
pub open spec fn img_fragment(src: Seq<char>) -> Seq<char> {
    "<img src=\""@ + src + "\" class=\"ngaPatch\"/>"@
}

/// The page with a `script_fragment` for each of `srcs` put, one after
/// the other, right behind its first script.
pub open spec fn scripts_inserted(html: Seq<char>, srcs: Seq<Seq<char>>) -> Seq<char>
    decreases srcs.len(),
{
    if srcs.len() == 0 {
        html
    } else {
        scripts_inserted(html_inserted_after(html, "script"@, script_fragment(srcs[0]), "script"@), srcs.drop_first())
    }
}

/// The page with an `img_fragment` for each of `srcs` appended, in order.
pub open spec fn images_appended(html: Seq<char>, srcs: Seq<Seq<char>>) -> Seq<char>
    decreases srcs.len(),
{
    if srcs.len() == 0 {
        html
    } else {
        images_appended(html_appended(html, img_fragment(srcs[0]), "img"@), srcs.drop_first())
    }
}

/// An NGA page made ready for its assets: its `Content-Type` meta removed;
/// its first script replaced by the adapted settings script, with a
/// loading element behind it for every address the script joins and every
/// known smiley the page shows; and an image element appended for every
/// attachment image.
pub open spec fn nga_preprocessed(n: NGAForum, html: Seq<char>, smileys: Seq<(Seq<char>, Seq<char>, Seq<char>)>) -> Seq<char> {
    let h = removed_first(html, ":root"@, "meta[http-equiv='Content-Type']"@);
    let (h2, settings) = match first_in(html_texts(h, ":root"@, "script"@)) {
        Some(t) => {
            let a = adapted_script(t, n.config.remove_ads, n.config.remove_user_info);
            let patches = a.2 + smileys_from(html_text(h), 0, smileys, smiley_base(a.1));
            let h1 = scripts_inserted(h, patches);
            let h1 = html_inserted_after(h1, "script"@, inline_script(a.0), "script"@);
            (removed_first(h1, ":root"@, "script"@), a.1)
        },
        None => (h, Seq::empty()),
    };
    images_appended(h2, page_images_spec(html_text(h2), settings))
}

/// The indices, among `texts[..n]`, of the traffic-guard scripts.
pub open spec fn guard_picks(texts: Seq<Seq<char>>, n: int) -> Seq<usize>
    decreases n,
{
    if n <= 0 || n > texts.len() {
        Seq::empty()
    } else if contains_seq(texts[n - 1], "protectTraffic()"@) {
        guard_picks(texts, n - 1).push((n - 1) as usize)
    } else {
        guard_picks(texts, n - 1)
    }
}

/// A page of forum `f` made ready for its assets: the forum's removals,
/// then for V2EX the traffic-guard scripts of the page head taken out (an
/// error when there is no head), for NGA `nga_preprocessed`.
pub open spec fn page_preprocessed(
    f: Forum,
    html: Seq<char>,
    smileys: Seq<(Seq<char>, Seq<char>, Seq<char>)>,
) -> Result<Seq<char>, ErrorView> {
    match f {
        Forum::Discuz(d) => Ok(removals_applied(html, crate::forums::discuz::discuz_removals(d.config))),
        Forum::V2ex(v) => {
            let h = removals_applied(html, crate::forums::v2ex::v2ex_removals(v.config));
            let g = html_texts(h, "head"@, "script"@);
            if g.len() == 0 {
                Err(ErrorView::HtmlParse("页面没有head元素"@))
            } else {
                Ok(html_without(h, "head"@, "script"@, seq![guard_picks(g[0], g[0].len() as int)]))
            }
        },
        Forum::NGA(n) => Ok(nga_preprocessed(n, html, smileys)),
    }
}

/// Executable `script_fragment`.
pub fn script_fragment_text(src: &Vec<char>) -> (r: String)
    ensures
        r@ == script_fragment(src@),
{
    let mut v = chars_of("<script src=\"");
    push_all(&mut v, src);
    push_str(&mut v, "\" class=\"ngaPatch\"/>");
    string_from_chars(&v)
}

/// Executable `inline_script`.
pub fn inline_script_text(text: &Vec<char>) -> (r: String)
    ensures
        r@ == inline_script(text@),
{
    let mut v = chars_of("<script type=\"text/javascript\">");
    push_all(&mut v, text);
    push_str(&mut v, "</script>");
    string_from_chars(&v)
}

/// Executable `img_fragment`.
pub fn img_fragment_text(src: &Vec<char>) -> (r: String)
    ensures
        r@ == img_fragment(src@),
{
    let mut v = chars_of("<img src=\"");
    push_all(&mut v, src);
    push_str(&mut v, "\" class=\"ngaPatch\"/>");
    string_from_chars(&v)
}

/// View of a list of character vectors.
pub open spec fn char_vecs_view(v: Seq<Vec<char>>) -> Seq<Seq<char>> {
    v.map_values(|x: Vec<char>| x@)
}

fn insert_scripts(html: String, srcs: &Vec<Vec<char>>) -> (r: String)
    ensures
        r@ == scripts_inserted(html@, char_vecs_view(srcs@)),
{
    let ghost sv = char_vecs_view(srcs@);
    let mut cur = html;
    let ghost start = cur@;
    let mut i: usize = 0;
    assert(sv.skip(0) =~= sv);
    while i < srcs.len()
        invariant
            i <= srcs.len(),
            sv == char_vecs_view(srcs@),
            scripts_inserted(start, sv) == scripts_inserted(cur@, sv.skip(i as int)),
        decreases srcs.len() - i,
    {
        let frag = script_fragment_text(&srcs[i]);
        let next = insert_after_first(cur.as_str(), "script", frag.as_str(), "script");
        proof {
            assert(sv.skip(i as int)[0] == srcs@[i as int]@);
            assert(sv.skip(i as int).drop_first() =~= sv.skip(i + 1));
        }
        cur = next;
        i = i + 1;
    }
    assert(sv.skip(i as int) =~= Seq::<Seq<char>>::empty());
    cur
}

fn append_images(html: String, srcs: &Vec<Vec<char>>) -> (r: String)
    ensures
        r@ == images_appended(html@, char_vecs_view(srcs@)),
{
    let ghost sv = char_vecs_view(srcs@);
    let mut cur = html;
    let ghost start = cur@;
    let mut i: usize = 0;
    assert(sv.skip(0) =~= sv);
    while i < srcs.len()
        invariant
            i <= srcs.len(),
            sv == char_vecs_view(srcs@),
            images_appended(start, sv) == images_appended(cur@, sv.skip(i as int)),
        decreases srcs.len() - i,
    {
        let frag = img_fragment_text(&srcs[i]);
        let next = append_fragment(cur.as_str(), frag.as_str(), "img");
        proof {
            assert(sv.skip(i as int)[0] == srcs@[i as int]@);
            assert(sv.skip(i as int).drop_first() =~= sv.skip(i + 1));
        }
        cur = next;
        i = i + 1;
    }
    assert(sv.skip(i as int) =~= Seq::<Seq<char>>::empty());
    cur
}

impl NGAForum {
    /// An NGA page made ready for its assets (see `nga_preprocessed`);
    /// `smileys` is the table of known smileys, `(group, name, file)`.
    pub fn preprocess_page(&self, html: &str, smileys: &Vec<(Vec<char>, Vec<char>, Vec<char>)>) -> (r: String)
        ensures
            r@ == nga_preprocessed(*self, html@, crate::forums::nga_media::table_view(smileys@)),
    {
        let h = remove_first(html, ":root", "meta[http-equiv='Content-Type']");
        let first = first_text(h.as_str(), "script");
        let (h2, settings) = match first {
            Some(t) => {
                let (text, vars, urls) = self.adapt_script(&chars_of(t.as_str()));
                let pt = chars_of(page_text(h.as_str()).as_str());
                let smiles = smiley_images(&pt, smileys, &vars);
                let mut patches = urls;
                let ghost u = char_vecs_view(patches@);
                let mut k: usize = 0;
                while k < smiles.len()
                    invariant
                        k <= smiles.len(),
                        char_vecs_view(patches@) =~= u + char_vecs_view(smiles@).take(k as int),
                    decreases smiles.len() - k,
                {
                    let ghost before = char_vecs_view(patches@);
                    patches.push(smiles[k].clone());
                    proof {
                        assert(char_vecs_view(smiles@).take(k + 1) =~= char_vecs_view(smiles@).take(k as int).push(
                            smiles@[k as int]@,
                        ));
                        assert(char_vecs_view(patches@) =~= before.push(smiles@[k as int]@));
                    }
                    k = k + 1;
                }
                proof {
                    assert(char_vecs_view(smiles@).take(smiles.len() as int) =~= char_vecs_view(smiles@));
                    assert(char_vecs_view(smiles@) == smiles@.map_values(|v: Vec<char>| v@));
                    assert(u == urls@.map_values(|v: Vec<char>| v@));
                }
                let h1 = insert_scripts(h, &patches);
                let h1 = insert_after_first(h1.as_str(), "script", inline_script_text(&text).as_str(), "script");
                (remove_first(h1.as_str(), ":root", "script"), vars)
            },
            None => (h, Vec::new()),
        };
        proof {
            if first is None {
                assert(pairs_view(settings@) =~= Seq::<(Seq<char>, Seq<char>)>::empty());
            }
        }
        let pt2 = chars_of(page_text(h2.as_str()).as_str());
        let imgs = page_images(&pt2, &settings);
        proof {
            assert(char_vecs_view(imgs@) == imgs@.map_values(|v: Vec<char>| v@));
        }
        append_images(h2, &imgs)
    }
}

/// Collects the indices of the traffic-guard scripts.
fn guard_picks_exec(texts: &Vec<String>) -> (r: Vec<usize>)
    ensures
        r@ == guard_picks(strings_view(texts@), texts@.len() as int),
{
    let ghost tv = strings_view(texts@);
    let mut out: Vec<usize> = Vec::new();
    let mut i: usize = 0;
    while i < texts.len()
        invariant
            i <= texts.len(),
            tv == strings_view(texts@),
            out@ == guard_picks(tv, i as int),
        decreases texts.len() - i,
    {
        assert(tv[i as int] == texts@[i as int]@);
        if V2exForum::is_traffic_guard_script(texts[i].as_str()) {
            out.push(i);
        }
        i = i + 1;
    }
    out
}

impl Forum {
    /// A page of this forum made ready for its assets (see
    /// `page_preprocessed`).
    pub fn preprocess_page(&self, html: &str, smileys: &Vec<(Vec<char>, Vec<char>, Vec<char>)>) -> (r: Result<String, Error>)
        ensures
            match page_preprocessed(*self, html@, crate::forums::nga_media::table_view(smileys@)) {
                Ok(h) => r matches Ok(s) && s@ == h,
                Err(e) => r matches Err(x) && x@ == e,
            },
    {
        match self {
            Forum::Discuz(d) => Ok(apply_removals(html, &d.removals())),
            Forum::V2ex(v) => {
                let h = apply_removals(html, &v.removals());
                let groups = crate::html::select_texts(h.as_str(), "head", "script");
                if groups.len() == 0 {
                    return Err(Error::HtmlParse(String::from_str("页面没有head元素")));
                }
                let ghost gv = crate::html::groups_view(groups@);
                assert(gv[0] == strings_view(groups@[0]@));
                let picks0 = guard_picks_exec(&groups[0]);
                let mut picks: Vec<Vec<usize>> = Vec::new();
                picks.push(picks0);
                proof {
                    assert(crate::html::picks_view(picks@) =~= seq![guard_picks(gv[0], gv[0].len() as int)]);
                    lemma_guard_picks_fit(gv[0], gv[0].len() as int);
                }
                Ok(crate::html::remove_picked(h.as_str(), "head", "script", &picks))
            },
            Forum::NGA(n) => Ok(n.preprocess_page(html, smileys)),
        }
    }
}

proof fn lemma_guard_picks_fit(texts: Seq<Seq<char>>, n: int)
    requires
        0 <= n <= texts.len(),
    ensures
        forall|k: int| 0 <= k < guard_picks(texts, n).len() ==> (#[trigger] guard_picks(texts, n)[k]) < n,
    decreases n,
{
    if n > 0 {
        lemma_guard_picks_fit(texts, n - 1);
        let prev = guard_picks(texts, n - 1);
        if contains_seq(texts[n - 1], "protectTraffic()"@) {
            assert forall|k: int| 0 <= k < prev.len() + 1 implies (#[trigger] prev.push((n - 1) as usize)[k]) < n by {
                if k < prev.len() {
                    assert(prev.push((n - 1) as usize)[k] == prev[k]);
                }
            }
        }
    }
}

// ---------------------------------------------------------------------------
// After the assets: page links, the page box and the arrow keys
// ---------------------------------------------------------------------------

/// Where a page link of forum `f` leads in the saved thread.
pub open spec fn local_link(f: Forum, href: Seq<char>, tid: Seq<char>, last: usize) -> Option<Seq<char>> {
    match f {
        Forum::Discuz(_) => discuz_local_link(href, tid, last),
        Forum::V2ex(_) => v2ex_local_link(href, tid, last),
        Forum::NGA(_) => None,
    }
}

/// The new `href`s of the links among `vals[..n]` that lead to a saved page.
pub open spec fn link_sets(f: Forum, vals: Seq<Option<Seq<char>>>, tid: Seq<char>, last: usize, n: int) -> Seq<
    (usize, Seq<char>),
>
    decreases n,
{
    if n <= 0 || n > vals.len() {
        Seq::empty()
    } else {
        let rest = link_sets(f, vals, tid, last, n - 1);
        match vals[n - 1] {
            Some(h) => match local_link(f, h, tid, last) {
                Some(t) => rest.push(((n - 1) as usize, t)),
                None => rest,
            },
            None => rest,
        }
    }
}

/// The page with the links inside every `outer` element (only the first
/// one when `only_first`) pointed at the saved pages they lead to.
pub open spec fn links_localized(f: Forum, h: Seq<char>, outer: Seq<char>, tid: Seq<char>, last: usize, only_first: bool) -> Seq<char> {
    let g = html_attrs(h, outer, "a"@, "href"@);
    let sets = if only_first {
        if g.len() > 0 {
            seq![link_sets(f, g[0], tid, last, g[0].len() as int)]
        } else {
            Seq::empty()
        }
    } else {
        Seq::new(g.len(), |i: int| link_sets(f, g[i], tid, last, g[i].len() as int))
    };
    html_with_attrs(h, outer, "a"@, "href"@, sets)
}

/// The first element of a group set to `value`, when there is one.
pub open spec fn first_set<A>(grp: Seq<A>, value: Seq<char>) -> Seq<(usize, Seq<char>)> {
    if grp.len() > 0 {
        seq![(0usize, value)]
    } else {
        Seq::empty()
    }
}

/// The page with the first `input` element inside every `outer` element
/// (only the first one when `only_first`) given the `onkeydown` handler.
pub open spec fn inputs_marked(h: Seq<char>, outer: Seq<char>, input: Seq<char>, handler: Seq<char>, only_first: bool) -> Seq<char> {
    let g = html_texts(h, outer, input);
    let sets = if only_first {
        if g.len() > 0 {
            seq![first_set(g[0], handler)]
        } else {
            Seq::empty()
        }
    } else {
        Seq::new(g.len(), |i: int| first_set(g[i], handler))
    };
    html_with_attrs(h, outer, input, "onkeydown"@, sets)
}

/// The saved file of page `p`, if any.
pub open spec fn file_of_page(f: Forum, tid: Seq<char>, p: Option<usize>) -> Option<Seq<char>> {
    match p {
        Some(q) => Some(forum_filename(f, tid, decimal_spec(q as nat))),
        None => None,
    }
}

/// The page with the arrow-key script appended (when the page number
/// allows a previous and a next page to be counted).
pub open spec fn nav_appended(f: Forum, h: Seq<char>, tid: Seq<char>, pn: usize, last: usize) -> Seq<char> {
    if 1 <= pn < usize::MAX {
        let (a, b) = arrow_pages(pn, last);
        html_appended(
            h,
            inline_script(keyboard_nav_script(file_of_page(f, tid, a), file_of_page(f, tid, b))),
            "script"@,
        )
    } else {
        h
    }
}

/// The indices, among `texts[..n]`, of the scripts that set
/// `document.onkeyup`.
pub open spec fn arrow_picks(texts: Seq<Seq<char>>, n: int) -> Seq<usize>
    decreases n,
{
    if n <= 0 || n > texts.len() {
        Seq::empty()
    } else if has_prefix(trim_spec(texts[n - 1]), "document.onkeyup"@) {
        arrow_picks(texts, n - 1).push((n - 1) as usize)
    } else {
        arrow_picks(texts, n - 1)
    }
}

/// A saved page of forum `f` at `url`, finished: NGA takes out the loading
/// elements, loads its page script after the head and its arrow keys;
/// Discuz and V2EX point the page links of their page-number boxes at the
/// saved pages, make the page box open saved pages, and add the arrow keys
/// (Discuz also taking out its own `document.onkeyup` scripts).
pub open spec fn page_postprocessed(f: Forum, url: Seq<char>, html: Seq<char>) -> Result<Seq<char>, ErrorView> {
    match f {
        Forum::NGA(_) => Ok(
            html_appended(
                html_inserted_after(
                    removed_every(html, ".ngaPatch"@),
                    "head"@,
                    "<script src=\"../assets/nga_patch.js\"/>"@,
                    "script"@,
                ),
                inline_script("makeKeyboardNav(__PAGE);"@),
                "script"@,
            ),
        ),
        Forum::Discuz(d) => match page_thread_info(f, url, html) {
            Err(e) => Err(e),
            Ok(info) => if !css_selector_valid(d.config.selectors.pg_divs@) {
                Err(ErrorView::HtmlParse("未找到页码"@))
            } else {
                let s = d.config.selectors;
                let handler = page_jump_handler(forum_filename(f, info.thread_id, "${this.value}"@));
                let h1 = links_localized(f, html, s.pg_divs@, info.thread_id, info.total_pages, false);
                let h2 = inputs_marked(h1, s.pg_divs@, s.pn_input@, handler, false);
                let h3 = links_localized(f, h2, s.pgbtn@, info.thread_id, info.total_pages, true);
                let h4 = inputs_marked(h3, s.pgbtn@, s.pn_input@, handler, true);
                let g = html_texts(h4, ":root"@, "script[type='text/javascript']"@);
                let picks = if g.len() > 0 {
                    seq![arrow_picks(g[0], g[0].len() as int)]
                } else {
                    Seq::empty()
                };
                let h5 = html_without(h4, ":root"@, "script[type='text/javascript']"@, picks);
                Ok(nav_appended(f, h5, info.thread_id, info.current_pn, info.total_pages))
            },
        },
        Forum::V2ex(_) => match page_thread_info(f, url, html) {
            Err(e) => Err(e),
            Ok(info) => {
                let handler = page_jump_handler(forum_filename(f, info.thread_id, "${this.value}"@));
                let h1 = links_localized(f, html, ".ps_container"@, info.thread_id, info.total_pages, false);
                let h2 = inputs_marked(h1, ".ps_container"@, "input.page_input"@, handler, false);
                Ok(nav_appended(f, h2, info.thread_id, info.current_pn, info.total_pages))
            },
        },
    }
}

proof fn lemma_link_sets_fit(f: Forum, vals: Seq<Option<Seq<char>>>, tid: Seq<char>, last: usize, n: int)
    requires
        0 <= n <= vals.len(),
    ensures
        forall|k: int|
            0 <= k < link_sets(f, vals, tid, last, n).len() ==> (#[trigger] link_sets(f, vals, tid, last, n)[k]).0 < n,
    decreases n,
{
    if n > 0 {
        lemma_link_sets_fit(f, vals, tid, last, n - 1);
        let prev = link_sets(f, vals, tid, last, n - 1);
        let cur = link_sets(f, vals, tid, last, n);
        assert forall|k: int| 0 <= k < cur.len() implies (#[trigger] cur[k]).0 < n by {
            if k < prev.len() {
                assert(cur[k] == prev[k]);
            }
        }
    }
}

proof fn lemma_arrow_picks_fit(texts: Seq<Seq<char>>, n: int)
    requires
        0 <= n <= texts.len(),
    ensures
        forall|k: int| 0 <= k < arrow_picks(texts, n).len() ==> (#[trigger] arrow_picks(texts, n)[k]) < n,
    decreases n,
{
    if n > 0 {
        lemma_arrow_picks_fit(texts, n - 1);
        let prev = arrow_picks(texts, n - 1);
        let cur = arrow_picks(texts, n);
        assert forall|k: int| 0 <= k < cur.len() implies (#[trigger] cur[k]) < n by {
            if k < prev.len() {
                assert(cur[k] == prev[k]);
            }
        }
    }
}

/// Executable `arrow_picks` over all of `texts`.
fn arrow_picks_exec(texts: &Vec<String>) -> (r: Vec<usize>)
    ensures
        r@ == arrow_picks(strings_view(texts@), texts@.len() as int),
{
    let ghost tv = strings_view(texts@);
    let mut out: Vec<usize> = Vec::new();
    let mut i: usize = 0;
    while i < texts.len()
        invariant
            i <= texts.len(),
            tv == strings_view(texts@),
            out@ == arrow_picks(tv, i as int),
        decreases texts.len() - i,
    {
        assert(tv[i as int] == texts@[i as int]@);
        if DiscuzForum::is_arrow_key_script(texts[i].as_str()) {
            out.push(i);
        }
        i = i + 1;
    }
    out
}

impl Forum {
    /// Executable `local_link`.
    fn local_link_exec(&self, href: &str, tid: &str, last: usize) -> (r: Option<String>)
        ensures
            string_option_view(r) == local_link(*self, href@, tid@, last),
    {
        match self {
            Forum::Discuz(d) => d.localize_page_link(href, tid, last),
            Forum::V2ex(v) => v.localize_page_link(href, tid, last),
            Forum::NGA(_) => None,
        }
    }

    /// Executable `link_sets` over a whole group.
    fn link_sets_exec(&self, vals: &Vec<Option<String>>, tid: &str, last: usize) -> (r: Vec<(usize, String)>)
        ensures
            r@.map_values(|e: (usize, String)| (e.0, e.1@)) == link_sets(
                *self,
                vals@.map_values(|a: Option<String>| string_option_view(a)),
                tid@,
                last,
                vals@.len() as int,
            ),
    {
        let ghost vv = vals@.map_values(|a: Option<String>| string_option_view(a));
        let mut out: Vec<(usize, String)> = Vec::new();
        let mut i: usize = 0;
        while i < vals.len()
            invariant
                i <= vals.len(),
                vv == vals@.map_values(|a: Option<String>| string_option_view(a)),
                out@.map_values(|e: (usize, String)| (e.0, e.1@)) == link_sets(*self, vv, tid@, last, i as int),
            decreases vals.len() - i,
        {
            assert(vv[i as int] == string_option_view(vals@[i as int]));
            match &vals[i] {
                Some(h) => match self.local_link_exec(h.as_str(), tid, last) {
                    Some(t) => {
                        let ghost before = out@.map_values(|e: (usize, String)| (e.0, e.1@));
                        out.push((i, t));
                        assert(out@.map_values(|e: (usize, String)| (e.0, e.1@)) =~= before.push((i, t@)));
                    },
                    None => {},
                },
                None => {},
            }
            i = i + 1;
        }
        out
    }

    /// Executable `links_localized`.
    fn localize_links(&self, h: &str, outer: &str, tid: &str, last: usize, only_first: bool) -> (r: String)
        ensures
            r@ == links_localized(*self, h@, outer@, tid@, last, only_first),
    {
        let groups = select_attrs(h, outer, "a", "href");
        let ghost gv = attr_groups_view(groups@);
        let ghost tv = html_texts(h@, outer@, "a"@);
        let mut sets: Vec<Vec<(usize, String)>> = Vec::new();
        let n: usize = if only_first {
            if groups.len() > 0 {
                1
            } else {
                0
            }
        } else {
            groups.len()
        };
        let mut g: usize = 0;
        while g < n
            invariant
                g <= n <= groups.len(),
                n == (if only_first { if groups.len() > 0 { 1usize } else { 0usize } } else { groups.len() }),
                gv == attr_groups_view(groups@),
                same_shape(gv, tv),
                sets_view(sets@) =~= Seq::new(g as nat, |i: int| link_sets(*self, gv[i], tid@, last, gv[i].len() as int)),
            decreases n - g,
        {
            let list = self.link_sets_exec(&groups[g], tid, last);
            proof {
                assert(gv[g as int] == groups@[g as int]@.map_values(|a: Option<String>| string_option_view(a)));
            }
            let ghost before = sets_view(sets@);
            sets.push(list);
            assert(sets_view(sets@) =~= before.push(link_sets(*self, gv[g as int], tid@, last, gv[g as int].len() as int)));
            g = g + 1;
        }
        proof {
            let target = if only_first {
                if gv.len() > 0 {
                    seq![link_sets(*self, gv[0], tid@, last, gv[0].len() as int)]
                } else {
                    Seq::empty()
                }
            } else {
                Seq::new(gv.len(), |i: int| link_sets(*self, gv[i], tid@, last, gv[i].len() as int))
            };
            assert(sets_view(sets@) =~= target);
            assert forall|a: int, k: int| 0 <= a < sets_view(sets@).len() && 0 <= k < sets_view(sets@)[a].len() implies
                (#[trigger] sets_view(sets@)[a][k]).0 < tv[a].len() by {
                lemma_link_sets_fit(*self, gv[a], tid@, last, gv[a].len() as int);
            }
        }
        set_picked_attrs(h, outer, "a", "href", &sets)
    }

    /// Executable `inputs_marked`.
    fn mark_inputs(h: &str, outer: &str, input: &str, handler: &str, only_first: bool) -> (r: String)
        ensures
            r@ == inputs_marked(h@, outer@, input@, handler@, only_first),
    {
        let groups = select_texts(h, outer, input);
        let ghost gv = groups_view(groups@);
        let mut sets: Vec<Vec<(usize, String)>> = Vec::new();
        let n: usize = if only_first {
            if groups.len() > 0 {
                1
            } else {
                0
            }
        } else {
            groups.len()
        };
        let mut g: usize = 0;
        while g < n
            invariant
                g <= n <= groups.len(),
                gv == groups_view(groups@),
                sets_view(sets@) =~= Seq::new(g as nat, |i: int| first_set(gv[i], handler@)),
            decreases n - g,
        {
            let mut list: Vec<(usize, String)> = Vec::new();
            assert(gv[g as int] == strings_view(groups@[g as int]@));
            if groups[g].len() > 0 {
                list.push((0, String::from_str(handler)));
                assert(list@.map_values(|e: (usize, String)| (e.0, e.1@)) =~= seq![(0usize, handler@)]);
            } else {
                assert(list@.map_values(|e: (usize, String)| (e.0, e.1@)) =~= Seq::<(usize, Seq<char>)>::empty());
            }
            let ghost before = sets_view(sets@);
            sets.push(list);
            assert(sets_view(sets@) =~= before.push(first_set(gv[g as int], handler@)));
            g = g + 1;
        }
        proof {
            let target = if only_first {
                if gv.len() > 0 {
                    seq![first_set(gv[0], handler@)]
                } else {
                    Seq::empty()
                }
            } else {
                Seq::new(gv.len(), |i: int| first_set(gv[i], handler@))
            };
            assert(sets_view(sets@) =~= target);
            assert forall|a: int, k: int| 0 <= a < sets_view(sets@).len() && 0 <= k < sets_view(sets@)[a].len() implies
                (#[trigger] sets_view(sets@)[a][k]).0 < gv[a].len() by {
            }
        }
        set_picked_attrs(h, outer, input, "onkeydown", &sets)
    }

    /// Executable `nav_appended`.
    fn append_nav(&self, h: String, tid: &str, pn: usize, last: usize) -> (r: String)
        ensures
            r@ == nav_appended(*self, h@, tid@, pn, last),
    {
        if 1 <= pn && pn < usize::MAX {
            let (prev, next) = self.neighbour_files(tid, pn, last);
            let script = keyboard_nav_script_text(
                match &prev {
                    Some(p) => Some(p.as_str()),
                    None => None,
                },
                match &next {
                    Some(n) => Some(n.as_str()),
                    None => None,
                },
            );
            let frag = inline_script_text(&chars_of(script.as_str()));
            append_fragment(h.as_str(), frag.as_str(), "script")
        } else {
            h
        }
    }

    /// A saved page of this forum, finished (see `page_postprocessed`).
    pub fn postprocess_page(&self, page_url: &str, html: &str) -> (r: Result<String, Error>)
        ensures
            match page_postprocessed(*self, page_url@, html@) {
                Ok(h) => r matches Ok(s) && s@ == h,
                Err(e) => r matches Err(x) && x@ == e,
            },
    {
        match self {
            Forum::NGA(_) => {
                let h = remove_every(html, ".ngaPatch");
                let h = insert_after_first(h.as_str(), "head", "<script src=\"../assets/nga_patch.js\"/>", "script");
                let frag = inline_script_text(&chars_of("makeKeyboardNav(__PAGE);"));
                Ok(append_fragment(h.as_str(), frag.as_str(), "script"))
            },
            Forum::Discuz(d) => {
                let info = match self.thread_info_of_page(page_url, html) {
                    Ok(i) => i,
                    Err(e) => return Err(e),
                };
                let s = &d.config.selectors;
                if !selector_compiles(s.pg_divs.as_str()) {
                    return Err(Error::HtmlParse(String::from_str("未找到页码")));
                }
                let handler = self.page_jump_handler(info.thread_id.as_str());
                let tid = info.thread_id.as_str();
                let h1 = self.localize_links(html, s.pg_divs.as_str(), tid, info.total_pages, false);
                let h2 = Self::mark_inputs(h1.as_str(), s.pg_divs.as_str(), s.pn_input.as_str(), handler.as_str(), false);
                let h3 = self.localize_links(h2.as_str(), s.pgbtn.as_str(), tid, info.total_pages, true);
                let h4 = Self::mark_inputs(h3.as_str(), s.pgbtn.as_str(), s.pn_input.as_str(), handler.as_str(), true);
                let scripts = select_texts(h4.as_str(), ":root", "script[type='text/javascript']");
                let ghost gv = groups_view(scripts@);
                let mut picks: Vec<Vec<usize>> = Vec::new();
                if scripts.len() > 0 {
                    assert(gv[0] == strings_view(scripts@[0]@));
                    let p0 = arrow_picks_exec(&scripts[0]);
                    picks.push(p0);
                    proof {
                        lemma_arrow_picks_fit(gv[0], gv[0].len() as int);
                        assert(crate::html::picks_view(picks@) =~= seq![arrow_picks(gv[0], gv[0].len() as int)]);
                    }
                } else {
                    assert(crate::html::picks_view(picks@) =~= Seq::<Seq<usize>>::empty());
                }
                let h5 = crate::html::remove_picked(h4.as_str(), ":root", "script[type='text/javascript']", &picks);
                Ok(self.append_nav(h5, tid, info.current_pn, info.total_pages))
            },
            Forum::V2ex(_) => {
                let info = match self.thread_info_of_page(page_url, html) {
                    Ok(i) => i,
                    Err(e) => return Err(e),
                };
                let handler = self.page_jump_handler(info.thread_id.as_str());
                let tid = info.thread_id.as_str();
                let h1 = self.localize_links(html, ".ps_container", tid, info.total_pages, false);
                let h2 = Self::mark_inputs(h1.as_str(), ".ps_container", "input.page_input", handler.as_str(), false);
                Ok(self.append_nav(h2, tid, info.current_pn, info.total_pages))
            },
        }
    }
}

} // verus!
