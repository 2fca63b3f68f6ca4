//! Laws of what saving a page does to its text: the NGA settings script,
//! the removals, the localised links and style references.
use vstd::prelude::*;
use crate::forums::nga_script::{
    is_name_char, is_value_char, lemma_no_setting_at_end, name_run, next_setting, offline_value, setting_at,
    setting_pred, setting_replacement, settings_from, value_run,
};
use crate::patterns::{first_from, lemma_first_from_found, space_run};
use crate::forums::common::RemovalView;
use crate::forums::discuz::{discuz_removals, DiscuzForum};
use crate::forums::pages::{
    inputs_marked, link_sets, links_localized, local_link, nav_appended, page_postprocessed, page_preprocessed,
    page_thread_info, removal_applied, removals_applied, arrow_picks,
};
use crate::forums::common::page_jump_handler;
use crate::forums::forum_filename;
use crate::html::{html_attrs, html_with_attrs};
use crate::forums::Forum;
use crate::html::{html_texts, html_without};
use crate::assets::{attr_plan_spec, AttrPlanView};
use crate::css::{has_ref, resolve_refs_from, table_lookup};
use crate::address::{url_join, url_scheme};
use crate::document::{attr_setting, attr_sets, value_of};
use crate::text::{has_prefix, lemma_replace_skip, occurs_at, replace_all_spec, replace_from};

verus! {

// ---------------------------------------------------------------------------
// The NGA settings script
// ---------------------------------------------------------------------------

/// The scheme prefix `http://`, or `https://` when `secure`.
pub open spec fn scheme_prefix(secure: bool) -> Seq<char> {
    if secure {
        "https://"@
    } else {
        "http://"@
    }
}

proof fn lemma_no_colon_no_occurrence(s: Seq<char>, from: Seq<char>, c: int, lo: int)
    requires
        0 <= c < from.len(),
        from[c] == ':',
        0 <= lo,
        forall|k: int| lo <= k < s.len() ==> s[k] != ':',
    ensures
        forall|k: int| lo - c <= k && 0 <= k ==> !#[trigger] occurs_at(s, k, from),
{
    assert forall|k: int| lo - c <= k && 0 <= k implies !#[trigger] occurs_at(s, k, from) by {
        if occurs_at(s, k, from) {
            assert(s.subrange(k, k + from.len())[c] == s[k + c]);
        }
    }
}

/// An address that starts with `http://` or `https://` and holds no other
/// `:` is stored offline as what follows its scheme.
pub proof fn law_offline_value_drops_scheme(rest: Seq<char>, secure: bool)
    requires
        forall|k: int| 0 <= k < rest.len() ==> rest[k] != ':',
    ensures
        offline_value(scheme_prefix(secure) + rest) == rest,
{
    reveal_strlit("http://");
    reveal_strlit("https://");
    let http = "http://"@;
    let https = "https://"@;
    assert(http[4] == ':');
    assert(https[5] == ':');
    let e = Seq::<char>::empty();
    // no scheme inside `rest`
    lemma_no_colon_no_occurrence(rest, http, 4, 0);
    lemma_no_colon_no_occurrence(rest, https, 5, 0);
    lemma_replace_skip(rest, https, e, 0, rest.len() as int);
    assert(rest.subrange(0, rest.len() as int) =~= rest);
    assert(replace_all_spec(rest, https, e) =~= rest);
    let s = scheme_prefix(secure) + rest;
    if secure {
        let n = 8int;
        assert forall|k: int| 0 <= k < s.len() implies !#[trigger] occurs_at(s, k, http) by {
            if occurs_at(s, k, http) {
                assert(s.subrange(k, k + 7)[0] == s[k]);
                assert(s.subrange(k, k + 7)[4] == s[k + 4]);
                if k + 4 < n {
                    assert(s[k + 4] == https[k + 4]);
                    assert(s[k] == https[k]);
                    assert(k == 0 || k == 1 || k == 2 || k == 3);
                } else {
                    assert(s[k + 4] == rest[k + 4 - n]);
                }
            }
        }
        lemma_replace_skip(s, http, e, 0, s.len() as int);
        assert(s.subrange(0, s.len() as int) =~= s);
        assert(replace_all_spec(s, http, e) =~= s);
        assert(s.subrange(0, 8) =~= https);
        assert(occurs_at(s, 0, https));
        assert forall|k: int| n <= k < s.len() implies !#[trigger] occurs_at(s, k, https) by {
            if occurs_at(s, k, https) {
                assert(s.subrange(k, k + 8)[5] == s[k + 5]);
                assert(s[k + 5] == rest[k + 5 - n]);
            }
        }
        lemma_replace_skip(s, https, e, n, s.len() as int);
        assert(s.subrange(n, s.len() as int) =~= rest);
        assert(replace_from(s, https, e, 0) == e + replace_from(s, https, e, n));
        assert(replace_all_spec(s, https, e) =~= rest);
    } else {
        let n = 7int;
        assert(s.subrange(0, 7) =~= http);
        assert(occurs_at(s, 0, http));
        assert forall|k: int| n <= k < s.len() implies !#[trigger] occurs_at(s, k, http) by {
            if occurs_at(s, k, http) {
                assert(s.subrange(k, k + 7)[4] == s[k + 4]);
                assert(s[k + 4] == rest[k + 4 - n]);
            }
        }
        lemma_replace_skip(s, http, e, n, s.len() as int);
        assert(s.subrange(n, s.len() as int) =~= rest);
        assert(replace_from(s, http, e, 0) == e + replace_from(s, http, e, n));
        assert(replace_all_spec(s, http, e) =~= rest);
    }
}

/// A setting whose value is an `http`/`https` address is pointed at the
/// assets directory: `{name}='../assets/{address without its scheme}'`.
pub proof fn law_setting_points_at_assets(name: Seq<char>, rest: Seq<char>, whole: Seq<char>, secure: bool)
    requires
        forall|k: int| 0 <= k < rest.len() ==> rest[k] != ':',
    ensures
        setting_replacement(name, scheme_prefix(secure) + rest, whole) == name + "='../assets/"@ + rest + "'"@,
{
    reveal_strlit("http");
    reveal_strlit("http://");
    reveal_strlit("https://");
    let v = scheme_prefix(secure) + rest;
    assert(v.subrange(0, 4) =~= "http"@);
    assert(has_prefix(v, "http"@));
    law_offline_value_drops_scheme(rest, secure);
}

proof fn lemma_name_run_exact(s: Seq<char>, i: int, n: nat)
    requires
        0 <= i,
        i + n <= s.len(),
        forall|k: int| i <= k < i + n ==> is_name_char(#[trigger] s[k]),
        i + n == s.len() || !is_name_char(s[i + n]),
    ensures
        name_run(s, i) == n,
    decreases n,
{
    if n > 0 {
        assert(is_name_char(s[i]));
        lemma_name_run_exact(s, i + 1, (n - 1) as nat);
    }
}

proof fn lemma_value_run_exact(s: Seq<char>, i: int, n: nat)
    requires
        0 <= i,
        i + n <= s.len(),
        forall|k: int| i <= k < i + n ==> is_value_char(#[trigger] s[k]),
        i + n == s.len() || !is_value_char(s[i + n]),
    ensures
        value_run(s, i) == n,
    decreases n,
{
    if n > 0 {
        assert(is_value_char(s[i]));
        lemma_value_run_exact(s, i + 1, (n - 1) as nat);
    }
}

/// A settings script made of one setting `__{name}='{address}'`, the address
/// `http`/`https` with no other `:` and no quote, `;` or `,`, is rewritten to
/// `__{name}='../assets/{address without its scheme}'`, and the setting is
/// listed with its original value.
pub proof fn law_settings_script_points_at_assets(name: Seq<char>, rest: Seq<char>, secure: bool)
    requires
        name.len() >= 1,
        forall|k: int| 0 <= k < name.len() ==> is_name_char(#[trigger] name[k]),
        forall|k: int| 0 <= k < rest.len() ==> rest[k] != ':' && is_value_char(#[trigger] rest[k]),
    ensures
        settings_from("__"@ + name + "='"@ + scheme_prefix(secure) + rest + "'"@, 0).0 == "__"@ + name
            + "='../assets/"@ + rest + "'"@,
        settings_from("__"@ + name + "='"@ + scheme_prefix(secure) + rest + "'"@, 0).1 == seq![
            ("__"@ + name, scheme_prefix(secure) + rest),
        ],
{
    reveal_strlit("__");
    reveal_strlit("='");
    reveal_strlit("'");
    reveal_strlit("http://");
    reveal_strlit("https://");
    let v = scheme_prefix(secure) + rest;
    let s = "__"@ + name + "='"@ + v + "'"@;
    assert(s =~= "__"@ + name + "='"@ + scheme_prefix(secure) + rest + "'"@);
    let l: int = 2 + name.len() as int;
    let vl = v.len() as int;
    assert(s.len() == l + 3 + vl);
    assert forall|k: int| 0 <= k < name.len() implies s[2 + k] == name[k] by {}
    assert(s[l] == '=');
    assert(s[l + 1] == '\'');
    assert forall|k: int| 0 <= k < vl implies s[l + 2 + k] == v[k] by {}
    assert(s[l + 2 + vl] == '\'');
    assert forall|k: int| 0 <= k < vl implies is_value_char(#[trigger] v[k]) by {
        if k >= scheme_prefix(secure).len() {
            assert(v[k] == rest[k - scheme_prefix(secure).len()]);
        } else if secure {
            assert(v[k] == "https://"@[k]);
        } else {
            assert(v[k] == "http://"@[k]);
        }
    }
    lemma_name_run_exact(s, 2, name.len());
    assert(space_run(s, l) == 0);
    assert(space_run(s, l + 1) == 0);
    assert forall|k: int| l + 2 <= k < l + 2 + vl implies is_value_char(#[trigger] s[k]) by {
        assert(s[k] == v[k - l - 2]);
    }
    lemma_value_run_exact(s, l + 2, vl as nat);
    assert(s.subrange(0, 2) =~= "__"@);
    assert(occurs_at(s, 0, "__"@));
    assert(setting_at(s, 0) == Some((l, l + 2, l + 2 + vl, l + 3 + vl)));
    assert(setting_pred()(s, 0));
    lemma_first_from_found(s, 0, 0, setting_pred());
    assert(next_setting(s, 0) == Some((0int, l, l + 2, l + 2 + vl, l + 3 + vl)));
    lemma_no_setting_at_end(s);
    assert(settings_from(s, s.len() as int).0 =~= Seq::<char>::empty());
    assert(s.subrange(0, l) =~= "__"@ + name);
    assert(s.subrange(l + 2, l + 2 + vl) =~= v);
    law_setting_points_at_assets("__"@ + name, rest, s.subrange(0, s.len() as int), secure);
    assert(s.subrange(0, 0) =~= Seq::<char>::empty());
    assert(settings_from(s, 0).0 =~= "__"@ + name + "='../assets/"@ + rest + "'"@);
    assert(settings_from(s, 0).1 =~= seq![("__"@ + name, v)]);
}

// ---------------------------------------------------------------------------
// Removals
// ---------------------------------------------------------------------------

/// Removing every element that matches a selector picks, in each group of
/// matches, every element of the group.
pub proof fn law_every_removal_picks_all(html: Seq<char>, selector: Seq<char>)
    ensures
        exists|p: Seq<Seq<usize>>|
            {
                &&& p.len() == html_texts(html, ":root"@, selector).len()
                &&& forall|g: int|
                    0 <= g < p.len() ==> (#[trigger] p[g]).len() == html_texts(html, ":root"@, selector)[g].len()
                        && forall|k: int| 0 <= k < p[g].len() ==> p[g][k] == k as usize
                &&& removal_applied(html, RemovalView::Every(selector)) == html_without(html, ":root"@, selector, p)
            },
{
    let groups = html_texts(html, ":root"@, selector);
    let p = crate::html::all_picks(groups);
    assert(p.len() == groups.len());
    assert forall|g: int| 0 <= g < p.len() implies (#[trigger] p[g]).len() == groups[g].len() && forall|k: int|
        0 <= k < p[g].len() ==> p[g][k] == k as usize by {
        assert(p[g] == Seq::new(groups[g].len(), |k: int| k as usize));
    }
    assert(removal_applied(html, RemovalView::Every(selector)) == html_without(html, ":root"@, selector, p));
}

/// A saved Discuz page undergoes exactly the forum's removals; they remove
/// every advertisement (every element matching the configured selector)
/// when `remove_ads` is set, and no removal of every match of a selector
/// is made when it is not.
pub proof fn law_discuz_ads_removed_as_configured(
    d: DiscuzForum,
    html: Seq<char>,
    smileys: Seq<(Seq<char>, Seq<char>, Seq<char>)>,
)
    ensures
        page_preprocessed(Forum::Discuz(d), html, smileys) == Ok::<Seq<char>, crate::error::ErrorView>(
            removals_applied(html, discuz_removals(d.config)),
        ),
        d.config.remove_ads ==> discuz_removals(d.config).contains(RemovalView::Every(d.config.selectors.ads@)),
        !d.config.remove_ads ==> forall|i: int|
            0 <= i < discuz_removals(d.config).len() ==> !(#[trigger] discuz_removals(d.config)[i] is Every),
{
    let c = d.config;
    let rs = discuz_removals(c);
    let a = if c.remove_user_info {
        seq![RemovalView::FirstOr(c.selectors.user_info@, c.selectors.login_box@)]
    } else {
        Seq::empty()
    };
    let b = if c.remove_reply_box {
        seq![RemovalView::First(c.selectors.reply_box@)]
    } else {
        Seq::empty()
    };
    if c.remove_ads {
        let i = a.len() + b.len();
        assert(rs[i as int] == RemovalView::Every(c.selectors.ads@));
    } else {
        assert(rs =~= a + b + seq![RemovalView::First(c.selectors.charset@)]);
        assert forall|i: int| 0 <= i < rs.len() implies !(#[trigger] rs[i] is Every) by {
            if i < a.len() {
                assert(rs[i] == a[i]);
            } else if i < a.len() + b.len() {
                assert(rs[i] == b[i - a.len()]);
            }
        }
    }
}

/// Removals are applied one after the other, in the order listed: the page
/// after all of them is the page after those before the `i`-th, then the
/// `i`-th, then those after it.
pub proof fn law_removals_applied_in_order(html: Seq<char>, rs: Seq<RemovalView>, i: int)
    requires
        0 <= i < rs.len(),
    ensures
        removals_applied(html, rs) == removals_applied(
            removal_applied(removals_applied(html, rs.take(i)), rs[i]),
            rs.skip(i + 1),
        ),
    decreases i,
{
    if i == 0 {
        assert(rs.take(0) =~= Seq::<RemovalView>::empty());
        assert(rs.skip(1) =~= rs.drop_first());
    } else {
        let h1 = removal_applied(html, rs[0]);
        let rest = rs.drop_first();
        law_removals_applied_in_order(h1, rest, i - 1);
        assert(rest.take(i - 1) =~= rs.take(i).drop_first());
        assert(rs.take(i)[0] == rs[0]);
        assert(rest[i - 1] == rs[i]);
        assert(rest.skip(i) =~= rs.skip(i + 1));
    }
}

// ---------------------------------------------------------------------------
// Localised links
// ---------------------------------------------------------------------------

/// A link attribute of a finished page points at a local copy only when its
/// absolute address was saved, and then at the path recorded for it;
/// otherwise it is the absolute address.
pub proof fn law_links_local_only_when_saved(
    v: Seq<char>,
    base: Seq<char>,
    exts: Seq<Seq<char>>,
    links: Seq<(Seq<char>, Seq<char>)>,
    saved: Seq<Seq<char>>,
    abs: Seq<char>,
    downloadable: bool,
)
    requires
        attr_plan_spec(v, base, exts) == AttrPlanView::Link(abs, downloadable),
    ensures
        attr_setting(v, base, exts, links, saved) is Some,
        !saved.contains(abs) ==> attr_setting(v, base, exts, links, saved) == Some(abs),
        !downloadable ==> attr_setting(v, base, exts, links, saved) == Some(abs),
        attr_setting(v, base, exts, links, saved) == Some(abs) || (saved.contains(abs) && table_lookup(links, abs)
            == attr_setting(v, base, exts, links, saved)),
{
}

/// Every attribute a finished page sets on a link follows
/// `law_links_local_only_when_saved`: among the values `vals[..n]`, an
/// element whose value is a link gets a local path only when the link's
/// address was saved.
pub proof fn law_finished_links_local_only_when_saved(
    vals: Seq<Option<Seq<char>>>,
    base: Seq<char>,
    exts: Seq<Seq<char>>,
    links: Seq<(Seq<char>, Seq<char>)>,
    saved: Seq<Seq<char>>,
    n: int,
)
    requires
        0 <= n <= vals.len(),
        n <= usize::MAX,
    ensures
        forall|j: int|
            0 <= j < attr_sets(vals, base, exts, links, saved, n).len() ==> {
                let e = #[trigger] attr_sets(vals, base, exts, links, saved, n)[j];
                &&& 0 <= e.0 < n
                &&& attr_setting(value_of(vals[e.0 as int]), base, exts, links, saved) == Some(e.1)
                &&& (attr_plan_spec(value_of(vals[e.0 as int]), base, exts) matches AttrPlanView::Link(abs, _)
                    ==> (e.1 == abs || (saved.contains(abs) && table_lookup(links, abs) == Some(e.1))))
                &&& (attr_plan_spec(value_of(vals[e.0 as int]), base, exts) matches AttrPlanView::Link(abs, _)
                    ==> (!saved.contains(abs) ==> e.1 == abs))
            },
    decreases n,
{
    if n > 0 {
        law_finished_links_local_only_when_saved(vals, base, exts, links, saved, n - 1);
        let prev = attr_sets(vals, base, exts, links, saved, n - 1);
        let cur = attr_sets(vals, base, exts, links, saved, n);
        assert forall|j: int| 0 <= j < cur.len() implies {
            let e = #[trigger] cur[j];
            &&& 0 <= e.0 < n
            &&& attr_setting(value_of(vals[e.0 as int]), base, exts, links, saved) == Some(e.1)
            &&& (attr_plan_spec(value_of(vals[e.0 as int]), base, exts) matches AttrPlanView::Link(abs, _)
                ==> (e.1 == abs || (saved.contains(abs) && table_lookup(links, abs) == Some(e.1))))
            &&& (attr_plan_spec(value_of(vals[e.0 as int]), base, exts) matches AttrPlanView::Link(abs, _)
                ==> (!saved.contains(abs) ==> e.1 == abs))
        } by {
            if j < prev.len() {
                assert(cur[j] == prev[j]);
            } else {
                let v = value_of(vals[n - 1]);
                assert(cur[j].0 == (n - 1) as usize);
                assert(cur[j].0 as int == n - 1);
                assert(attr_setting(v, base, exts, links, saved) == Some(cur[j].1));
                match attr_plan_spec(v, base, exts) {
                    AttrPlanView::Link(abs, d) => {
                        law_links_local_only_when_saved(v, base, exts, links, saved, abs, d);
                    },
                    _ => {},
                }
            }
        }
    }
}

/// Every element whose attribute changes gets its new value: among the
/// values `vals[..n]`, each one with a new value (a link, or style text with
/// references) is set to it.
pub proof fn law_finished_attrs_all_set(
    vals: Seq<Option<Seq<char>>>,
    base: Seq<char>,
    exts: Seq<Seq<char>>,
    links: Seq<(Seq<char>, Seq<char>)>,
    saved: Seq<Seq<char>>,
    n: int,
    k: int,
)
    requires
        0 <= k < n <= vals.len(),
        n <= usize::MAX,
    ensures
        match attr_setting(value_of(vals[k]), base, exts, links, saved) {
            Some(x) => attr_sets(vals, base, exts, links, saved, n).contains((k as usize, x)),
            None => true,
        },
    decreases n,
{
    let prev = attr_sets(vals, base, exts, links, saved, n - 1);
    let cur = attr_sets(vals, base, exts, links, saved, n);
    if k < n - 1 {
        law_finished_attrs_all_set(vals, base, exts, links, saved, n - 1, k);
        match attr_setting(value_of(vals[k]), base, exts, links, saved) {
            Some(x) => {
                let j = choose|j: int| 0 <= j < prev.len() && prev[j] == (k as usize, x);
                if cur != prev {
                    assert(cur[j] == prev[j]);
                }
            },
            None => {},
        }
    } else {
        match attr_setting(value_of(vals[k]), base, exts, links, saved) {
            Some(x) => {
                assert(cur[prev.len() as int] == (k as usize, x));
            },
            None => {},
        }
    }
}

// ---------------------------------------------------------------------------
// Page-number boxes
// ---------------------------------------------------------------------------

/// `sets` gives, in every group of links, each link that leads to a saved
/// page of the thread its saved file.
pub open spec fn localizes_every_link(
    f: Forum,
    g: Seq<Seq<Option<Seq<char>>>>,
    tid: Seq<char>,
    last: usize,
    sets: Seq<Seq<(usize, Seq<char>)>>,
) -> bool {
    &&& sets.len() == g.len()
    &&& forall|gi: int, k: int|
        0 <= gi < g.len() && 0 <= k < g[gi].len() ==> match #[trigger] g[gi][k] {
            Some(h) => match local_link(f, h, tid, last) {
                Some(t) => sets[gi].contains((k as usize, t)),
                None => true,
            },
            None => true,
        }
}

/// What a Discuz page goes through after the links of its page-number
/// boxes are pointed at the saved pages: the boxes' page inputs, the
/// next-page button, the removal of its own arrow-key scripts and the
/// added arrow keys.
pub open spec fn discuz_after_links(d: DiscuzForum, tid: Seq<char>, pn: usize, last: usize, h1: Seq<char>) -> Seq<char> {
    let f = Forum::Discuz(d);
    let s = d.config.selectors;
    let handler = page_jump_handler(forum_filename(f, tid, "${this.value}"@));
    let h2 = inputs_marked(h1, s.pg_divs@, s.pn_input@, handler, false);
    let h3 = links_localized(f, h2, s.pgbtn@, tid, last, true);
    let h4 = inputs_marked(h3, s.pgbtn@, s.pn_input@, handler, true);
    let g = html_texts(h4, ":root"@, "script[type='text/javascript']"@);
    let picks = if g.len() > 0 {
        seq![arrow_picks(g[0], g[0].len() as int)]
    } else {
        Seq::empty()
    };
    nav_appended(f, html_without(h4, ":root"@, "script[type='text/javascript']"@, picks), tid, pn, last)
}

proof fn lemma_link_sets_cover(f: Forum, vals: Seq<Option<Seq<char>>>, tid: Seq<char>, last: usize, n: int, k: int)
    requires
        0 <= k < n <= vals.len(),
        n <= usize::MAX,
    ensures
        match vals[k] {
            Some(h) => match local_link(f, h, tid, last) {
                Some(t) => link_sets(f, vals, tid, last, n).contains((k as usize, t)),
                None => true,
            },
            None => true,
        },
    decreases n,
{
    let prev = link_sets(f, vals, tid, last, n - 1);
    let cur = link_sets(f, vals, tid, last, n);
    if k < n - 1 {
        lemma_link_sets_cover(f, vals, tid, last, n - 1, k);
        match vals[k] {
            Some(h) => match local_link(f, h, tid, last) {
                Some(t) => {
                    let j = choose|j: int| 0 <= j < prev.len() && prev[j] == (k as usize, t);
                    if cur != prev {
                        assert(cur[j] == prev[j]);
                    }
                },
                None => {},
            },
            None => {},
        }
    } else {
        match vals[k] {
            Some(h) => match local_link(f, h, tid, last) {
                Some(t) => {
                    assert(cur == prev.push((k as usize, t)));
                    assert(cur[prev.len() as int] == (k as usize, t));
                },
                None => {},
            },
            None => {},
        }
    }
}

/// On a finished Discuz page, every link inside every element matching the
/// page-number-box selector that leads to a page (up to the last) of the
/// same thread is pointed at that page's saved file: the page is the one
/// whose links are set so, then finished as `discuz_after_links` says.
pub proof fn law_discuz_every_page_box_localised(d: DiscuzForum, url: Seq<char>, html: Seq<char>)
    requires
        forall|gi: int|
            0 <= gi < html_attrs(html, d.config.selectors.pg_divs@, "a"@, "href"@).len() ==> (#[trigger] html_attrs(
                html,
                d.config.selectors.pg_divs@,
                "a"@,
                "href"@,
            )[gi]).len() <= usize::MAX,
    ensures
        match page_thread_info(Forum::Discuz(d), url, html) {
            Ok(info) => page_postprocessed(Forum::Discuz(d), url, html) matches Ok(out) ==> exists|
                sets: Seq<Seq<(usize, Seq<char>)>>,
            |
                {
                    &&& localizes_every_link(
                        Forum::Discuz(d),
                        html_attrs(html, d.config.selectors.pg_divs@, "a"@, "href"@),
                        info.thread_id,
                        info.total_pages,
                        sets,
                    )
                    &&& out == discuz_after_links(
                        d,
                        info.thread_id,
                        info.current_pn,
                        info.total_pages,
                        html_with_attrs(html, d.config.selectors.pg_divs@, "a"@, "href"@, sets),
                    )
                },
            Err(_) => true,
        },
{
    let f = Forum::Discuz(d);
    match page_thread_info(f, url, html) {
        Ok(info) => {
            let g = html_attrs(html, d.config.selectors.pg_divs@, "a"@, "href"@);
            let tid = info.thread_id;
            let last = info.total_pages;
            let sets = Seq::new(g.len(), |i: int| link_sets(f, g[i], tid, last, g[i].len() as int));
            assert forall|gi: int, k: int| 0 <= gi < g.len() && 0 <= k < g[gi].len() implies match #[trigger] g[gi][k] {
                Some(h) => match local_link(f, h, tid, last) {
                    Some(t) => sets[gi].contains((k as usize, t)),
                    None => true,
                },
                None => true,
            } by {
                lemma_link_sets_cover(f, g[gi], tid, last, g[gi].len() as int, k);
            }
            assert(localizes_every_link(f, g, tid, last, sets));
            assert(links_localized(f, html, d.config.selectors.pg_divs@, tid, last, false) == html_with_attrs(
                html,
                d.config.selectors.pg_divs@,
                "a"@,
                "href"@,
                sets,
            ));
        },
        Err(_) => {},
    }
}

// ---------------------------------------------------------------------------
// Style-sheet references
// ---------------------------------------------------------------------------

/// What resolved references are: each non-empty and unique, joined with
/// the base to an `http`/`https` address.
pub open spec fn refs_sound(acc: Seq<(Seq<char>, Seq<char>)>, base: Seq<char>) -> bool {
    &&& forall|j: int|
        0 <= j < acc.len() ==> (#[trigger] acc[j]).0.len() > 0 && url_join(base, acc[j].0) == Ok::<
            Seq<char>,
            Seq<char>,
        >(acc[j].1) && has_prefix(url_scheme(acc[j].1), "http"@)
    &&& forall|j1: int, j2: int| 0 <= j1 < j2 < acc.len() ==> (#[trigger] acc[j1]).0 != (#[trigger] acc[j2]).0
}

proof fn lemma_resolve_sound(
    raws: Seq<Seq<char>>,
    base: Seq<char>,
    strict: bool,
    i: int,
    acc: Seq<(Seq<char>, Seq<char>)>,
)
    requires
        0 <= i,
        refs_sound(acc, base),
    ensures
        resolve_refs_from(raws, base, strict, i, acc) matches Ok(r) ==> refs_sound(r, base) && r.len() >= acc.len()
            && forall|j: int| 0 <= j < acc.len() ==> #[trigger] r[j] == acc[j],
    decreases raws.len() - i,
{
    if i < 0 || i >= raws.len() {
    } else {
        let raw = raws[i];
        if raw.len() == 0 || has_ref(acc, raw) {
            lemma_resolve_sound(raws, base, strict, i + 1, acc);
        } else {
            match url_join(base, raw) {
                Err(e) => {
                    if !strict {
                        lemma_resolve_sound(raws, base, strict, i + 1, acc);
                    }
                },
                Ok(h) => {
                    if has_prefix(url_scheme(h), "http"@) {
                        let acc2 = acc.push((raw, h));
                        assert forall|j1: int, j2: int| 0 <= j1 < j2 < acc2.len() implies (#[trigger] acc2[j1]).0
                            != (#[trigger] acc2[j2]).0 by {
                            if j2 == acc.len() {
                                assert(acc2[j1] == acc[j1]);
                                if acc[j1].0 == raw {
                                    assert(has_ref(acc, raw));
                                }
                            }
                        }
                        assert forall|j: int| 0 <= j < acc2.len() implies (#[trigger] acc2[j]).0.len() > 0
                            && url_join(base, acc2[j].0) == Ok::<Seq<char>, Seq<char>>(acc2[j].1) && has_prefix(
                            url_scheme(acc2[j].1),
                            "http"@,
                        ) by {
                            if j < acc.len() {
                                assert(acc2[j] == acc[j]);
                            }
                        }
                        lemma_resolve_sound(raws, base, strict, i + 1, acc2);
                        if resolve_refs_from(raws, base, strict, i + 1, acc2) is Ok {
                            let r = resolve_refs_from(raws, base, strict, i + 1, acc2)->Ok_0;
                            assert forall|j: int| 0 <= j < acc.len() implies #[trigger] r[j] == acc[j] by {
                                assert(r[j] == acc2[j]);
                            }
                        }
                    } else {
                        lemma_resolve_sound(raws, base, strict, i + 1, acc);
                    }
                },
            }
        }
    }
}

proof fn lemma_resolve_covers(
    raws: Seq<Seq<char>>,
    base: Seq<char>,
    strict: bool,
    i: int,
    acc: Seq<(Seq<char>, Seq<char>)>,
    k: int,
    h: Seq<char>,
)
    requires
        0 <= i <= k < raws.len(),
        refs_sound(acc, base),
        raws[k].len() > 0,
        url_join(base, raws[k]) == Ok::<Seq<char>, Seq<char>>(h),
        has_prefix(url_scheme(h), "http"@),
    ensures
        resolve_refs_from(raws, base, strict, i, acc) matches Ok(r) ==> r.contains((raws[k], h)),
    decreases raws.len() - i,
{
    let raw = raws[i];
    lemma_resolve_sound(raws, base, strict, i, acc);
    if raw.len() == 0 || has_ref(acc, raw) {
        if i == k {
            let j = choose|j: int| 0 <= j < acc.len() && (#[trigger] acc[j]).0 == raw;
            lemma_resolve_sound(raws, base, strict, i + 1, acc);
            if resolve_refs_from(raws, base, strict, i + 1, acc) is Ok {
                let r = resolve_refs_from(raws, base, strict, i + 1, acc)->Ok_0;
                assert(r[j] == acc[j]);
                assert(acc[j] == (raws[k], h));
            }
        } else {
            lemma_resolve_covers(raws, base, strict, i + 1, acc, k, h);
        }
    } else {
        match url_join(base, raw) {
            Err(e) => {
                if !strict {
                    lemma_resolve_covers(raws, base, strict, i + 1, acc, k, h);
                }
            },
            Ok(h2) => {
                if has_prefix(url_scheme(h2), "http"@) {
                    let acc2 = acc.push((raw, h2));
                    lemma_resolve_sound(raws, base, strict, i, acc);
                    assert(refs_sound(acc2, base)) by {
                        assert forall|j1: int, j2: int| 0 <= j1 < j2 < acc2.len() implies (#[trigger] acc2[j1]).0
                            != (#[trigger] acc2[j2]).0 by {
                            if j2 == acc.len() {
                                assert(acc2[j1] == acc[j1]);
                                if acc[j1].0 == raw {
                                    assert(has_ref(acc, raw));
                                }
                            }
                        }
                        assert forall|j: int| 0 <= j < acc2.len() implies (#[trigger] acc2[j]).0.len() > 0
                            && url_join(base, acc2[j].0) == Ok::<Seq<char>, Seq<char>>(acc2[j].1) && has_prefix(
                            url_scheme(acc2[j].1),
                            "http"@,
                        ) by {
                            if j < acc.len() {
                                assert(acc2[j] == acc[j]);
                            }
                        }
                    }
                    if i == k {
                        lemma_resolve_sound(raws, base, strict, i + 1, acc2);
                        if resolve_refs_from(raws, base, strict, i + 1, acc2) is Ok {
                            let r = resolve_refs_from(raws, base, strict, i + 1, acc2)->Ok_0;
                            assert(r[acc.len() as int] == acc2[acc.len() as int]);
                        }
                    } else {
                        lemma_resolve_covers(raws, base, strict, i + 1, acc2, k, h);
                    }
                } else {
                    if i == k {
                        assert(false);
                    }
                    lemma_resolve_covers(raws, base, strict, i + 1, acc, k, h);
                }
            },
        }
    }
}

/// Resolving a style sheet's references keeps exactly the right ones: every
/// non-empty reference whose join with the base gives an `http`/`https`
/// address appears, with that address; every resolved reference is such a
/// join of a non-empty reference of the sheet; and no reference appears
/// twice.
pub proof fn law_css_refs_resolved(raws: Seq<Seq<char>>, base: Seq<char>, strict: bool)
    ensures
        resolve_refs_from(raws, base, strict, 0, Seq::empty()) matches Ok(r) ==> {
            &&& forall|k: int|
                0 <= k < raws.len() && (#[trigger] raws[k]).len() > 0 ==> match url_join(base, raws[k]) {
                    Ok(h) => has_prefix(url_scheme(h), "http"@) ==> r.contains((raws[k], h)),
                    Err(_) => true,
                }
            &&& forall|j: int|
                0 <= j < r.len() ==> (#[trigger] r[j]).0.len() > 0 && url_join(base, r[j].0) == Ok::<
                    Seq<char>,
                    Seq<char>,
                >(r[j].1) && has_prefix(url_scheme(r[j].1), "http"@)
            &&& forall|j1: int, j2: int| 0 <= j1 < j2 < r.len() ==> (#[trigger] r[j1]).0 != (#[trigger] r[j2]).0
        },
{
    let e = Seq::<(Seq<char>, Seq<char>)>::empty();
    lemma_resolve_sound(raws, base, strict, 0, e);
    assert forall|k: int| 0 <= k < raws.len() && (#[trigger] raws[k]).len() > 0 implies (resolve_refs_from(
        raws,
        base,
        strict,
        0,
        e,
    ) matches Ok(r) ==> match url_join(base, raws[k]) {
        Ok(h) => has_prefix(url_scheme(h), "http"@) ==> r.contains((raws[k], h)),
        Err(_) => true,
    }) by {
        match url_join(base, raws[k]) {
            Ok(h) => {
                if has_prefix(url_scheme(h), "http"@) {
                    lemma_resolve_covers(raws, base, strict, 0, e, k, h);
                }
            },
            Err(_) => {},
        }
    }
}

} // verus!
