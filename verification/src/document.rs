//! Localising the assets of a saved page: which addresses its attributes
//! name, which of them are fetched, and what the attributes become once
//! the fetched copies are known.
use vstd::prelude::*;
use crate::address::{string_option_view, WebUrl};
use crate::assets::{
    attr_plan_spec, document_base, document_base_spec, has_listed_extension, is_downloadable,
    plan_attribute, AttrPlan, AttrPlanView,
};
use crate::css::{
    build_css_table, contains_string, css_rewrite, css_table, refs_view, rewrite_css_urls, table_lookup,
    table_lookup_exec, table_view,
};
use crate::error::{Error, ErrorView};
use crate::forums::discuz::strings_view;
use crate::forums::pages::first_attr_of;
use crate::html::{
    attr_groups_view, first_attr, group0, html_attrs, html_texts, html_with_attrs, remove_first, removed_first,
    same_shape, select_attrs, set_picked_attrs, sets_view,
};
use crate::text::{chars_of, push_str, string_from_chars};

verus! {

/// The selector of the elements that carry attribute `attr`.
pub open spec fn attr_selector(attr: Seq<char>) -> Seq<char> {
    "*["@ + attr + "]"@
}

/// Executable `attr_selector`.
fn attr_selector_text(attr: &str) -> (r: String)
    ensures
        r@ == attr_selector(attr@),
{
    let mut v = chars_of("*[");
    push_str(&mut v, attr);
    push_str(&mut v, "]");
    string_from_chars(&v)
}

/// The page without its `<base>` element, and the address its links
/// resolve against (see `document_base_spec`, given the `href` of that
/// element).
pub open spec fn page_base_spec(html: Seq<char>, page_url: Seq<char>) -> Result<(Seq<char>, Seq<char>), ErrorView> {
    match document_base_spec(page_url, first_attr_of(html, "base"@, "href"@)) {
        Err(e) => Err(e),
        Ok(b) => Ok((removed_first(html, ":root"@, "base"@), b)),
    }
}

/// Executable `page_base_spec`.
pub fn page_base(html: &str, page_url: &str) -> (r: Result<(String, WebUrl), Error>)
    ensures
        match page_base_spec(html@, page_url@) {
            Ok((h, b)) => r matches Ok((s, u)) && s@ == h && u@ == b,
            Err(e) => r matches Err(x) && x@ == e,
        },
{
    let href = first_attr(html, "base", "href");
    let h = remove_first(html, ":root", "base");
    match document_base(page_url, href) {
        Ok(b) => Ok((h, b)),
        Err(e) => Err(e),
    }
}

/// An attribute's value, empty when it is absent.
pub open spec fn value_of(v: Option<Seq<char>>) -> Seq<char> {
    match v {
        Some(x) => x,
        None => Seq::empty(),
    }
}

/// The addresses among `refs[..n]` worth saving.
pub open spec fn ref_downloads(refs: Seq<(Seq<char>, Seq<char>)>, exts: Seq<Seq<char>>, n: int) -> Seq<Seq<char>>
    decreases n,
{
    if n <= 0 || n > refs.len() {
        Seq::empty()
    } else if has_listed_extension(refs[n - 1].1, exts) {
        ref_downloads(refs, exts, n - 1).push(refs[n - 1].1)
    } else {
        ref_downloads(refs, exts, n - 1)
    }
}

/// The addresses an attribute value names that are worth saving.
pub open spec fn value_downloads(v: Seq<char>, base: Seq<char>, exts: Seq<Seq<char>>) -> Seq<Seq<char>> {
    match attr_plan_spec(v, base, exts) {
        AttrPlanView::Keep => Seq::empty(),
        AttrPlanView::Link(abs, d) => if d {
            seq![abs]
        } else {
            Seq::empty()
        },
        AttrPlanView::Styles(refs) => ref_downloads(refs, exts, refs.len() as int),
    }
}

/// The addresses worth saving that the values `vals[..n]` name, in order.
pub open spec fn values_downloads(vals: Seq<Option<Seq<char>>>, base: Seq<char>, exts: Seq<Seq<char>>, n: int) -> Seq<
    Seq<char>,
>
    decreases n,
{
    if n <= 0 || n > vals.len() {
        Seq::empty()
    } else {
        values_downloads(vals, base, exts, n - 1) + value_downloads(value_of(vals[n - 1]), base, exts)
    }
}

/// The values of attribute `attr` on the page, in document order.
pub open spec fn attr_values(h: Seq<char>, attr: Seq<char>) -> Seq<Option<Seq<char>>> {
    group0(html_attrs(h, ":root"@, attr_selector(attr), attr))
}

/// The addresses worth saving that the attributes `attrs[..n]` of the page
/// name, attribute by attribute, in document order.
pub open spec fn page_downloads(
    h: Seq<char>,
    base: Seq<char>,
    attrs: Seq<Seq<char>>,
    exts: Seq<Seq<char>>,
    n: int,
) -> Seq<Seq<char>>
    decreases n,
{
    if n <= 0 || n > attrs.len() {
        Seq::empty()
    } else {
        let vals = attr_values(h, attrs[n - 1]);
        page_downloads(h, base, attrs, exts, n - 1) + values_downloads(vals, base, exts, vals.len() as int)
    }
}

fn push_value_downloads(out: &mut Vec<String>, value: &str, base: &WebUrl, exts: &Vec<String>)
    ensures
        strings_view(final(out)@) == strings_view(old(out)@) + value_downloads(value@, base@, strings_view(exts@)),
{
    let plan = plan_attribute(value, base, exts);
    match plan {
        AttrPlan::Keep => {
            assert(strings_view(out@) =~= strings_view(old(out)@) + Seq::<Seq<char>>::empty());
        },
        AttrPlan::Link { abs_url, downloadable } => {
            if downloadable {
                let ghost before = strings_view(out@);
                out.push(abs_url.as_string());
                assert(strings_view(out@) =~= before + seq![abs_url@]);
            } else {
                assert(strings_view(out@) =~= strings_view(old(out)@) + Seq::<Seq<char>>::empty());
            }
        },
        AttrPlan::Styles(refs) => {
            let ghost rv = refs_view(refs@);
            let ghost ev = strings_view(exts@);
            let ghost start = strings_view(out@);
            let mut i: usize = 0;
            while i < refs.len()
                invariant
                    i <= refs.len(),
                    rv == refs_view(refs@),
                    ev == strings_view(exts@),
                    start == strings_view(old(out)@),
                    strings_view(out@) =~= start + ref_downloads(rv, ev, i as int),
                decreases refs.len() - i,
            {
                assert(rv[i as int] == (refs@[i as int].raw@, refs@[i as int].abs_url@));
                if is_downloadable(&refs[i].abs_url, exts) {
                    let ghost before = strings_view(out@);
                    out.push(refs[i].abs_url.as_string());
                    assert(strings_view(out@) =~= before.push(refs@[i as int].abs_url@));
                }
                i = i + 1;
            }
        },
    }
}

fn values_of_attr(h: &str, attr: &str) -> (r: Vec<Option<String>>)
    ensures
        r@.map_values(|a: Option<String>| string_option_view(a)) == attr_values(h@, attr@),
        r@.len() == group0(html_texts(h@, ":root"@, attr_selector(attr@))).len(),
{
    let sel = attr_selector_text(attr);
    let groups = select_attrs(h, ":root", sel.as_str(), attr);
    if groups.len() > 0 {
        proof {
            assert(attr_groups_view(groups@)[0] == groups@[0]@.map_values(|a: Option<String>| string_option_view(a)));
        }
        groups[0].clone()
    } else {
        let v: Vec<Option<String>> = Vec::new();
        assert(v@.map_values(|a: Option<String>| string_option_view(a)) =~= Seq::<Option<Seq<char>>>::empty());
        v
    }
}

/// The addresses worth saving that the attributes `attrs` of the page `h`
/// name (see `page_downloads`); `base` is what its links resolve against.
pub fn document_downloads(h: &str, base: &WebUrl, attrs: &Vec<String>, exts: &Vec<String>) -> (r: Vec<String>)
    ensures
        strings_view(r@) == page_downloads(h@, base@, strings_view(attrs@), strings_view(exts@), attrs@.len() as int),
{
    let ghost av = strings_view(attrs@);
    let ghost ev = strings_view(exts@);
    let mut out: Vec<String> = Vec::new();
    let mut j: usize = 0;
    while j < attrs.len()
        invariant
            j <= attrs.len(),
            av == strings_view(attrs@),
            ev == strings_view(exts@),
            strings_view(out@) =~= page_downloads(h@, base@, av, ev, j as int),
        decreases attrs.len() - j,
    {
        assert(av[j as int] == attrs@[j as int]@);
        let vals = values_of_attr(h, attrs[j].as_str());
        let ghost vv = vals@.map_values(|a: Option<String>| string_option_view(a));
        let ghost start = strings_view(out@);
        let mut k: usize = 0;
        while k < vals.len()
            invariant
                k <= vals.len(),
                vv == vals@.map_values(|a: Option<String>| string_option_view(a)),
                ev == strings_view(exts@),
                strings_view(out@) =~= start + values_downloads(vv, base@, ev, k as int),
            decreases vals.len() - k,
        {
            let v = match &vals[k] {
                Some(x) => x.clone(),
                None => String::new(),
            };
            assert(v@ == value_of(vv[k as int]));
            push_value_downloads(&mut out, v.as_str(), base, exts);
            k = k + 1;
        }
        j = j + 1;
    }
    out
}

/// What a link to `abs` becomes: the local copy's path when `abs` is worth
/// saving, was saved and has a path in `links`; the absolute address
/// otherwise.
pub open spec fn link_value(
    abs: Seq<char>,
    downloadable: bool,
    links: Seq<(Seq<char>, Seq<char>)>,
    saved: Seq<Seq<char>>,
) -> Seq<char> {
    if downloadable && saved.contains(abs) {
        match table_lookup(links, abs) {
            Some(rel) => rel,
            None => abs,
        }
    } else {
        abs
    }
}

/// The local paths of the references (empty where `links` has none).
pub open spec fn ref_rels(refs: Seq<(Seq<char>, Seq<char>)>, links: Seq<(Seq<char>, Seq<char>)>) -> Seq<Seq<char>> {
    refs.map_values(
        |r: (Seq<char>, Seq<char>)|
            match table_lookup(links, r.1) {
                Some(x) => x,
                None => Seq::empty(),
            },
    )
}

/// What an attribute value becomes, if it changes: a link its
/// `link_value`; style text its `url(...)` references pointed at the saved
/// copies (see `css_table`).
pub open spec fn attr_setting(
    v: Seq<char>,
    base: Seq<char>,
    exts: Seq<Seq<char>>,
    links: Seq<(Seq<char>, Seq<char>)>,
    saved: Seq<Seq<char>>,
) -> Option<Seq<char>> {
    match attr_plan_spec(v, base, exts) {
        AttrPlanView::Keep => None,
        AttrPlanView::Link(abs, d) => Some(link_value(abs, d, links, saved)),
        AttrPlanView::Styles(refs) => if refs.len() > 0 {
            Some(css_rewrite(v, css_table(refs, ref_rels(refs, links), saved, true)))
        } else {
            None
        },
    }
}

/// The new values among `vals[..n]`, by index.
pub open spec fn attr_sets(
    vals: Seq<Option<Seq<char>>>,
    base: Seq<char>,
    exts: Seq<Seq<char>>,
    links: Seq<(Seq<char>, Seq<char>)>,
    saved: Seq<Seq<char>>,
    n: int,
) -> Seq<(usize, Seq<char>)>
    decreases n,
{
    if n <= 0 || n > vals.len() {
        Seq::empty()
    } else {
        let rest = attr_sets(vals, base, exts, links, saved, n - 1);
        match attr_setting(value_of(vals[n - 1]), base, exts, links, saved) {
            Some(x) => rest.push(((n - 1) as usize, x)),
            None => rest,
        }
    }
}

/// The page with attribute `attr` of every element localised.
pub open spec fn attr_finished(
    h: Seq<char>,
    attr: Seq<char>,
    base: Seq<char>,
    exts: Seq<Seq<char>>,
    links: Seq<(Seq<char>, Seq<char>)>,
    saved: Seq<Seq<char>>,
) -> Seq<char> {
    let vals = attr_values(h, attr);
    let sets = if html_attrs(h, ":root"@, attr_selector(attr), attr).len() > 0 {
        seq![attr_sets(vals, base, exts, links, saved, vals.len() as int)]
    } else {
        Seq::empty()
    };
    html_with_attrs(h, ":root"@, attr_selector(attr), attr, sets)
}

/// The page with the attributes `attrs[..n]` localised, one after the other.
pub open spec fn page_finished(
    h: Seq<char>,
    attrs: Seq<Seq<char>>,
    base: Seq<char>,
    exts: Seq<Seq<char>>,
    links: Seq<(Seq<char>, Seq<char>)>,
    saved: Seq<Seq<char>>,
    n: int,
) -> Seq<char>
    decreases n,
{
    if n <= 0 || n > attrs.len() {
        h
    } else {
        attr_finished(page_finished(h, attrs, base, exts, links, saved, n - 1), attrs[n - 1], base, exts, links, saved)
    }
}

fn setting_of(value: &str, base: &WebUrl, exts: &Vec<String>, links: &Vec<(String, String)>, saved: &Vec<String>) -> (r: Option<String>)
    ensures
        string_option_view(r) == attr_setting(value@, base@, strings_view(exts@), table_view(links@), strings_view(saved@)),
{
    match plan_attribute(value, base, exts) {
        AttrPlan::Keep => None,
        AttrPlan::Link { abs_url, downloadable } => {
            let abs = abs_url.as_string();
            if downloadable && contains_string(saved, abs.as_str()) {
                match table_lookup_exec(links, &chars_of(abs.as_str())) {
                    Some(i) => Some(links[i].1.clone()),
                    None => Some(abs),
                }
            } else {
                Some(abs)
            }
        },
        AttrPlan::Styles(refs) => {
            if refs.len() == 0 {
                return None;
            }
            let ghost rv = refs_view(refs@);
            let ghost lv = table_view(links@);
            let mut rels: Vec<String> = Vec::new();
            let mut i: usize = 0;
            while i < refs.len()
                invariant
                    i <= refs.len(),
                    rv == refs_view(refs@),
                    lv == table_view(links@),
                    strings_view(rels@) =~= ref_rels(rv, lv).take(i as int),
                decreases refs.len() - i,
            {
                assert(rv[i as int] == (refs@[i as int].raw@, refs@[i as int].abs_url@));
                let rel = match table_lookup_exec(links, &chars_of(refs[i].abs_url.as_string().as_str())) {
                    Some(k) => links[k].1.clone(),
                    None => String::new(),
                };
                let ghost before = strings_view(rels@);
                rels.push(rel);
                assert(strings_view(rels@) =~= before.push(rel@));
                assert(ref_rels(rv, lv).take(i + 1) =~= ref_rels(rv, lv).take(i as int).push(rel@));
                i = i + 1;
            }
            assert(ref_rels(rv, lv).take(refs.len() as int) =~= ref_rels(rv, lv));
            let table = build_css_table(&refs, &rels, saved, true);
            Some(rewrite_css_urls(value, &table))
        },
    }
}

proof fn lemma_attr_sets_fit(
    vals: Seq<Option<Seq<char>>>,
    base: Seq<char>,
    exts: Seq<Seq<char>>,
    links: Seq<(Seq<char>, Seq<char>)>,
    saved: Seq<Seq<char>>,
    n: int,
)
    requires
        0 <= n <= vals.len(),
    ensures
        forall|k: int|
            0 <= k < attr_sets(vals, base, exts, links, saved, n).len() ==> (#[trigger] attr_sets(
                vals,
                base,
                exts,
                links,
                saved,
                n,
            )[k]).0 < n,
    decreases n,
{
    if n > 0 {
        lemma_attr_sets_fit(vals, base, exts, links, saved, n - 1);
        let prev = attr_sets(vals, base, exts, links, saved, n - 1);
        let cur = attr_sets(vals, base, exts, links, saved, n);
        assert forall|k: int| 0 <= k < cur.len() implies (#[trigger] cur[k]).0 < n by {
            if k < prev.len() {
                assert(cur[k] == prev[k]);
            }
        }
    }
}

fn finish_attr(
    h: &str,
    attr: &str,
    base: &WebUrl,
    exts: &Vec<String>,
    links: &Vec<(String, String)>,
    saved: &Vec<String>,
) -> (r: String)
    ensures
        r@ == attr_finished(h@, attr@, base@, strings_view(exts@), table_view(links@), strings_view(saved@)),
{
    let ghost ev = strings_view(exts@);
    let ghost lv = table_view(links@);
    let ghost sv = strings_view(saved@);
    let sel = attr_selector_text(attr);
    let groups = select_attrs(h, ":root", sel.as_str(), attr);
    let ghost gv = attr_groups_view(groups@);
    let mut sets: Vec<Vec<(usize, String)>> = Vec::new();
    if groups.len() > 0 {
        let vals = &groups[0];
        let ghost vv = gv[0];
        assert(vv == vals@.map_values(|a: Option<String>| string_option_view(a)));
        let mut list: Vec<(usize, String)> = Vec::new();
        let mut k: usize = 0;
        while k < vals.len()
            invariant
                k <= vals.len(),
                vv == vals@.map_values(|a: Option<String>| string_option_view(a)),
                ev == strings_view(exts@),
                lv == table_view(links@),
                sv == strings_view(saved@),
                list@.map_values(|e: (usize, String)| (e.0, e.1@)) == attr_sets(vv, base@, ev, lv, sv, k as int),
            decreases vals.len() - k,
        {
            let v = match &vals[k] {
                Some(x) => x.clone(),
                None => String::new(),
            };
            assert(v@ == value_of(vv[k as int]));
            match setting_of(v.as_str(), base, exts, links, saved) {
                Some(x) => {
                    let ghost before = list@.map_values(|e: (usize, String)| (e.0, e.1@));
                    list.push((k, x));
                    assert(list@.map_values(|e: (usize, String)| (e.0, e.1@)) =~= before.push((k, x@)));
                },
                None => {},
            }
            k = k + 1;
        }
        sets.push(list);
        proof {
            assert(sets_view(sets@) =~= seq![attr_sets(vv, base@, ev, lv, sv, vv.len() as int)]);
            lemma_attr_sets_fit(vv, base@, ev, lv, sv, vv.len() as int);
            assert(same_shape(gv, html_texts(h@, ":root"@, sel@)));
            assert(gv[0].len() == html_texts(h@, ":root"@, sel@)[0].len());
        }
    } else {
        assert(sets_view(sets@) =~= Seq::<Seq<(usize, Seq<char>)>>::empty());
    }
    set_picked_attrs(h, ":root", sel.as_str(), attr, &sets)
}

/// The page `h` with the attributes `attrs` localised (see
/// `page_finished`): `links` gives the local path of each fetched address,
/// `saved` the addresses whose copy was saved.
pub fn finish_document(
    h: &str,
    base: &WebUrl,
    attrs: &Vec<String>,
    exts: &Vec<String>,
    links: &Vec<(String, String)>,
    saved: &Vec<String>,
) -> (r: String)
    ensures
        r@ == page_finished(
            h@,
            strings_view(attrs@),
            base@,
            strings_view(exts@),
            table_view(links@),
            strings_view(saved@),
            attrs@.len() as int,
        ),
{
    let ghost av = strings_view(attrs@);
    let mut cur = String::from_str(h);
    let mut j: usize = 0;
    while j < attrs.len()
        invariant
            j <= attrs.len(),
            av == strings_view(attrs@),
            cur@ == page_finished(h@, av, base@, strings_view(exts@), table_view(links@), strings_view(saved@), j as int),
        decreases attrs.len() - j,
    {
        assert(av[j as int] == attrs@[j as int]@);
        cur = finish_attr(cur.as_str(), attrs[j].as_str(), base, exts, links, saved);
        j = j + 1;
    }
    cur
}

} // verus!
