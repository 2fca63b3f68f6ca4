//! Reading and editing pages through their document tree.
//!
//! A page is held as its HTML text.  Each query or edit parses the text
//! with `kuchiki` (the HTML5 parsing algorithm), selects elements with a
//! CSS selector and, for an edit, changes the tree and serializes it back.
//! What `kuchiki` computes is named here, as a fixed function of the text
//! and the arguments; what a page's handling does with it is stated and
//! proved where that handling stands.
//!
//! Queries and edits are grouped by an outer selector: for every element
//! that matches it (in document order), the elements inside it (itself
//! included) that match the inner selector, in document order.  The outer
//! selector `:root` (the `html` element) stands for the whole page.
use vstd::prelude::*;
use crate::forums::discuz::strings_view;
use crate::address::string_option_view;
use kuchiki::traits::TendrilSink;
use kuchiki::NodeRef;

verus! {

/// The text contents of the elements matching `selector` inside each
/// element matching `outer`, grouped by outer element (no group when
/// `outer` is no valid selector, an empty group when `selector` is not).
pub uninterp spec fn html_texts(html: Seq<char>, outer: Seq<char>, selector: Seq<char>) -> Seq<Seq<Seq<char>>>;

/// The values of attribute `attr` (none where it is absent) of the
/// elements grouped as by `html_texts`.
pub uninterp spec fn html_attrs(html: Seq<char>, outer: Seq<char>, selector: Seq<char>, attr: Seq<char>) -> Seq<
    Seq<Option<Seq<char>>>,
>;

/// The text contents of the whole page.
pub uninterp spec fn html_text(html: Seq<char>) -> Seq<char>;

/// The page, serialized again, without the elements picked: in group `g`
/// (as grouped by `html_texts`), the elements at the indices `picks[g]`.
pub uninterp spec fn html_without(html: Seq<char>, outer: Seq<char>, selector: Seq<char>, picks: Seq<Seq<usize>>) -> Seq<char>;

/// The page, serialized again, with attribute `attr` set: in group `g`,
/// for each `(k, v)` of `sets[g]`, the element at index `k` gets value `v`.
pub uninterp spec fn html_with_attrs(
    html: Seq<char>,
    outer: Seq<char>,
    selector: Seq<char>,
    attr: Seq<char>,
    sets: Seq<Seq<(usize, Seq<char>)>>,
) -> Seq<char>;

/// The page, serialized again, with the first `tag` element of the parsed
/// `fragment` put right after the first element that matches `selector`
/// (unchanged when either is missing).
pub uninterp spec fn html_inserted_after(html: Seq<char>, selector: Seq<char>, fragment: Seq<char>, tag: Seq<char>) -> Seq<char>;

/// The page, serialized again, with the first `tag` element of the parsed
/// `fragment` appended as the document's last child.
pub uninterp spec fn html_appended(html: Seq<char>, fragment: Seq<char>, tag: Seq<char>) -> Seq<char>;

/// Whether `selector` is a CSS selector list that `kuchiki` accepts.
pub uninterp spec fn css_selector_valid(selector: Seq<char>) -> bool;

/// View of groups of texts.
pub open spec fn groups_view(v: Seq<Vec<String>>) -> Seq<Seq<Seq<char>>> {
    v.map_values(|g: Vec<String>| strings_view(g@))
}

/// View of groups of attribute values.
pub open spec fn attr_groups_view(v: Seq<Vec<Option<String>>>) -> Seq<Seq<Option<Seq<char>>>> {
    v.map_values(|g: Vec<Option<String>>| g@.map_values(|a: Option<String>| string_option_view(a)))
}

/// View of picked indices.
pub open spec fn picks_view(v: Seq<Vec<usize>>) -> Seq<Seq<usize>> {
    v.map_values(|g: Vec<usize>| g@)
}

/// View of attribute settings.
pub open spec fn sets_view(v: Seq<Vec<(usize, String)>>) -> Seq<Seq<(usize, Seq<char>)>> {
    v.map_values(|g: Vec<(usize, String)>| g@.map_values(|e: (usize, String)| (e.0, e.1@)))
}

/// Two groupings with the same number of groups, each of the same size.
pub open spec fn same_shape<A, B>(a: Seq<Seq<A>>, b: Seq<Seq<B>>) -> bool {
    &&& a.len() == b.len()
    &&& forall|g: int| 0 <= g < a.len() ==> (#[trigger] a[g]).len() == b[g].len()
}

/// Every picked index names an element of its group.
pub open spec fn picks_fit<A>(picks: Seq<Seq<usize>>, groups: Seq<Seq<A>>) -> bool {
    &&& picks.len() <= groups.len()
    &&& forall|g: int, k: int|
        0 <= g < picks.len() && 0 <= k < picks[g].len() ==> (#[trigger] picks[g][k]) < groups[g].len()
}

/// Every index set names an element of its group.
pub open spec fn sets_fit<A>(sets: Seq<Seq<(usize, Seq<char>)>>, groups: Seq<Seq<A>>) -> bool {
    &&& sets.len() <= groups.len()
    &&& forall|g: int, k: int|
        0 <= g < sets.len() && 0 <= k < sets[g].len() ==> (#[trigger] sets[g][k]).0 < groups[g].len()
}

/// Parses the page with `kuchiki::parse_html`, selects with
/// `NodeRef::select` (outer, then inner within each outer element) and
/// takes `text_contents`.  Claimed: the result is `html_texts`.
#[verifier::external_body]
pub(crate) fn select_texts(html: &str, outer: &str, selector: &str) -> (r: Vec<Vec<String>>)
    ensures
        groups_view(r@) == html_texts(html@, outer@, selector@),
{
    let doc = kuchiki::parse_html().one(html);
    let mut groups = Vec::new();
    if let Ok(scopes) = doc.select(outer) {
        for o in scopes {
            let mut texts = Vec::new();
            if let Ok(found) = o.as_node().select(selector) {
                for e in found {
                    texts.push(e.text_contents());
                }
            }
            groups.push(texts);
        }
    }
    groups
}

/// As `select_texts`, taking attribute `attr` of each element.  Claimed:
/// the result is `html_attrs`, grouped as `html_texts` groups the same
/// elements (the same parse and selection).
#[verifier::external_body]
pub(crate) fn select_attrs(html: &str, outer: &str, selector: &str, attr: &str) -> (r: Vec<Vec<Option<String>>>)
    ensures
        attr_groups_view(r@) == html_attrs(html@, outer@, selector@, attr@),
        same_shape(attr_groups_view(r@), html_texts(html@, outer@, selector@)),
{
    let doc = kuchiki::parse_html().one(html);
    let mut groups = Vec::new();
    if let Ok(scopes) = doc.select(outer) {
        for o in scopes {
            let mut values = Vec::new();
            if let Ok(found) = o.as_node().select(selector) {
                for e in found {
                    values.push(e.attributes.borrow().get(attr).map(String::from));
                }
            }
            groups.push(values);
        }
    }
    groups
}

/// Parses the page with `kuchiki::parse_html` and takes the document's
/// `text_contents`.  Claimed: the result is `html_text`.
#[verifier::external_body]
pub(crate) fn text_of_page(html: &str) -> (r: String)
    ensures
        r@ == html_text(html@),
{
    kuchiki::parse_html().one(html).text_contents()
}

/// Calls `kuchiki::Selectors::compile`.  Claimed: it succeeds exactly when
/// `css_selector_valid` holds.
#[verifier::external_body]
pub(crate) fn selector_compiles(selector: &str) -> (r: bool)
    ensures
        r == css_selector_valid(selector@),
{
    kuchiki::Selectors::compile(selector).is_ok()
}

/// Parses the page, collects the elements grouped as by `select_texts`,
/// `detach`es the picked ones and serializes the document.  Claimed: the
/// result is `html_without`.
#[verifier::external_body]
pub(crate) fn remove_picked(html: &str, outer: &str, selector: &str, picks: &Vec<Vec<usize>>) -> (r: String)
    requires
        picks_fit(picks_view(picks@), html_texts(html@, outer@, selector@)),
    ensures
        r@ == html_without(html@, outer@, selector@, picks_view(picks@)),
{
    let doc = kuchiki::parse_html().one(html);
    let mut groups: Vec<Vec<NodeRef>> = Vec::new();
    if let Ok(scopes) = doc.select(outer) {
        for o in scopes {
            let found = o.as_node().select(selector);
            groups.push(found.map(|f| f.map(|e| e.as_node().clone()).collect()).unwrap_or_default());
        }
    }
    for (g, ks) in picks.iter().enumerate() {
        for k in ks {
            groups[g][*k].detach();
        }
    }
    doc.to_string()
}

/// Parses the page, collects the elements grouped as by `select_texts`,
/// `insert`s the attribute values into the chosen ones and serializes the
/// document.  Claimed: the result is `html_with_attrs`.
#[verifier::external_body]
pub(crate) fn set_picked_attrs(html: &str, outer: &str, selector: &str, attr: &str, sets: &Vec<Vec<(usize, String)>>) -> (r: String)
    requires
        sets_fit(sets_view(sets@), html_texts(html@, outer@, selector@)),
    ensures
        r@ == html_with_attrs(html@, outer@, selector@, attr@, sets_view(sets@)),
{
    let doc = kuchiki::parse_html().one(html);
    let mut groups = Vec::new();
    if let Ok(scopes) = doc.select(outer) {
        for o in scopes {
            groups.push(o.as_node().select(selector).map(|f| f.collect::<Vec<_>>()).unwrap_or_default());
        }
    }
    for (g, list) in sets.iter().enumerate() {
        for (k, v) in list {
            groups[g][*k].attributes.borrow_mut().insert(attr, v.clone());
        }
    }
    doc.to_string()
}

/// Parses the page and the fragment, `insert_after`s the fragment's first
/// `tag` element behind the page's first `selector` element and serializes
/// the document.  Claimed: the result is `html_inserted_after`.
#[verifier::external_body]
pub(crate) fn insert_after_first(html: &str, selector: &str, fragment: &str, tag: &str) -> (r: String)
    ensures
        r@ == html_inserted_after(html@, selector@, fragment@, tag@),
{
    let doc = kuchiki::parse_html().one(html);
    let frag = kuchiki::parse_html().one(fragment);
    if let (Ok(at), Ok(node)) = (doc.select_first(selector), frag.select_first(tag)) {
        node.as_node().detach();
        at.as_node().insert_after(node.as_node().clone());
    }
    doc.to_string()
}

/// Parses the page and the fragment, `append`s the fragment's first `tag`
/// element to the document and serializes it.  Claimed: the result is
/// `html_appended`.
#[verifier::external_body]
pub(crate) fn append_fragment(html: &str, fragment: &str, tag: &str) -> (r: String)
    ensures
        r@ == html_appended(html@, fragment@, tag@),
{
    let doc = kuchiki::parse_html().one(html);
    let frag = kuchiki::parse_html().one(fragment);
    if let Ok(node) = frag.select_first(tag) {
        node.as_node().detach();
        doc.append(node.as_node().clone());
    }
    doc.to_string()
}

/// The first element of the first group, if any.
pub open spec fn first_in<A>(groups: Seq<Seq<A>>) -> Option<A> {
    if groups.len() > 0 && groups[0].len() > 0 {
        Some(groups[0][0])
    } else {
        None
    }
}

/// The first group, or none.
pub open spec fn group0<A>(groups: Seq<Seq<A>>) -> Seq<A> {
    if groups.len() > 0 {
        groups[0]
    } else {
        Seq::empty()
    }
}

/// The first element of the first group picked, when there is one.
pub open spec fn first_pick<A>(groups: Seq<Seq<A>>) -> Seq<Seq<usize>> {
    if first_in(groups) is Some {
        seq![seq![0usize]]
    } else {
        Seq::empty()
    }
}

/// Every element of every group picked.
pub open spec fn all_picks<A>(groups: Seq<Seq<A>>) -> Seq<Seq<usize>> {
    groups.map_values(|g: Seq<A>| Seq::new(g.len(), |k: int| k as usize))
}

/// The page without the first element inside the first `outer` element
/// that matches `selector`.
pub open spec fn removed_first(html: Seq<char>, outer: Seq<char>, selector: Seq<char>) -> Seq<char> {
    html_without(html, outer, selector, first_pick(html_texts(html, outer, selector)))
}

/// The page without any element that matches `selector`.
pub open spec fn removed_every(html: Seq<char>, selector: Seq<char>) -> Seq<char> {
    html_without(html, ":root"@, selector, all_picks(html_texts(html, ":root"@, selector)))
}

/// The text of the page's first element that matches `selector`.
pub fn first_text(html: &str, selector: &str) -> (r: Option<String>)
    ensures
        string_option_view(r) == first_in(html_texts(html@, ":root"@, selector@)),
{
    let groups = select_texts(html, ":root", selector);
    if groups.len() > 0 && groups[0].len() > 0 {
        proof {
            assert(groups_view(groups@)[0] == strings_view(groups@[0]@));
        }
        Some(groups[0][0].clone())
    } else {
        proof {
            if groups.len() > 0 {
                assert(groups_view(groups@)[0] == strings_view(groups@[0]@));
            }
        }
        None
    }
}

/// Attribute `attr` of the page's first element that matches `selector`.
pub fn first_attr(html: &str, selector: &str, attr: &str) -> (r: Option<String>)
    ensures
        string_option_view(r) == match first_in(html_attrs(html@, ":root"@, selector@, attr@)) {
            Some(Some(v)) => Some(v),
            _ => None,
        },
{
    let groups = select_attrs(html, ":root", selector, attr);
    proof {
        if groups.len() > 0 {
            assert(attr_groups_view(groups@)[0] == groups@[0]@.map_values(
                |a: Option<String>| string_option_view(a),
            ));
        }
    }
    if groups.len() > 0 && groups[0].len() > 0 {
        groups[0][0].clone()
    } else {
        None
    }
}

/// The texts of all the page's elements that match `selector`.
pub fn all_texts(html: &str, selector: &str) -> (r: Vec<String>)
    ensures
        strings_view(r@) == group0(html_texts(html@, ":root"@, selector@)),
{
    let groups = select_texts(html, ":root", selector);
    if groups.len() > 0 {
        proof {
            assert(groups_view(groups@)[0] == strings_view(groups@[0]@));
        }
        groups[0].clone()
    } else {
        Vec::new()
    }
}

/// The text contents of the whole page.
pub fn page_text(html: &str) -> (r: String)
    ensures
        r@ == html_text(html@),
{
    text_of_page(html)
}

/// Removes the first element inside the first `outer` element that
/// matches `selector` (see `removed_first`).
pub fn remove_first(html: &str, outer: &str, selector: &str) -> (r: String)
    ensures
        r@ == removed_first(html@, outer@, selector@),
{
    let groups = select_texts(html, outer, selector);
    let mut picks: Vec<Vec<usize>> = Vec::new();
    proof {
        if groups.len() > 0 {
            assert(groups_view(groups@)[0] == strings_view(groups@[0]@));
        }
    }
    if groups.len() > 0 && groups[0].len() > 0 {
        let mut first: Vec<usize> = Vec::new();
        first.push(0);
        picks.push(first);
        assert(picks@[0]@ =~= seq![0usize]);
        assert(picks_view(picks@) =~= seq![seq![0usize]]);
    } else {
        assert(picks_view(picks@) =~= Seq::<Seq<usize>>::empty());
    }
    remove_picked(html, outer, selector, &picks)
}

/// Removes every element of the page that matches `selector` (see
/// `removed_every`).
pub fn remove_every(html: &str, selector: &str) -> (r: String)
    ensures
        r@ == removed_every(html@, selector@),
{
    let groups = select_texts(html, ":root", selector);
    let ghost gv = groups_view(groups@);
    let mut picks: Vec<Vec<usize>> = Vec::new();
    let mut g: usize = 0;
    while g < groups.len()
        invariant
            g <= groups.len(),
            gv == groups_view(groups@),
            picks_view(picks@) =~= all_picks(gv).take(g as int),
        decreases groups.len() - g,
    {
        let n = groups[g].len();
        let mut ks: Vec<usize> = Vec::new();
        let mut k: usize = 0;
        while k < n
            invariant
                k <= n,
                ks@ =~= Seq::new(k as nat, |j: int| j as usize),
            decreases n - k,
        {
            ks.push(k);
            k = k + 1;
        }
        proof {
            assert(gv[g as int] == strings_view(groups@[g as int]@));
            assert(all_picks(gv)[g as int] =~= ks@);
            assert(all_picks(gv).take(g + 1) =~= all_picks(gv).take(g as int).push(ks@));
        }
        let ghost before = picks_view(picks@);
        picks.push(ks);
        assert(picks_view(picks@) =~= before.push(picks@[g as int]@));
        g = g + 1;
    }
    proof {
        assert(all_picks(gv).take(groups.len() as int) =~= all_picks(gv));
    }
    remove_picked(html, ":root", selector, &picks)
}

} // verus!
