//! Images that an NGA page shows through its scripts: attached images
//! written as `[img]...[/img]` in a post, and smileys written as
//! `[s:group:name]`.  A saved page needs their files, so their addresses
//! are gathered from the page's text.
//!
//! - attached images: `\[img\](?P<img_url>[^\n]+?)\[/img\]`
//! - smileys: `\[s:(?P<group>[a-zA-Z0-9]+):(?P<name>.+?)\]`
use vstd::prelude::*;
use crate::forums::nga_script::{pairs_view, setting_value, setting_value_exec};
use crate::patterns::{first_from, lazy_end, lazy_end_literal, lemma_lazy_end, literal_stop};
use crate::text::{chars_of, has_prefix, occurs_at, occurs_at_exec, push_all, push_str, starts_with, sub_vec, vec_eq};

verus! {

// ---------------------------------------------------------------------------
// Attached images
// ---------------------------------------------------------------------------

/// Where the address of an image written at `i` ends (where `[/img]` starts).
pub open spec fn image_at(s: Seq<char>, i: int) -> Option<int> {
    if occurs_at(s, i, "[img]"@) {
        lazy_end(s, i + 6, literal_stop("[/img]"@))
    } else {
        None
    }
}

/// `image_at` as a predicate value.
pub open spec fn image_pred() -> spec_fn(Seq<char>, int) -> bool {
    |t: Seq<char>, j: int| image_at(t, j) is Some
}

/// The address an image is fetched from: one relative to the page
/// (`./...`) lives under `https://{attach}/attachments/`.
pub open spec fn attachment_address(attach: Seq<char>, url: Seq<char>) -> Seq<char> {
    if has_prefix(url, "./"@) {
        "https://"@ + attach + "/attachments/"@ + url.subrange(2, url.len() as int)
    } else {
        url
    }
}

/// The addresses of the images written in `s[pos..]`, in order.
pub open spec fn images_from(s: Seq<char>, pos: int, attach: Seq<char>) -> Seq<Seq<char>>
    decreases s.len() - pos,
{
    if pos < 0 || pos > s.len() {
        Seq::empty()
    } else {
        match first_from(s, pos, image_pred()) {
            Some(i) => match image_at(s, i) {
                Some(e) => if pos <= i && i + 6 <= e && e + 6 <= s.len() {
                    seq![attachment_address(attach, s.subrange(i + 5, e))] + images_from(
                        s,
                        e + 6,
                        attach,
                    )
                } else {
                    Seq::empty()
                },
                None => Seq::empty(),
            },
            None => Seq::empty(),
        }
    }
}

proof fn lemma_image_at(s: Seq<char>, i: int)
    requires
        0 <= i,
    ensures
        image_at(s, i) matches Some(e) ==> i + 6 <= e && e + 6 <= s.len(),
{
    reveal_strlit("[img]");
    reveal_strlit("[/img]");
    lemma_lazy_end(s, i + 6, literal_stop("[/img]"@));
}

fn image_at_exec(s: &Vec<char>, i: usize, open: &Vec<char>, close: &Vec<char>) -> (r: Option<usize>)
    requires
        open@ == "[img]"@,
        close@ == "[/img]"@,
    ensures
        match r {
            Some(e) => image_at(s@, i as int) == Some(e as int) && i + 6 <= e && e + 6 <= s.len(),
            None => image_at(s@, i as int) is None,
        },
{
    proof {
        reveal_strlit("[img]");
        reveal_strlit("[/img]");
        lemma_image_at(s@, i as int);
    }
    if !occurs_at_exec(s, i, open) {
        return None;
    }
    if i + 5 == s.len() {
        return None;
    }
    lazy_end_literal(s, i + 6, close)
}

fn next_image_exec(s: &Vec<char>, pos: usize, open: &Vec<char>, close: &Vec<char>) -> (r: Option<
    (usize, usize),
>)
    requires
        pos <= s.len(),
        open@ == "[img]"@,
        close@ == "[/img]"@,
    ensures
        match r {
            Some((i, e)) => first_from(s@, pos as int, image_pred()) == Some(i as int) && image_at(
                s@,
                i as int,
            ) == Some(e as int) && pos <= i && i + 6 <= e && e + 6 <= s.len(),
            None => first_from(s@, pos as int, image_pred()) is None,
        },
{
    let mut i = pos;
    while i < s.len()
        invariant
            pos <= i <= s.len(),
            open@ == "[img]"@,
            close@ == "[/img]"@,
            first_from(s@, pos as int, image_pred()) == first_from(s@, i as int, image_pred()),
        decreases s.len() - i,
    {
        match image_at_exec(s, i, open, close) {
            Some(e) => {
                return Some((i, e));
            },
            None => {},
        }
        i = i + 1;
    }
    match image_at_exec(s, s.len(), open, close) {
        Some(e) => {
            return Some((s.len(), e));
        },
        None => {},
    }
    assert(first_from(s@, s@.len() as int + 1, image_pred()) is None);
    None
}

/// The address an image is fetched from (see `attachment_address`).
pub fn attachment_url(attach: &Vec<char>, url: &Vec<char>) -> (r: Vec<char>)
    ensures
        r@ == attachment_address(attach@, url@),
{
    let dot = chars_of("./");
    proof {
        reveal_strlit("./");
    }
    if starts_with(url, &dot) {
        let mut r = chars_of("https://");
        push_all(&mut r, attach);
        push_str(&mut r, "/attachments/");
        let rest = sub_vec(url, 2, url.len());
        push_all(&mut r, &rest);
        r
    } else {
        url.clone()
    }
}

/// The addresses of all images written in the page's text, in order, with
/// `attach` the host of attachments (the page's `__ATTACH_BASE_VIEW`).
pub fn attachment_images(s: &Vec<char>, attach: &Vec<char>) -> (r: Vec<Vec<char>>)
    ensures
        r@.map_values(|v: Vec<char>| v@) == images_from(s@, 0, attach@),
{
    let open = chars_of("[img]");
    let close = chars_of("[/img]");
    let mut out: Vec<Vec<char>> = Vec::new();
    let mut pos: usize = 0;
    let mut done = false;
    while !done
        invariant
            pos <= s.len(),
            open@ == "[img]"@,
            close@ == "[/img]"@,
            images_from(s@, 0, attach@) == out@.map_values(|v: Vec<char>| v@) + (if done {
                Seq::empty()
            } else {
                images_from(s@, pos as int, attach@)
            }),
        decreases s.len() - pos, if done { 0int } else { 1int },
    {
        match next_image_exec(s, pos, &open, &close) {
            Some((i, e)) => {
                let ghost before = out@.map_values(|v: Vec<char>| v@);
                let url = sub_vec(s, i + 5, e);
                let full = attachment_url(attach, &url);
                out.push(full);
                proof {
                    assert(out@.map_values(|v: Vec<char>| v@) =~= before.push(
                        attachment_address(attach@, s@.subrange(i + 5, e as int)),
                    ));
                    assert(before + images_from(s@, pos as int, attach@) =~= out@.map_values(
                        |v: Vec<char>| v@,
                    ) + images_from(s@, e + 6, attach@));
                }
                pos = e + 6;
            },
            None => {
                done = true;
            },
        }
    }
    proof {
        assert(out@.map_values(|v: Vec<char>| v@) + Seq::<Seq<char>>::empty() =~= out@.map_values(
            |v: Vec<char>| v@,
        ));
    }
    out
}

/// The attached images a page shows: none unless the page sets
/// `__ATTACH_BASE_VIEW`, the host of attachments.
pub open spec fn page_images_spec(s: Seq<char>, settings: Seq<(Seq<char>, Seq<char>)>) -> Seq<Seq<char>> {
    match setting_value(settings, "__ATTACH_BASE_VIEW"@) {
        Some(attach) => images_from(s, 0, attach),
        None => Seq::empty(),
    }
}

/// The addresses of the attached images that the page's text shows, given
/// the settings its script set.
pub fn page_images(s: &Vec<char>, settings: &Vec<(Vec<char>, Vec<char>)>) -> (r: Vec<Vec<char>>)
    ensures
        r@.map_values(|v: Vec<char>| v@) == page_images_spec(s@, pairs_view(settings@)),
{
    let name = chars_of("__ATTACH_BASE_VIEW");
    match setting_value_exec(settings, &name) {
        Some(k) => attachment_images(s, &settings[k].1),
        None => {
            let r: Vec<Vec<char>> = Vec::new();
            assert(r@.map_values(|v: Vec<char>| v@) =~= Seq::<Seq<char>>::empty());
            r
        },
    }
}

// ---------------------------------------------------------------------------
// Smileys
// ---------------------------------------------------------------------------

/// A character of a smiley's group: `[a-zA-Z0-9]`.
pub open spec fn is_group_char(c: char) -> bool {
    ('a' <= c && c <= 'z') || ('A' <= c && c <= 'Z') || ('0' <= c && c <= '9')
}

/// Length of the maximal run of group characters starting at `i`.
pub open spec fn group_run(s: Seq<char>, i: int) -> nat
    decreases s.len() - i,
{
    if 0 <= i < s.len() && is_group_char(s[i]) {
        1 + group_run(s, i + 1)
    } else {
        0
    }
}

proof fn lemma_group_run(s: Seq<char>, i: int)
    requires
        0 <= i,
    ensures
        group_run(s, i) > 0 ==> i + group_run(s, i) <= s.len(),
    decreases s.len() - i,
{
    if 0 <= i < s.len() && is_group_char(s[i]) {
        lemma_group_run(s, i + 1);
    }
}

fn group_run_exec(s: &Vec<char>, i: usize) -> (n: usize)
    ensures
        n == group_run(s@, i as int),
        n > 0 ==> i + n <= s.len(),
{
    if i >= s.len() {
        return 0;
    }
    let mut j: usize = i;
    while j < s.len() && (('a' <= s[j] && s[j] <= 'z') || ('A' <= s[j] && s[j] <= 'Z') || ('0'
        <= s[j] && s[j] <= '9'))
        invariant
            i <= j <= s.len(),
            group_run(s@, i as int) == (j - i) + group_run(s@, j as int),
        decreases s.len() - j,
    {
        j = j + 1;
    }
    proof {
        lemma_group_run(s@, i as int);
    }
    j - i
}

/// A smiley written at `i`: where its group ends (at the `:`) and where its
/// name ends (at the `]`).
pub open spec fn smiley_at(s: Seq<char>, i: int) -> Option<(int, int)> {
    let p = i + 3 + group_run(s, i + 3);
    if occurs_at(s, i, "[s:"@) && group_run(s, i + 3) >= 1 && p < s.len() && s[p] == ':' {
        match lazy_end(s, p + 2, literal_stop("]"@)) {
            Some(e) => Some((p, e)),
            None => None,
        }
    } else {
        None
    }
}

/// `smiley_at` as a predicate value.
pub open spec fn smiley_pred() -> spec_fn(Seq<char>, int) -> bool {
    |t: Seq<char>, j: int| smiley_at(t, j) is Some
}

/// The file of smiley `name` of `group` in a table of `(group, name, file)`
/// (the first entry that fits).
pub open spec fn smiley_file(table: Seq<(Seq<char>, Seq<char>, Seq<char>)>, group: Seq<char>, name: Seq<char>) -> Option<Seq<char>>
    decreases table.len(),
{
    if table.len() == 0 {
        None
    } else if table[0].0 == group && table[0].1 == name {
        Some(table[0].2)
    } else {
        smiley_file(table.drop_first(), group, name)
    }
}

/// Where smiley files live: the page's `__IMG_PATH`, or NGA's image host.
pub open spec fn smiley_base(settings: Seq<(Seq<char>, Seq<char>)>) -> Seq<char> {
    match setting_value(settings, "__IMG_PATH"@) {
        Some(v) => v,
        None => "https://img4.nga.178.com/ngabbs"@,
    }
}

/// The addresses of the known smileys written in `s[pos..]`, in order.
pub open spec fn smileys_from(
    s: Seq<char>,
    pos: int,
    table: Seq<(Seq<char>, Seq<char>, Seq<char>)>,
    base: Seq<char>,
) -> Seq<Seq<char>>
    decreases s.len() - pos,
{
    if pos < 0 || pos > s.len() {
        Seq::empty()
    } else {
        match first_from(s, pos, smiley_pred()) {
            Some(i) => match smiley_at(s, i) {
                Some((p, e)) => if pos <= i && i + 3 < p && p + 2 <= e && e + 1 <= s.len() {
                    let rest = smileys_from(s, e + 1, table, base);
                    match smiley_file(table, s.subrange(i + 3, p), s.subrange(p + 1, e)) {
                        Some(f) => seq![base + "/post/smile/"@ + f] + rest,
                        None => rest,
                    }
                } else {
                    Seq::empty()
                },
                None => Seq::empty(),
            },
            None => Seq::empty(),
        }
    }
}

/// View of a smiley table.
pub open spec fn table_view(t: Seq<(Vec<char>, Vec<char>, Vec<char>)>) -> Seq<(Seq<char>, Seq<char>, Seq<char>)> {
    t.map_values(|e: (Vec<char>, Vec<char>, Vec<char>)| (e.0@, e.1@, e.2@))
}

fn smiley_at_exec(s: &Vec<char>, i: usize, open: &Vec<char>, close: &Vec<char>) -> (r: Option<(usize, usize)>)
    requires
        open@ == "[s:"@,
        close@ == "]"@,
    ensures
        match r {
            Some((p, e)) => smiley_at(s@, i as int) == Some((p as int, e as int)) && i + 3 < p && p
                + 2 <= e && e + 1 <= s.len(),
            None => smiley_at(s@, i as int) is None,
        },
{
    proof {
        reveal_strlit("[s:");
        reveal_strlit("]");
    }
    if !occurs_at_exec(s, i, open) {
        return None;
    }
    let g = group_run_exec(s, i + 3);
    if g == 0 {
        return None;
    }
    let p = i + 3 + g;
    if p >= s.len() || s[p] != ':' || p + 1 == s.len() {
        return None;
    }
    match lazy_end_literal(s, p + 2, close) {
        Some(e) => {
            proof {
                lemma_lazy_end(s@, p + 2, literal_stop("]"@));
            }
            Some((p, e))
        },
        None => None,
    }
}

fn next_smiley_exec(s: &Vec<char>, pos: usize, open: &Vec<char>, close: &Vec<char>) -> (r: Option<
    (usize, usize, usize),
>)
    requires
        pos <= s.len(),
        open@ == "[s:"@,
        close@ == "]"@,
    ensures
        match r {
            Some((i, p, e)) => first_from(s@, pos as int, smiley_pred()) == Some(i as int)
                && smiley_at(s@, i as int) == Some((p as int, e as int)) && pos <= i && i + 3 < p
                && p + 2 <= e && e + 1 <= s.len(),
            None => first_from(s@, pos as int, smiley_pred()) is None,
        },
{
    let mut i = pos;
    while i < s.len()
        invariant
            pos <= i <= s.len(),
            open@ == "[s:"@,
            close@ == "]"@,
            first_from(s@, pos as int, smiley_pred()) == first_from(s@, i as int, smiley_pred()),
        decreases s.len() - i,
    {
        match smiley_at_exec(s, i, open, close) {
            Some((p, e)) => {
                return Some((i, p, e));
            },
            None => {},
        }
        i = i + 1;
    }
    match smiley_at_exec(s, s.len(), open, close) {
        Some((p, e)) => {
            return Some((s.len(), p, e));
        },
        None => {},
    }
    assert(first_from(s@, s@.len() as int + 1, smiley_pred()) is None);
    None
}

fn smiley_file_exec(table: &Vec<(Vec<char>, Vec<char>, Vec<char>)>, group: &Vec<char>, name: &Vec<char>) -> (r: Option<usize>)
    ensures
        match r {
            Some(k) => k < table.len() && smiley_file(table_view(table@), group@, name@) == Some(
                table@[k as int].2@,
            ),
            None => smiley_file(table_view(table@), group@, name@) is None,
        },
{
    let ghost tv = table_view(table@);
    let mut k: usize = 0;
    assert(tv.skip(0) =~= tv);
    while k < table.len()
        invariant
            k <= table.len(),
            tv == table_view(table@),
            smiley_file(tv, group@, name@) == smiley_file(tv.skip(k as int), group@, name@),
        decreases table.len() - k,
    {
        assert(tv.skip(k as int).drop_first() =~= tv.skip(k + 1));
        if vec_eq(&table[k].0, group) && vec_eq(&table[k].1, name) {
            return Some(k);
        }
        k = k + 1;
    }
    None
}

/// The addresses of the smiley images that the page's text shows, in
/// order: each `[s:group:name]` found in `table` (entries `(group, name,
/// file)`) is fetched from `{base}/post/smile/{file}`, with `base` the
/// page's `__IMG_PATH` setting or NGA's image host.
pub fn smiley_images(
    s: &Vec<char>,
    table: &Vec<(Vec<char>, Vec<char>, Vec<char>)>,
    settings: &Vec<(Vec<char>, Vec<char>)>,
) -> (r: Vec<Vec<char>>)
    ensures
        r@.map_values(|v: Vec<char>| v@) == smileys_from(
            s@,
            0,
            table_view(table@),
            smiley_base(pairs_view(settings@)),
        ),
{
    let open = chars_of("[s:");
    let close = chars_of("]");
    let path_name = chars_of("__IMG_PATH");
    let base = match setting_value_exec(settings, &path_name) {
        Some(k) => settings[k].1.clone(),
        None => chars_of("https://img4.nga.178.com/ngabbs"),
    };
    let ghost tv = table_view(table@);
    let mut out: Vec<Vec<char>> = Vec::new();
    let mut pos: usize = 0;
    let mut done = false;
    while !done
        invariant
            pos <= s.len(),
            open@ == "[s:"@,
            close@ == "]"@,
            tv == table_view(table@),
            base@ == smiley_base(pairs_view(settings@)),
            smileys_from(s@, 0, tv, base@) == out@.map_values(|v: Vec<char>| v@) + (if done {
                Seq::empty()
            } else {
                smileys_from(s@, pos as int, tv, base@)
            }),
        decreases s.len() - pos, if done { 0int } else { 1int },
    {
        match next_smiley_exec(s, pos, &open, &close) {
            Some((i, p, e)) => {
                let ghost before = out@.map_values(|v: Vec<char>| v@);
                let group = sub_vec(s, i + 3, p);
                let name = sub_vec(s, p + 1, e);
                match smiley_file_exec(table, &group, &name) {
                    Some(k) => {
                        let mut u = base.clone();
                        push_str(&mut u, "/post/smile/");
                        push_all(&mut u, &table[k].2);
                        out.push(u);
                        proof {
                            assert(out@.map_values(|v: Vec<char>| v@) =~= before.push(
                                base@ + "/post/smile/"@ + tv[k as int].2,
                            ));
                            assert(before + smileys_from(s@, pos as int, tv, base@) =~= out@.map_values(
                                |v: Vec<char>| v@,
                            ) + smileys_from(s@, e + 1, tv, base@));
                        }
                    },
                    None => {},
                }
                pos = e + 1;
            },
            None => {
                done = true;
            },
        }
    }
    proof {
        assert(out@.map_values(|v: Vec<char>| v@) + Seq::<Seq<char>>::empty() =~= out@.map_values(
            |v: Vec<char>| v@,
        ));
    }
    out
}

} // verus!
