//! `url(...)` references in style sheets and style attributes.
//!
//! The grammar is the pattern `url\((['"]?)(.+?)['"]?\)` as the `regex`
//! crate matches it: leftmost start, the optional opening quote tried
//! first, the shortest reference (of at least one character, no line
//! break) followed by an optional quote and `)`.
use vstd::prelude::*;
use crate::address::{url_join, url_scheme, WebUrl};
use crate::error::{Error, ErrorView};
use crate::patterns::{first_from, lazy_end};
use crate::text::{
    chars_of, has_prefix, occurs_at, occurs_at_exec, push_all, push_str, starts_with,
    string_from_chars, sub_string, sub_vec, vec_eq,
};

verus! {

/// A quote character that may surround a reference.
pub open spec fn is_quote(c: char) -> bool {
    c == '\'' || c == '"'
}

/// Length of the closing `['"]?\)` at `p` (0 when there is none): a quote
/// followed by `)` is taken whole, otherwise a bare `)`.
pub open spec fn close_len(s: Seq<char>, p: int) -> int {
    if 0 <= p && p + 1 < s.len() && is_quote(s[p]) && s[p + 1] == ')' {
        2
    } else if 0 <= p < s.len() && s[p] == ')' {
        1
    } else {
        0
    }
}

/// Where a reference may end.
pub open spec fn close_stop() -> spec_fn(Seq<char>, int) -> bool {
    |t: Seq<char>, k: int| close_len(t, k) > 0
}

/// One match: `(start, quote_len, ref_start, ref_end, end)`; the quote is
/// `s[ref_start - quote_len .. ref_start]`, the reference `s[ref_start..ref_end]`.
pub type CssMatch = (int, int, int, int, int);

/// The match of the pattern at `i`, if any: with the opening quote when the
/// character after `url(` is a quote and that alternative succeeds, else
/// without.
pub open spec fn css_url_at(s: Seq<char>, i: int) -> Option<CssMatch> {
    let a = i + 4;
    if !occurs_at(s, i, "url("@) {
        None
    } else {
        let quoted = if a < s.len() && is_quote(s[a]) {
            lazy_end(s, a + 2, close_stop())
        } else {
            None
        };
        match quoted {
            Some(p) => Some((i, 1, a + 1, p, p + close_len(s, p))),
            None => match lazy_end(s, a + 1, close_stop()) {
                Some(p) => Some((i, 0, a, p, p + close_len(s, p))),
                None => None,
            },
        }
    }
}

/// `css_url_at` as a predicate value.
pub open spec fn css_url_pred() -> spec_fn(Seq<char>, int) -> bool {
    |t: Seq<char>, k: int| css_url_at(t, k) is Some
}

/// The leftmost match at or after `pos`.
pub open spec fn next_css_match(s: Seq<char>, pos: int) -> Option<CssMatch> {
    match first_from(s, pos, css_url_pred()) {
        Some(i) => css_url_at(s, i),
        None => None,
    }
}

/// All successive non-overlapping matches from `pos` on (what
/// `captures_iter` yields).
pub open spec fn css_matches_from(s: Seq<char>, pos: int) -> Seq<CssMatch>
    decreases s.len() - pos,
{
    match next_css_match(s, pos) {
        Some(m) => if pos < m.4 <= s.len() {
            seq![m] + css_matches_from(s, m.4)
        } else {
            Seq::empty()
        },
        None => Seq::empty(),
    }
}

/// All matches in `s`.
pub open spec fn css_matches(s: Seq<char>) -> Seq<CssMatch> {
    css_matches_from(s, 0)
}

/// The references of all matches, in order.
pub open spec fn css_raw_refs(s: Seq<char>) -> Seq<Seq<char>> {
    css_matches(s).map_values(|m: CssMatch| s.subrange(m.2, m.3))
}

// ---------------------------------------------------------------------------
// Matching
// ---------------------------------------------------------------------------

fn close_len_exec(s: &Vec<char>, p: usize) -> (r: usize)
    ensures
        r == close_len(s@, p as int),
{
    if p < s.len() && p + 1 < s.len() && (s[p] == '\'' || s[p] == '"') && s[p + 1] == ')' {
        2
    } else if p < s.len() && s[p] == ')' {
        1
    } else {
        0
    }
}

/// Executable `lazy_end(s, e0, close_stop())`.
fn lazy_close(s: &Vec<char>, e0: usize) -> (r: Option<usize>)
    ensures
        match r {
            Some(e) => lazy_end(s@, e0 as int, close_stop()) == Some(e as int) && e0 <= e <= s.len()
                && close_len(s@, e as int) > 0,
            None => lazy_end(s@, e0 as int, close_stop()) is None,
        },
{
    let mut e = e0;
    while e >= 1 && e < s.len() && s[e - 1] != '\n' && close_len_exec(s, e) == 0
        invariant
            e0 <= e,
            lazy_end(s@, e0 as int, close_stop()) == lazy_end(s@, e as int, close_stop()),
        decreases s.len() + 1 - e,
    {
        e = e + 1;
    }
    if e >= 1 && e <= s.len() && s[e - 1] != '\n' {
        if close_len_exec(s, e) > 0 {
            Some(e)
        } else {
            assert(lazy_end(s@, e + 1, close_stop()) is None);
            None
        }
    } else {
        None
    }
}

/// Executable `css_url_at`.
fn css_url_at_exec(s: &Vec<char>, i: usize, lit: &Vec<char>) -> (r: Option<
    (usize, usize, usize, usize, usize),
>)
    requires
        lit@ == "url("@,
    ensures
        match r {
            Some((a, q, b, c, d)) => css_url_at(s@, i as int) == Some(
                (a as int, q as int, b as int, c as int, d as int),
            ) && a == i && a + 4 <= b && b <= c < d <= s.len() && q <= 1 && b - q >= a + 4,
            None => css_url_at(s@, i as int) is None,
        },
{
    proof {
        reveal_strlit("url(");
    }
    if !occurs_at_exec(s, i, lit) {
        return None;
    }
    let a = i + 4;
    if a < s.len() && (s[a] == '\'' || s[a] == '"') && a + 1 < s.len() {
        match lazy_close(s, a + 2) {
            Some(p) => {
                let n = close_len_exec(s, p);
                return Some((i, 1, a + 1, p, p + n));
            },
            None => {},
        }
    } else if a < s.len() && (s[a] == '\'' || s[a] == '"') {
        assert(lazy_end(s@, a + 2, close_stop()) is None);
    }
    if a < s.len() {
        match lazy_close(s, a + 1) {
            Some(p) => {
                let n = close_len_exec(s, p);
                Some((i, 0, a, p, p + n))
            },
            None => None,
        }
    } else {
        assert(lazy_end(s@, a + 1, close_stop()) is None);
        None
    }
}

/// The leftmost match at or after `pos`, as spans.
fn next_css_match_exec(s: &Vec<char>, pos: usize, lit: &Vec<char>) -> (r: Option<
    (usize, usize, usize, usize, usize),
>)
    requires
        lit@ == "url("@,
        pos <= s.len(),
    ensures
        match r {
            Some((a, q, b, c, d)) => next_css_match(s@, pos as int) == Some(
                (a as int, q as int, b as int, c as int, d as int),
            ) && pos <= a && a + 4 <= b && b <= c < d <= s.len() && q <= 1 && b - q >= a + 4,
            None => next_css_match(s@, pos as int) is None,
        },
{
    let mut i = pos;
    while i < s.len()
        invariant
            pos <= i <= s.len(),
            lit@ == "url("@,
            first_from(s@, pos as int, css_url_pred()) == first_from(s@, i as int, css_url_pred()),
        decreases s.len() - i,
    {
        match css_url_at_exec(s, i, lit) {
            Some(m) => {
                return Some(m);
            },
            None => {},
        }
        i = i + 1;
    }
    match css_url_at_exec(s, s.len(), lit) {
        Some(m) => {
            return Some(m);
        },
        None => {},
    }
    assert(first_from(s@, s@.len() as int + 1, css_url_pred()) is None);
    None
}

/// The references of all `url(...)` matches in `text`, in order.
pub fn css_raw_refs_exec(text: &str) -> (r: Vec<String>)
    ensures
        r@.len() == css_raw_refs(text@).len(),
        forall|k: int| 0 <= k < r@.len() ==> (#[trigger] r@[k])@ == css_raw_refs(text@)[k],
{
    let s = chars_of(text);
    let lit = chars_of("url(");
    proof {
        reveal_strlit("url(");
    }
    let mut out: Vec<String> = Vec::new();
    let mut pos: usize = 0;
    let ghost done: Seq<CssMatch> = Seq::empty();
    while pos < s.len()
        invariant
            pos <= s.len(),
            s@ == text@,
            lit@ == "url("@,
            css_matches(s@) == done + css_matches_from(s@, pos as int),
            out@.len() == done.len(),
            forall|k: int|
                0 <= k < out@.len() ==> (#[trigger] out@[k])@ == s@.subrange(done[k].2, done[k].3),
        decreases s.len() - pos,
    {
        match next_css_match_exec(&s, pos, &lit) {
            Some((a, q, b, c, d)) => {
                proof {
                    let m = (a as int, q as int, b as int, c as int, d as int);
                    assert(css_matches_from(s@, pos as int) =~= seq![m] + css_matches_from(
                        s@,
                        d as int,
                    ));
                    done = done.push(m);
                    assert(css_matches(s@) =~= done + css_matches_from(s@, d as int));
                }
                out.push(sub_string(&s, b, c));
                pos = d;
            },
            None => {
                proof {
                    assert(css_matches_from(s@, pos as int) =~= Seq::<CssMatch>::empty());
                    assert(css_matches(s@) =~= done);
                    lemma_no_match_at_end(s@);
                    assert(css_matches_from(s@, s@.len() as int) =~= Seq::<CssMatch>::empty());
                    assert(css_matches(s@) =~= done + css_matches_from(s@, s@.len() as int));
                }
                pos = s.len();
            },
        }
    }
    proof {
        lemma_no_match_at_end(s@);
        assert(css_matches_from(s@, pos as int) =~= Seq::<CssMatch>::empty());
        assert(css_matches(s@) =~= done);
        assert(css_raw_refs(text@) =~= done.map_values(|m: CssMatch| s@.subrange(m.2, m.3)));
    }
    out
}

/// Nothing matches at or after the end of the text.
pub proof fn lemma_no_match_at_end(s: Seq<char>)
    ensures
        next_css_match(s, s.len() as int) is None,
{
    reveal_strlit("url(");
    assert(!occurs_at(s, s.len() as int, "url("@));
    assert(css_url_at(s, s.len() as int) is None);
    assert(first_from(s, s.len() as int + 1, css_url_pred()) is None);
}

// ---------------------------------------------------------------------------
// Rewriting
// ---------------------------------------------------------------------------

/// The target recorded for reference `raw` in `table` (the first entry with
/// that reference), if any.
pub open spec fn table_lookup(table: Seq<(Seq<char>, Seq<char>)>, raw: Seq<char>) -> Option<Seq<char>>
    decreases table.len(),
{
    if table.len() == 0 {
        None
    } else if table[0].0 == raw {
        Some(table[0].1)
    } else {
        table_lookup(table.drop_first(), raw)
    }
}

/// What a match becomes: `url({quote}{target}{quote})` when its reference
/// has a target, else the matched text unchanged.
pub open spec fn css_replacement(s: Seq<char>, m: CssMatch, table: Seq<(Seq<char>, Seq<char>)>) -> Seq<char> {
    let quote = s.subrange(m.2 - m.1, m.2);
    match table_lookup(table, s.subrange(m.2, m.3)) {
        Some(target) => "url("@ + quote + target + quote + ")"@,
        None => s.subrange(m.0, m.4),
    }
}

/// `s[pos..]` with every match replaced (what `replace_all` produces).
pub open spec fn css_rewrite_from(s: Seq<char>, pos: int, table: Seq<(Seq<char>, Seq<char>)>) -> Seq<char>
    decreases s.len() - pos,
{
    if pos < 0 || pos > s.len() {
        Seq::empty()
    } else {
        match next_css_match(s, pos) {
            Some(m) => if pos <= m.0 && m.0 < m.4 && pos < m.4 <= s.len() {
                s.subrange(pos, m.0) + css_replacement(s, m, table) + css_rewrite_from(s, m.4, table)
            } else {
                s.subrange(pos, s.len() as int)
            },
            None => s.subrange(pos, s.len() as int),
        }
    }
}

/// `s` with every `url(...)` whose reference has a target in `table`
/// pointed at that target.
pub open spec fn css_rewrite(s: Seq<char>, table: Seq<(Seq<char>, Seq<char>)>) -> Seq<char> {
    css_rewrite_from(s, 0, table)
}

/// View of a replacement table.
pub open spec fn table_view(t: Seq<(String, String)>) -> Seq<(Seq<char>, Seq<char>)> {
    t.map_values(|e: (String, String)| (e.0@, e.1@))
}

pub fn table_lookup_exec(table: &Vec<(String, String)>, raw: &Vec<char>) -> (r: Option<usize>)
    ensures
        match r {
            Some(k) => k < table.len() && table_lookup(table_view(table@), raw@) == Some(
                table@[k as int].1@,
            ),
            None => table_lookup(table_view(table@), raw@) is None,
        },
{
    let mut k: usize = 0;
    assert(table_view(table@).skip(0) =~= table_view(table@));
    while k < table.len()
        invariant
            k <= table.len(),
            table_lookup(table_view(table@), raw@) == table_lookup(
                table_view(table@).skip(k as int),
                raw@,
            ),
        decreases table.len() - k,
    {
        let key = chars_of(table[k].0.as_str());
        proof {
            assert(table_view(table@).skip(k as int)[0] == (table@[k as int].0@, table@[k as int].1@));
            assert(table_view(table@).skip(k as int).drop_first() =~= table_view(table@).skip(
                k + 1,
            ));
        }
        if vec_eq(&key, raw) {
            return Some(k);
        }
        k = k + 1;
    }
    proof {
        assert(table_view(table@).skip(k as int).len() == 0);
    }
    None
}

#[verifier::rlimit(40)]
/// Rewrites every `url(...)` of `text` whose reference is a key of `table`
/// to `url({quote}{target}{quote})`, leaving everything else as it is.
pub fn rewrite_css_urls(text: &str, table: &Vec<(String, String)>) -> (r: String)
    ensures
        r@ == css_rewrite(text@, table_view(table@)),
{
    let s = chars_of(text);
    let lit = chars_of("url(");
    proof {
        reveal_strlit("url(");
        reveal_strlit(")");
    }
    let ghost tv = table_view(table@);
    let mut out: Vec<char> = Vec::new();
    let mut pos: usize = 0;
    while pos < s.len()
        invariant
            pos <= s.len(),
            s@ == text@,
            lit@ == "url("@,
            ")"@ == seq![')'],
            tv == table_view(table@),
            css_rewrite(s@, tv) == out@ + css_rewrite_from(s@, pos as int, tv),
        decreases s.len() - pos,
    {
        match next_css_match_exec(&s, pos, &lit) {
            Some((a, q, b, c, d)) => {
                let ghost before = out@;
                let ghost m = (a as int, q as int, b as int, c as int, d as int);
                let gap = sub_vec(&s, pos, a);
                push_all(&mut out, &gap);
                let raw = sub_vec(&s, b, c);
                match table_lookup_exec(table, &raw) {
                    Some(k) => {
                        let quote = sub_vec(&s, b - q, b);
                        push_str(&mut out, "url(");
                        push_all(&mut out, &quote);
                        push_str(&mut out, table[k].1.as_str());
                        push_all(&mut out, &quote);
                        out.push(')');
                    },
                    None => {
                        let whole = sub_vec(&s, a, d);
                        push_all(&mut out, &whole);
                    },
                }
                proof {
                    assert(out@ =~= before + s@.subrange(pos as int, a as int) + css_replacement(
                        s@,
                        m,
                        tv,
                    ));
                    assert(css_rewrite_from(s@, pos as int, tv) =~= s@.subrange(pos as int, a as int)
                        + css_replacement(s@, m, tv) + css_rewrite_from(s@, d as int, tv));
                }
                pos = d;
            },
            None => {
                let rest = sub_vec(&s, pos, s.len());
                push_all(&mut out, &rest);
                proof {
                    assert(css_rewrite_from(s@, s@.len() as int, tv) =~= Seq::<char>::empty());
                }
                pos = s.len();
            },
        }
    }
    proof {
        lemma_no_match_at_end(s@);
        assert(css_rewrite_from(s@, pos as int, tv) =~= Seq::<char>::empty());
    }
    string_from_chars(&out)
}

// ---------------------------------------------------------------------------
// Resolving references
// ---------------------------------------------------------------------------

/// Whether the scheme of the URL serialized as `href` starts with `http`.
pub open spec fn is_http_url(href: Seq<char>) -> bool {
    has_prefix(url_scheme(href), "http"@)
}

/// Whether `acc` already holds an entry for `raw`.
pub open spec fn has_ref(acc: Seq<(Seq<char>, Seq<char>)>, raw: Seq<char>) -> bool {
    exists|j: int| 0 <= j < acc.len() && (#[trigger] acc[j]).0 == raw
}

/// The references `raws[i..]` resolved against `base`, added to `acc`:
/// an empty or already resolved reference is passed over, as is one whose
/// absolute address is not `http`/`https`-like; one that cannot be joined
/// ends everything with the join error when `strict`, and is passed over
/// otherwise.
pub open spec fn resolve_refs_from(
    raws: Seq<Seq<char>>,
    base: Seq<char>,
    strict: bool,
    i: int,
    acc: Seq<(Seq<char>, Seq<char>)>,
) -> Result<Seq<(Seq<char>, Seq<char>)>, Seq<char>>
    decreases raws.len() - i,
{
    if i < 0 || i >= raws.len() {
        Ok(acc)
    } else {
        let raw = raws[i];
        if raw.len() == 0 || has_ref(acc, raw) {
            resolve_refs_from(raws, base, strict, i + 1, acc)
        } else {
            match url_join(base, raw) {
                Err(e) => if strict {
                    Err(e)
                } else {
                    resolve_refs_from(raws, base, strict, i + 1, acc)
                },
                Ok(h) => if is_http_url(h) {
                    resolve_refs_from(raws, base, strict, i + 1, acc.push((raw, h)))
                } else {
                    resolve_refs_from(raws, base, strict, i + 1, acc)
                },
            }
        }
    }
}

/// A reference found in style text and the absolute address it resolves to.
#[derive(Debug, Clone)]
pub struct CssRef {
    pub raw: String,
    pub abs_url: WebUrl,
}

/// View of a list of resolved references.
pub open spec fn refs_view(v: Seq<CssRef>) -> Seq<(Seq<char>, Seq<char>)> {
    v.map_values(|r: CssRef| (r.raw@, r.abs_url@))
}

fn has_ref_exec(acc: &Vec<CssRef>, raw: &Vec<char>) -> (r: bool)
    ensures
        r == has_ref(refs_view(acc@), raw@),
{
    let mut j: usize = 0;
    while j < acc.len()
        invariant
            j <= acc.len(),
            forall|k: int| 0 <= k < j ==> refs_view(acc@)[k].0 != raw@,
        decreases acc.len() - j,
    {
        let key = chars_of(acc[j].raw.as_str());
        if vec_eq(&key, raw) {
            assert(refs_view(acc@)[j as int].0 == raw@);
            return true;
        }
        j = j + 1;
    }
    false
}

/// Resolves the `url(...)` references of `text` against `base` (see
/// `resolve_refs_from`).
pub fn resolve_css_refs(text: &str, base: &WebUrl, strict: bool) -> (r: Result<Vec<CssRef>, Error>)
    ensures
        match resolve_refs_from(css_raw_refs(text@), base@, strict, 0, Seq::empty()) {
            Ok(refs) => r matches Ok(v) && refs_view(v@) == refs,
            Err(e) => r matches Err(err) && err@ == ErrorView::ParseUrl(e),
        },
{
    let raws = css_raw_refs_exec(text);
    let ghost rv = css_raw_refs(text@);
    let mut acc: Vec<CssRef> = Vec::new();
    let mut i: usize = 0;
    assert(refs_view(acc@) =~= Seq::<(Seq<char>, Seq<char>)>::empty());
    while i < raws.len()
        invariant
            i <= raws.len(),
            rv == css_raw_refs(text@),
            raws@.len() == rv.len(),
            forall|k: int| 0 <= k < raws@.len() ==> (#[trigger] raws@[k])@ == rv[k],
            resolve_refs_from(rv, base@, strict, 0, Seq::empty()) == resolve_refs_from(
                rv,
                base@,
                strict,
                i as int,
                refs_view(acc@),
            ),
        decreases raws.len() - i,
    {
        let raw = chars_of(raws[i].as_str());
        assert(raw@ == rv[i as int]);
        if raw.len() == 0 || has_ref_exec(&acc, &raw) {
            i = i + 1;
            continue;
        }
        match base.join(raws[i].as_str()) {
            Err(e) => {
                if strict {
                    proof {
                        let j = url_join(base@, rv[i as int]);
                        assert(j is Err);
                        assert(e@ == ErrorView::ParseUrl(j->Err_0));
                        assert(resolve_refs_from(rv, base@, strict, i as int, refs_view(acc@)) == Err::<
                            Seq<(Seq<char>, Seq<char>)>,
                            Seq<char>,
                        >(j->Err_0));
                    }
                    return Err(e);
                }
            },
            Ok(u) => {
                let scheme = chars_of(u.scheme().as_str());
                if starts_with(&scheme, &chars_of("http")) {
                    let ghost old_view = refs_view(acc@);
                    acc.push(CssRef { raw: string_from_chars(&raw), abs_url: u });
                    assert(refs_view(acc@) =~= old_view.push((rv[i as int], u@)));
                }
            },
        }
        i = i + 1;
    }
    Ok(acc)
}

/// Where a resolved reference should point in the rewritten text: its local
/// copy when that was saved (and, if `require_rel`, the relative path is
/// not empty), else its absolute address.
pub open spec fn ref_target(abs: Seq<char>, rel: Seq<char>, saved: bool, require_rel: bool) -> Seq<char> {
    if saved && (!require_rel || rel.len() > 0) {
        rel
    } else {
        abs
    }
}

/// Whether `url` is among `saved`.
pub open spec fn is_saved(saved: Seq<Seq<char>>, url: Seq<char>) -> bool {
    saved.contains(url)
}

/// The rewrite table for resolved references: for each, its reference and
/// its target (`ref_target`), given the relative path of its local copy
/// (`rel_paths`, one per reference) and the addresses that were saved.
pub open spec fn css_table(
    refs: Seq<(Seq<char>, Seq<char>)>,
    rel_paths: Seq<Seq<char>>,
    saved: Seq<Seq<char>>,
    require_rel: bool,
) -> Seq<(Seq<char>, Seq<char>)> {
    Seq::new(
        refs.len(),
        |k: int| (refs[k].0, ref_target(refs[k].1, rel_paths[k], is_saved(saved, refs[k].1), require_rel)),
    )
}

/// Whether `url` is one of `saved`.
pub fn contains_string(saved: &Vec<String>, url: &str) -> (r: bool)
    ensures
        r == crate::forums::discuz::strings_view(saved@).contains(url@),
{
    let target = chars_of(url);
    let ghost sv = crate::forums::discuz::strings_view(saved@);
    let mut j: usize = 0;
    while j < saved.len()
        invariant
            j <= saved.len(),
            target@ == url@,
            sv == crate::forums::discuz::strings_view(saved@),
            forall|k: int| 0 <= k < j ==> sv[k] != url@,
        decreases saved.len() - j,
    {
        let key = chars_of(saved[j].as_str());
        if vec_eq(&key, &target) {
            assert(sv[j as int] == url@);
            return true;
        }
        j = j + 1;
    }
    false
}

/// Builds the rewrite table (see `css_table`).
pub fn build_css_table(
    refs: &Vec<CssRef>,
    rel_paths: &Vec<String>,
    saved: &Vec<String>,
    require_rel: bool,
) -> (r: Vec<(String, String)>)
    requires
        rel_paths.len() == refs.len(),
    ensures
        table_view(r@) == css_table(
            refs_view(refs@),
            crate::forums::discuz::strings_view(rel_paths@),
            crate::forums::discuz::strings_view(saved@),
            require_rel,
        ),
{
    let mut out: Vec<(String, String)> = Vec::new();
    let ghost want = css_table(
        refs_view(refs@),
        crate::forums::discuz::strings_view(rel_paths@),
        crate::forums::discuz::strings_view(saved@),
        require_rel,
    );
    let mut k: usize = 0;
    while k < refs.len()
        invariant
            k <= refs.len(),
            rel_paths.len() == refs.len(),
            want == css_table(
                refs_view(refs@),
                crate::forums::discuz::strings_view(rel_paths@),
                crate::forums::discuz::strings_view(saved@),
                require_rel,
            ),
            table_view(out@) =~= want.take(k as int),
        decreases refs.len() - k,
    {
        let abs = refs[k].abs_url.as_string();
        let was_saved = contains_string(saved, abs.as_str());
        let rel_len = chars_of(rel_paths[k].as_str()).len();
        let target = if was_saved && (!require_rel || rel_len > 0) {
            rel_paths[k].clone()
        } else {
            abs
        };
        let ghost old_view = table_view(out@);
        out.push((refs[k].raw.clone(), target));
        assert(table_view(out@) =~= old_view.push(want[k as int]));
        assert(want.take(k + 1) =~= want.take(k as int).push(want[k as int]));
        k = k + 1;
    }
    assert(want.take(refs.len() as int) =~= want);
    out
}

} // verus!
