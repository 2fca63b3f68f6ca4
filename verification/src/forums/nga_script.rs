//! Rewriting the settings script at the head of an NGA page so that a
//! saved page works offline.
//!
//! The grammars are those of the patterns NGA pages are read with, matched
//! as the `regex` crate matches (leftmost start, greedy repetition, lazy
//! `.+?` taking the fewest characters, backtracking in priority order):
//!
//! - settings: `(__[A-Z0-9_]+)\s*=\s*['"]([^'";,]+)['"]`
//! - joined addresses: `(__[A-Z0-9_]+)\+['"](.+?)['"]`
//! - advertisement slots: `,"dsid_bbs_ads\d+":__DSBASE+.+?\n`
//! - user id: `__CURRENT_UID\s*=\s*(.+?),\n`
//! - user name: `__CURRENT_UNAME\s*=\s*'(.+?)',`
use vstd::prelude::*;
use crate::css::is_quote;
use crate::forums::nga::{uname_at, uname_at_exec, NGAForum};
use crate::patterns::{
    digit_run, digit_run_exec, first_from, lazy_end, lazy_end_literal, literal_stop, space_run,
    space_run_exec,
};
use crate::text::{
    chars_of, has_prefix, last_index, last_index_of, next_index_of, occurs_at, occurs_at_exec,
    push_all, push_str, replace_all, replace_all_spec, starts_with, sub_vec, vec_eq,
};

verus! {

/// A character of a setting's name: `[A-Z0-9_]`.
pub open spec fn is_name_char(c: char) -> bool {
    ('A' <= c && c <= 'Z') || ('0' <= c && c <= '9') || c == '_'
}

/// A character of a setting's value: anything but `'`, `"`, `;` and `,`.
pub open spec fn is_value_char(c: char) -> bool {
    c != '\'' && c != '"' && c != ';' && c != ','
}

/// Length of the run of name characters at `i`.
pub open spec fn name_run(s: Seq<char>, i: int) -> nat
    decreases s.len() - i,
{
    if 0 <= i < s.len() && is_name_char(s[i]) {
        1 + name_run(s, i + 1)
    } else {
        0
    }
}

/// Length of the run of value characters at `i`.
pub open spec fn value_run(s: Seq<char>, i: int) -> nat
    decreases s.len() - i,
{
    if 0 <= i < s.len() && is_value_char(s[i]) {
        1 + value_run(s, i + 1)
    } else {
        0
    }
}

proof fn lemma_name_run(s: Seq<char>, i: int)
    requires
        0 <= i,
    ensures
        name_run(s, i) == 0 || i + name_run(s, i) <= s.len(),
    decreases s.len() - i,
{
    if 0 <= i < s.len() && is_name_char(s[i]) {
        lemma_name_run(s, i + 1);
    }
}

proof fn lemma_value_run(s: Seq<char>, i: int)
    requires
        0 <= i,
    ensures
        value_run(s, i) == 0 || i + value_run(s, i) <= s.len(),
    decreases s.len() - i,
{
    if 0 <= i < s.len() && is_value_char(s[i]) {
        lemma_value_run(s, i + 1);
    }
}

fn name_run_exec(s: &Vec<char>, i: usize) -> (n: usize)
    ensures
        n == name_run(s@, i as int),
        n == 0 || i + n <= s.len(),
{
    if i >= s.len() {
        return 0;
    }
    let mut j = i;
    while j < s.len() && (('A' <= s[j] && s[j] <= 'Z') || ('0' <= s[j] && s[j] <= '9') || s[j] == '_')
        invariant
            i <= j <= s.len(),
            name_run(s@, i as int) == (j - i) + name_run(s@, j as int),
        decreases s.len() - j,
    {
        j = j + 1;
    }
    proof {
        lemma_name_run(s@, i as int);
    }
    j - i
}

fn value_run_exec(s: &Vec<char>, i: usize) -> (n: usize)
    ensures
        n == value_run(s@, i as int),
        n == 0 || i + n <= s.len(),
{
    if i >= s.len() {
        return 0;
    }
    let mut j = i;
    while j < s.len() && s[j] != '\'' && s[j] != '"' && s[j] != ';' && s[j] != ','
        invariant
            i <= j <= s.len(),
            value_run(s@, i as int) == (j - i) + value_run(s@, j as int),
        decreases s.len() - j,
    {
        j = j + 1;
    }
    proof {
        lemma_value_run(s@, i as int);
    }
    j - i
}

// ---------------------------------------------------------------------------
// Settings: (__[A-Z0-9_]+)\s*=\s*['"]([^'";,]+)['"]
// ---------------------------------------------------------------------------

/// A setting at `i`: `(name_end, value_start, value_end, end)`; the name is
/// `s[i..name_end]`, the value `s[value_start..value_end]`.
pub open spec fn setting_at(s: Seq<char>, i: int) -> Option<(int, int, int, int)> {
    let n = name_run(s, i + 2);
    let ne = i + 2 + n;
    let p = ne + space_run(s, ne);
    let q = p + 1 + space_run(s, p + 1);
    let v = value_run(s, q + 1);
    if occurs_at(s, i, "__"@) && n >= 1 && p < s.len() && s[p] == '=' && q < s.len() && is_quote(
        s[q],
    ) && v >= 1 && q + 1 + v < s.len() && is_quote(s[q + 1 + v]) {
        Some((ne, q + 1, q + 1 + v, q + 2 + v))
    } else {
        None
    }
}

fn setting_at_exec(s: &Vec<char>, i: usize, us: &Vec<char>) -> (r: Option<(usize, usize, usize, usize)>)
    requires
        us@ == "__"@,
    ensures
        match r {
            Some((a, b, c, d)) => setting_at(s@, i as int) == Some((a as int, b as int, c as int, d as int))
                && i < a <= b <= c < d <= s.len(),
            None => setting_at(s@, i as int) is None,
        },
{
    proof {
        reveal_strlit("__");
    }
    if !occurs_at_exec(s, i, us) {
        return None;
    }
    let n = name_run_exec(s, i + 2);
    if n == 0 {
        return None;
    }
    let ne = i + 2 + n;
    let p = ne + space_run_exec(s, ne);
    if p >= s.len() || s[p] != '=' {
        return None;
    }
    let q = p + 1 + space_run_exec(s, p + 1);
    if q >= s.len() || !(s[q] == '\'' || s[q] == '"') {
        return None;
    }
    let v = value_run_exec(s, q + 1);
    if v == 0 || q + 1 + v >= s.len() || !(s[q + 1 + v] == '\'' || s[q + 1 + v] == '"') {
        return None;
    }
    Some((ne, q + 1, q + 1 + v, q + 2 + v))
}

/// `setting_at` as a predicate value.
pub open spec fn setting_pred() -> spec_fn(Seq<char>, int) -> bool {
    |t: Seq<char>, k: int| setting_at(t, k) is Some
}

/// The leftmost setting at or after `pos`: `(start, name_end, value_start, value_end, end)`.
pub open spec fn next_setting(s: Seq<char>, pos: int) -> Option<(int, int, int, int, int)> {
    match first_from(s, pos, setting_pred()) {
        Some(i) => match setting_at(s, i) {
            Some((a, b, c, d)) => Some((i, a, b, c, d)),
            None => None,
        },
        None => None,
    }
}

/// A value as stored offline: its address made relative to the assets
/// directory by dropping `http://` and `https://`.
pub open spec fn offline_value(value: Seq<char>) -> Seq<char> {
    replace_all_spec(replace_all_spec(value, "http://"@, Seq::empty()), "https://"@, Seq::empty())
}

/// What a setting becomes: a value that starts with `http` is pointed at the
/// saved copy, `{name}='../assets/{offline value}'`; others stay as they are.
pub open spec fn setting_replacement(name: Seq<char>, value: Seq<char>, whole: Seq<char>) -> Seq<char> {
    if has_prefix(value, "http"@) {
        name + "='../assets/"@ + offline_value(value) + "'"@
    } else {
        whole
    }
}

/// The script text from `pos` on with every setting rewritten, and the
/// settings met, in order.
pub open spec fn settings_from(s: Seq<char>, pos: int) -> (Seq<char>, Seq<(Seq<char>, Seq<char>)>)
    decreases s.len() - pos,
{
    if pos < 0 || pos > s.len() {
        (Seq::empty(), Seq::empty())
    } else {
        match next_setting(s, pos) {
            Some((i, a, b, c, d)) => if pos <= i < a <= b <= c < d <= s.len() {
                let rest = settings_from(s, d);
                (
                    s.subrange(pos, i) + setting_replacement(
                        s.subrange(i, a),
                        s.subrange(b, c),
                        s.subrange(i, d),
                    ) + rest.0,
                    seq![(s.subrange(i, a), s.subrange(b, c))] + rest.1,
                )
            } else {
                (s.subrange(pos, s.len() as int), Seq::empty())
            },
            None => (s.subrange(pos, s.len() as int), Seq::empty()),
        }
    }
}

fn next_setting_exec(s: &Vec<char>, pos: usize, us: &Vec<char>) -> (r: Option<
    (usize, usize, usize, usize, usize),
>)
    requires
        us@ == "__"@,
        pos <= s.len(),
    ensures
        match r {
            Some((i, a, b, c, d)) => next_setting(s@, pos as int) == Some(
                (i as int, a as int, b as int, c as int, d as int),
            ) && pos <= i < a <= b <= c < d <= s.len(),
            None => next_setting(s@, pos as int) is None,
        },
{
    let mut i = pos;
    while i < s.len()
        invariant
            pos <= i <= s.len(),
            us@ == "__"@,
            first_from(s@, pos as int, setting_pred()) == first_from(s@, i as int, setting_pred()),
        decreases s.len() - i,
    {
        match setting_at_exec(s, i, us) {
            Some((a, b, c, d)) => {
                return Some((i, a, b, c, d));
            },
            None => {},
        }
        i = i + 1;
    }
    match setting_at_exec(s, s.len(), us) {
        Some((a, b, c, d)) => {
            return Some((s.len(), a, b, c, d));
        },
        None => {},
    }
    assert(first_from(s@, s@.len() as int + 1, setting_pred()) is None);
    None
}

/// View of a list of settings.
pub open spec fn pairs_view(v: Seq<(Vec<char>, Vec<char>)>) -> Seq<(Seq<char>, Seq<char>)> {
    v.map_values(|p: (Vec<char>, Vec<char>)| (p.0@, p.1@))
}

/// Rewrites every setting of the script text and lists the settings met.
pub fn rewrite_settings(s: &Vec<char>) -> (r: (Vec<char>, Vec<(Vec<char>, Vec<char>)>))
    ensures
        r.0@ == settings_from(s@, 0).0,
        pairs_view(r.1@) == settings_from(s@, 0).1,
{
    let us = chars_of("__");
    let http = chars_of("http");
    let http_scheme = chars_of("http://");
    let https_scheme = chars_of("https://");
    let empty: Vec<char> = Vec::new();
    proof {
        reveal_strlit("__");
        reveal_strlit("http://");
        reveal_strlit("https://");
        reveal_strlit("'");
    }
    let mut out: Vec<char> = Vec::new();
    let mut vars: Vec<(Vec<char>, Vec<char>)> = Vec::new();
    let mut pos: usize = 0;
    while pos < s.len()
        invariant
            pos <= s.len(),
            us@ == "__"@,
            http@ == "http"@,
            http_scheme@ == "http://"@,
            https_scheme@ == "https://"@,
            empty@ == Seq::<char>::empty(),
            "http://"@.len() > 0,
            "https://"@.len() > 0,
            settings_from(s@, 0).0 == out@ + settings_from(s@, pos as int).0,
            settings_from(s@, 0).1 == pairs_view(vars@) + settings_from(s@, pos as int).1,
        decreases s.len() - pos,
    {
        match next_setting_exec(s, pos, &us) {
            Some((i, a, b, c, d)) => {
                let ghost before_out = out@;
                let ghost before_vars = pairs_view(vars@);
                let gap = sub_vec(s, pos, i);
                push_all(&mut out, &gap);
                let name = sub_vec(s, i, a);
                let value = sub_vec(s, b, c);
                if starts_with(&value, &http) {
                    push_all(&mut out, &name);
                    push_str(&mut out, "='../assets/");
                    let v1 = replace_all(&value, &http_scheme, &empty);
                    let v2 = replace_all(&v1, &https_scheme, &empty);
                    push_all(&mut out, &v2);
                    push_str(&mut out, "'");
                } else {
                    let whole = sub_vec(s, i, d);
                    push_all(&mut out, &whole);
                }
                vars.push((name, value));
                proof {
                    assert(out@ =~= before_out + s@.subrange(pos as int, i as int)
                        + setting_replacement(
                        s@.subrange(i as int, a as int),
                        s@.subrange(b as int, c as int),
                        s@.subrange(i as int, d as int),
                    ));
                    assert(pairs_view(vars@) =~= before_vars.push(
                        (s@.subrange(i as int, a as int), s@.subrange(b as int, c as int)),
                    ));
                }
                pos = d;
            },
            None => {
                let rest = sub_vec(s, pos, s.len());
                push_all(&mut out, &rest);
                proof {
                    assert(next_setting(s@, s@.len() as int) is None) by {
                        lemma_no_setting_at_end(s@);
                    }
                }
                pos = s.len();
            },
        }
    }
    proof {
        lemma_no_setting_at_end(s@);
        assert(settings_from(s@, pos as int).0 =~= Seq::<char>::empty());
        assert(out@ + Seq::<char>::empty() =~= out@);
        assert(pairs_view(vars@) + Seq::<(Seq<char>, Seq<char>)>::empty() =~= pairs_view(vars@));
    }
    (out, vars)
}

pub proof fn lemma_no_setting_at_end(s: Seq<char>)
    ensures
        next_setting(s, s.len() as int) is None,
{
    reveal_strlit("__");
    assert(setting_at(s, s.len() as int) is None);
    assert(first_from(s, s.len() as int + 1, setting_pred()) is None);
}

// ---------------------------------------------------------------------------
// Joined addresses: (__[A-Z0-9_]+)\+['"](.+?)['"]
// ---------------------------------------------------------------------------

/// A quote character is at the index.
pub open spec fn quote_stop() -> spec_fn(Seq<char>, int) -> bool {
    |t: Seq<char>, k: int| 0 <= k < t.len() && is_quote(t[k])
}

/// A joined address at `i`: `(name_end, part_start, part_end, end)`.
pub open spec fn joined_at(s: Seq<char>, i: int) -> Option<(int, int, int, int)> {
    let n = name_run(s, i + 2);
    let ne = i + 2 + n;
    if occurs_at(s, i, "__"@) && n >= 1 && ne + 1 < s.len() && s[ne] == '+' && is_quote(s[ne + 1]) {
        match lazy_end(s, ne + 3, quote_stop()) {
            Some(e) => Some((ne, ne + 2, e, e + 1)),
            None => None,
        }
    } else {
        None
    }
}

/// `joined_at` as a predicate value.
pub open spec fn joined_pred() -> spec_fn(Seq<char>, int) -> bool {
    |t: Seq<char>, k: int| joined_at(t, k) is Some
}

/// The leftmost joined address at or after `pos`.
pub open spec fn next_joined(s: Seq<char>, pos: int) -> Option<(int, int, int, int, int)> {
    match first_from(s, pos, joined_pred()) {
        Some(i) => match joined_at(s, i) {
            Some((a, b, c, d)) => Some((i, a, b, c, d)),
            None => None,
        },
        None => None,
    }
}

/// An address without its query: what precedes its last `?`.
pub open spec fn without_query(part: Seq<char>) -> Seq<char> {
    match last_index_of(part, '?') {
        Some(k) => part.subrange(0, k),
        None => part,
    }
}

/// The value of setting `name` (the last one met), if any.
pub open spec fn setting_value(settings: Seq<(Seq<char>, Seq<char>)>, name: Seq<char>) -> Option<Seq<char>>
    decreases settings.len(),
{
    if settings.len() == 0 {
        None
    } else if settings.last().0 == name {
        Some(settings.last().1)
    } else {
        setting_value(settings.drop_last(), name)
    }
}

/// The script text from `pos` on with every joined address written as
/// `{name}+"{part without query}"`, and the addresses to save: for each
/// joined address whose setting is known, the setting's value followed by
/// the whole part.
pub open spec fn joined_from(s: Seq<char>, pos: int, settings: Seq<(Seq<char>, Seq<char>)>) -> (
    Seq<char>,
    Seq<Seq<char>>,
)
    decreases s.len() - pos,
{
    if pos < 0 || pos > s.len() {
        (Seq::empty(), Seq::empty())
    } else {
        match next_joined(s, pos) {
            Some((i, a, b, c, d)) => if pos <= i < a < b <= c < d <= s.len() {
                let rest = joined_from(s, d, settings);
                let name = s.subrange(i, a);
                let part = s.subrange(b, c);
                (
                    s.subrange(pos, i) + name + "+\""@ + without_query(part) + "\""@ + rest.0,
                    match setting_value(settings, name) {
                        Some(v) => seq![v + part] + rest.1,
                        None => rest.1,
                    },
                )
            } else {
                (s.subrange(pos, s.len() as int), Seq::empty())
            },
            None => (s.subrange(pos, s.len() as int), Seq::empty()),
        }
    }
}

fn lazy_quote(s: &Vec<char>, e0: usize) -> (r: Option<usize>)
    ensures
        match r {
            Some(e) => lazy_end(s@, e0 as int, quote_stop()) == Some(e as int) && e0 <= e < s.len(),
            None => lazy_end(s@, e0 as int, quote_stop()) is None,
        },
{
    let mut e = e0;
    while e >= 1 && e < s.len() && s[e - 1] != '\n' && !(s[e] == '\'' || s[e] == '"')
        invariant
            e0 <= e,
            lazy_end(s@, e0 as int, quote_stop()) == lazy_end(s@, e as int, quote_stop()),
        decreases s.len() + 1 - e,
    {
        e = e + 1;
    }
    if e >= 1 && e < s.len() && s[e - 1] != '\n' {
        Some(e)
    } else {
        if e == s.len() && e >= 1 && s[e - 1] != '\n' {
            assert(lazy_end(s@, e + 1, quote_stop()) is None);
        }
        None
    }
}

fn joined_at_exec(s: &Vec<char>, i: usize, us: &Vec<char>) -> (r: Option<(usize, usize, usize, usize)>)
    requires
        us@ == "__"@,
    ensures
        match r {
            Some((a, b, c, d)) => joined_at(s@, i as int) == Some((a as int, b as int, c as int, d as int))
                && i < a < b <= c < d <= s.len(),
            None => joined_at(s@, i as int) is None,
        },
{
    proof {
        reveal_strlit("__");
    }
    if !occurs_at_exec(s, i, us) {
        return None;
    }
    let n = name_run_exec(s, i + 2);
    if n == 0 {
        return None;
    }
    let ne = i + 2 + n;
    if ne >= s.len() || ne + 1 >= s.len() || s[ne] != '+' || !(s[ne + 1] == '\'' || s[ne + 1] == '"') {
        return None;
    }
    if ne + 2 >= s.len() {
        assert(lazy_end(s@, ne + 3, quote_stop()) is None);
        return None;
    }
    match lazy_quote(s, ne + 3) {
        Some(e) => Some((ne, ne + 2, e, e + 1)),
        None => None,
    }
}

fn next_joined_exec(s: &Vec<char>, pos: usize, us: &Vec<char>) -> (r: Option<
    (usize, usize, usize, usize, usize),
>)
    requires
        us@ == "__"@,
        pos <= s.len(),
    ensures
        match r {
            Some((i, a, b, c, d)) => next_joined(s@, pos as int) == Some(
                (i as int, a as int, b as int, c as int, d as int),
            ) && pos <= i < a < b <= c < d <= s.len(),
            None => next_joined(s@, pos as int) is None,
        },
{
    let mut i = pos;
    while i < s.len()
        invariant
            pos <= i <= s.len(),
            us@ == "__"@,
            first_from(s@, pos as int, joined_pred()) == first_from(s@, i as int, joined_pred()),
        decreases s.len() - i,
    {
        match joined_at_exec(s, i, us) {
            Some((a, b, c, d)) => {
                return Some((i, a, b, c, d));
            },
            None => {},
        }
        i = i + 1;
    }
    match joined_at_exec(s, s.len(), us) {
        Some((a, b, c, d)) => {
            return Some((s.len(), a, b, c, d));
        },
        None => {},
    }
    assert(first_from(s@, s@.len() as int + 1, joined_pred()) is None);
    None
}

pub(crate) fn setting_value_exec(settings: &Vec<(Vec<char>, Vec<char>)>, name: &Vec<char>) -> (r: Option<usize>)
    ensures
        match r {
            Some(k) => k < settings.len() && setting_value(pairs_view(settings@), name@) == Some(
                settings@[k as int].1@,
            ),
            None => setting_value(pairs_view(settings@), name@) is None,
        },
{
    let mut n = settings.len();
    assert(pairs_view(settings@).take(n as int) =~= pairs_view(settings@));
    while n > 0
        invariant
            n <= settings.len(),
            setting_value(pairs_view(settings@), name@) == setting_value(
                pairs_view(settings@).take(n as int),
                name@,
            ),
        decreases n,
    {
        proof {
            assert(pairs_view(settings@).take(n as int).drop_last() =~= pairs_view(settings@).take(
                n - 1,
            ));
        }
        if vec_eq(&settings[n - 1].0, name) {
            return Some(n - 1);
        }
        n = n - 1;
    }
    None
}

/// Rewrites every joined address of the script text (see `joined_from`).
pub fn rewrite_joined(s: &Vec<char>, settings: &Vec<(Vec<char>, Vec<char>)>) -> (r: (Vec<char>, Vec<Vec<char>>))
    ensures
        r.0@ == joined_from(s@, 0, pairs_view(settings@)).0,
        r.1@.map_values(|v: Vec<char>| v@) == joined_from(s@, 0, pairs_view(settings@)).1,
{
    let us = chars_of("__");
    proof {
        reveal_strlit("__");
        reveal_strlit("+\"");
        reveal_strlit("\"");
    }
    let ghost sv = pairs_view(settings@);
    let mut out: Vec<char> = Vec::new();
    let mut urls: Vec<Vec<char>> = Vec::new();
    let mut pos: usize = 0;
    assert(settings@.take(settings.len() as int) =~= settings@);
    while pos < s.len()
        invariant
            pos <= s.len(),
            us@ == "__"@,
            sv == pairs_view(settings@),
            joined_from(s@, 0, sv).0 == out@ + joined_from(s@, pos as int, sv).0,
            joined_from(s@, 0, sv).1 == urls@.map_values(|v: Vec<char>| v@) + joined_from(
                s@,
                pos as int,
                sv,
            ).1,
        decreases s.len() - pos,
    {
        match next_joined_exec(s, pos, &us) {
            Some((i, a, b, c, d)) => {
                let ghost before_out = out@;
                let ghost before_urls = urls@.map_values(|v: Vec<char>| v@);
                let gap = sub_vec(s, pos, i);
                push_all(&mut out, &gap);
                let name = sub_vec(s, i, a);
                let part = sub_vec(s, b, c);
                push_all(&mut out, &name);
                push_str(&mut out, "+\"");
                match last_index(&part, '?') {
                    Some(k) => {
                        let head = sub_vec(&part, 0, k);
                        push_all(&mut out, &head);
                    },
                    None => {
                        push_all(&mut out, &part);
                    },
                }
                push_str(&mut out, "\"");
                match setting_value_exec(settings, &name) {
                    Some(k) => {
                        let mut u = settings[k].1.clone();
                        push_all(&mut u, &part);
                        urls.push(u);
                        proof {
                            assert(urls@.map_values(|v: Vec<char>| v@) =~= before_urls.push(
                                sv[k as int].1 + part@,
                            ));
                        }
                    },
                    None => {},
                }
                proof {
                    assert(out@ =~= before_out + s@.subrange(pos as int, i as int) + name@ + "+\""@
                        + without_query(part@) + "\""@);
                }
                pos = d;
            },
            None => {
                let rest = sub_vec(s, pos, s.len());
                push_all(&mut out, &rest);
                proof {
                    lemma_no_joined_at_end(s@);
                }
                pos = s.len();
            },
        }
    }
    proof {
        lemma_no_joined_at_end(s@);
        assert(out@ + Seq::<char>::empty() =~= out@);
        assert(urls@.map_values(|v: Vec<char>| v@) + Seq::<Seq<char>>::empty() =~= urls@.map_values(
            |v: Vec<char>| v@,
        ));
    }
    (out, urls)
}

proof fn lemma_no_joined_at_end(s: Seq<char>)
    ensures
        next_joined(s, s.len() as int) is None,
{
    reveal_strlit("__");
    assert(joined_at(s, s.len() as int) is None);
    assert(first_from(s, s.len() as int + 1, joined_pred()) is None);
}

// ---------------------------------------------------------------------------
// Removed parts: advertisement slots, user id, user name
// ---------------------------------------------------------------------------

/// The parts of the settings script that a saved page drops.
#[derive(Debug, Clone, Copy, PartialEq, Eq)]
pub enum Dropped {
    /// `,"dsid_bbs_ads\d+":__DSBASE+.+?\n`
    AdSlot,
    /// `__CURRENT_UID\s*=\s*(.+?),\n`
    UserId,
    /// `__CURRENT_UNAME\s*=\s*'(.+?)',`
    UserName,
}

/// End of an advertisement slot at `i`: after `"__DSBASE` comes at least one
/// more character before the first line break, which ends the slot.
pub open spec fn ad_slot_end(s: Seq<char>, i: int) -> Option<int> {
    let d = digit_run(s, i + 14);
    let p = i + 14 + d + 10;
    if occurs_at(s, i, ",\"dsid_bbs_ads"@) && d >= 1 && occurs_at(s, i + 14 + d, "\":__DSBASE"@) {
        match next_index_of(s, '\n', p) {
            Some(nl) => if nl > p {
                Some(nl + 1)
            } else {
                None
            },
            None => None,
        }
    } else {
        None
    }
}

/// The lazy `(.+?),\n` after `=` and `len` of the following spaces, trying
/// fewer spaces when it fails (the spaces are matched greedily).
pub open spec fn user_id_tail(s: Seq<char>, start: int, len: nat) -> Option<int>
    decreases len,
{
    match lazy_end(s, start + len + 1, literal_stop(",\n"@)) {
        Some(e) => Some(e),
        None => if len == 0 {
            None
        } else {
            user_id_tail(s, start, (len - 1) as nat)
        },
    }
}

/// End of a user-id assignment at `i`.
pub open spec fn user_id_end(s: Seq<char>, i: int) -> Option<int> {
    let p = i + 13 + space_run(s, i + 13);
    if occurs_at(s, i, "__CURRENT_UID"@) && p < s.len() && s[p] == '=' {
        match user_id_tail(s, p + 1, space_run(s, p + 1)) {
            Some(e) => Some(e + 2),
            None => None,
        }
    } else {
        None
    }
}

/// End of the dropped part of kind `k` at `i`, if one starts there.
pub open spec fn dropped_end(k: Dropped, s: Seq<char>, i: int) -> Option<int> {
    match k {
        Dropped::AdSlot => ad_slot_end(s, i),
        Dropped::UserId => user_id_end(s, i),
        Dropped::UserName => match uname_at(s, i) {
            Some((_, e)) => Some(e + 2),
            None => None,
        },
    }
}

/// `dropped_end` as a predicate value.
pub open spec fn dropped_pred(k: Dropped) -> spec_fn(Seq<char>, int) -> bool {
    |t: Seq<char>, j: int| dropped_end(k, t, j) is Some
}

/// `s[pos..]` without every (leftmost, non-overlapping) part of kind `k`.
pub open spec fn drop_from(k: Dropped, s: Seq<char>, pos: int) -> Seq<char>
    decreases s.len() - pos,
{
    if pos < 0 || pos > s.len() {
        Seq::empty()
    } else {
        match first_from(s, pos, dropped_pred(k)) {
            Some(i) => match dropped_end(k, s, i) {
                Some(e) => if pos <= i < e <= s.len() {
                    s.subrange(pos, i) + drop_from(k, s, e)
                } else {
                    s.subrange(pos, s.len() as int)
                },
                None => s.subrange(pos, s.len() as int),
            },
            None => s.subrange(pos, s.len() as int),
        }
    }
}

fn next_newline(s: &Vec<char>, p: usize) -> (r: Option<usize>)
    ensures
        match r {
            Some(k) => next_index_of(s@, '\n', p as int) == Some(k as int) && p <= k < s.len(),
            None => next_index_of(s@, '\n', p as int) is None,
        },
{
    let mut k = p;
    while k < s.len() && s[k] != '\n'
        invariant
            p <= k,
            next_index_of(s@, '\n', p as int) == next_index_of(s@, '\n', k as int),
        decreases s.len() - k,
    {
        k = k + 1;
    }
    if k < s.len() {
        Some(k)
    } else {
        None
    }
}

fn user_id_tail_exec(s: &Vec<char>, start: usize, len: usize, stop: &Vec<char>) -> (r: Option<usize>)
    requires
        stop@ == ",\n"@,
        start + len <= s.len(),
    ensures
        match r {
            Some(e) => user_id_tail(s@, start as int, len as nat) == Some(e as int) && e <= s.len(),
            None => user_id_tail(s@, start as int, len as nat) is None,
        },
    decreases len,
{
    let found = if start + len < s.len() {
        lazy_end_literal(s, start + len + 1, stop)
    } else {
        assert(lazy_end(s@, start + len + 1, literal_stop(stop@)) is None);
        None
    };
    match found {
        Some(e) => Some(e),
        None => if len == 0 {
            None
        } else {
            user_id_tail_exec(s, start, len - 1, stop)
        },
    }
}

fn dropped_end_exec(k: Dropped, s: &Vec<char>, i: usize, lits: &Vec<Vec<char>>) -> (r: Option<usize>)
    requires
        lits@.len() == 6,
        lits@[0]@ == ",\"dsid_bbs_ads"@,
        lits@[1]@ == "\":__DSBASE"@,
        lits@[2]@ == "__CURRENT_UID"@,
        lits@[3]@ == ",\n"@,
        lits@[4]@ == "__CURRENT_UNAME"@,
        lits@[5]@ == "',"@,
    ensures
        match r {
            Some(e) => dropped_end(k, s@, i as int) == Some(e as int) && i < e <= s.len(),
            None => dropped_end(k, s@, i as int) is None,
        },
{
    proof {
        reveal_strlit(",\"dsid_bbs_ads");
        reveal_strlit("\":__DSBASE");
        reveal_strlit("__CURRENT_UID");
        reveal_strlit(",\n");
        reveal_strlit("__CURRENT_UNAME");
        reveal_strlit("',");
    }
    match k {
        Dropped::AdSlot => {
            if !occurs_at_exec(s, i, &lits[0]) {
                return None;
            }
            let d = digit_run_exec(s, i + 14);
            if d == 0 || !occurs_at_exec(s, i + 14 + d, &lits[1]) {
                return None;
            }
            let p = i + 14 + d + 10;
            match next_newline(s, p) {
                Some(nl) => if nl > p {
                    Some(nl + 1)
                } else {
                    None
                },
                None => None,
            }
        },
        Dropped::UserId => {
            if !occurs_at_exec(s, i, &lits[2]) {
                return None;
            }
            let p = i + 13 + space_run_exec(s, i + 13);
            if p >= s.len() || s[p] != '=' {
                return None;
            }
            let w = space_run_exec(s, p + 1);
            match user_id_tail_exec(s, p + 1, w, &lits[3]) {
                Some(e) => {
                    proof {
                        lemma_user_id_tail(s@, p + 1, w as nat);
                    }
                    Some(e + 2)
                },
                None => None,
            }
        },
        Dropped::UserName => match uname_at_exec(s, i, &lits[4], &lits[5]) {
            Some((b, e)) => {
                proof {
                    crate::patterns::lemma_lazy_end(
                        s@,
                        b + 1,
                        literal_stop("',"@),
                    );
                }
                Some(e + 2)
            },
            None => None,
        },
    }
}

proof fn lemma_user_id_tail(s: Seq<char>, start: int, len: nat)
    requires
        0 <= start,
    ensures
        user_id_tail(s, start, len) matches Some(e) ==> start < e && e + 2 <= s.len(),
    decreases len,
{
    reveal_strlit(",\n");
    crate::patterns::lemma_lazy_end(s, start + len + 1, literal_stop(",\n"@));
    if len > 0 {
        lemma_user_id_tail(s, start, (len - 1) as nat);
    }
}

fn dropped_literals() -> (r: Vec<Vec<char>>)
    ensures
        r@.len() == 6,
        r@[0]@ == ",\"dsid_bbs_ads"@,
        r@[1]@ == "\":__DSBASE"@,
        r@[2]@ == "__CURRENT_UID"@,
        r@[3]@ == ",\n"@,
        r@[4]@ == "__CURRENT_UNAME"@,
        r@[5]@ == "',"@,
{
    let mut r: Vec<Vec<char>> = Vec::new();
    r.push(chars_of(",\"dsid_bbs_ads"));
    r.push(chars_of("\":__DSBASE"));
    r.push(chars_of("__CURRENT_UID"));
    r.push(chars_of(",\n"));
    r.push(chars_of("__CURRENT_UNAME"));
    r.push(chars_of("',"));
    r
}

fn next_dropped_exec(k: Dropped, s: &Vec<char>, pos: usize, lits: &Vec<Vec<char>>) -> (r: Option<
    (usize, usize),
>)
    requires
        pos <= s.len(),
        lits@.len() == 6,
        lits@[0]@ == ",\"dsid_bbs_ads"@,
        lits@[1]@ == "\":__DSBASE"@,
        lits@[2]@ == "__CURRENT_UID"@,
        lits@[3]@ == ",\n"@,
        lits@[4]@ == "__CURRENT_UNAME"@,
        lits@[5]@ == "',"@,
    ensures
        match r {
            Some((a, e)) => first_from(s@, pos as int, dropped_pred(k)) == Some(a as int)
                && dropped_end(k, s@, a as int) == Some(e as int) && pos <= a < e <= s.len(),
            None => first_from(s@, pos as int, dropped_pred(k)) is None,
        },
{
    let mut i = pos;
    while i < s.len()
        invariant
            pos <= i <= s.len(),
            lits@.len() == 6,
            lits@[0]@ == ",\"dsid_bbs_ads"@,
            lits@[1]@ == "\":__DSBASE"@,
            lits@[2]@ == "__CURRENT_UID"@,
            lits@[3]@ == ",\n"@,
            lits@[4]@ == "__CURRENT_UNAME"@,
            lits@[5]@ == "',"@,
            first_from(s@, pos as int, dropped_pred(k)) == first_from(s@, i as int, dropped_pred(k)),
        decreases s.len() - i,
    {
        match dropped_end_exec(k, s, i, lits) {
            Some(e) => {
                return Some((i, e));
            },
            None => {},
        }
        i = i + 1;
    }
    match dropped_end_exec(k, s, s.len(), lits) {
        Some(e) => {
            return Some((s.len(), e));
        },
        None => {},
    }
    assert(first_from(s@, s@.len() as int + 1, dropped_pred(k)) is None);
    None
}

/// Removes every part of kind `k` from the script text.
pub fn drop_all(k: Dropped, s: &Vec<char>) -> (r: Vec<char>)
    ensures
        r@ == drop_from(k, s@, 0),
{
    let lits = dropped_literals();
    let mut out: Vec<char> = Vec::new();
    let mut pos: usize = 0;
    while pos < s.len()
        invariant
            pos <= s.len(),
            lits@.len() == 6,
            lits@[0]@ == ",\"dsid_bbs_ads"@,
            lits@[1]@ == "\":__DSBASE"@,
            lits@[2]@ == "__CURRENT_UID"@,
            lits@[3]@ == ",\n"@,
            lits@[4]@ == "__CURRENT_UNAME"@,
            lits@[5]@ == "',"@,
            drop_from(k, s@, 0) == out@ + drop_from(k, s@, pos as int),
        decreases s.len() - pos,
    {
        match next_dropped_exec(k, s, pos, &lits) {
            Some((a, e)) => {
                let gap = sub_vec(s, pos, a);
                let ghost before = out@;
                push_all(&mut out, &gap);
                assert(drop_from(k, s@, pos as int) == s@.subrange(pos as int, a as int) + drop_from(
                    k,
                    s@,
                    e as int,
                ));
                assert(before + drop_from(k, s@, pos as int) =~= out@ + drop_from(k, s@, e as int));
                pos = e;
            },
            None => {
                let rest = sub_vec(s, pos, s.len());
                push_all(&mut out, &rest);
                assert(drop_from(k, s@, s@.len() as int) =~= Seq::<char>::empty()) by {
                    lemma_nothing_dropped_at_end(k, s@);
                }
                pos = s.len();
            },
        }
    }
    proof {
        lemma_nothing_dropped_at_end(k, s@);
        assert(out@ + Seq::<char>::empty() =~= out@);
    }
    out
}

proof fn lemma_nothing_dropped_at_end(k: Dropped, s: Seq<char>)
    ensures
        drop_from(k, s, s.len() as int) =~= Seq::<char>::empty(),
{
    reveal_strlit(",\"dsid_bbs_ads");
    reveal_strlit("__CURRENT_UID");
    reveal_strlit("__CURRENT_UNAME");
    assert(dropped_end(k, s, s.len() as int) is None);
    assert(first_from(s, s.len() as int + 1, dropped_pred(k)) is None);
    assert(first_from(s, s.len() as int, dropped_pred(k)) is None);
}

// ---------------------------------------------------------------------------
// The whole rewrite
// ---------------------------------------------------------------------------

/// The settings with `__RES_STYLE` set to the value of `__IMG_STYLE`, when
/// that one is set (later settings win over earlier ones of the same name).
pub open spec fn with_style_alias(settings: Seq<(Seq<char>, Seq<char>)>) -> Seq<(Seq<char>, Seq<char>)> {
    match setting_value(settings, "__IMG_STYLE"@) {
        Some(v) => settings.push(("__RES_STYLE"@, v)),
        None => settings,
    }
}

/// The cache-busting suffix removed from the script.
pub open spec fn time_suffix() -> Seq<char> {
    "+Math.floor(__NOW/300)"@
}

/// The settings script as saved, with the settings met (alias included)
/// and the addresses to save.
pub open spec fn adapted_script(s: Seq<char>, remove_ads: bool, remove_user_info: bool) -> (
    Seq<char>,
    Seq<(Seq<char>, Seq<char>)>,
    Seq<Seq<char>>,
) {
    let settings = with_style_alias(settings_from(s, 0).1);
    let joined = joined_from(settings_from(s, 0).0, 0, settings);
    let t = replace_all_spec(joined.0, time_suffix(), Seq::empty());
    let t = if remove_ads {
        drop_from(Dropped::AdSlot, t, 0)
    } else {
        t
    };
    let t = if remove_user_info {
        drop_from(Dropped::UserName, drop_from(Dropped::UserId, t, 0), 0)
    } else {
        t
    };
    (t, settings, joined.1)
}

/// Adds the `__RES_STYLE` alias of `__IMG_STYLE` (see `with_style_alias`).
pub fn add_style_alias(settings: &mut Vec<(Vec<char>, Vec<char>)>)
    ensures
        pairs_view(final(settings)@) == with_style_alias(pairs_view(old(settings)@)),
{
    let name = chars_of("__IMG_STYLE");
    match setting_value_exec(settings, &name) {
        Some(k) => {
            let v = settings[k].1.clone();
            let ghost before = pairs_view(settings@);
            settings.push((chars_of("__RES_STYLE"), v));
            proof {
                assert(pairs_view(settings@) =~= before.push(("__RES_STYLE"@, v@)));
            }
        },
        None => {},
    }
}

/// Rewrites the settings script of a page for offline use: settings that
/// hold an address point at the saved copy, joined addresses lose their
/// query, the cache-busting suffix goes, and advertisement slots and the
/// user's id and name go when asked.  Returns the new script, the settings
/// met and the addresses to save.
pub fn adapt_settings_script(s: &Vec<char>, remove_ads: bool, remove_user_info: bool) -> (r: (
    Vec<char>,
    Vec<(Vec<char>, Vec<char>)>,
    Vec<Vec<char>>,
))
    ensures
        r.0@ == adapted_script(s@, remove_ads, remove_user_info).0,
        pairs_view(r.1@) == adapted_script(s@, remove_ads, remove_user_info).1,
        r.2@.map_values(|v: Vec<char>| v@) == adapted_script(s@, remove_ads, remove_user_info).2,
{
    let (text, mut settings) = rewrite_settings(s);
    add_style_alias(&mut settings);
    let (joined, urls) = rewrite_joined(&text, &settings);
    let suffix = chars_of("+Math.floor(__NOW/300)");
    let empty: Vec<char> = Vec::new();
    proof {
        reveal_strlit("+Math.floor(__NOW/300)");
    }
    let mut t = replace_all(&joined, &suffix, &empty);
    if remove_ads {
        t = drop_all(Dropped::AdSlot, &t);
    }
    if remove_user_info {
        let t1 = drop_all(Dropped::UserId, &t);
        t = drop_all(Dropped::UserName, &t1);
    }
    (t, settings, urls)
}

impl NGAForum {
    /// Rewrites the settings script of a page for offline use, removing
    /// advertisement slots and the user's id and name as this forum is
    /// configured to (see `adapt_settings_script`).
    pub fn adapt_script(&self, script: &Vec<char>) -> (r: (
        Vec<char>,
        Vec<(Vec<char>, Vec<char>)>,
        Vec<Vec<char>>,
    ))
        ensures
            r.0@ == adapted_script(script@, self.config.remove_ads, self.config.remove_user_info).0,
            pairs_view(r.1@) == adapted_script(
                script@,
                self.config.remove_ads,
                self.config.remove_user_info,
            ).1,
            r.2@.map_values(|v: Vec<char>| v@) == adapted_script(
                script@,
                self.config.remove_ads,
                self.config.remove_user_info,
            ).2,
    {
        adapt_settings_script(script, self.config.remove_ads, self.config.remove_user_info)
    }
}

} // verus!
