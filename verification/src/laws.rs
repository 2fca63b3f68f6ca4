//! Properties that relate several functions of the library.
use vstd::prelude::*;
use crate::css::{css_replacement, css_rewrite, css_rewrite_from, next_css_match, table_lookup};
use crate::downloader::{distinct_in_order, download_page_count, last_forum_with, later_pages, Downloader};
use crate::error::ErrorView;
use crate::forums::common::{entry_title, thread_entry_name, title_without_separators};
use crate::assets::file_safe_char;
use crate::forums::discuz::{
    default_thread_url_template_spec, discuz_filename, discuz_local_link, discuz_thread_url,
    discuz_tid_pn,
};
use crate::forums::nga::{nga_filename, nga_pn_from_filename, nga_thread_url, nga_tid_pn, uname_at};
use crate::forums::nga_script::{
    adapted_script, drop_from, dropped_end, dropped_pred, joined_from, joined_pred, next_joined,
    next_setting, setting_pred, settings_from, time_suffix, with_style_alias, Dropped,
};
use crate::forums::v2ex::{v2ex_filename, v2ex_local_link, v2ex_thread_url, v2ex_tid_pn};
use crate::forums::{forum_config_domain, forum_filename, forum_pn_from_filename, Forum};
use crate::i18n::{catalogue_of, language_for, language_tag_spec, lower_text, message_text};
use crate::downloader::Message;
use crate::forums::common::not_thread_url_message;
use crate::patterns::{
    digit_run, first_from, is_digit_class, last_page_marker, lemma_digit_run_ascii, lemma_digit_run_bound,
    lemma_first_from_found, lemma_first_from_none, lemma_no_page_marker, lemma_occurs_within,
    page_marker_at, slash_t_at, slash_t_at_pred, thread_dash_at, thread_dash_at_pred,
    thread_dash_captures, tid_eq_at, tid_eq_at_pred,
};
use crate::text::{
    after_last_spec, decimal_spec, is_ascii_digit, last_index_before, lemma_decimal_digits,
    lemma_parse_decimal, lemma_replace_skip, occurs_at, parse_usize_spec, replace_all_spec,
    replace_from, scan_digits,
};

verus! {

// ---------------------------------------------------------------------------
// Addresses and file names of pages
// ---------------------------------------------------------------------------

/// An NGA page address written by `generate_thread_url` for thread `tid`
/// and page `pn` reads back, through `extract_tid_pn`, as `(tid, pn)` —
/// when the thread id is a number and no `tid=` in the base address is
/// followed by a digit.
pub proof fn law_nga_address_round_trip(base: Seq<char>, tid: Seq<char>, pn: usize)
    requires
        forall|j: int|
            occurs_at(base, j, "tid="@) && j + 4 < base.len() ==> !is_digit_class(#[trigger] base[j + 4]),
        tid.len() >= 1,
        forall|k: int| 0 <= k < tid.len() ==> is_ascii_digit(#[trigger] tid[k]),
    ensures
        nga_tid_pn(nga_thread_url(base, tid, decimal_spec(pn as nat))) == Ok::<
            (Seq<char>, usize),
            ErrorView,
        >((tid, pn)),
{
    reveal_strlit("/read.php?tid=");
    reveal_strlit("&page=");
    reveal_strlit("tid=");
    let d = decimal_spec(pn as nat);
    lemma_decimal_digits(pn as nat);
    lemma_parse_decimal(pn);
    let lit = "/read.php?tid="@;
    let s = nga_thread_url(base, tid, d);
    let l = base.len() as int;
    let i0 = l + 10;
    let a = l + 14;
    let e = a + tid.len();
    let f = e + 6;
    assert(s.len() == f + d.len());
    assert forall|k: int| 0 <= k < l implies s[k] == base[k] by {}
    assert forall|k: int| 0 <= k < 14 implies s[l + k] == lit[k] by {}
    assert forall|k: int| 0 <= k < tid.len() implies s[a + k] == tid[k] by {}
    assert forall|k: int| 0 <= k < 6 implies s[e + k] == "&page="@[k] by {}
    assert forall|k: int| 0 <= k < d.len() implies s[f + k] == d[k] by {}
    // no match of `tid=\d+` before the one written
    assert forall|j: int| 0 <= j < i0 implies !#[trigger] tid_eq_at_pred()(s, j) by {
        assert(tid_eq_at_pred()(s, j) == tid_eq_at(s, j));
        if occurs_at(s, j, "tid="@) {
            assert(s.subrange(j, j + 4)[3] == s[j + 3]);
            assert(s[j + 3] == '=');
            if j + 4 <= l {
                assert(base.subrange(j, j + 4) =~= s.subrange(j, j + 4));
                assert(occurs_at(base, j, "tid="@));
                if j + 4 < l {
                    assert(s[j + 4] == base[j + 4]);
                    assert(!is_digit_class(base[j + 4]));
                } else {
                    assert(s[j + 4] == '/');
                }
                assert(digit_run(s, j + 4) == 0);
            } else {
                let o = j + 3 - l;
                assert(0 <= o <= 12);
                assert(s[j + 3] == lit[o]);
                assert(o == 0 || o == 1 || o == 2 || o == 3 || o == 4 || o == 5 || o == 6 || o == 7
                    || o == 8 || o == 9 || o == 10 || o == 11 || o == 12);
                assert(lit[o] != '=');
                assert(false);
            }
        }
    }
    // the written match
    assert(s.subrange(i0, i0 + 4) =~= "tid="@);
    lemma_digit_run_ascii(s, a, tid.len());
    assert(tid_eq_at(s, i0));
    lemma_first_from_found(s, 0, i0, tid_eq_at_pred());
    assert(first_from(s, 0, tid_eq_at_pred()) == Some(i0));
    // the page marker
    assert(s.subrange(e, e + 6) =~= "&page="@);
    lemma_digit_run_ascii(s, f, d.len());
    assert(page_marker_at(s, e));
    assert forall|k: int| e + 1 <= k < s.len() implies s[k] != '&' by {
        if k < f {
            assert(s[k] == "&page="@[k - e]);
        } else {
            assert(s[k] == d[k - f]);
            assert(is_ascii_digit(d[k - f]));
        }
    }
    lemma_no_page_marker(s, e + 1);
    assert(last_page_marker(s, e) == Some(e));
    assert(s.subrange(a, e) =~= tid);
    assert(s.subrange(f, f + d.len()) =~= d);
}

/// A V2EX page address written by `generate_thread_url` for thread `tid`
/// and page `pn` reads back, through `extract_tid_pn`, as `(tid, pn)` —
/// when the thread id is a number and no `/t/` in the base address is
/// followed by a digit.
pub proof fn law_v2ex_address_round_trip(name: Seq<char>, base: Seq<char>, tid: Seq<char>, pn: usize)
    requires
        forall|j: int|
            occurs_at(base, j, "/t/"@) && j + 3 < base.len() ==> !is_digit_class(#[trigger] base[j + 3]),
        tid.len() >= 1,
        forall|k: int| 0 <= k < tid.len() ==> is_ascii_digit(#[trigger] tid[k]),
    ensures
        v2ex_tid_pn(name, v2ex_thread_url(base, tid, decimal_spec(pn as nat))) == Ok::<
            (Seq<char>, usize),
            ErrorView,
        >((tid, pn)),
{
    reveal_strlit("/t/");
    reveal_strlit("?p=");
    reveal_strlit("1");
    let d = decimal_spec(pn as nat);
    lemma_decimal_digits(pn as nat);
    lemma_parse_decimal(pn);
    lemma_parse_decimal(1);
    assert(decimal_spec(1) =~= "1"@);
    let s = v2ex_thread_url(base, tid, d);
    let l = base.len() as int;
    let a = l + 3;
    let e = a + tid.len();
    assert forall|k: int| 0 <= k < l implies s[k] == base[k] by {}
    assert forall|k: int| 0 <= k < 3 implies s[l + k] == "/t/"@[k] by {}
    assert forall|k: int| 0 <= k < tid.len() implies s[a + k] == tid[k] by {}
    if d != "1"@ {
        assert forall|k: int| 0 <= k < 3 implies s[e + k] == "?p="@[k] by {}
        assert forall|k: int| 0 <= k < d.len() implies s[e + 3 + k] == d[k] by {}
        lemma_digit_run_ascii(s, e + 3, d.len());
        assert(s.subrange(e, e + 3) =~= "?p="@);
        assert(s.subrange(e + 3, e + 3 + d.len()) =~= d);
        lemma_digit_run_ascii(s, a, tid.len());
    } else {
        assert(s.len() == e);
        lemma_digit_run_ascii(s, a, tid.len());
        assert(pn == 1);
    }
    // no match of `/t/\d+` before the one written
    assert forall|j: int| 0 <= j < l implies !#[trigger] slash_t_at_pred()(s, j) by {
        assert(slash_t_at_pred()(s, j) == slash_t_at(s, j));
        if occurs_at(s, j, "/t/"@) {
            assert(s.subrange(j, j + 3)[1] == s[j + 1]);
            assert(s.subrange(j, j + 3)[2] == s[j + 2]);
            if j + 3 <= l {
                assert(base.subrange(j, j + 3) =~= s.subrange(j, j + 3));
                assert(occurs_at(base, j, "/t/"@));
                if j + 3 < l {
                    assert(s[j + 3] == base[j + 3]);
                    assert(!is_digit_class(base[j + 3]));
                } else {
                    assert(s[j + 3] == '/');
                }
                assert(digit_run(s, j + 3) == 0);
            } else if j == l - 1 {
                assert(s[j + 1] == '/');
                assert(false);
            } else {
                assert(j == l - 2);
                assert(s[j + 3] == 't');
                lemma_digit_run_ascii(s, j + 3, 0);
            }
        }
    }
    assert(s.subrange(l, l + 3) =~= "/t/"@);
    assert(slash_t_at(s, l));
    lemma_first_from_found(s, 0, l, slash_t_at_pred());
    assert(s.subrange(a, e) =~= tid);
}

/// The default Discuz address template filled in with `tid` and `pn`.
proof fn lemma_default_template(tid: Seq<char>, pn: Seq<char>)
    requires
        forall|k: int| 0 <= k < tid.len() ==> is_ascii_digit(#[trigger] tid[k]),
    ensures
        replace_all_spec(replace_all_spec(default_thread_url_template_spec(), "{tid}"@, tid), "{pn}"@, pn)
            == "thread-"@ + tid + "-"@ + pn + "-1.html"@,
{
    reveal_strlit("thread-{tid}-{pn}-1.html");
    reveal_strlit("{tid}");
    reveal_strlit("{pn}");
    reveal_strlit("thread-");
    reveal_strlit("-");
    reveal_strlit("-1.html");
    let t = "thread-{tid}-{pn}-1.html"@;
    let f1 = "{tid}"@;
    let f2 = "{pn}"@;
    assert(t.len() == 24);
    // first replacement
    assert forall|k: int| 0 <= k < 7 implies !#[trigger] occurs_at(t, k, f1) by {
        if occurs_at(t, k, f1) {
            assert(t.subrange(k, k + 5)[0] == t[k]);
            assert(k == 0 || k == 1 || k == 2 || k == 3 || k == 4 || k == 5 || k == 6);
        }
    }
    lemma_replace_skip(t, f1, tid, 0, 7);
    assert(t.subrange(7, 12) =~= f1);
    assert forall|k: int| 12 <= k < 24 implies !#[trigger] occurs_at(t, k, f1) by {
        if occurs_at(t, k, f1) {
            assert(t.subrange(k, k + 5)[0] == t[k]);
            assert(t.subrange(k, k + 5)[1] == t[k + 1]);
            assert(k == 12 || k == 13 || k == 14 || k == 15 || k == 16 || k == 17 || k == 18
                || k == 19);
        }
    }
    lemma_replace_skip(t, f1, tid, 12, 24);
    reveal_strlit("-{pn}-1.html");
    let u = replace_from(t, f1, tid, 0);
    assert(occurs_at(t, 7, f1));
    assert(replace_from(t, f1, tid, 7) == tid + replace_from(t, f1, tid, 12));
    assert(replace_from(t, f1, tid, 24) =~= Seq::<char>::empty());
    assert(t.subrange(0, 7) =~= "thread-"@);
    assert(t.subrange(12, 24) =~= "-{pn}-1.html"@);
    assert(u =~= "thread-"@ + tid + "-{pn}-1.html"@);
    // second replacement
    let m: int = (7 + tid.len() + 1) as int;
    assert forall|k: int| 0 <= k < m implies u[k] != '{' by {
        if k >= 7 && k < 7 + tid.len() {
            assert(u[k] == tid[k - 7]);
        }
        if k < 7 {
            assert(k == 0 || k == 1 || k == 2 || k == 3 || k == 4 || k == 5 || k == 6);
        }
    }
    assert forall|k: int| 0 <= k < m implies !#[trigger] occurs_at(u, k, f2) by {
        if occurs_at(u, k, f2) {
            assert(u.subrange(k, k + 4)[0] == u[k]);
        }
    }
    lemma_replace_skip(u, f2, pn, 0, m);
    assert(u.subrange(m, m + 4) =~= f2);
    let n = u.len() as int;
    assert(n == m + 11);
    assert forall|k: int| m + 4 <= k < n implies !#[trigger] occurs_at(u, k, f2) by {
        if occurs_at(u, k, f2) {
            assert(u.subrange(k, k + 4)[0] == u[k]);
            let o = k - (m + 4);
            assert(u[k] == "-1.html"@[o]);
            assert(o == 0 || o == 1 || o == 2 || o == 3 || o == 4 || o == 5 || o == 6);
        }
    }
    lemma_replace_skip(u, f2, pn, m + 4, n);
    assert(occurs_at(u, m, f2));
    assert(replace_from(u, f2, pn, m) == pn + replace_from(u, f2, pn, m + 4));
    assert(replace_from(u, f2, pn, n) =~= Seq::<char>::empty());
    assert(u.subrange(0, m) =~= "thread-"@ + tid + "-"@);
    assert(u.subrange(m + 4, n) =~= "-1.html"@);
    assert(replace_from(u, f2, pn, 0) =~= "thread-"@ + tid + "-"@ + pn + "-1.html"@);
}

/// A Discuz page address written by `generate_thread_url` with the default
/// template for thread `tid` and page `pn` reads back, through
/// `extract_tid_pn`, as `(tid, pn)` — when the thread id is a number and
/// the base address holds no match of `thread-<digits>-<digits>`.
pub proof fn law_discuz_address_round_trip(name: Seq<char>, base: Seq<char>, tid: Seq<char>, pn: usize)
    requires
        forall|j: int| !#[trigger] thread_dash_at(base, j),
        tid.len() >= 1,
        forall|k: int| 0 <= k < tid.len() ==> is_ascii_digit(#[trigger] tid[k]),
    ensures
        discuz_tid_pn(
            name,
            discuz_thread_url(base, default_thread_url_template_spec(), tid, decimal_spec(pn as nat)),
        ) == Ok::<(Seq<char>, usize), ErrorView>((tid, pn)),
{
    reveal_strlit("thread-");
    reveal_strlit("-");
    reveal_strlit("-1.html");
    reveal_strlit("/");
    let d = decimal_spec(pn as nat);
    lemma_decimal_digits(pn as nat);
    lemma_parse_decimal(pn);
    lemma_default_template(tid, d);
    let s = discuz_thread_url(base, default_thread_url_template_spec(), tid, d);
    let l = base.len() as int;
    let i0 = l + 1;
    let a = i0 + 7;
    let e = a + tid.len();
    let b = e + 1;
    assert(s =~= base + "/"@ + ("thread-"@ + tid + "-"@ + d + "-1.html"@));
    assert forall|k: int| 0 <= k < l implies s[k] == base[k] by {}
    assert(s[l] == '/');
    assert forall|k: int| 0 <= k < 7 implies s[i0 + k] == "thread-"@[k] by {}
    assert forall|k: int| 0 <= k < tid.len() implies s[a + k] == tid[k] by {}
    assert(s[e] == '-');
    assert forall|k: int| 0 <= k < d.len() implies s[b + k] == d[k] by {}
    assert(s[b + d.len()] == '-');
    lemma_digit_run_ascii(s, a, tid.len());
    lemma_digit_run_ascii(s, b, d.len());
    assert(s.subrange(i0, i0 + 7) =~= "thread-"@);
    assert(thread_dash_at(s, i0));
    assert forall|j: int| 0 <= j < i0 implies !#[trigger] thread_dash_at_pred()(s, j) by {
        assert(thread_dash_at_pred()(s, j) == thread_dash_at(s, j));
        if occurs_at(s, j, "thread-"@) {
            if j + 7 <= l {
                assert(base.subrange(j, j + 7) =~= s.subrange(j, j + 7));
                assert(occurs_at(base, j, "thread-"@));
                lemma_digit_run_prefix(base, s, j + 7);
                lemma_digit_run_bound(base, j + 7);
                let n1 = digit_run(s, j + 7);
                if n1 >= 1 && j + 7 + n1 < s.len() && s[j + 7 + n1] == '-' {
                    assert(j + 7 + n1 < l);
                    lemma_digit_run_prefix(base, s, j + 7 + n1 + 1);
                    assert(!thread_dash_at(base, j));
                }
            } else {
                let o = l - j;
                assert(s.subrange(j, j + 7)[o] == s[l]);
                assert(o == 0 || o == 1 || o == 2 || o == 3 || o == 4 || o == 5 || o == 6);
                assert(false);
            }
        }
    }
    lemma_first_from_found(s, 0, i0, thread_dash_at_pred());
    assert(s.subrange(a, e) =~= tid);
    assert(s.subrange(b, b + d.len()) =~= d);
    assert(thread_dash_captures(s) == Some((tid, d)));
}

/// Past a prefix that ends before a non-digit, runs of digits read the same.
proof fn lemma_digit_run_prefix(base: Seq<char>, s: Seq<char>, i: int)
    requires
        base.len() < s.len(),
        forall|k: int| 0 <= k < base.len() ==> s[k] == base[k],
        !is_digit_class(s[base.len() as int]),
        0 <= i <= base.len(),
    ensures
        digit_run(s, i) == digit_run(base, i),
    decreases base.len() - i,
{
    if i < base.len() {
        lemma_digit_run_prefix(base, s, i + 1);
    }
}

/// A Discuz file name written by `generate_filename` for thread `tid` and
/// page `pn` reads back, through `extract_tid_pn`, as `(tid, pn)` — when
/// the thread id is a number.
pub proof fn law_discuz_filename_round_trip(name: Seq<char>, tid: Seq<char>, pn: usize)
    requires
        tid.len() >= 1,
        forall|k: int| 0 <= k < tid.len() ==> is_ascii_digit(#[trigger] tid[k]),
    ensures
        discuz_tid_pn(name, discuz_filename(tid, decimal_spec(pn as nat))) == Ok::<
            (Seq<char>, usize),
            ErrorView,
        >((tid, pn)),
{
    reveal_strlit("thread-");
    reveal_strlit("-");
    reveal_strlit("-1.html");
    let d = decimal_spec(pn as nat);
    lemma_decimal_digits(pn as nat);
    lemma_parse_decimal(pn);
    let s = discuz_filename(tid, d);
    let a = 7int;
    let e = a + tid.len();
    let b = e + 1;
    assert forall|k: int| 0 <= k < 7 implies s[k] == "thread-"@[k] by {}
    assert forall|k: int| 0 <= k < tid.len() implies s[a + k] == tid[k] by {}
    assert(s[e] == '-');
    assert forall|k: int| 0 <= k < d.len() implies s[b + k] == d[k] by {}
    assert(s[b + d.len()] == '-');
    lemma_digit_run_ascii(s, a, tid.len());
    lemma_digit_run_ascii(s, b, d.len());
    assert(s.subrange(0, 7) =~= "thread-"@);
    assert(thread_dash_at(s, 0));
    lemma_first_from_found(s, 0, 0, thread_dash_at_pred());
    assert(s.subrange(a, e) =~= tid);
    assert(s.subrange(b, b + d.len()) =~= d);
    assert(thread_dash_captures(s) == Some((tid, d)));
}

/// A Discuz address with neither `thread-<digits>-<digits>` nor
/// `tid=<digits>` in it is refused as no thread address.
pub proof fn law_discuz_other_addresses_refused(name: Seq<char>, url: Seq<char>)
    requires
        forall|j: int| !#[trigger] thread_dash_at(url, j),
        forall|j: int| !#[trigger] tid_eq_at(url, j),
    ensures
        discuz_tid_pn(name, url) == Err::<(Seq<char>, usize), ErrorView>(
            ErrorView::ThreadInfo(not_thread_url_message(url, name)),
        ),
{
    assert forall|j: int| 0 <= j <= url.len() implies !#[trigger] thread_dash_at_pred()(url, j) by {
        assert(thread_dash_at_pred()(url, j) == thread_dash_at(url, j));
    }
    assert forall|j: int| 0 <= j <= url.len() implies !#[trigger] tid_eq_at_pred()(url, j) by {
        assert(tid_eq_at_pred()(url, j) == tid_eq_at(url, j));
    }
    lemma_first_from_none(url, 0, thread_dash_at_pred());
    lemma_first_from_none(url, 0, tid_eq_at_pred());
}

/// An NGA address without `tid=<digits>` is refused as no thread address.
pub proof fn law_nga_other_addresses_refused(url: Seq<char>)
    requires
        forall|j: int| !#[trigger] tid_eq_at(url, j),
    ensures
        nga_tid_pn(url) == Err::<(Seq<char>, usize), ErrorView>(
            ErrorView::ThreadInfo(not_thread_url_message(url, "NGA"@)),
        ),
{
    assert forall|j: int| 0 <= j <= url.len() implies !#[trigger] tid_eq_at_pred()(url, j) by {
        assert(tid_eq_at_pred()(url, j) == tid_eq_at(url, j));
    }
    lemma_first_from_none(url, 0, tid_eq_at_pred());
}

/// No `&page=<digits>` anywhere: none is found either.
proof fn lemma_no_page_marker_anywhere(s: Seq<char>, q: int)
    requires
        0 <= q,
        forall|k: int| !#[trigger] page_marker_at(s, k),
    ensures
        last_page_marker(s, q) is None,
    decreases s.len() - q,
{
    if 0 <= q < s.len() && s[q] != '\n' {
        lemma_no_page_marker_anywhere(s, q + 1);
    }
}

/// An NGA address whose first `tid=<digits>` starts at `i` and which holds
/// no `&page=<digits>` reads as page 1 of that thread.
pub proof fn law_nga_first_page_by_default(url: Seq<char>, i: int)
    requires
        tid_eq_at(url, i),
        forall|j: int| 0 <= j < i ==> !#[trigger] tid_eq_at(url, j),
        forall|q: int| !#[trigger] page_marker_at(url, q),
    ensures
        nga_tid_pn(url) == Ok::<(Seq<char>, usize), ErrorView>(
            (url.subrange(i + 4, i + 4 + digit_run(url, i + 4)), 1),
        ),
{
    assert(0 <= i <= url.len());
    assert forall|j: int| 0 <= j < i implies !#[trigger] tid_eq_at_pred()(url, j) by {
        assert(tid_eq_at_pred()(url, j) == tid_eq_at(url, j));
    }
    assert(tid_eq_at_pred()(url, i) == tid_eq_at(url, i));
    lemma_first_from_found(url, 0, i, tid_eq_at_pred());
    lemma_no_page_marker_anywhere(url, i + 4 + digit_run(url, i + 4));
}

/// A V2EX address without `/t/<digits>` is refused as no thread address.
pub proof fn law_v2ex_other_addresses_refused(name: Seq<char>, url: Seq<char>)
    requires
        forall|j: int| !#[trigger] slash_t_at(url, j),
    ensures
        v2ex_tid_pn(name, url) == Err::<(Seq<char>, usize), ErrorView>(
            ErrorView::ThreadInfo(not_thread_url_message(url, name)),
        ),
{
    assert forall|j: int| 0 <= j <= url.len() implies !#[trigger] slash_t_at_pred()(url, j) by {
        assert(slash_t_at_pred()(url, j) == slash_t_at(url, j));
    }
    lemma_first_from_none(url, 0, slash_t_at_pred());
}

/// A V2EX address whose first `/t/<digits>` starts at `i` reads as that
/// thread, and as page 1 when no `?p=<digits>` follows the thread id or
/// when those digits are no `usize` number.
pub proof fn law_v2ex_first_page_by_default(name: Seq<char>, url: Seq<char>, i: int)
    requires
        slash_t_at(url, i),
        forall|j: int| 0 <= j < i ==> !#[trigger] slash_t_at(url, j),
    ensures
        ({
            let a = i + 3;
            let e = a + digit_run(url, a);
            let q = e + 3;
            let page = url.subrange(q, q + digit_run(url, q));
            &&& v2ex_tid_pn(name, url) matches Ok((t, _)) && t == url.subrange(a, e)
            &&& (!(occurs_at(url, e, "?p="@) && digit_run(url, q) >= 1) || parse_usize_spec(page) is Err)
                ==> (v2ex_tid_pn(name, url) matches Ok((_, pn)) && pn == 1)
        }),
{
    assert(0 <= i <= url.len());
    assert forall|j: int| 0 <= j < i implies !#[trigger] slash_t_at_pred()(url, j) by {
        assert(slash_t_at_pred()(url, j) == slash_t_at(url, j));
    }
    assert(slash_t_at_pred()(url, i) == slash_t_at(url, i));
    lemma_first_from_found(url, 0, i, slash_t_at_pred());
}

/// On a saved Discuz page, a link to another page (up to the last one) of
/// the same thread, written with the default template, is pointed at the
/// file that page is saved to.
pub proof fn law_discuz_links_point_at_saved_pages(
    base: Seq<char>,
    tid: Seq<char>,
    pn: usize,
    last: usize,
)
    requires
        forall|j: int| !#[trigger] thread_dash_at(base, j),
        tid.len() >= 1,
        forall|k: int| 0 <= k < tid.len() ==> is_ascii_digit(#[trigger] tid[k]),
        pn <= last,
    ensures
        discuz_local_link(
            discuz_thread_url(base, default_thread_url_template_spec(), tid, decimal_spec(pn as nat)),
            tid,
            last,
        ) == Some(discuz_filename(tid, decimal_spec(pn as nat))),
{
    law_discuz_address_round_trip(Seq::empty(), base, tid, pn);
}

proof fn lemma_last_index_found(s: Seq<char>, c: char, k: int, j: int)
    requires
        0 <= k < j <= s.len(),
        s[k] == c,
        forall|m: int| k < m < j ==> s[m] != c,
    ensures
        last_index_before(s, c, j) == Some(k),
    decreases j,
{
    if j - 1 > k {
        lemma_last_index_found(s, c, k, j - 1);
    }
}

proof fn lemma_last_index_none(s: Seq<char>, c: char, j: int)
    requires
        j <= s.len(),
        forall|m: int| 0 <= m < j ==> s[m] != c,
    ensures
        last_index_before(s, c, j) is None,
    decreases j,
{
    if j > 0 {
        lemma_last_index_none(s, c, j - 1);
    }
}

proof fn lemma_scan_fails(s: Seq<char>, i: int, acc: nat, k: int)
    requires
        0 <= i <= k < s.len(),
        !is_ascii_digit(s[k]),
    ensures
        scan_digits(s, i, acc) is Err,
    decreases k - i,
{
    if i < k && is_ascii_digit(s[i]) && acc * 10 + (s[i] as int - '0' as int) as nat <= usize::MAX {
        lemma_scan_fails(s, i + 1, acc * 10 + (s[i] as int - '0' as int) as nat, k);
    }
}

/// On a saved V2EX page, a link to another page (up to the last one) of the
/// same thread, as `generate_thread_url` writes it, is pointed at the file
/// that page is saved to — when the base address holds no `=`.
pub proof fn law_v2ex_links_point_at_saved_pages(base: Seq<char>, tid: Seq<char>, pn: usize, last: usize)
    requires
        forall|k: int| 0 <= k < base.len() ==> base[k] != '=',
        forall|k: int| 0 <= k < tid.len() ==> is_ascii_digit(#[trigger] tid[k]),
        pn <= last,
    ensures
        v2ex_local_link(v2ex_thread_url(base, tid, decimal_spec(pn as nat)), tid, last) == Some(
            v2ex_filename(tid, decimal_spec(pn as nat)),
        ),
{
    reveal_strlit("/t/");
    reveal_strlit("?p=");
    reveal_strlit("1");
    let d = decimal_spec(pn as nat);
    lemma_decimal_digits(pn as nat);
    lemma_parse_decimal(pn);
    lemma_parse_decimal(1);
    assert(decimal_spec(1) =~= "1"@);
    let s = v2ex_thread_url(base, tid, d);
    let l = base.len() as int;
    let a = l + 3;
    let e = a + tid.len();
    assert forall|k: int| 0 <= k < l implies s[k] == base[k] by {}
    assert forall|k: int| 0 <= k < 3 implies s[l + k] == "/t/"@[k] by {}
    assert forall|k: int| 0 <= k < tid.len() implies s[a + k] == tid[k] by {}
    if d == "1"@ {
        assert(pn == 1);
        assert forall|m: int| 0 <= m < s.len() implies s[m] != '=' by {
            if m >= a {
                assert(is_ascii_digit(tid[m - a]));
            }
        }
        lemma_last_index_none(s, '=', s.len() as int);
        assert(after_last_spec(s, '=') == s);
        assert(s[l] == '/');
        if s[0] == '+' {
            lemma_scan_fails(s, 1, 0, l);
        } else {
            lemma_scan_fails(s, 0, 0, l);
        }
        assert(parse_usize_spec(s) is Err);
    } else {
        assert forall|k: int| 0 <= k < 3 implies s[e + k] == "?p="@[k] by {}
        assert forall|k: int| 0 <= k < d.len() implies s[e + 3 + k] == d[k] by {}
        assert forall|m: int| e + 2 < m < s.len() implies s[m] != '=' by {
            assert(is_ascii_digit(d[m - e - 3]));
        }
        lemma_last_index_found(s, '=', e + 2, s.len() as int);
        assert(after_last_spec(s, '=') =~= d);
    }
}

/// The page number of a saved NGA page reads back from its file name:
/// `extract_pn_from_filename(generate_filename(tid, pn), tid)` is `pn`.
pub proof fn law_nga_saved_page_round_trip(f: Forum, tid: Seq<char>, pn: usize)
    requires
        f is NGA,
    ensures
        forum_pn_from_filename(f, forum_filename(f, tid, decimal_spec(pn as nat)), tid) == Some(pn),
{
    reveal_strlit("tid=");
    reveal_strlit("&page=");
    reveal_strlit(".html");
    let d = decimal_spec(pn as nat);
    lemma_parse_decimal(pn);
    let name = nga_filename(tid, d);
    let prefix = "tid="@ + tid + "&page="@;
    assert(name =~= prefix + d + ".html"@);
    assert(name.subrange(0, prefix.len() as int) =~= prefix);
    assert(name.subrange(name.len() - 5, name.len() as int) =~= ".html"@);
    assert(name.subrange(prefix.len() as int, name.len() - 5) =~= d);
    assert(nga_pn_from_filename(name, tid) == Some(pn));
}

/// Resuming reads only the thread's own saved pages: an NGA file saved
/// for another thread (thread ids being numbers) never reads as a page of
/// this one.
pub proof fn law_nga_other_threads_not_resumed(f: Forum, tid: Seq<char>, other: Seq<char>, pn: Seq<char>)
    requires
        f is NGA,
        tid != other,
        forall|k: int| 0 <= k < tid.len() ==> is_ascii_digit(#[trigger] tid[k]),
        forall|k: int| 0 <= k < other.len() ==> is_ascii_digit(#[trigger] other[k]),
    ensures
        forum_pn_from_filename(f, forum_filename(f, other, pn), tid) is None,
{
    reveal_strlit("tid=");
    reveal_strlit("&page=");
    let name = nga_filename(other, pn);
    let prefix = "tid="@ + tid + "&page="@;
    assert(name =~= "tid="@ + other + "&page="@ + pn + ".html"@);
    if occurs_at(name, 0, prefix) {
        assert(name.subrange(0, prefix.len() as int) == prefix);
        if tid.len() == other.len() {
            assert(tid =~= other) by {
                assert forall|k: int| 0 <= k < tid.len() implies tid[k] == other[k] by {
                    assert(prefix[4 + k] == tid[k]);
                    assert(name[4 + k] == other[k]);
                    assert(name.subrange(0, prefix.len() as int)[4 + k] == name[4 + k]);
                }
            }
        } else if tid.len() < other.len() {
            let k: int = (4 + tid.len()) as int;
            assert(prefix[k] == '&');
            assert(name[k] == other[tid.len() as int]);
            assert(name.subrange(0, prefix.len() as int)[k] == name[k]);
            assert(is_ascii_digit(other[tid.len() as int]));
        } else {
            let k: int = (4 + other.len()) as int;
            assert(name[k] == '&');
            assert(prefix[k] == tid[other.len() as int]);
            assert(name.subrange(0, prefix.len() as int)[k] == name[k]);
            assert(is_ascii_digit(tid[other.len() as int]));
        }
    }
}

/// Distinct pages of one thread are saved under distinct file names, on
/// every forum.
pub proof fn law_page_files_distinct(f: Forum, tid: Seq<char>, pn1: Seq<char>, pn2: Seq<char>)
    requires
        pn1 != pn2,
    ensures
        forum_filename(f, tid, pn1) != forum_filename(f, tid, pn2),
{
    let a = forum_filename(f, tid, pn1);
    let b = forum_filename(f, tid, pn2);
    if a == b {
        let (head, tail): (Seq<char>, Seq<char>) = match f {
            Forum::Discuz(_) => ("thread-"@ + tid + "-"@, "-1.html"@),
            Forum::V2ex(_) => ("t-"@ + tid + "-"@, ".html"@),
            Forum::NGA(_) => ("tid="@ + tid + "&page="@, ".html"@),
        };
        assert(a =~= head + pn1 + tail);
        assert(b =~= head + pn2 + tail);
        assert(pn1.len() == pn2.len());
        assert(a.subrange(head.len() as int, (head.len() + pn1.len()) as int) =~= pn1);
        assert(b.subrange(head.len() as int, (head.len() + pn2.len()) as int) =~= pn2);
    }
}

// ---------------------------------------------------------------------------
// Pages of a download
// ---------------------------------------------------------------------------

/// The pages a download handles are page 1 and the later pages: the
/// progress total (`download_page_count`) is one more than the number of
/// later pages, for every start page up to the page count.
pub proof fn law_progress_total(total: usize, start: usize)
    requires
        1 <= start <= total,
    ensures
        download_page_count(total, start) == 1 + later_pages(total, start).len(),
{
}

/// The later pages are each page from `max(start, 2)` to `total` once, in
/// increasing order.
pub proof fn law_later_pages(total: usize, start: usize)
    ensures
        forall|p: usize|
            (if start > 2 { start as int } else { 2 }) <= p <= total <==> #[trigger] later_pages(
                total,
                start,
            ).contains(p),
        forall|i: int, j: int|
            0 <= i < j < later_pages(total, start).len() ==> later_pages(total, start)[i]
                < later_pages(total, start)[j],
{
    let first: int = if start > 2 { start as int } else { 2 };
    let ps = later_pages(total, start);
    assert forall|p: usize| first <= p <= total implies #[trigger] ps.contains(p) by {
        assert(ps[p - first] == p);
    }
}

// ---------------------------------------------------------------------------
// Forums of a downloader
// ---------------------------------------------------------------------------

proof fn lemma_found_iff_listed(ds: Seq<Seq<char>>, d: Seq<char>, n: int)
    requires
        0 <= n <= ds.len(),
    ensures
        last_forum_with(ds, d, n) is Some <==> distinct_in_order(ds, n).contains(d),
        last_forum_with(ds, d, n) matches Some(k) ==> 0 <= k < n && ds[k] == d,
    decreases n,
{
    if n > 0 {
        lemma_found_iff_listed(ds, d, n - 1);
        let prev = distinct_in_order(ds, n - 1);
        if !prev.contains(ds[n - 1]) {
            assert(prev.push(ds[n - 1]).contains(d) <==> (prev.contains(d) || ds[n - 1] == d)) by {
                if prev.push(ds[n - 1]).contains(d) {
                    let j = choose|j: int| 0 <= j < prev.len() + 1 && #[trigger] prev.push(ds[n - 1])[j] == d;
                    if j < prev.len() {
                        assert(prev[j] == d);
                    }
                }
                if prev.contains(d) {
                    let j = choose|j: int| 0 <= j < prev.len() && #[trigger] prev[j] == d;
                    assert(prev.push(ds[n - 1])[j] == d);
                }
                assert(prev.push(ds[n - 1])[prev.len() as int] == ds[n - 1]);
            }
        }
    }
}

/// A downloader finds a forum for exactly the domains it lists as
/// supported, and the forum it finds is one configured with that domain.
pub proof fn law_supported_forums_are_found(dl: Downloader, domain: Seq<char>)
    requires
        dl.wf(),
    ensures
        last_forum_with(dl.domains(), domain, dl.domains().len() as int) is Some <==> distinct_in_order(
            dl.domains(),
            dl.domains().len() as int,
        ).contains(domain),
        last_forum_with(dl.domains(), domain, dl.domains().len() as int) matches Some(k)
            ==> forum_config_domain(dl.config.forums@[k]) == domain,
{
    lemma_found_iff_listed(dl.domains(), domain, dl.domains().len() as int);
    if let Some(k) = last_forum_with(dl.domains(), domain, dl.domains().len() as int) {
        assert(dl.domains()[k] == dl.forum_domains@[k]@);
    }
}

// ---------------------------------------------------------------------------
// Style sheets
// ---------------------------------------------------------------------------

proof fn lemma_rewrite_nothing(s: Seq<char>, pos: int)
    requires
        0 <= pos <= s.len(),
    ensures
        css_rewrite_from(s, pos, Seq::empty()) == s.subrange(pos, s.len() as int),
    decreases s.len() - pos,
{
    match next_css_match(s, pos) {
        Some(m) => if pos <= m.0 && m.0 < m.4 && pos < m.4 <= s.len() {
            lemma_rewrite_nothing(s, m.4);
            assert(table_lookup(Seq::<(Seq<char>, Seq<char>)>::empty(), s.subrange(m.2, m.3)) is None);
            assert(css_replacement(s, m, Seq::empty()) == s.subrange(m.0, m.4));
            assert(s.subrange(pos, m.0) + s.subrange(m.0, m.4) + s.subrange(m.4, s.len() as int)
                =~= s.subrange(pos, s.len() as int));
        },
        None => {},
    }
}

/// A style sheet none of whose references were saved is left as it is:
/// rewriting it with an empty table gives it back unchanged.
pub proof fn law_css_rewrite_without_targets(s: Seq<char>)
    ensures
        css_rewrite(s, Seq::empty()) == s,
{
    lemma_rewrite_nothing(s, 0);
    assert(s.subrange(0, s.len() as int) =~= s);
}

// ---------------------------------------------------------------------------
// The entry file of a saved thread
// ---------------------------------------------------------------------------

proof fn lemma_replace_removes(s: Seq<char>, c: char, to: Seq<char>, i: int)
    requires
        0 <= i,
        forall|k: int| 0 <= k < to.len() ==> to[k] != c,
    ensures
        forall|k: int| 0 <= k < replace_from(s, seq![c], to, i).len() ==> replace_from(s, seq![c], to, i)[k] != c,
    decreases s.len() - i,
{
    if i < s.len() {
        lemma_replace_removes(s, c, to, i + 1);
        let r = replace_from(s, seq![c], to, i);
        let rest = replace_from(s, seq![c], to, i + 1);
        assert(seq![c].len() == 1);
        if occurs_at(s, i, seq![c]) {
            assert(r == to + rest);
            assert forall|k: int| 0 <= k < r.len() implies r[k] != c by {
                if k >= to.len() {
                    assert(r[k] == rest[k - to.len()]);
                }
            }
        } else {
            assert(s.subrange(i, i + 1) =~= seq![s[i]]);
            assert(s[i] != c);
            assert(r == seq![s[i]] + rest);
            assert forall|k: int| 0 <= k < r.len() implies r[k] != c by {
                if k >= 1 {
                    assert(r[k] == rest[k - 1]);
                }
            }
        }
    }
}

proof fn lemma_replace_keeps_absent(s: Seq<char>, from: Seq<char>, to: Seq<char>, d: char, i: int)
    requires
        0 <= i,
        forall|k: int| 0 <= k < s.len() ==> s[k] != d,
        forall|k: int| 0 <= k < to.len() ==> to[k] != d,
    ensures
        forall|k: int| 0 <= k < replace_from(s, from, to, i).len() ==> replace_from(s, from, to, i)[k] != d,
    decreases s.len() - i,
{
    if i < s.len() {
        let r = replace_from(s, from, to, i);
        if from.len() > 0 && occurs_at(s, i, from) {
            lemma_replace_keeps_absent(s, from, to, d, i + from.len());
            let rest = replace_from(s, from, to, i + from.len());
            assert(r == to + rest);
            assert forall|k: int| 0 <= k < r.len() implies r[k] != d by {
                if k >= to.len() {
                    assert(r[k] == rest[k - to.len()]);
                }
            }
        } else {
            lemma_replace_keeps_absent(s, from, to, d, i + 1);
            let rest = replace_from(s, from, to, i + 1);
            assert(r == seq![s[i]] + rest);
            assert forall|k: int| 0 <= k < r.len() implies r[k] != d by {
                if k >= 1 {
                    assert(r[k] == rest[k - 1]);
                }
            }
        }
    }
}

/// The file that opens a saved thread lies directly in the forum's
/// directory and has a name file systems accept: the part of its name
/// taken from the title holds no `/`, no `\\` and none of `<>:"|?*`.
pub proof fn law_entry_title_has_no_separators(thread_id: Seq<char>, title: Seq<char>)
    ensures
        thread_entry_name(thread_id, entry_title(title)) == thread_id + "-"@ + entry_title(title) + ".html"@,
        forall|k: int|
            0 <= k < entry_title(title).len() ==> {
                let c = #[trigger] entry_title(title)[k];
                c != '/' && c != '\\' && c != '<' && c != '>' && c != ':' && c != '"' && c != '|' && c != '?'
                    && c != '*'
            },
{
    reveal_strlit("/");
    reveal_strlit("_");
    reveal_strlit("\\");
    assert("/"@ =~= seq!['/']);
    assert("\\"@ =~= seq!['\\']);
    let once = replace_all_spec(title, "/"@, "_"@);
    lemma_replace_removes(title, '/', "_"@, 0);
    lemma_replace_keeps_absent(once, "\\"@, "_"@, '/', 0);
    lemma_replace_removes(once, '\\', "_"@, 0);
    let t = title_without_separators(title);
    assert forall|k: int| 0 <= k < entry_title(title).len() implies {
        let c = #[trigger] entry_title(title)[k];
        c != '/' && c != '\\' && c != '<' && c != '>' && c != ':' && c != '"' && c != '|' && c != '?' && c != '*'
    } by {
        assert(entry_title(title)[k] == file_safe_char(t[k]));
    }
}

// ---------------------------------------------------------------------------
// The NGA settings script
// ---------------------------------------------------------------------------

proof fn lemma_nothing_dropped(k: Dropped, s: Seq<char>)
    requires
        forall|j: int| !occurs_at(s, j, "__"@),
    ensures
        drop_from(k, s, 0) == s,
{
    reveal_strlit("__");
    reveal_strlit(",\"dsid_bbs_ads");
    reveal_strlit("\":__DSBASE");
    reveal_strlit("__CURRENT_UID");
    reveal_strlit("__CURRENT_UNAME");
    assert forall|j: int| 0 <= j <= s.len() implies !#[trigger] dropped_pred(k)(s, j) by {
        assert(dropped_pred(k)(s, j) == dropped_end(k, s, j) is Some);
        match k {
            Dropped::AdSlot => {
                let d = digit_run(s, j + 14);
                if occurs_at(s, j + 14 + d, "\":__DSBASE"@) {
                    assert("\":__DSBASE"@.subrange(2, 4) =~= "__"@);
                    lemma_occurs_within(s, j + 14 + d, "\":__DSBASE"@, 2, "__"@);
                }
            },
            Dropped::UserId => {
                if occurs_at(s, j, "__CURRENT_UID"@) {
                    assert("__CURRENT_UID"@.subrange(0, 2) =~= "__"@);
                    lemma_occurs_within(s, j, "__CURRENT_UID"@, 0, "__"@);
                }
            },
            Dropped::UserName => {
                if occurs_at(s, j, "__CURRENT_UNAME"@) {
                    assert("__CURRENT_UNAME"@.subrange(0, 2) =~= "__"@);
                    lemma_occurs_within(s, j, "__CURRENT_UNAME"@, 0, "__"@);
                }
                assert(uname_at(s, j) is None);
            },
        }
    }
    lemma_first_from_none(s, 0, dropped_pred(k));
    assert(s.subrange(0, s.len() as int) =~= s);
}

/// A settings script that holds no `__` (no setting, joined address,
/// cache-busting suffix, advertisement slot or user entry can start
/// without one) is saved unchanged, with no settings and nothing to fetch,
/// whatever is to be removed.
pub proof fn law_script_without_settings_kept(s: Seq<char>, remove_ads: bool, remove_user_info: bool)
    requires
        forall|j: int| !occurs_at(s, j, "__"@),
    ensures
        adapted_script(s, remove_ads, remove_user_info) == (s, Seq::<(Seq<char>, Seq<char>)>::empty(), Seq::<Seq<char>>::empty()),
{
    reveal_strlit("__");
    reveal_strlit("+Math.floor(__NOW/300)");
    assert(s.subrange(0, s.len() as int) =~= s);
    // settings
    assert forall|j: int| 0 <= j <= s.len() implies !#[trigger] setting_pred()(s, j) by {}
    lemma_first_from_none(s, 0, setting_pred());
    assert(next_setting(s, 0) is None);
    assert(settings_from(s, 0) == (s, Seq::<(Seq<char>, Seq<char>)>::empty()));
    assert(with_style_alias(Seq::empty()) == Seq::<(Seq<char>, Seq<char>)>::empty());
    // joined addresses
    assert forall|j: int| 0 <= j <= s.len() implies !#[trigger] joined_pred()(s, j) by {}
    lemma_first_from_none(s, 0, joined_pred());
    assert(next_joined(s, 0) is None);
    assert(joined_from(s, 0, Seq::empty()) == (s, Seq::<Seq<char>>::empty()));
    // cache-busting suffix
    let suffix = time_suffix();
    assert forall|k: int| 0 <= k < s.len() implies !#[trigger] occurs_at(s, k, suffix) by {
        if occurs_at(s, k, suffix) {
            assert(suffix.subrange(12, 14) =~= "__"@);
            lemma_occurs_within(s, k, suffix, 12, "__"@);
        }
    }
    lemma_replace_skip(s, suffix, Seq::empty(), 0, s.len() as int);
    assert(replace_from(s, suffix, Seq::empty(), s.len() as int) =~= Seq::<char>::empty());
    assert(replace_all_spec(s, suffix, Seq::empty()) =~= s);
    // removed parts
    lemma_nothing_dropped(Dropped::AdSlot, s);
    lemma_nothing_dropped(Dropped::UserId, s);
    lemma_nothing_dropped(Dropped::UserName, s);
}

// ---------------------------------------------------------------------------
// Language
// ---------------------------------------------------------------------------

/// A configured language decides alone: the system's locale matters only
/// when none is configured.
pub proof fn law_configured_language_wins(preference: Seq<char>, system1: Option<Seq<char>>, system2: Option<Seq<char>>)
    ensures
        language_for(Some(preference), system1) == language_for(Some(preference), system2),
{
}

/// Configuring a language by any name gives the same messages as
/// configuring it by the tag of the language that name chooses (`zh-CN`
/// for a name whose lower-case form starts with `zh`, `en-US` otherwise),
/// whatever the system's locale; with none configured, the system's locale
/// is taken as configured, and with no locale either, `en` is.
pub proof fn law_language_by_its_tag(
    preference: Seq<char>,
    system1: Option<Seq<char>>,
    system2: Option<Seq<char>>,
    zh_cn: Seq<char>,
    en_us: Seq<char>,
    m: Message,
)
    ensures
        ({
            let lang = language_for(Some(preference), system1);
            let again = language_for(Some(language_tag_spec(lang)), system2);
            &&& again == lang
            &&& message_text(again, catalogue_of(again, zh_cn, en_us), m) == message_text(
                lang,
                catalogue_of(lang, zh_cn, en_us),
                m,
            )
        }),
        forall|s: Seq<char>| #[trigger] language_for(None, Some(s)) == language_for(Some(s), system2),
        language_for(None, None) == language_for(Some("en"@), system2),
{
    reveal_strlit("zh-CN");
    reveal_strlit("en-US");
    reveal_strlit("zh");
    let zh = "zh-CN"@;
    let en = "en-US"@;
    assert(lower_text(zh) =~= seq!['z', 'h', '-', 'c', 'n']);
    assert(lower_text(en) =~= seq!['e', 'n', '-', 'u', 's']);
    assert(lower_text(zh).subrange(0, 2) =~= "zh"@);
    assert(lower_text(en).subrange(0, 2) != "zh"@) by {
        assert(lower_text(en).subrange(0, 2)[0] == 'e');
    }
}

} // verus!
