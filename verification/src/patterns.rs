//! The thread-address grammars of the supported forums.
//!
//! Each grammar is the language of one of the patterns that the forums
//! use to recognise a thread address, matched the way the `regex` crate
//! matches (leftmost start, greedy repetition, backtracking in priority
//! order).  Beyond ASCII, the character class `\d` is the `regex` crate's
//! own, obtained by a call into that crate; everything else is stated and
//! proved here.
//!
//! - `thread-(?P<tid>\d+)-(?P<page>\d+)`
//! - `tid=(?P<tid>\d+)(?:.*&page=(?P<page>\d+))?`
//! - `/t/(?P<tid>\d+)(\?p=(?P<page>\d+))?`
use vstd::prelude::*;
use crate::text::{chars_of, is_ascii_digit, is_white_space, is_white_space_exec, occurs_at, occurs_at_exec};

verus! {

/// Whether the `regex` crate's `\d` class (Unicode `Nd`) holds the
/// non-ASCII character `c`.
pub uninterp spec fn regex_digit(c: char) -> bool;

/// Calls the `regex` crate (`Regex::new` and `Regex::is_match` with the
/// pattern `\A\d\z`) on a one-character haystack.  Claimed: the answer is
/// the fixed predicate `regex_digit` of the character.
#[verifier::external_body]
fn is_regex_digit(c: char) -> (r: bool)
    ensures
        r == regex_digit(c),
{
    let mut buf = [0u8; 4];
    match regex::Regex::new(r"\A\d\z") {
        Ok(re) => re.is_match(c.encode_utf8(&mut buf)),
        Err(_) => false,
    }
}

/// The `\d` class: among ASCII characters exactly `0` to `9` (the ASCII
/// part of Unicode `Nd`), beyond ASCII whatever the `regex` crate decides.
pub open spec fn is_digit_class(c: char) -> bool {
    if c <= '\x7f' {
        is_ascii_digit(c)
    } else {
        regex_digit(c)
    }
}

/// Executable `is_digit_class`.
pub fn digit_class_exec(c: char) -> (r: bool)
    ensures
        r == is_digit_class(c),
{
    if c <= '\x7f' {
        '0' <= c && c <= '9'
    } else {
        is_regex_digit(c)
    }
}

/// Length of the maximal run of `\d` characters starting at `i`.
pub open spec fn digit_run(s: Seq<char>, i: int) -> nat
    decreases s.len() - i,
{
    if 0 <= i < s.len() && is_digit_class(s[i]) {
        1 + digit_run(s, i + 1)
    } else {
        0
    }
}

/// A run never reaches past the end.
pub proof fn lemma_digit_run_bound(s: Seq<char>, i: int)
    requires
        0 <= i,
    ensures
        digit_run(s, i) > 0 ==> i + digit_run(s, i) <= s.len(),
    decreases s.len() - i,
{
    if 0 <= i < s.len() && is_digit_class(s[i]) {
        lemma_digit_run_bound(s, i + 1);
    }
}

/// Executable `digit_run`.
pub fn digit_run_exec(s: &Vec<char>, i: usize) -> (n: usize)
    ensures
        n == digit_run(s@, i as int),
        n > 0 ==> i + n <= s.len(),
{
    if i >= s.len() {
        return 0;
    }
    let mut j: usize = i;
    while j < s.len() && digit_class_exec(s[j])
        invariant
            i <= j <= s.len(),
            digit_run(s@, i as int) == (j - i) + digit_run(s@, j as int),
        decreases s.len() - j,
    {
        j = j + 1;
    }
    proof {
        lemma_digit_run_bound(s@, i as int);
    }
    j - i
}

/// The first index at or after `i` (up to and including `s.len()`) where `p` holds.
pub open spec fn first_from(s: Seq<char>, i: int, p: spec_fn(Seq<char>, int) -> bool) -> Option<
    int,
>
    decreases s.len() + 1 - i,
{
    if i < 0 || i > s.len() {
        None
    } else if p(s, i) {
        Some(i)
    } else {
        first_from(s, i + 1, p)
    }
}

/// `first_from` finds `i` when `p` holds there and nowhere between `k` and `i`.
pub proof fn lemma_first_from_found(s: Seq<char>, k: int, i: int, p: spec_fn(Seq<char>, int) -> bool)
    requires
        0 <= k <= i <= s.len(),
        p(s, i),
        forall|j: int| k <= j < i ==> !#[trigger] p(s, j),
    ensures
        first_from(s, k, p) == Some(i),
    decreases i - k,
{
    if k < i {
        lemma_first_from_found(s, k + 1, i, p);
    }
}

/// `first_from` finds nothing when `p` holds nowhere from `k` on.
pub proof fn lemma_first_from_none(s: Seq<char>, k: int, p: spec_fn(Seq<char>, int) -> bool)
    requires
        forall|j: int| k <= j <= s.len() ==> !#[trigger] p(s, j),
    ensures
        first_from(s, k, p) is None,
    decreases s.len() + 1 - k,
{
    if 0 <= k <= s.len() {
        lemma_first_from_none(s, k + 1, p);
    }
}

/// A part of an occurring literal occurs too.
pub proof fn lemma_occurs_within(s: Seq<char>, j: int, lit: Seq<char>, o: int, part: Seq<char>)
    requires
        occurs_at(s, j, lit),
        0 <= o,
        o + part.len() <= lit.len(),
        lit.subrange(o, o + part.len()) == part,
    ensures
        occurs_at(s, j + o, part),
{
    assert(s.subrange(j + o, j + o + part.len()) =~= lit.subrange(o, o + part.len()));
}

/// A run of `n` ASCII digits followed by the end or by another ASCII
/// character is a `\d` run of length `n`.
pub proof fn lemma_digit_run_ascii(s: Seq<char>, i: int, n: nat)
    requires
        0 <= i,
        i + n <= s.len(),
        forall|k: int| i <= k < i + n ==> is_ascii_digit(#[trigger] s[k]),
        i + n == s.len() || (s[i + n] <= '\x7f' && !is_ascii_digit(s[i + n])),
    ensures
        digit_run(s, i) == n,
    decreases n,
{
    if n > 0 {
        assert(is_ascii_digit(s[i]));
        lemma_digit_run_ascii(s, i + 1, (n - 1) as nat);
    }
}

// ---------------------------------------------------------------------------
// thread-(?P<tid>\d+)-(?P<page>\d+)
// ---------------------------------------------------------------------------

/// The pattern `thread-\d+-\d+` matches at `i`.
pub open spec fn thread_dash_at(s: Seq<char>, i: int) -> bool {
    let a = i + 7;
    let n1 = digit_run(s, a);
    &&& occurs_at(s, i, "thread-"@)
    &&& n1 >= 1
    &&& a + n1 < s.len()
    &&& s[a + n1] == '-'
    &&& digit_run(s, a + n1 + 1) >= 1
}

/// `thread_dash_at` as a predicate value.
pub open spec fn thread_dash_at_pred() -> spec_fn(Seq<char>, int) -> bool {
    |t: Seq<char>, k: int| thread_dash_at(t, k)
}

/// With no `&` from `q` on, there is no page marker from `q` on.
pub proof fn lemma_no_page_marker(s: Seq<char>, q: int)
    requires
        0 <= q,
        forall|k: int| q <= k < s.len() ==> s[k] != '&',
    ensures
        last_page_marker(s, q) is None,
    decreases s.len() - q,
{
    reveal_strlit("&page=");
    if 0 <= q < s.len() && s[q] != '\n' {
        lemma_no_page_marker(s, q + 1);
        if page_marker_at(s, q) {
            assert(s.subrange(q, q + 6)[0] == s[q]);
        }
    }
}

/// Captures `(tid, page)` of the leftmost match of `thread-(\d+)-(\d+)`.
pub open spec fn thread_dash_captures(s: Seq<char>) -> Option<(Seq<char>, Seq<char>)> {
    match first_from(s, 0, thread_dash_at_pred()) {
        Some(i) => {
            let a = i + 7;
            let n1 = digit_run(s, a);
            let b = a + n1 + 1;
            Some((s.subrange(a, a + n1), s.subrange(b, b + digit_run(s, b))))
        },
        None => None,
    }
}

fn thread_dash_at_exec(s: &Vec<char>, i: usize, lit: &Vec<char>) -> (r: bool)
    requires
        lit@ == "thread-"@,
    ensures
        r == thread_dash_at(s@, i as int),
{
    proof {
        reveal_strlit("thread-");
    }
    if !occurs_at_exec(s, i, lit) {
        return false;
    }
    let a = i + 7;
    let n1 = digit_run_exec(s, a);
    if n1 == 0 || a + n1 >= s.len() || s[a + n1] != '-' {
        return false;
    }
    let n2 = digit_run_exec(s, a + n1 + 1);
    n2 >= 1
}

/// Spans `(tid_start, tid_end, page_start, page_end)` of the leftmost match of
/// `thread-(\d+)-(\d+)`.
pub fn thread_dash_spans(s: &Vec<char>) -> (r: Option<(usize, usize, usize, usize)>)
    ensures
        match r {
            Some((a, b, c, d)) => a <= b <= c <= d <= s.len() && thread_dash_captures(s@) == Some(
                (s@.subrange(a as int, b as int), s@.subrange(c as int, d as int)),
            ),
            None => thread_dash_captures(s@) is None,
        },
{
    let lit = chars_of("thread-");
    proof {
        reveal_strlit("thread-");
    }
    let mut i: usize = 0;
    while i < s.len()
        invariant
            i <= s.len(),
            lit@ == "thread-"@,
            first_from(s@, 0, thread_dash_at_pred()) == first_from(
                s@,
                i as int,
                thread_dash_at_pred(),
            ),
        decreases s.len() - i,
    {
        if thread_dash_at_exec(s, i, &lit) {
            let a = i + 7;
            let n1 = digit_run_exec(s, a);
            let b = a + n1 + 1;
            let n2 = digit_run_exec(s, b);
            return Some((a, a + n1, b, b + n2));
        }
        i = i + 1;
    }
    if thread_dash_at_exec(s, s.len(), &lit) {
        assert(!occurs_at(s@, s@.len() as int, "thread-"@));
        return None;
    }
    assert(first_from(s@, s@.len() as int + 1, thread_dash_at_pred()) is None);
    assert(first_from(s@, s@.len() as int, thread_dash_at_pred()) is None);
    None
}

// ---------------------------------------------------------------------------
// tid=(?P<tid>\d+)(?:.*&page=(?P<page>\d+))?
// ---------------------------------------------------------------------------

/// The pattern `tid=\d+` matches at `i`.
pub open spec fn tid_eq_at(s: Seq<char>, i: int) -> bool {
    occurs_at(s, i, "tid="@) && digit_run(s, i + 4) >= 1
}

/// `tid_eq_at` as a predicate value.
pub open spec fn tid_eq_at_pred() -> spec_fn(Seq<char>, int) -> bool {
    |t: Seq<char>, k: int| tid_eq_at(t, k)
}

/// `&page=\d+` starts at `q`.
pub open spec fn page_marker_at(s: Seq<char>, q: int) -> bool {
    occurs_at(s, q, "&page="@) && digit_run(s, q + 6) >= 1
}

/// The last `q` at or after the given index where `&page=\d+` starts, with no
/// line break between the given index and `q` (what `.*&page=\d+` selects).
pub open spec fn last_page_marker(s: Seq<char>, q: int) -> Option<int>
    decreases s.len() - q,
{
    if q < 0 || q >= s.len() || s[q] == '\n' {
        None
    } else {
        match last_page_marker(s, q + 1) {
            Some(r) => Some(r),
            None => if page_marker_at(s, q) {
                Some(q)
            } else {
                None
            },
        }
    }
}

/// Captures `(tid, page)` of the leftmost match of
/// `tid=(\d+)(?:.*&page=(\d+))?`; `page` is absent when the optional group
/// does not match.
pub open spec fn tid_query_captures(s: Seq<char>) -> Option<(Seq<char>, Option<Seq<char>>)> {
    match first_from(s, 0, tid_eq_at_pred()) {
        Some(i) => {
            let a = i + 4;
            let e = a + digit_run(s, a);
            let page = match last_page_marker(s, e) {
                Some(q) => Some(s.subrange(q + 6, q + 6 + digit_run(s, q + 6))),
                None => None,
            };
            Some((s.subrange(a, e), page))
        },
        None => None,
    }
}

/// A found marker is at or after the start and is a marker.
pub proof fn lemma_last_page_marker(s: Seq<char>, q: int)
    requires
        0 <= q,
    ensures
        last_page_marker(s, q) matches Some(r) ==> q <= r < s.len() && page_marker_at(s, r),
    decreases s.len() - q,
{
    if q < 0 || q >= s.len() || s[q] == '\n' {
    } else {
        lemma_last_page_marker(s, q + 1);
    }
}

fn tid_eq_at_exec(s: &Vec<char>, i: usize, lit: &Vec<char>) -> (r: bool)
    requires
        lit@ == "tid="@,
    ensures
        r == tid_eq_at(s@, i as int),
{
    proof {
        reveal_strlit("tid=");
    }
    if !occurs_at_exec(s, i, lit) {
        return false;
    }
    digit_run_exec(s, i + 4) >= 1
}

fn page_marker_at_exec(s: &Vec<char>, q: usize, lit: &Vec<char>) -> (r: bool)
    requires
        lit@ == "&page="@,
    ensures
        r == page_marker_at(s@, q as int),
{
    proof {
        reveal_strlit("&page=");
    }
    if !occurs_at_exec(s, q, lit) {
        return false;
    }
    digit_run_exec(s, q + 6) >= 1
}

/// Executable `last_page_marker`.
fn last_page_marker_exec(s: &Vec<char>, start: usize) -> (r: Option<usize>)
    ensures
        match r {
            Some(q) => last_page_marker(s@, start as int) == Some(q as int),
            None => last_page_marker(s@, start as int) is None,
        },
{
    let lit = chars_of("&page=");
    proof {
        reveal_strlit("&page=");
    }
    let mut last: Option<usize> = None;
    let mut q = start;
    while q < s.len() && s[q] != '\n'
        invariant
            start <= q,
            lit@ == "&page="@,
            last_page_marker(s@, start as int) == match last_page_marker(s@, q as int) {
                Some(r) => Some(r),
                None => match last {
                    Some(l) => Some(l as int),
                    None => None,
                },
            },
        decreases s.len() - q,
    {
        if page_marker_at_exec(s, q, &lit) {
            last = Some(q);
        }
        q = q + 1;
    }
    last
}

/// Spans of the leftmost match of `tid=(\d+)(?:.*&page=(\d+))?`:
/// `(tid_start, tid_end, page span if the optional group matched)`.
pub fn tid_query_spans(s: &Vec<char>) -> (r: Option<(usize, usize, Option<(usize, usize)>)>)
    ensures
        match r {
            Some((a, b, page)) => a <= b <= s.len() && match tid_query_captures(s@) {
                Some((tid, pg)) => tid == s@.subrange(a as int, b as int) && match page {
                    Some((c, d)) => c <= d <= s.len() && pg == Some(
                        s@.subrange(c as int, d as int),
                    ),
                    None => pg is None,
                },
                None => false,
            },
            None => tid_query_captures(s@) is None,
        },
{
    let lit = chars_of("tid=");
    proof {
        reveal_strlit("tid=");
    }
    let mut i: usize = 0;
    while i < s.len()
        invariant
            i <= s.len(),
            lit@ == "tid="@,
            first_from(s@, 0, tid_eq_at_pred()) == first_from(
                s@,
                i as int,
                tid_eq_at_pred(),
            ),
        decreases s.len() - i,
    {
        if tid_eq_at_exec(s, i, &lit) {
            let a = i + 4;
            let n1 = digit_run_exec(s, a);
            let e = a + n1;
            let page = match last_page_marker_exec(s, e) {
                Some(q) => {
                    proof {
                        lemma_last_page_marker(s@, e as int);
                    }
                    let n2 = digit_run_exec(s, q + 6);
                    Some((q + 6, q + 6 + n2))
                },
                None => None,
            };
            return Some((a, e, page));
        }
        i = i + 1;
    }
    if tid_eq_at_exec(s, s.len(), &lit) {
        assert(!occurs_at(s@, s@.len() as int, "tid="@));
        return None;
    }
    assert(first_from(s@, s@.len() as int + 1, tid_eq_at_pred()) is None);
    assert(first_from(s@, s@.len() as int, tid_eq_at_pred()) is None);
    None
}

// ---------------------------------------------------------------------------
// /t/(?P<tid>\d+)(\?p=(?P<page>\d+))?
// ---------------------------------------------------------------------------

/// The pattern `/t/\d+` matches at `i`.
pub open spec fn slash_t_at(s: Seq<char>, i: int) -> bool {
    occurs_at(s, i, "/t/"@) && digit_run(s, i + 3) >= 1
}

/// `slash_t_at` as a predicate value.
pub open spec fn slash_t_at_pred() -> spec_fn(Seq<char>, int) -> bool {
    |t: Seq<char>, k: int| slash_t_at(t, k)
}

/// Captures `(tid, page)` of the leftmost match of `/t/(\d+)(\?p=(\d+))?`.
pub open spec fn slash_t_captures(s: Seq<char>) -> Option<(Seq<char>, Option<Seq<char>>)> {
    match first_from(s, 0, slash_t_at_pred()) {
        Some(i) => {
            let a = i + 3;
            let e = a + digit_run(s, a);
            let page = if occurs_at(s, e, "?p="@) && digit_run(s, e + 3) >= 1 {
                Some(s.subrange(e + 3, e + 3 + digit_run(s, e + 3)))
            } else {
                None
            };
            Some((s.subrange(a, e), page))
        },
        None => None,
    }
}

fn slash_t_at_exec(s: &Vec<char>, i: usize, lit: &Vec<char>) -> (r: bool)
    requires
        lit@ == "/t/"@,
    ensures
        r == slash_t_at(s@, i as int),
{
    proof {
        reveal_strlit("/t/");
    }
    if !occurs_at_exec(s, i, lit) {
        return false;
    }
    digit_run_exec(s, i + 3) >= 1
}

/// Spans of the leftmost match of `/t/(\d+)(\?p=(\d+))?`.
pub fn slash_t_spans(s: &Vec<char>) -> (r: Option<(usize, usize, Option<(usize, usize)>)>)
    ensures
        match r {
            Some((a, b, page)) => a <= b <= s.len() && match slash_t_captures(s@) {
                Some((tid, pg)) => tid == s@.subrange(a as int, b as int) && match page {
                    Some((c, d)) => c <= d <= s.len() && pg == Some(
                        s@.subrange(c as int, d as int),
                    ),
                    None => pg is None,
                },
                None => false,
            },
            None => slash_t_captures(s@) is None,
        },
{
    let lit = chars_of("/t/");
    let qlit = chars_of("?p=");
    proof {
        reveal_strlit("/t/");
        reveal_strlit("?p=");
    }
    let mut i: usize = 0;
    while i < s.len()
        invariant
            i <= s.len(),
            lit@ == "/t/"@,
            qlit@ == "?p="@,
            first_from(s@, 0, slash_t_at_pred()) == first_from(
                s@,
                i as int,
                slash_t_at_pred(),
            ),
        decreases s.len() - i,
    {
        if slash_t_at_exec(s, i, &lit) {
            let a = i + 3;
            let n1 = digit_run_exec(s, a);
            let e = a + n1;
            let page = if occurs_at_exec(s, e, &qlit) {
                proof {
                    reveal_strlit("?p=");
                }
                let n2 = digit_run_exec(s, e + 3);
                if n2 >= 1 {
                    Some((e + 3, e + 3 + n2))
                } else {
                    None
                }
            } else {
                None
            };
            return Some((a, e, page));
        }
        i = i + 1;
    }
    if slash_t_at_exec(s, s.len(), &lit) {
        assert(!occurs_at(s@, s@.len() as int, "/t/"@));
        return None;
    }
    assert(first_from(s@, s@.len() as int + 1, slash_t_at_pred()) is None);
    assert(first_from(s@, s@.len() as int, slash_t_at_pred()) is None);
    None
}

// ---------------------------------------------------------------------------
// Building blocks shared by the script and style-sheet grammars
// ---------------------------------------------------------------------------

/// Length of the maximal run of `\s` (`White_Space`) characters starting at `i`.
pub open spec fn space_run(s: Seq<char>, i: int) -> nat
    decreases s.len() - i,
{
    if 0 <= i < s.len() && is_white_space(s[i]) {
        1 + space_run(s, i + 1)
    } else {
        0
    }
}

/// A run never reaches past the end.
pub proof fn lemma_space_run_bound(s: Seq<char>, i: int)
    requires
        0 <= i,
    ensures
        i + space_run(s, i) <= s.len() || space_run(s, i) == 0,
    decreases s.len() - i,
{
    if 0 <= i < s.len() && is_white_space(s[i]) {
        lemma_space_run_bound(s, i + 1);
    }
}

/// Executable `space_run`.
pub fn space_run_exec(s: &Vec<char>, i: usize) -> (n: usize)
    ensures
        n == space_run(s@, i as int),
        n == 0 || i + n <= s.len(),
{
    if i >= s.len() {
        return 0;
    }
    let mut j: usize = i;
    while j < s.len() && is_white_space_exec(s[j])
        invariant
            i <= j <= s.len(),
            space_run(s@, i as int) == (j - i) + space_run(s@, j as int),
        decreases s.len() - j,
    {
        j = j + 1;
    }
    proof {
        lemma_space_run_bound(s@, i as int);
    }
    j - i
}

/// What a lazy `.+?` followed by `stop` selects: the smallest end `e`
/// (at or after the given one) such that no character before `e` since
/// the group's start is a line break and `stop` holds at `e`.  Start the
/// search at the group's start plus one (the group takes at least one character).
pub open spec fn lazy_end(s: Seq<char>, e: int, stop: spec_fn(Seq<char>, int) -> bool) -> Option<int>
    decreases s.len() + 1 - e,
{
    if e < 1 || e > s.len() {
        None
    } else if s[e - 1] == '\n' {
        None
    } else if stop(s, e) {
        Some(e)
    } else {
        lazy_end(s, e + 1, stop)
    }
}

/// A found end is at or after the start and within bounds.
pub proof fn lemma_lazy_end(s: Seq<char>, e: int, stop: spec_fn(Seq<char>, int) -> bool)
    ensures
        lazy_end(s, e, stop) matches Some(r) ==> e <= r <= s.len() && stop(s, r),
    decreases s.len() + 1 - e,
{
    if e < 1 || e > s.len() {
    } else if s[e - 1] == '\n' {
    } else if stop(s, e) {
    } else {
        lemma_lazy_end(s, e + 1, stop);
    }
}

/// The literal `lit` starts at the index.
pub open spec fn literal_stop(lit: Seq<char>) -> spec_fn(Seq<char>, int) -> bool {
    |t: Seq<char>, k: int| occurs_at(t, k, lit)
}

/// Executable `lazy_end` for a literal stop.
pub fn lazy_end_literal(s: &Vec<char>, e0: usize, lit: &Vec<char>) -> (r: Option<usize>)
    ensures
        match r {
            Some(e) => lazy_end(s@, e0 as int, literal_stop(lit@)) == Some(e as int) && e0 <= e
                <= s.len(),
            None => lazy_end(s@, e0 as int, literal_stop(lit@)) is None,
        },
{
    let mut e = e0;
    while e >= 1 && e < s.len() && s[e - 1] != '\n' && !occurs_at_exec(s, e, lit)
        invariant
            e0 <= e,
            lazy_end(s@, e0 as int, literal_stop(lit@)) == lazy_end(s@, e as int, literal_stop(lit@)),
        decreases s.len() + 1 - e,
    {
        e = e + 1;
    }
    if e >= 1 && e <= s.len() && s[e - 1] != '\n' {
        if occurs_at_exec(s, e, lit) {
            Some(e)
        } else {
            assert(lazy_end(s@, e + 1, literal_stop(lit@)) is None);
            None
        }
    } else {
        None
    }
}

} // verus!
