//! Character-level string operations with mathematical specifications.
//!
//! Every executable function here works on `Vec<char>` (or converts from
//! and to `String`) and is proved against a spec function over `Seq<char>`.
use vstd::prelude::*;

verus! {

// ---------------------------------------------------------------------------
// Conversions
// ---------------------------------------------------------------------------

/// Calls std's `String::push`; claimed, as its documentation says: the
/// character is appended at the end.
#[verifier::external_body]
fn push_char(s: &mut String, c: char)
    ensures
        final(s)@ == old(s)@.push(c),
{
    s.push(c);
}

/// A `String` holding exactly these characters, in order.
pub fn string_from_chars(chars: &Vec<char>) -> (s: String)
    ensures
        s@ == chars@,
{
    let mut s = String::new();
    let mut i: usize = 0;
    while i < chars.len()
        invariant
            i <= chars.len(),
            s@ == chars@.take(i as int),
        decreases chars.len() - i,
    {
        push_char(&mut s, chars[i]);
        i = i + 1;
        assert(chars@.take(i as int) =~= chars@.take((i - 1) as int).push(chars@[i - 1]));
    }
    assert(chars@.take(i as int) =~= chars@);
    s
}

/// The characters of a string slice, in order.
pub fn chars_of(s: &str) -> (v: Vec<char>)
    ensures
        v@ == s@,
{
    let mut v: Vec<char> = Vec::new();
    for c in it: s.chars()
        invariant
            v@ == it.seq().take(it.index() as int),
    {
        v.push(c);
    }
    v
}

/// Appends every character of `extra` to `out`.
pub fn push_all(out: &mut Vec<char>, extra: &Vec<char>)
    ensures
        final(out)@ == old(out)@ + extra@,
{
    let mut i: usize = 0;
    while i < extra.len()
        invariant
            i <= extra.len(),
            out@ == old(out)@ + extra@.take(i as int),
        decreases extra.len() - i,
    {
        out.push(extra[i]);
        i = i + 1;
        assert(extra@.take(i as int) =~= extra@.take((i - 1) as int).push(extra@[i - 1]));
    }
    assert(extra@.take(i as int) =~= extra@);
}

/// Appends the characters of a string slice to `out`.
pub fn push_str(out: &mut Vec<char>, extra: &str)
    ensures
        final(out)@ == old(out)@ + extra@,
{
    let cs = chars_of(extra);
    push_all(out, &cs);
}

/// Concatenation of two string slices as a new `String`.
pub fn concat2(a: &str, b: &str) -> (r: String)
    ensures
        r@ == a@ + b@,
{
    let mut v = chars_of(a);
    push_str(&mut v, b);
    string_from_chars(&v)
}

/// The characters `v[lo..hi]` as a new vector.
pub fn sub_vec(v: &Vec<char>, lo: usize, hi: usize) -> (r: Vec<char>)
    requires
        lo <= hi <= v.len(),
    ensures
        r@ == v@.subrange(lo as int, hi as int),
{
    let mut r: Vec<char> = Vec::new();
    let mut i = lo;
    while i < hi
        invariant
            lo <= i <= hi <= v.len(),
            r@ == v@.subrange(lo as int, i as int),
        decreases hi - i,
    {
        r.push(v[i]);
        i = i + 1;
        assert(r@ =~= v@.subrange(lo as int, i as int));
    }
    r
}

/// The characters `v[lo..hi]` as a new `String`.
pub fn sub_string(v: &Vec<char>, lo: usize, hi: usize) -> (r: String)
    requires
        lo <= hi <= v.len(),
    ensures
        r@ == v@.subrange(lo as int, hi as int),
{
    let sv = sub_vec(v, lo, hi);
    string_from_chars(&sv)
}

/// Whether two string slices hold the same characters.
pub fn str_eq(a: &str, b: &str) -> (r: bool)
    ensures
        r == (a@ == b@),
{
    let av = chars_of(a);
    let bv = chars_of(b);
    vec_eq(&av, &bv)
}

/// Whether two character vectors are equal.
pub fn vec_eq(a: &Vec<char>, b: &Vec<char>) -> (r: bool)
    ensures
        r == (a@ == b@),
{
    if a.len() != b.len() {
        return false;
    }
    let mut i: usize = 0;
    while i < a.len()
        invariant
            a.len() == b.len(),
            i <= a.len(),
            forall|j: int| 0 <= j < i ==> a@[j] == b@[j],
        decreases a.len() - i,
    {
        if a[i] != b[i] {
            return false;
        }
        i = i + 1;
    }
    assert(a@ =~= b@);
    true
}

// ---------------------------------------------------------------------------
// Prefixes, suffixes and substrings
// ---------------------------------------------------------------------------

/// `p` occurs in `s` starting at index `i`.
pub open spec fn occurs_at(s: Seq<char>, i: int, p: Seq<char>) -> bool {
    0 <= i && i + p.len() <= s.len() && s.subrange(i, i + p.len()) == p
}

/// `s` starts with `p`.
pub open spec fn has_prefix(s: Seq<char>, p: Seq<char>) -> bool {
    occurs_at(s, 0, p)
}

/// `s` ends with `p`.
pub open spec fn has_suffix(s: Seq<char>, p: Seq<char>) -> bool {
    p.len() <= s.len() && occurs_at(s, s.len() - p.len(), p)
}

/// `p` occurs somewhere in `s`.
pub open spec fn contains_seq(s: Seq<char>, p: Seq<char>) -> bool {
    exists|i: int| #[trigger] occurs_at(s, i, p)
}

/// Executable test of `occurs_at`.
pub fn occurs_at_exec(s: &Vec<char>, i: usize, p: &Vec<char>) -> (r: bool)
    ensures
        r == occurs_at(s@, i as int, p@),
        r ==> i + p.len() <= s.len(),
{
    if i > s.len() || p.len() > s.len() - i {
        return false;
    }
    let mut j: usize = 0;
    while j < p.len()
        invariant
            i + p.len() <= s.len(),
            j <= p.len(),
            forall|k: int| 0 <= k < j ==> s@[i + k] == p@[k],
        decreases p.len() - j,
    {
        if s[i + j] != p[j] {
            assert(s@.subrange(i as int, i + p.len())[j as int] != p@[j as int]);
            return false;
        }
        j = j + 1;
    }
    assert(s@.subrange(i as int, i + p.len()) =~= p@);
    true
}

/// Whether `s` starts with `p`.
pub fn starts_with(s: &Vec<char>, p: &Vec<char>) -> (r: bool)
    ensures
        r == has_prefix(s@, p@),
{
    occurs_at_exec(s, 0, p)
}

/// Whether `s` ends with `p`.
pub fn ends_with(s: &Vec<char>, p: &Vec<char>) -> (r: bool)
    ensures
        r == has_suffix(s@, p@),
{
    if p.len() > s.len() {
        return false;
    }
    occurs_at_exec(s, s.len() - p.len(), p)
}

/// Whether `p` occurs in `s`.
pub fn contains(s: &Vec<char>, p: &Vec<char>) -> (r: bool)
    ensures
        r == contains_seq(s@, p@),
{
    let mut i: usize = 0;
    while i < s.len()
        invariant
            i <= s.len(),
            forall|k: int| 0 <= k < i ==> !occurs_at(s@, k, p@),
        decreases s.len() - i,
    {
        if occurs_at_exec(s, i, p) {
            return true;
        }
        i = i + 1;
    }
    if occurs_at_exec(s, s.len(), p) {
        return true;
    }
    assert forall|k: int| !occurs_at(s@, k, p@) by {
        if 0 <= k && k <= s.len() {
        }
    }
    false
}

/// Whether the string slice `s` contains `p`.
pub fn str_contains(s: &str, p: &str) -> (r: bool)
    ensures
        r == contains_seq(s@, p@),
{
    let sv = chars_of(s);
    let pv = chars_of(p);
    contains(&sv, &pv)
}

/// Whether the string slice `s` starts with `p`.
pub fn str_starts_with(s: &str, p: &str) -> (r: bool)
    ensures
        r == has_prefix(s@, p@),
{
    let sv = chars_of(s);
    let pv = chars_of(p);
    starts_with(&sv, &pv)
}

// ---------------------------------------------------------------------------
// Literal replacement (std `str::replace` with a non-empty pattern)
// ---------------------------------------------------------------------------

/// Result of replacing, from index `i` on, every non-overlapping occurrence
/// of `from` (scanning left to right) by `to`.
pub open spec fn replace_from(s: Seq<char>, from: Seq<char>, to: Seq<char>, i: int) -> Seq<char>
    decreases s.len() - i,
{
    if i < 0 || i >= s.len() {
        Seq::empty()
    } else if from.len() > 0 && occurs_at(s, i, from) {
        to + replace_from(s, from, to, i + from.len())
    } else {
        seq![s[i]] + replace_from(s, from, to, i + 1)
    }
}

/// `s` with every non-overlapping occurrence of `from` replaced by `to`.
pub open spec fn replace_all_spec(s: Seq<char>, from: Seq<char>, to: Seq<char>) -> Seq<char> {
    replace_from(s, from, to, 0)
}

/// Where `from` does not occur, replacing copies the text unchanged.
pub proof fn lemma_replace_skip(s: Seq<char>, from: Seq<char>, to: Seq<char>, i: int, j: int)
    requires
        0 <= i <= j <= s.len(),
        from.len() > 0,
        forall|k: int| i <= k < j ==> !#[trigger] occurs_at(s, k, from),
    ensures
        replace_from(s, from, to, i) == s.subrange(i, j) + replace_from(s, from, to, j),
    decreases j - i,
{
    if i < j {
        lemma_replace_skip(s, from, to, i + 1, j);
        assert(s.subrange(i, j) =~= seq![s[i]] + s.subrange(i + 1, j));
    } else {
        assert(s.subrange(i, j) =~= Seq::<char>::empty());
    }
}

/// Replaces every non-overlapping occurrence of the non-empty `from` in `s`
/// by `to`, scanning left to right.
pub fn replace_all(s: &Vec<char>, from: &Vec<char>, to: &Vec<char>) -> (r: Vec<char>)
    requires
        from.len() > 0,
    ensures
        r@ == replace_all_spec(s@, from@, to@),
{
    let mut out: Vec<char> = Vec::new();
    let mut i: usize = 0;
    while i < s.len()
        invariant
            from.len() > 0,
            i <= s.len(),
            replace_all_spec(s@, from@, to@) == out@ + replace_from(s@, from@, to@, i as int),
        decreases s.len() - i,
    {
        if occurs_at_exec(s, i, from) {
            let ghost before = out@;
            push_all(&mut out, to);
            assert(before + replace_from(s@, from@, to@, i as int) =~= out@ + replace_from(
                s@,
                from@,
                to@,
                (i + from.len()) as int,
            ));
            i = i + from.len();
        } else {
            let ghost before = out@;
            out.push(s[i]);
            assert(before + replace_from(s@, from@, to@, i as int) =~= out@ + replace_from(
                s@,
                from@,
                to@,
                i + 1,
            ));
            i = i + 1;
        }
    }
    assert(replace_from(s@, from@, to@, i as int) =~= Seq::<char>::empty());
    assert(out@ + Seq::<char>::empty() =~= out@);
    out
}

/// `str::replace` for string slices with a non-empty pattern.
pub fn str_replace(s: &str, from: &str, to: &str) -> (r: String)
    requires
        from@.len() > 0,
    ensures
        r@ == replace_all_spec(s@, from@, to@),
{
    let sv = chars_of(s);
    let fv = chars_of(from);
    let tv = chars_of(to);
    let rv = replace_all(&sv, &fv, &tv);
    string_from_chars(&rv)
}

// ---------------------------------------------------------------------------
// Whitespace and trimming
// ---------------------------------------------------------------------------

/// The Unicode `White_Space` property (PropList.txt), which std's
/// `char::is_whitespace` and `str::trim` use.
pub open spec fn is_white_space(c: char) -> bool {
    ('\u{9}' <= c && c <= '\u{d}') || c == ' ' || c == '\u{85}' || c == '\u{a0}' || c
        == '\u{1680}' || ('\u{2000}' <= c && c <= '\u{200a}') || c == '\u{2028}' || c
        == '\u{2029}' || c == '\u{202f}' || c == '\u{205f}' || c == '\u{3000}'
}

/// Executable `White_Space` test.
pub fn is_white_space_exec(c: char) -> (r: bool)
    ensures
        r == is_white_space(c),
{
    ('\u{9}' <= c && c <= '\u{d}') || c == ' ' || c == '\u{85}' || c == '\u{a0}' || c
        == '\u{1680}' || ('\u{2000}' <= c && c <= '\u{200a}') || c == '\u{2028}' || c
        == '\u{2029}' || c == '\u{202f}' || c == '\u{205f}' || c == '\u{3000}'
}

/// Index of the first non-whitespace character at or after `i` (or `s.len()`).
pub open spec fn skip_ws(s: Seq<char>, i: int) -> int
    decreases s.len() - i,
{
    if i < 0 || i >= s.len() {
        s.len() as int
    } else if is_white_space(s[i]) {
        skip_ws(s, i + 1)
    } else {
        i
    }
}

/// One past the last non-whitespace character before `j` (or 0).
pub open spec fn skip_ws_back(s: Seq<char>, j: int) -> int
    decreases j,
{
    if j <= 0 || j > s.len() {
        0
    } else if is_white_space(s[j - 1]) {
        skip_ws_back(s, j - 1)
    } else {
        j
    }
}

/// `s` without leading and trailing `White_Space` characters (std `str::trim`).
pub open spec fn trim_spec(s: Seq<char>) -> Seq<char> {
    let a = skip_ws(s, 0);
    let b = skip_ws_back(s, s.len() as int);
    if a < b {
        s.subrange(a, b)
    } else {
        Seq::empty()
    }
}

/// Removes leading and trailing whitespace.
pub fn trim(s: &Vec<char>) -> (r: Vec<char>)
    ensures
        r@ == trim_spec(s@),
{
    let mut a: usize = 0;
    while a < s.len() && is_white_space_exec(s[a])
        invariant
            a <= s.len(),
            skip_ws(s@, 0) == skip_ws(s@, a as int),
        decreases s.len() - a,
    {
        a = a + 1;
    }
    let mut b: usize = s.len();
    while b > 0 && is_white_space_exec(s[b - 1])
        invariant
            b <= s.len(),
            skip_ws_back(s@, s.len() as int) == skip_ws_back(s@, b as int),
        decreases b,
    {
        b = b - 1;
    }
    if a < b {
        sub_vec(s, a, b)
    } else {
        Vec::new()
    }
}

/// `s` without every trailing occurrence of `c` (std `trim_end_matches` with a char).
pub open spec fn trim_end_char_spec(s: Seq<char>, c: char) -> Seq<char>
    decreases s.len(),
{
    if s.len() > 0 && s.last() == c {
        trim_end_char_spec(s.drop_last(), c)
    } else {
        s
    }
}

/// Removes every trailing `c`.
pub fn trim_end_char(s: &Vec<char>, c: char) -> (r: Vec<char>)
    ensures
        r@ == trim_end_char_spec(s@, c),
{
    let mut b: usize = s.len();
    assert(s@.take(s.len() as int) =~= s@);
    while b > 0 && s[b - 1] == c
        invariant
            b <= s.len(),
            trim_end_char_spec(s@, c) == trim_end_char_spec(s@.take(b as int), c),
        decreases b,
    {
        assert(s@.take(b as int).drop_last() =~= s@.take(b - 1));
        b = b - 1;
    }
    assert(s@.subrange(0, b as int) =~= s@.take(b as int));
    sub_vec(s, 0, b)
}

// ---------------------------------------------------------------------------
// Splitting on a character
// ---------------------------------------------------------------------------

/// Index of the last occurrence of `c` strictly before `j`, if any.
pub open spec fn last_index_before(s: Seq<char>, c: char, j: int) -> Option<int>
    decreases j,
{
    if j <= 0 || j > s.len() {
        None
    } else if s[j - 1] == c {
        Some(j - 1)
    } else {
        last_index_before(s, c, j - 1)
    }
}

/// Index of the last occurrence of `c` in `s`, if any.
pub open spec fn last_index_of(s: Seq<char>, c: char) -> Option<int> {
    last_index_before(s, c, s.len() as int)
}

/// The last piece of `s.split(c)`: the characters after the last `c`,
/// or all of `s` when `c` does not occur.
pub open spec fn after_last_spec(s: Seq<char>, c: char) -> Seq<char> {
    match last_index_of(s, c) {
        Some(k) => s.subrange(k + 1, s.len() as int),
        None => s,
    }
}

/// Executable `last_index_of`.
pub fn last_index(s: &Vec<char>, c: char) -> (r: Option<usize>)
    ensures
        r matches Some(k) ==> last_index_of(s@, c) == Some(k as int) && k < s.len() && s@[k as int]
            == c,
        r is None ==> last_index_of(s@, c) is None,
{
    let mut j: usize = s.len();
    while j > 0
        invariant
            j <= s.len(),
            last_index_of(s@, c) == last_index_before(s@, c, j as int),
        decreases j,
    {
        if s[j - 1] == c {
            return Some(j - 1);
        }
        j = j - 1;
    }
    None
}

/// `s.split(c).last()` (always present).
pub fn after_last(s: &Vec<char>, c: char) -> (r: Vec<char>)
    ensures
        r@ == after_last_spec(s@, c),
{
    match last_index(s, c) {
        Some(k) => sub_vec(s, k + 1, s.len()),
        None => s.clone(),
    }
}

// ---------------------------------------------------------------------------
// Decimal numbers (std `usize::from_str` and `usize::to_string`)
// ---------------------------------------------------------------------------

/// The kinds of failure of std's integer parsing that an unsigned parse can give.
#[derive(Debug, Clone, Copy, PartialEq, Eq)]
pub enum IntParseError {
    /// The input was empty.
    Empty,
    /// A character that is not an ASCII digit was met (or a lone `+`).
    InvalidDigit,
    /// The value does not fit in `usize`.
    PosOverflow,
}

impl IntParseError {
    /// The message std's `ParseIntError` displays for this kind.
    pub fn message(&self) -> (r: String)
        ensures
            r@ == int_parse_error_message(*self),
    {
        match self {
            IntParseError::Empty => String::from_str("cannot parse integer from empty string"),
            IntParseError::InvalidDigit => String::from_str("invalid digit found in string"),
            IntParseError::PosOverflow => String::from_str("number too large to fit in target type"),
        }
    }
}

/// The message std displays for each parse error kind.
pub open spec fn int_parse_error_message(e: IntParseError) -> Seq<char> {
    match e {
        IntParseError::Empty => "cannot parse integer from empty string"@,
        IntParseError::InvalidDigit => "invalid digit found in string"@,
        IntParseError::PosOverflow => "number too large to fit in target type"@,
    }
}

/// ASCII decimal digit.
pub open spec fn is_ascii_digit(c: char) -> bool {
    '0' <= c && c <= '9'
}

/// Value of an ASCII decimal digit.
pub open spec fn digit_value(c: char) -> nat {
    (c as int - '0' as int) as nat
}

/// Left-to-right accumulation of decimal digits from index `i` with
/// accumulator `acc`, failing at the first non-digit or at the first
/// step whose value exceeds `usize::MAX`.
pub open spec fn scan_digits(s: Seq<char>, i: int, acc: nat) -> Result<nat, IntParseError>
    decreases s.len() - i,
{
    if i < 0 || i >= s.len() {
        Ok(acc)
    } else if !is_ascii_digit(s[i]) {
        Err(IntParseError::InvalidDigit)
    } else if acc * 10 + digit_value(s[i]) > usize::MAX {
        Err(IntParseError::PosOverflow)
    } else {
        scan_digits(s, i + 1, acc * 10 + digit_value(s[i]))
    }
}

/// std's `str::parse::<usize>`: an optional `+` followed by one or more ASCII digits.
pub open spec fn parse_usize_spec(s: Seq<char>) -> Result<usize, IntParseError> {
    if s.len() == 0 {
        Err(IntParseError::Empty)
    } else {
        let start: int = if s[0] == '+' { 1 } else { 0 };
        if start == s.len() {
            Err(IntParseError::InvalidDigit)
        } else {
            match scan_digits(s, start, 0) {
                Ok(v) => Ok(v as usize),
                Err(e) => Err(e),
            }
        }
    }
}

/// The accumulated value stays within `usize`.
pub proof fn lemma_scan_digits_bound(s: Seq<char>, i: int, acc: nat)
    requires
        acc <= usize::MAX,
    ensures
        scan_digits(s, i, acc) matches Ok(v) ==> v <= usize::MAX,
    decreases s.len() - i,
{
    if i < 0 || i >= s.len() {
    } else if !is_ascii_digit(s[i]) {
    } else if acc * 10 + digit_value(s[i]) > usize::MAX {
    } else {
        lemma_scan_digits_bound(s, i + 1, acc * 10 + digit_value(s[i]));
    }
}

/// Parses `v[lo..hi]` as std's `str::parse::<usize>` does.
pub fn parse_usize_range(v: &Vec<char>, lo: usize, hi: usize) -> (r: Result<usize, IntParseError>)
    requires
        lo <= hi <= v.len(),
    ensures
        r == parse_usize_spec(v@.subrange(lo as int, hi as int)),
{
    let ghost s = v@.subrange(lo as int, hi as int);
    if lo == hi {
        return Err(IntParseError::Empty);
    }
    let mut i: usize = lo;
    if v[lo] == '+' {
        i = lo + 1;
    }
    if i == hi {
        return Err(IntParseError::InvalidDigit);
    }
    let mut acc: usize = 0;
    let ghost start: int = (i - lo) as int;
    proof {
        lemma_scan_digits_bound(s, start, 0);
        assert(s[0] == v@[lo as int]);
        assert(parse_usize_spec(s) == match scan_digits(s, start, 0) {
            Ok(n) => Ok::<usize, IntParseError>(n as usize),
            Err(e) => Err(e),
        });
    }
    while i < hi
        invariant
            lo <= i <= hi <= v.len(),
            s == v@.subrange(lo as int, hi as int),
            scan_digits(s, start, 0) == scan_digits(s, (i - lo) as int, acc as nat),
            parse_usize_spec(s) == match scan_digits(s, start, 0) {
                Ok(n) => Ok::<usize, IntParseError>(n as usize),
                Err(e) => Err(e),
            },
        decreases hi - i,
    {
        let c = v[i];
        assert(s[(i - lo) as int] == c);
        if !('0' <= c && c <= '9') {
            assert(scan_digits(s, (i - lo) as int, acc as nat) == Err::<nat, IntParseError>(
                IntParseError::InvalidDigit,
            ));
            return Err(IntParseError::InvalidDigit);
        }
        let d: usize = (c as u32 - '0' as u32) as usize;
        assert(d == digit_value(c));
        if acc > (usize::MAX - d) / 10 {
            assert(acc * 10 + d > usize::MAX) by (nonlinear_arith)
                requires
                    acc > (usize::MAX - d) / 10,
                    d <= 9,
            ;
            assert(scan_digits(s, (i - lo) as int, acc as nat) == Err::<nat, IntParseError>(
                IntParseError::PosOverflow,
            ));
            return Err(IntParseError::PosOverflow);
        }
        assert(acc * 10 + d <= usize::MAX) by (nonlinear_arith)
            requires
                acc <= (usize::MAX - d) / 10,
                d <= 9,
        ;
        acc = acc * 10 + d;
        i = i + 1;
    }
    Ok(acc)
}

/// Parses a whole string slice as `usize`.
pub fn parse_usize(s: &str) -> (r: Result<usize, IntParseError>)
    ensures
        r == parse_usize_spec(s@),
{
    let v = chars_of(s);
    assert(v@.subrange(0, v@.len() as int) =~= v@);
    parse_usize_range(&v, 0, v.len())
}

/// The ASCII digit for a value below ten.
pub open spec fn digit_char(d: nat) -> char {
    if d == 0 {
        '0'
    } else if d == 1 {
        '1'
    } else if d == 2 {
        '2'
    } else if d == 3 {
        '3'
    } else if d == 4 {
        '4'
    } else if d == 5 {
        '5'
    } else if d == 6 {
        '6'
    } else if d == 7 {
        '7'
    } else if d == 8 {
        '8'
    } else {
        '9'
    }
}

/// Decimal representation of `n` without sign or leading zeros (std `Display` for integers).
pub open spec fn decimal_spec(n: nat) -> Seq<char>
    decreases n,
{
    if n < 10 {
        seq![digit_char(n)]
    } else {
        decimal_spec(n / 10) + seq![digit_char(n % 10)]
    }
}

/// A digit written for a value below ten reads back as that value.
proof fn lemma_digit_char(d: nat)
    requires
        d < 10,
    ensures
        is_ascii_digit(digit_char(d)),
        digit_value(digit_char(d)) == d,
{
}

/// Scanning one more character after a successful scan.
proof fn lemma_scan_digits_push(s: Seq<char>, c: char, i: int, acc: nat)
    requires
        0 <= i <= s.len(),
        scan_digits(s, i, acc) is Ok,
    ensures
        scan_digits(s.push(c), i, acc) == (if !is_ascii_digit(c) {
            Err::<nat, IntParseError>(IntParseError::InvalidDigit)
        } else if scan_digits(s, i, acc)->Ok_0 * 10 + digit_value(c) > usize::MAX {
            Err::<nat, IntParseError>(IntParseError::PosOverflow)
        } else {
            Ok::<nat, IntParseError>(scan_digits(s, i, acc)->Ok_0 * 10 + digit_value(c))
        }),
    decreases s.len() - i,
{
    if i < s.len() {
        assert(s.push(c)[i] == s[i]);
        lemma_scan_digits_push(s, c, i + 1, acc * 10 + digit_value(s[i]));
    } else {
        assert(s.push(c)[i] == c);
        let v = acc * 10 + digit_value(c);
        assert(scan_digits(s.push(c), i + 1, v) == Ok::<nat, IntParseError>(v));
    }
}

/// The decimal form of a number reads back as that number, digit by digit.
proof fn lemma_scan_decimal(n: nat)
    requires
        n <= usize::MAX,
    ensures
        scan_digits(decimal_spec(n), 0, 0) == Ok::<nat, IntParseError>(n),
        decimal_spec(n).len() >= 1,
        is_ascii_digit(decimal_spec(n)[0]),
    decreases n,
{
    if n < 10 {
        lemma_digit_char(n);
        let s = decimal_spec(n);
        assert(scan_digits(s, 1, n) == Ok::<nat, IntParseError>(n));
    } else {
        let q = n / 10;
        let d = n % 10;
        assert(q * 10 + d == n);
        lemma_scan_decimal(q);
        lemma_digit_char(d);
        assert(decimal_spec(n) == decimal_spec(q).push(digit_char(d)));
        lemma_scan_digits_push(decimal_spec(q), digit_char(d), 0, 0);
    }
}

/// Every character of a decimal form is an ASCII digit.
pub proof fn lemma_decimal_digits(n: nat)
    ensures
        forall|k: int| 0 <= k < decimal_spec(n).len() ==> is_ascii_digit(#[trigger] decimal_spec(n)[k]),
        decimal_spec(n).len() >= 1,
    decreases n,
{
    if n < 10 {
        lemma_digit_char(n);
    } else {
        lemma_decimal_digits(n / 10);
        lemma_digit_char(n % 10);
        let a = decimal_spec(n / 10);
        assert forall|k: int| 0 <= k < decimal_spec(n).len() implies is_ascii_digit(
            #[trigger] decimal_spec(n)[k],
        ) by {
            if k < a.len() {
                assert(decimal_spec(n)[k] == a[k]);
            }
        }
    }
}

/// Reading back a printed number gives the number: `n.to_string().parse()`
/// is `Ok(n)`.
pub proof fn lemma_parse_decimal(n: usize)
    ensures
        parse_usize_spec(decimal_spec(n as nat)) == Ok::<usize, IntParseError>(n),
{
    lemma_scan_decimal(n as nat);
}

fn digit_char_exec(d: usize) -> (c: char)
    requires
        d < 10,
    ensures
        c == digit_char(d as nat),
{
    if d == 0 {
        '0'
    } else if d == 1 {
        '1'
    } else if d == 2 {
        '2'
    } else if d == 3 {
        '3'
    } else if d == 4 {
        '4'
    } else if d == 5 {
        '5'
    } else if d == 6 {
        '6'
    } else if d == 7 {
        '7'
    } else if d == 8 {
        '8'
    } else {
        '9'
    }
}

/// Appends the decimal representation of `n`.
pub fn push_decimal(out: &mut Vec<char>, n: usize)
    ensures
        final(out)@ == old(out)@ + decimal_spec(n as nat),
    decreases n,
{
    if n < 10 {
        out.push(digit_char_exec(n));
        assert(old(out)@.push(digit_char(n as nat)) =~= old(out)@ + decimal_spec(n as nat));
    } else {
        push_decimal(out, n / 10);
        out.push(digit_char_exec(n % 10));
        assert(out@ =~= old(out)@ + decimal_spec(n as nat));
    }
}

/// `n.to_string()` for `usize`.
pub fn usize_to_string(n: usize) -> (r: String)
    ensures
        r@ == decimal_spec(n as nat),
{
    let mut v: Vec<char> = Vec::new();
    push_decimal(&mut v, n);
    assert(v@ =~= decimal_spec(n as nat));
    string_from_chars(&v)
}

/// `n.to_string()` for `u64`.
pub fn u64_to_string(n: u64) -> (r: String)
    ensures
        r@ == decimal_spec(n as nat),
    decreases n,
{
    let mut v: Vec<char> = Vec::new();
    push_decimal_u64(&mut v, n);
    assert(v@ =~= decimal_spec(n as nat));
    string_from_chars(&v)
}

/// Appends the decimal representation of a `u64`.
pub fn push_decimal_u64(out: &mut Vec<char>, n: u64)
    ensures
        final(out)@ == old(out)@ + decimal_spec(n as nat),
    decreases n,
{
    if n < 10 {
        out.push(digit_char_exec(n as usize));
        assert(old(out)@.push(digit_char(n as nat)) =~= old(out)@ + decimal_spec(n as nat));
    } else {
        push_decimal_u64(out, n / 10);
        out.push(digit_char_exec((n % 10) as usize));
        assert(out@ =~= old(out)@ + decimal_spec(n as nat));
    }
}

} // verus!

verus! {

// ---------------------------------------------------------------------------
// Splitting on a separator character (std `str::split` with a `char`)
// ---------------------------------------------------------------------------

/// Index of the first occurrence of `c` at or after `i`, if any.
pub open spec fn next_index_of(s: Seq<char>, c: char, i: int) -> Option<int>
    decreases s.len() - i,
{
    if i < 0 || i >= s.len() {
        None
    } else if s[i] == c {
        Some(i)
    } else {
        next_index_of(s, c, i + 1)
    }
}

/// A found index lies in range and holds `c`.
pub proof fn lemma_next_index_of(s: Seq<char>, c: char, i: int)
    requires
        0 <= i,
    ensures
        next_index_of(s, c, i) matches Some(k) ==> i <= k < s.len() && s[k] == c,
    decreases s.len() - i,
{
    if i < 0 || i >= s.len() {
    } else if s[i] == c {
    } else {
        lemma_next_index_of(s, c, i + 1);
    }
}

/// The pieces of `s[start..]` separated by `c`, in order (std `split`).
pub open spec fn split_from(s: Seq<char>, c: char, start: int) -> Seq<Seq<char>>
    decreases s.len() - start,
{
    if start < 0 || start > s.len() {
        Seq::empty()
    } else {
        match next_index_of(s, c, start) {
            Some(k) => if start <= k < s.len() {
                seq![s.subrange(start, k)] + split_from(s, c, k + 1)
            } else {
                Seq::empty()
            },
            None => seq![s.subrange(start, s.len() as int)],
        }
    }
}

/// `s.split(c)` as a sequence of pieces.
pub open spec fn split_spec(s: Seq<char>, c: char) -> Seq<Seq<char>> {
    split_from(s, c, 0)
}

/// The pieces of `s.split(c)`, each as a character vector.
pub fn split_char(s: &Vec<char>, c: char) -> (r: Vec<Vec<char>>)
    ensures
        r@.len() == split_spec(s@, c).len(),
        forall|i: int| 0 <= i < r@.len() ==> (#[trigger] r@[i])@ == split_spec(s@, c)[i],
{
    let mut pieces: Vec<Vec<char>> = Vec::new();
    let mut start: usize = 0;
    let mut i: usize = 0;
    let ghost acc: Seq<Seq<char>> = Seq::empty();
    while i < s.len()
        invariant
            start <= i <= s.len(),
            next_index_of(s@, c, start as int) == next_index_of(s@, c, i as int),
            split_spec(s@, c) == acc + split_from(s@, c, start as int),
            pieces@.len() == acc.len(),
            forall|j: int| 0 <= j < pieces@.len() ==> (#[trigger] pieces@[j])@ == acc[j],
        decreases s.len() - i,
    {
        if s[i] == c {
            let piece = sub_vec(s, start, i);
            proof {
                assert(next_index_of(s@, c, start as int) == Some(i as int));
                acc = acc.push(piece@);
                assert(acc + split_from(s@, c, (i + 1) as int) =~= (acc.drop_last() + split_from(
                    s@,
                    c,
                    start as int,
                )));
            }
            pieces.push(piece);
            start = i + 1;
        }
        i = i + 1;
    }
    let last = sub_vec(s, start, s.len());
    proof {
        assert(next_index_of(s@, c, i as int) is None);
        assert(split_from(s@, c, start as int) =~= seq![last@]);
        acc = acc.push(last@);
    }
    pieces.push(last);
    assert(split_spec(s@, c) =~= acc);
    pieces
}

} // verus!
