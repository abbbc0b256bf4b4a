//! Text as sequences of characters: conversion between `String` and `Vec<char>`, the character
//! classes the naming rules use, and the few searches and trims done on names and paths.

use vstd::prelude::*;

verus! {

broadcast use vstd::string::group_string_axioms;

// ---------------------------------------------------------------------------------------------
// Conversions
// ---------------------------------------------------------------------------------------------

/// The characters of `s`, in order
pub fn chars_of(s: &str) -> (v: Vec<char>)
    ensures
        v@ == s@,
{
    let mut v: Vec<char> = Vec::new();
    for c in it: s.chars()
        invariant
            v@ == it.seq().take(it.index() as int),
            it.seq() == s@,
    {
        v.push(c);
    }
    v
}

/// `String::push`: appends one character
#[verifier::external_body]
fn push_char(s: &mut String, c: char)
    ensures
        final(s)@ == old(s)@.push(c),
{
    s.push(c);
}

/// The string made of the characters of `v`, in order
pub fn string_of(v: &[char]) -> (s: String)
    ensures
        s@ == v@,
{
    let mut s = String::new();
    let mut i: usize = 0;
    while i < v.len()
        invariant
            i <= v@.len(),
            s@ == v@.take(i as int),
        decreases v@.len() - i,
    {
        push_char(&mut s, v[i]);
        i = i + 1;
        assert(v@.take(i as int) == v@.take((i - 1) as int).push(v@[i - 1]));
    }
    assert(v@.take(v@.len() as int) == v@);
    s
}

/// A string with the characters of `s` (a copy of a literal or a borrowed string)
pub fn owned(s: &str) -> (r: String)
    ensures
        r@ == s@,
{
    let v = chars_of(s);
    string_of(v.as_slice())
}

// ---------------------------------------------------------------------------------------------
// Character classes
// ---------------------------------------------------------------------------------------------

/// Unicode general category `Cc`, which is what `char::is_control` tests: U+0000–U+001F and
/// U+007F–U+009F
pub open spec fn is_control_char(c: char) -> bool {
    (c as u32) <= 0x1f || (0x7f <= (c as u32) && (c as u32) <= 0x9f)
}

/// `char::is_control`
pub fn is_control(c: char) -> (r: bool)
    ensures
        r == is_control_char(c),
{
    let u = c as u32;
    u <= 0x1f || (0x7f <= u && u <= 0x9f)
}

/// The Unicode `White_Space` property, which is what `char::is_whitespace` (and so `str::trim`)
/// tests
pub open spec fn is_whitespace_char(c: char) -> bool {
    let u = c as u32;
    ||| 0x09 <= u && u <= 0x0d
    ||| u == 0x20
    ||| u == 0x85
    ||| u == 0xa0
    ||| u == 0x1680
    ||| 0x2000 <= u && u <= 0x200a
    ||| u == 0x2028
    ||| u == 0x2029
    ||| u == 0x202f
    ||| u == 0x205f
    ||| u == 0x3000
}

/// `char::is_whitespace`
pub fn is_whitespace(c: char) -> (r: bool)
    ensures
        r == is_whitespace_char(c),
{
    let u = c as u32;
    (0x09 <= u && u <= 0x0d) || u == 0x20 || u == 0x85 || u == 0xa0 || u == 0x1680 || (0x2000 <= u
        && u <= 0x200a) || u == 0x2028 || u == 0x2029 || u == 0x202f || u == 0x205f || u == 0x3000
}

/// `char::is_ascii_hexdigit`
pub open spec fn is_hex_digit_char(c: char) -> bool {
    ('0' <= c && c <= '9') || ('a' <= c && c <= 'f') || ('A' <= c && c <= 'F')
}

/// `char::is_ascii_hexdigit`
pub fn is_hex_digit(c: char) -> (r: bool)
    ensures
        r == is_hex_digit_char(c),
{
    ('0' <= c && c <= '9') || ('a' <= c && c <= 'f') || ('A' <= c && c <= 'F')
}

/// `char::to_ascii_lowercase`: `A`–`Z` become `a`–`z`, everything else stays
pub open spec fn ascii_lower_char(c: char) -> char {
    if 'A' <= c && c <= 'Z' {
        ((c as u32) + 32) as char
    } else {
        c
    }
}

/// `char::to_ascii_lowercase`
pub fn ascii_lower(c: char) -> (r: char)
    ensures
        r == ascii_lower_char(c),
{
    if 'A' <= c && c <= 'Z' {
        let b = (c as u32) as u8;
        assert(b as u32 == c as u32);
        ((b + 32) as char)
    } else {
        c
    }
}

/// `str::to_ascii_lowercase`, character by character
pub open spec fn ascii_lower_seq(s: Seq<char>) -> Seq<char> {
    s.map_values(|c: char| ascii_lower_char(c))
}

/// `str::to_ascii_lowercase`
pub fn ascii_lowercase(v: &[char]) -> (r: Vec<char>)
    ensures
        r@ == ascii_lower_seq(v@),
{
    let mut r: Vec<char> = Vec::new();
    let mut i: usize = 0;
    while i < v.len()
        invariant
            i <= v@.len(),
            r@ == ascii_lower_seq(v@.take(i as int)),
        decreases v@.len() - i,
    {
        r.push(ascii_lower(v[i]));
        i = i + 1;
        assert(ascii_lower_seq(v@.take(i as int)) =~= ascii_lower_seq(v@.take((i - 1) as int)).push(
            ascii_lower_char(v@[i - 1]),
        ));
    }
    assert(v@.take(v@.len() as int) == v@);
    r
}

/// `str::eq_ignore_ascii_case`: equal once both are ASCII-lowercased
pub open spec fn eq_ignore_ascii_case_seq(a: Seq<char>, b: Seq<char>) -> bool {
    ascii_lower_seq(a) == ascii_lower_seq(b)
}

/// `str::eq_ignore_ascii_case`
pub fn eq_ignore_ascii_case(a: &[char], b: &[char]) -> (r: bool)
    ensures
        r == eq_ignore_ascii_case_seq(a@, b@),
{
    if a.len() != b.len() {
        assert(ascii_lower_seq(a@).len() != ascii_lower_seq(b@).len());
        return false;
    }
    let mut i: usize = 0;
    while i < a.len()
        invariant
            a@.len() == b@.len(),
            i <= a@.len(),
            forall|j: int| 0 <= j < i ==> ascii_lower_char(a@[j]) == ascii_lower_char(b@[j]),
        decreases a@.len() - i,
    {
        if ascii_lower(a[i]) != ascii_lower(b[i]) {
            assert(ascii_lower_seq(a@)[i as int] != ascii_lower_seq(b@)[i as int]);
            return false;
        }
        i = i + 1;
    }
    assert(ascii_lower_seq(a@) =~= ascii_lower_seq(b@));
    true
}

/// Whether every character of `s` is ASCII
pub open spec fn is_ascii_seq(s: Seq<char>) -> bool {
    forall|i: int| 0 <= i < s.len() ==> (#[trigger] s[i] as u32) < 128
}

/// What `str::to_lowercase` makes of a string: Unicode's full lowercase mapping, where one
/// character may become several
pub uninterp spec fn lowercase(s: Seq<char>) -> Seq<char>;

/// What `str::to_lowercase` gives, as far as it is stated here: on ASCII text, Unicode's lowercase
/// mapping is `A`–`Z` to `a`–`z` with every other character kept; on other text, the name above
pub open spec fn lowercased(s: Seq<char>) -> Seq<char> {
    if is_ascii_seq(s) {
        ascii_lower_seq(s)
    } else {
        lowercase(s)
    }
}

/// `str::to_lowercase`: the lowercase mapping of the Unicode Character Database, which on ASCII
/// text turns `A`–`Z` into `a`–`z` and keeps everything else; beyond ASCII (where one character
/// may become several, and a final `Σ` reads its context) the result is only named
#[verifier::external_body]
pub(crate) fn to_lowercase(s: &str) -> (r: String)
    ensures
        r@ == lowercase(s@),
        is_ascii_seq(s@) ==> r@ == ascii_lower_seq(s@),
{
    s.to_lowercase()
}

// ---------------------------------------------------------------------------------------------
// Equality, affixes and search
// ---------------------------------------------------------------------------------------------

/// Whether two character slices hold the same characters
pub fn chars_eq(a: &[char], b: &[char]) -> (r: bool)
    ensures
        r == (a@ == b@),
{
    if a.len() != b.len() {
        return false;
    }
    let mut i: usize = 0;
    while i < a.len()
        invariant
            a@.len() == b@.len(),
            i <= a@.len(),
            forall|j: int| 0 <= j < i ==> a@[j] == b@[j],
        decreases a@.len() - i,
    {
        if a[i] != b[i] {
            return false;
        }
        i = i + 1;
    }
    assert(a@ =~= b@);
    true
}

/// Whether a string holds no character
pub fn is_empty_str(s: &str) -> (r: bool)
    ensures
        r == (s@.len() == 0),
{
    vstd::string::StrSliceExecFns::unicode_len(s) == 0
}

/// Whether two strings hold the same characters
pub fn str_eq(a: &str, b: &str) -> (r: bool)
    ensures
        r == (a@ == b@),
{
    let x = chars_of(a);
    let y = chars_of(b);
    chars_eq(x.as_slice(), y.as_slice())
}

/// `s` starts with `p`
pub open spec fn has_prefix(s: Seq<char>, p: Seq<char>) -> bool {
    p.len() <= s.len() && s.take(p.len() as int) == p
}

/// `s` ends with `p`
pub open spec fn has_suffix(s: Seq<char>, p: Seq<char>) -> bool {
    p.len() <= s.len() && s.skip(s.len() - p.len()) == p
}

/// `p` occurs in `s` starting at `i`
pub open spec fn occurs_at(s: Seq<char>, p: Seq<char>, i: int) -> bool {
    0 <= i && i + p.len() <= s.len() && s.subrange(i, i + p.len()) == p
}

/// `p` occurs somewhere in `s` (`str::contains`); the empty pattern occurs in every string
pub open spec fn contains_seq(s: Seq<char>, p: Seq<char>) -> bool {
    exists|i: int| occurs_at(s, p, i)
}

/// Whether `p` occurs in `s` at position `i`
fn matches_at(s: &[char], p: &[char], i: usize) -> (r: bool)
    requires
        i + p@.len() <= s@.len(),
    ensures
        r == occurs_at(s@, p@, i as int),
{
    let mut j: usize = 0;
    while j < p.len()
        invariant
            i + p@.len() <= s@.len(),
            j <= p@.len(),
            forall|k: int| 0 <= k < j ==> s@[i + k] == p@[k],
        decreases p@.len() - j,
    {
        let n = s.len();
        assert(i + j < n);
        let k = i + j;
        if s[k] != p[j] {
            assert(s@.subrange(i as int, i + p@.len())[j as int] != p@[j as int]);
            return false;
        }
        j = j + 1;
    }
    assert(s@.subrange(i as int, i + p@.len()) =~= p@);
    true
}

/// `str::starts_with`
pub fn starts_with(s: &[char], p: &[char]) -> (r: bool)
    ensures
        r == has_prefix(s@, p@),
{
    if p.len() > s.len() {
        return false;
    }
    let r = matches_at(s, p, 0);
    assert(s@.subrange(0, p@.len() as int) == s@.take(p@.len() as int));
    r
}

/// `str::ends_with`
pub fn ends_with(s: &[char], p: &[char]) -> (r: bool)
    ensures
        r == has_suffix(s@, p@),
{
    if p.len() > s.len() {
        return false;
    }
    let r = matches_at(s, p, s.len() - p.len());
    assert(s@.subrange(s@.len() - p@.len(), s@.len() as int) == s@.skip(s@.len() - p@.len()));
    r
}

/// `str::contains`
pub fn contains(s: &[char], p: &[char]) -> (r: bool)
    ensures
        r == contains_seq(s@, p@),
{
    if p.len() > s.len() {
        return false;
    }
    let last = s.len() - p.len();
    let mut i: usize = 0;
    loop
        invariant
            last == s@.len() - p@.len(),
            i <= last,
            forall|k: int| 0 <= k < i ==> !occurs_at(s@, p@, k),
        decreases last - i,
    {
        if matches_at(s, p, i) {
            return true;
        }
        if i == last {
            assert forall|k: int| #[trigger] occurs_at(s@, p@, k) implies false by {
                assert(k <= last);
            }
            return false;
        }
        i = i + 1;
    }
}

// ---------------------------------------------------------------------------------------------
// Trimming
// ---------------------------------------------------------------------------------------------

/// `s` without the characters `p` holds for at its start (`str::trim_start_matches`)
pub open spec fn trim_start_while(s: Seq<char>, p: spec_fn(char) -> bool) -> Seq<char>
    decreases s.len(),
{
    if s.len() > 0 && p(s[0]) {
        trim_start_while(s.drop_first(), p)
    } else {
        s
    }
}

/// `s` without the characters `p` holds for at its end (`str::trim_end_matches`)
pub open spec fn trim_end_while(s: Seq<char>, p: spec_fn(char) -> bool) -> Seq<char>
    decreases s.len(),
{
    if s.len() > 0 && p(s.last()) {
        trim_end_while(s.drop_last(), p)
    } else {
        s
    }
}

/// `s` without the characters `p` holds for at either end (`str::trim_matches`)
pub open spec fn trim_while(s: Seq<char>, p: spec_fn(char) -> bool) -> Seq<char> {
    trim_end_while(trim_start_while(s, p), p)
}

/// The start trim is the suffix after the first character `p` does not hold for
pub proof fn lemma_trim_start(s: Seq<char>, p: spec_fn(char) -> bool, k: int)
    requires
        0 <= k <= s.len(),
        forall|j: int| 0 <= j < k ==> p(s[j]),
        k == s.len() || !p(s[k]),
    ensures
        trim_start_while(s, p) == s.skip(k),
    decreases k,
{
    if k == 0 {
        assert(s.skip(0) =~= s);
    } else {
        lemma_trim_start(s.drop_first(), p, k - 1);
        assert(s.drop_first().skip(k - 1) =~= s.skip(k));
    }
}

/// The end trim is the prefix up to the last character `p` does not hold for
pub proof fn lemma_trim_end(s: Seq<char>, p: spec_fn(char) -> bool, m: int)
    requires
        0 <= m <= s.len(),
        forall|j: int| m <= j < s.len() ==> p(s[j]),
        m == 0 || !p(s[m - 1]),
    ensures
        trim_end_while(s, p) == s.take(m),
    decreases s.len() - m,
{
    if m == s.len() {
        assert(s.take(m) =~= s);
    } else {
        lemma_trim_end(s.drop_last(), p, m);
        assert(s.drop_last().take(m) =~= s.take(m));
    }
}

/// The bounds `[start, end)` of `v` once the characters `p` holds for are trimmed off both ends
pub proof fn lemma_trim_bounds(s: Seq<char>, p: spec_fn(char) -> bool, start: int, end: int)
    requires
        0 <= start <= end <= s.len(),
        forall|j: int| 0 <= j < start ==> p(s[j]),
        start == s.len() || !p(s[start]),
        forall|j: int| end <= j < s.len() ==> p(s[j]),
        end == start || !p(s[end - 1]),
    ensures
        trim_while(s, p) == s.subrange(start, end),
{
    lemma_trim_start(s, p, start);
    let t = s.skip(start);
    lemma_trim_end(t, p, end - start);
    assert(t.take(end - start) =~= s.subrange(start, end));
}

/// What the start trim leaves is a suffix of `s`, and starts with a character `p` does not hold for
pub proof fn lemma_trim_start_suffix(s: Seq<char>, p: spec_fn(char) -> bool)
    ensures
        trim_start_while(s, p).len() <= s.len(),
        trim_start_while(s, p) == s.skip(s.len() - trim_start_while(s, p).len()),
        trim_start_while(s, p).len() > 0 ==> !p(trim_start_while(s, p)[0]),
    decreases s.len(),
{
    if s.len() > 0 && p(s[0]) {
        lemma_trim_start_suffix(s.drop_first(), p);
        let t = trim_start_while(s.drop_first(), p);
        assert(s.drop_first().skip(s.drop_first().len() - t.len()) =~= s.skip(s.len() - t.len()));
    } else {
        assert(s.skip(0) =~= s);
    }
}

/// What the end trim leaves is a prefix of `s`, and ends with a character `p` does not hold for
pub proof fn lemma_trim_end_prefix(s: Seq<char>, p: spec_fn(char) -> bool)
    ensures
        trim_end_while(s, p).len() <= s.len(),
        trim_end_while(s, p) == s.take(trim_end_while(s, p).len() as int),
        trim_end_while(s, p).len() > 0 ==> !p(trim_end_while(s, p).last()),
    decreases s.len(),
{
    if s.len() > 0 && p(s.last()) {
        lemma_trim_end_prefix(s.drop_last(), p);
        let t = trim_end_while(s.drop_last(), p);
        assert(s.drop_last().take(t.len() as int) =~= s.take(t.len() as int));
    } else {
        assert(s.take(s.len() as int) =~= s);
    }
}

/// Trimming the start commutes with ASCII lowering, for a test that does not tell a letter from its
/// lowercase
pub proof fn lemma_trim_start_lowered(s: Seq<char>, p: spec_fn(char) -> bool)
    requires
        forall|c: char| #[trigger] p(ascii_lower_char(c)) == p(c),
    ensures
        trim_start_while(ascii_lower_seq(s), p) == ascii_lower_seq(trim_start_while(s, p)),
    decreases s.len(),
{
    let l = ascii_lower_seq(s);
    if s.len() > 0 {
        assert(l[0] == ascii_lower_char(s[0]));
        assert(p(ascii_lower_char(s[0])) == p(s[0]));
        if p(s[0]) {
            assert(l.drop_first() =~= ascii_lower_seq(s.drop_first()));
            lemma_trim_start_lowered(s.drop_first(), p);
        }
    }
}

/// Trimming the end commutes with ASCII lowering, for a test that does not tell a letter from its
/// lowercase
pub proof fn lemma_trim_end_lowered(s: Seq<char>, p: spec_fn(char) -> bool)
    requires
        forall|c: char| #[trigger] p(ascii_lower_char(c)) == p(c),
    ensures
        trim_end_while(ascii_lower_seq(s), p) == ascii_lower_seq(trim_end_while(s, p)),
    decreases s.len(),
{
    let l = ascii_lower_seq(s);
    if s.len() > 0 {
        assert(l.last() == ascii_lower_char(s.last()));
        assert(p(ascii_lower_char(s.last())) == p(s.last()));
        if p(s.last()) {
            assert(l.drop_last() =~= ascii_lower_seq(s.drop_last()));
            lemma_trim_end_lowered(s.drop_last(), p);
        }
    }
}

/// Trimming both ends commutes with ASCII lowering, for a test that does not tell a letter from its
/// lowercase
pub proof fn lemma_trim_lowered(s: Seq<char>, p: spec_fn(char) -> bool)
    requires
        forall|c: char| #[trigger] p(ascii_lower_char(c)) == p(c),
    ensures
        trim_while(ascii_lower_seq(s), p) == ascii_lower_seq(trim_while(s, p)),
{
    lemma_trim_start_lowered(s, p);
    lemma_trim_end_lowered(trim_start_while(s, p), p);
}

/// What the trim of both ends leaves is a stretch of `s`, and neither of its ends is a
/// character `p` holds for
pub proof fn lemma_trim_stretch(s: Seq<char>, p: spec_fn(char) -> bool) -> (a: int)
    ensures
        0 <= a,
        a + trim_while(s, p).len() <= s.len(),
        trim_while(s, p) == s.subrange(a, a + trim_while(s, p).len()),
        trim_while(s, p).len() > 0 ==> !p(trim_while(s, p)[0]) && !p(trim_while(s, p).last()),
{
    lemma_trim_start_suffix(s, p);
    let u = trim_start_while(s, p);
    lemma_trim_end_prefix(u, p);
    let t = trim_end_while(u, p);
    let a = s.len() - u.len();
    assert(t =~= s.subrange(a, a + t.len()));
    a
}

/// A sequence whose ends `p` does not hold for is its own trim
pub proof fn lemma_trim_untouched(s: Seq<char>, p: spec_fn(char) -> bool)
    requires
        s.len() == 0 || (!p(s[0]) && !p(s.last())),
    ensures
        trim_while(s, p) == s,
{
    lemma_trim_bounds(s, p, 0, s.len() as int);
    assert(s.subrange(0, s.len() as int) =~= s);
}

/// Position of the last `c` in `s` (`str::rfind` on one character)
pub open spec fn last_pos(s: Seq<char>, c: char) -> Option<int>
    decreases s.len(),
{
    if s.len() == 0 {
        None
    } else if s.last() == c {
        Some(s.len() - 1)
    } else {
        last_pos(s.drop_last(), c)
    }
}

/// `last_pos` is the position of a `c` with none after it
pub proof fn lemma_last_pos(s: Seq<char>, c: char)
    ensures
        match last_pos(s, c) {
            Some(i) => 0 <= i < s.len() && s[i] == c && forall|j: int| i < j < s.len() ==> s[j] != c,
            None => forall|j: int| 0 <= j < s.len() ==> s[j] != c,
        },
    decreases s.len(),
{
    if s.len() > 0 {
        let rest = s.drop_last();
        lemma_last_pos(rest, c);
        assert(forall|j: int| 0 <= j < rest.len() ==> rest[j] == s[j]);
    }
}

/// `str::trim`: whitespace off both ends
pub open spec fn trim_ws(s: Seq<char>) -> Seq<char> {
    trim_while(s, |c: char| is_whitespace_char(c))
}

/// `str::trim_matches(c)`: every `c` off both ends
pub open spec fn trim_char_seq(s: Seq<char>, c: char) -> Seq<char> {
    trim_while(s, is_char(c))
}

/// The test for one given character
pub open spec fn is_char(c: char) -> spec_fn(char) -> bool {
    |x: char| x == c
}

/// `str::trim`
pub fn trim(v: &[char]) -> (r: Vec<char>)
    ensures
        r@ == trim_ws(v@),
{
    let ghost p: spec_fn(char) -> bool = |c: char| is_whitespace_char(c);
    let mut start: usize = 0;
    while start < v.len() && is_whitespace(v[start])
        invariant
            start <= v@.len(),
            forall|j: int| 0 <= j < start ==> is_whitespace_char(#[trigger] v@[j]),
        decreases v@.len() - start,
    {
        start = start + 1;
    }
    let mut end: usize = v.len();
    while end > start && is_whitespace(v[end - 1])
        invariant
            start <= end <= v@.len(),
            forall|j: int| end <= j < v@.len() ==> is_whitespace_char(#[trigger] v@[j]),
        decreases end,
    {
        end = end - 1;
    }
    proof {
        lemma_trim_bounds(v@, p, start as int, end as int);
    }
    slice_range(v, start, end)
}

/// `str::trim_matches(c)`
pub fn trim_char(v: &[char], c: char) -> (r: Vec<char>)
    ensures
        r@ == trim_char_seq(v@, c),
{
    let mut start: usize = 0;
    while start < v.len() && v[start] == c
        invariant
            start <= v@.len(),
            forall|j: int| 0 <= j < start ==> #[trigger] v@[j] == c,
        decreases v@.len() - start,
    {
        start = start + 1;
    }
    let mut end: usize = v.len();
    while end > start && v[end - 1] == c
        invariant
            start <= end <= v@.len(),
            forall|j: int| end <= j < v@.len() ==> #[trigger] v@[j] == c,
        decreases end,
    {
        end = end - 1;
    }
    proof {
        lemma_trim_bounds(v@, is_char(c), start as int, end as int);
    }
    slice_range(v, start, end)
}

/// A copy of `v[from..to]`
pub fn slice_range(v: &[char], from: usize, to: usize) -> (r: Vec<char>)
    requires
        from <= to <= v@.len(),
    ensures
        r@ == v@.subrange(from as int, to as int),
{
    let mut r: Vec<char> = Vec::new();
    let mut i: usize = from;
    while i < to
        invariant
            from <= i <= to <= v@.len(),
            r@ == v@.subrange(from as int, i as int),
        decreases to - i,
    {
        r.push(v[i]);
        i = i + 1;
        assert(v@.subrange(from as int, i as int) =~= v@.subrange(from as int, i - 1).push(
            v@[i - 1],
        ));
    }
    r
}

/// `v` followed by `w`
pub fn concat(v: &[char], w: &[char]) -> (r: Vec<char>)
    ensures
        r@ == v@ + w@,
{
    let mut r = slice_range(v, 0, v.len());
    let mut i: usize = 0;
    assert(v@.subrange(0, v@.len() as int) =~= v@);
    while i < w.len()
        invariant
            i <= w@.len(),
            r@ == v@ + w@.take(i as int),
        decreases w@.len() - i,
    {
        r.push(w[i]);
        i = i + 1;
        assert(v@ + w@.take(i as int) =~= (v@ + w@.take((i - 1) as int)).push(w@[i - 1]));
    }
    assert(w@.take(w@.len() as int) =~= w@);
    r
}

/// `str::rfind(c)` on one character
pub fn rfind(v: &[char], c: char) -> (r: Option<usize>)
    ensures
        match r {
            Some(i) => i < v@.len() && v@[i as int] == c && forall|j: int| i < j < v@.len() ==> v@[j] != c,
            None => forall|j: int| 0 <= j < v@.len() ==> v@[j] != c,
        },
        match r {
            Some(i) => last_pos(v@, c) == Some(i as int),
            None => last_pos(v@, c) is None,
        },
{
    proof {
        lemma_last_pos(v@, c);
    }
    let mut i: usize = v.len();
    while i > 0
        invariant
            i <= v@.len(),
            forall|j: int| i <= j < v@.len() ==> v@[j] != c,
        decreases i,
    {
        if v[i - 1] == c {
            let k = i - 1;
            proof {
                lemma_last_pos(v@, c);
            }
            return Some(k);
        }
        i = i - 1;
    }
    None
}

} // verus!
