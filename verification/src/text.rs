//! Text as sequences of characters: the handful of `str` operations the planner's
//! parsing and rendering are built from, each stated as a spec function and
//! implemented over `Vec<char>`.
use vstd::prelude::*;

verus! {

// ---------------------------------------------------------------------------
// Characters
// ---------------------------------------------------------------------------

/// `char::is_whitespace`: the Unicode `White_Space` property.
pub open spec fn is_ws(c: char) -> bool {
    ||| ('\u{9}' <= c && c <= '\u{d}')
    ||| c == ' '
    ||| c == '\u{85}'
    ||| c == '\u{a0}'
    ||| c == '\u{1680}'
    ||| ('\u{2000}' <= c && c <= '\u{200a}')
    ||| c == '\u{2028}'
    ||| c == '\u{2029}'
    ||| c == '\u{202f}'
    ||| c == '\u{205f}'
    ||| c == '\u{3000}'
}

pub fn ws(c: char) -> (r: bool)
    ensures
        r == is_ws(c),
{
    ('\u{9}' <= c && c <= '\u{d}') || c == ' ' || c == '\u{85}' || c == '\u{a0}' || c == '\u{1680}'
        || ('\u{2000}' <= c && c <= '\u{200a}') || c == '\u{2028}' || c == '\u{2029}' || c
        == '\u{202f}' || c == '\u{205f}' || c == '\u{3000}'
}

pub open spec fn is_digit(c: char) -> bool {
    '0' <= c && c <= '9'
}

pub fn digit(c: char) -> (r: bool)
    ensures
        r == is_digit(c),
{
    '0' <= c && c <= '9'
}

pub open spec fn is_upper(c: char) -> bool {
    'A' <= c && c <= 'Z'
}

pub open spec fn is_lower(c: char) -> bool {
    'a' <= c && c <= 'z'
}

pub open spec fn is_alpha(c: char) -> bool {
    is_upper(c) || is_lower(c)
}

pub fn alpha(c: char) -> (r: bool)
    ensures
        r == is_alpha(c),
{
    ('A' <= c && c <= 'Z') || ('a' <= c && c <= 'z')
}

pub open spec fn is_alnum(c: char) -> bool {
    is_alpha(c) || is_digit(c)
}

pub fn alnum(c: char) -> (r: bool)
    ensures
        r == is_alnum(c),
{
    alpha(c) || digit(c)
}

pub open spec fn is_ascii_char(c: char) -> bool {
    (c as u32) < 128
}

pub open spec fn lower_char(c: char) -> char {
    if is_upper(c) {
        ((c as u32) + 32) as char
    } else {
        c
    }
}

pub open spec fn upper_char(c: char) -> char {
    if is_lower(c) {
        ((c as u32) - 32) as char
    } else {
        c
    }
}

pub fn to_lower_char(c: char) -> (r: char)
    ensures
        r == lower_char(c),
{
    if 'A' <= c && c <= 'Z' {
        let n: u32 = (c as u32) + 32;
        assert(0x61 <= n <= 0x7a);
        char_from_ascii(n)
    } else {
        c
    }
}

pub fn to_upper_char(c: char) -> (r: char)
    ensures
        r == upper_char(c),
{
    if 'a' <= c && c <= 'z' {
        let n: u32 = (c as u32) - 32;
        char_from_ascii(n)
    } else {
        c
    }
}

/// The character with code `n`, for an ASCII code.
pub fn char_from_ascii(n: u32) -> (r: char)
    requires
        n < 128,
    ensures
        r == n as char,
        r as u32 == n,
{
    let b: u8 = n as u8;
    b as char
}

pub open spec fn lower_seq(s: Seq<char>) -> Seq<char> {
    s.map_values(|c: char| lower_char(c))
}

pub open spec fn upper_seq(s: Seq<char>) -> Seq<char> {
    s.map_values(|c: char| upper_char(c))
}

pub open spec fn all_ascii(s: Seq<char>) -> bool {
    forall|i: int| 0 <= i < s.len() ==> is_ascii_char(#[trigger] s[i])
}

/// `char::len_utf8`.
pub open spec fn utf8_len(c: char) -> nat {
    if (c as u32) < 0x80 {
        1
    } else if (c as u32) < 0x800 {
        2
    } else if (c as u32) < 0x10000 {
        3
    } else {
        4
    }
}

pub fn char_utf8_len(c: char) -> (r: usize)
    ensures
        r == utf8_len(c),
        1 <= r <= 4,
{
    let n: u32 = c as u32;
    if n < 0x80 {
        1
    } else if n < 0x800 {
        2
    } else if n < 0x10000 {
        3
    } else {
        4
    }
}

/// `str::len`: the number of bytes in the UTF-8 encoding.
pub open spec fn byte_len(s: Seq<char>) -> nat
    decreases s.len(),
{
    if s.len() == 0 {
        0
    } else {
        byte_len(s.drop_last()) + utf8_len(s.last())
    }
}

pub proof fn lemma_byte_len_push(s: Seq<char>, c: char)
    ensures
        byte_len(s.push(c)) == byte_len(s) + utf8_len(c),
{
    assert(s.push(c).drop_last() =~= s);
}

pub proof fn lemma_byte_len_ge(s: Seq<char>)
    ensures
        byte_len(s) >= s.len(),
    decreases s.len(),
{
    if s.len() > 0 {
        lemma_byte_len_ge(s.drop_last());
    }
}

pub proof fn lemma_byte_len_ascii(s: Seq<char>)
    requires
        all_ascii(s),
    ensures
        byte_len(s) == s.len(),
    decreases s.len(),
{
    if s.len() > 0 {
        assert(is_ascii_char(s[s.len() - 1]));
        lemma_byte_len_ascii(s.drop_last());
    }
}

pub proof fn lemma_byte_len_take_mono(s: Seq<char>, i: int, j: int)
    requires
        0 <= i <= j <= s.len(),
    ensures
        byte_len(s.take(i)) <= byte_len(s.take(j)),
        i < j ==> byte_len(s.take(i)) < byte_len(s.take(j)),
    decreases j - i,
{
    if i < j {
        lemma_byte_len_take_mono(s, i, j - 1);
        assert(s.take(j).drop_last() =~= s.take(j - 1));
    }
}

// ---------------------------------------------------------------------------
// Copying and converting
// ---------------------------------------------------------------------------

pub fn chars_of(s: &str) -> (v: Vec<char>)
    ensures
        v@ == s@,
{
    let mut v: Vec<char> = Vec::new();
    for c in it: s.chars()
        invariant
            v@ == it.seq().take(it.index() as int),
            it.seq() == s@,
    {
        v.push(c);
    }
    v
}

/// `String::from_iter` over characters.
#[verifier::external_body]
pub(crate) fn string_of(v: &[char]) -> (s: String)
    ensures
        s@ == v@,
{
    v.iter().collect()
}

/// The characters `v[a..b]`, copied.
pub fn slice_of(v: &[char], a: usize, b: usize) -> (r: Vec<char>)
    requires
        a <= b <= v@.len(),
    ensures
        r@ == v@.subrange(a as int, b as int),
{
    let mut r: Vec<char> = Vec::new();
    let mut i = a;
    while i < b
        invariant
            a <= i <= b <= v@.len(),
            r@ == v@.subrange(a as int, i as int),
        decreases b - i,
    {
        r.push(v[i]);
        i += 1;
    }
    r
}

pub fn copy(v: &[char]) -> (r: Vec<char>)
    ensures
        r@ == v@,
{
    let r = slice_of(v, 0, v.len());
    assert(v@.subrange(0, v@.len() as int) =~= v@);
    r
}

/// Append `w` to `out`.
pub fn push_all(out: &mut Vec<char>, w: &[char])
    ensures
        final(out)@ == old(out)@ + w@,
{
    let mut i: usize = 0;
    while i < w.len()
        invariant
            i <= w@.len(),
            out@ == old(out)@ + w@.subrange(0, i as int),
        decreases w.len() - i,
    {
        out.push(w[i]);
        i += 1;
    }
    assert(w@.subrange(0, w@.len() as int) =~= w@);
}

/// Append the characters of a string literal (or any `&str`) to `out`.
pub fn push_str(out: &mut Vec<char>, s: &str)
    ensures
        final(out)@ == old(out)@ + s@,
{
    let w = chars_of(s);
    push_all(out, &w);
}

pub fn eq_chars(a: &[char], b: &[char]) -> (r: bool)
    ensures
        r == (a@ == b@),
{
    if a.len() != b.len() {
        return false;
    }
    let mut i: usize = 0;
    while i < a.len()
        invariant
            a@.len() == b@.len(),
            i <= a@.len(),
            forall|k: int| 0 <= k < i ==> a@[k] == b@[k],
        decreases a.len() - i,
    {
        if a[i] != b[i] {
            return false;
        }
        i += 1;
    }
    assert(a@ =~= b@);
    true
}

pub fn lower_ascii(v: &[char]) -> (r: Vec<char>)
    ensures
        r@ == lower_seq(v@),
{
    let mut r: Vec<char> = Vec::new();
    let mut i: usize = 0;
    while i < v.len()
        invariant
            i <= v@.len(),
            r@ == lower_seq(v@.subrange(0, i as int)),
        decreases v.len() - i,
    {
        r.push(to_lower_char(v[i]));
        assert(lower_seq(v@.subrange(0, i + 1)) =~= lower_seq(v@.subrange(0, i as int)).push(
            lower_char(v@[i as int]),
        ));
        i += 1;
    }
    assert(v@.subrange(0, v@.len() as int) =~= v@);
    r
}

pub fn upper_ascii(v: &[char]) -> (r: Vec<char>)
    ensures
        r@ == upper_seq(v@),
{
    let mut r: Vec<char> = Vec::new();
    let mut i: usize = 0;
    while i < v.len()
        invariant
            i <= v@.len(),
            r@ == upper_seq(v@.subrange(0, i as int)),
        decreases v.len() - i,
    {
        r.push(to_upper_char(v[i]));
        assert(upper_seq(v@.subrange(0, i + 1)) =~= upper_seq(v@.subrange(0, i as int)).push(
            upper_char(v@[i as int]),
        ));
        i += 1;
    }
    assert(v@.subrange(0, v@.len() as int) =~= v@);
    r
}

// ---------------------------------------------------------------------------
// Unicode case mapping, which std does from its tables
// ---------------------------------------------------------------------------

/// What `str::to_lowercase` returns for a string.
pub uninterp spec fn unicode_lower(s: Seq<char>) -> Seq<char>;

/// What `str::to_uppercase` returns for a string.
pub uninterp spec fn unicode_upper(s: Seq<char>) -> Seq<char>;

/// `str::to_lowercase`: on ASCII text Unicode's lowercase mapping is the ASCII one.
pub open spec fn lowercase(s: Seq<char>) -> Seq<char> {
    if all_ascii(s) {
        lower_seq(s)
    } else {
        unicode_lower(s)
    }
}

/// `str::to_uppercase`: on ASCII text Unicode's uppercase mapping is the ASCII one.
pub open spec fn uppercase(s: Seq<char>) -> Seq<char> {
    if all_ascii(s) {
        upper_seq(s)
    } else {
        unicode_upper(s)
    }
}

/// Calls `str::to_lowercase`. The contract names its result `unicode_lower`, except on
/// ASCII text, where it states the ASCII mapping.
#[verifier::external_body]
pub(crate) fn to_lowercase(v: &[char]) -> (r: Vec<char>)
    ensures
        r@ == lowercase(v@),
        !all_ascii(v@) ==> r@ == unicode_lower(v@),
{
    let s: String = v.iter().collect();
    s.to_lowercase().chars().collect()
}

/// Calls `str::to_uppercase`. The contract names its result `unicode_upper`, except on
/// ASCII text, where it states the ASCII mapping.
#[verifier::external_body]
pub(crate) fn to_uppercase(v: &[char]) -> (r: Vec<char>)
    ensures
        r@ == uppercase(v@),
        !all_ascii(v@) ==> r@ == unicode_upper(v@),
{
    let s: String = v.iter().collect();
    s.to_uppercase().chars().collect()
}

/// What `<str as Debug>::fmt` writes for a string: the text quoted and escaped.
pub uninterp spec fn debug_quoted(s: Seq<char>) -> Seq<char>;

/// Calls `<str as Debug>::fmt`, as `{:?}` does.
#[verifier::external_body]
pub(crate) fn debug_str(v: &[char]) -> (r: Vec<char>)
    ensures
        r@ == debug_quoted(v@),
{
    let s: String = v.iter().collect();
    format!("{s:?}").chars().collect()
}

// ---------------------------------------------------------------------------
// Sequences of lines and words
// ---------------------------------------------------------------------------

pub open spec fn views(v: Seq<Vec<char>>) -> Seq<Seq<char>> {
    v.map_values(|x: Vec<char>| x@)
}

/// The characters of each string.
pub open spec fn views_of_strings(v: Seq<String>) -> Seq<Seq<char>> {
    v.map_values(|s: String| s@)
}

pub proof fn lemma_views_push(v: Seq<Vec<char>>, x: Vec<char>)
    ensures
        views(v.push(x)) == views(v).push(x@),
{
    assert(views(v.push(x)) =~= views(v).push(x@));
}

// ---------------------------------------------------------------------------
// Prefixes, suffixes and searching
// ---------------------------------------------------------------------------

pub open spec fn starts_with(s: Seq<char>, p: Seq<char>) -> bool {
    p.len() <= s.len() && s.take(p.len() as int) == p
}

pub open spec fn ends_with(s: Seq<char>, p: Seq<char>) -> bool {
    p.len() <= s.len() && s.skip(s.len() - p.len()) == p
}

/// `str::strip_prefix`.
pub open spec fn strip_prefix(s: Seq<char>, p: Seq<char>) -> Option<Seq<char>> {
    if starts_with(s, p) {
        Some(s.skip(p.len() as int))
    } else {
        None
    }
}

/// `str::strip_suffix`.
pub open spec fn strip_suffix(s: Seq<char>, p: Seq<char>) -> Option<Seq<char>> {
    if ends_with(s, p) {
        Some(s.take(s.len() - p.len()))
    } else {
        None
    }
}

pub open spec fn matches_at(s: Seq<char>, p: Seq<char>, i: int) -> bool {
    0 <= i && i + p.len() <= s.len() && s.subrange(i, i + p.len()) == p
}

pub open spec fn find_from(s: Seq<char>, p: Seq<char>, i: int) -> Option<int>
    decreases s.len() + 1 - i,
{
    if i < 0 || i + p.len() > s.len() {
        None
    } else if matches_at(s, p, i) {
        Some(i)
    } else {
        find_from(s, p, i + 1)
    }
}

/// `str::find` with a string pattern, as a character index.
pub open spec fn find(s: Seq<char>, p: Seq<char>) -> Option<int> {
    find_from(s, p, 0)
}

pub open spec fn contains(s: Seq<char>, p: Seq<char>) -> bool {
    find(s, p) is Some
}

pub open spec fn rfind_down(s: Seq<char>, p: Seq<char>, i: int) -> Option<int>
    decreases i + 1,
{
    if i < 0 {
        None
    } else if matches_at(s, p, i) {
        Some(i)
    } else {
        rfind_down(s, p, i - 1)
    }
}

/// `str::rfind` with a string pattern, as a character index.
pub open spec fn rfind(s: Seq<char>, p: Seq<char>) -> Option<int> {
    rfind_down(s, p, s.len() - p.len())
}

/// First index at or after `i` holding one of the characters in `cs`.
pub open spec fn find_any_from(s: Seq<char>, cs: Seq<char>, i: int) -> Option<int>
    decreases s.len() - i,
{
    if i < 0 || i >= s.len() {
        None
    } else if cs.contains(s[i]) {
        Some(i)
    } else {
        find_any_from(s, cs, i + 1)
    }
}

pub open spec fn find_any(s: Seq<char>, cs: Seq<char>) -> Option<int> {
    find_any_from(s, cs, 0)
}

/// A string contains its own prefix.
pub proof fn lemma_contains_prefix(p: Seq<char>, rest: Seq<char>)
    ensures
        contains(p + rest, p),
{
    assert((p + rest).subrange(0, p.len() as int) =~= p);
}

pub proof fn lemma_find_from_bounds(s: Seq<char>, p: Seq<char>, i: int)
    ensures
        find_from(s, p, i) matches Some(k) ==> i <= k && k + p.len() <= s.len() && matches_at(
            s,
            p,
            k,
        ),
    decreases s.len() + 1 - i,
{
    if !(i < 0 || i + p.len() > s.len()) && !matches_at(s, p, i) {
        lemma_find_from_bounds(s, p, i + 1);
    }
}

pub proof fn lemma_find_from_none(s: Seq<char>, p: Seq<char>, i: int, j: int)
    requires
        0 <= i <= j,
        find_from(s, p, i) is None,
    ensures
        !matches_at(s, p, j),
    decreases j - i,
{
    if i + p.len() > s.len() {
    } else if i < j {
        lemma_find_from_none(s, p, i + 1, j);
    }
}

pub proof fn lemma_find_from_first(s: Seq<char>, p: Seq<char>, i: int, j: int)
    requires
        0 <= i <= j,
        find_from(s, p, i) matches Some(k) && j < k,
    ensures
        !matches_at(s, p, j),
    decreases j - i,
{
    if i < j {
        lemma_find_from_first(s, p, i + 1, j);
    }
}

pub proof fn lemma_find_any_bounds(s: Seq<char>, cs: Seq<char>, i: int)
    ensures
        find_any_from(s, cs, i) matches Some(k) ==> i <= k < s.len() && cs.contains(s[k]),
    decreases s.len() - i,
{
    if !(i < 0 || i >= s.len()) && !cs.contains(s[i]) {
        lemma_find_any_bounds(s, cs, i + 1);
    }
}

pub proof fn lemma_rfind_bounds(s: Seq<char>, p: Seq<char>, i: int)
    ensures
        rfind_down(s, p, i) matches Some(k) ==> 0 <= k <= i && matches_at(s, p, k),
    decreases i + 1,
{
    if i >= 0 && !matches_at(s, p, i) {
        lemma_rfind_bounds(s, p, i - 1);
    }
}

/// Does `p` occur in `s` at `i`?
pub fn match_at(s: &[char], p: &[char], i: usize) -> (r: bool)
    ensures
        r == matches_at(s@, p@, i as int),
{
    if i > s.len() || p.len() > s.len() - i {
        return false;
    }
    let mut k: usize = 0;
    while k < p.len()
        invariant
            i + p@.len() <= s@.len(),
            s@.len() == s.len(),
            k <= p@.len(),
            forall|m: int| 0 <= m < k ==> s@[i + m] == p@[m],
        decreases p.len() - k,
    {
        assert(i + k < s@.len());
        if s[i + k] != p[k] {
            assert(s@.subrange(i as int, i + p@.len())[k as int] != p@[k as int]);
            return false;
        }
        k += 1;
    }
    assert(s@.subrange(i as int, i + p@.len()) =~= p@);
    true
}

pub fn starts(s: &[char], p: &[char]) -> (r: bool)
    ensures
        r == starts_with(s@, p@),
{
    let r = match_at(s, p, 0);
    assert(p@.len() <= s@.len() ==> s@.subrange(0, p@.len() as int) =~= s@.take(p@.len() as int));
    r
}

pub fn ends(s: &[char], p: &[char]) -> (r: bool)
    ensures
        r == ends_with(s@, p@),
{
    if p.len() > s.len() {
        return false;
    }
    let r = match_at(s, p, s.len() - p.len());
    assert(s@.subrange(s@.len() - p@.len(), s@.len() as int) =~= s@.skip(s@.len() - p@.len()));
    r
}

/// `str::find` from character index `from`.
pub fn find_at(s: &[char], p: &[char], from: usize) -> (r: Option<usize>)
    ensures
        r matches Some(k) ==> find_from(s@, p@, from as int) == Some(k as int),
        r is None ==> find_from(s@, p@, from as int) is None,
{
    if from > s.len() {
        return None;
    }
    let mut i = from;
    while p.len() <= s.len() - i
        invariant
            from <= i <= s@.len(),
            find_from(s@, p@, from as int) == find_from(s@, p@, i as int),
        decreases s.len() - i,
    {
        if match_at(s, p, i) {
            return Some(i);
        }
        if i == s.len() {
            assert(find_from(s@, p@, i + 1) is None);
            return None;
        }
        i += 1;
    }
    None
}

pub fn find_in(s: &[char], p: &[char]) -> (r: Option<usize>)
    ensures
        r matches Some(k) ==> find(s@, p@) == Some(k as int),
        r is None ==> find(s@, p@) is None,
{
    find_at(s, p, 0)
}

pub fn has(s: &[char], p: &[char]) -> (r: bool)
    ensures
        r == contains(s@, p@),
{
    find_in(s, p).is_some()
}

pub fn has_str(s: &[char], p: &str) -> (r: bool)
    ensures
        r == contains(s@, p@),
{
    let pv = chars_of(p);
    has(s, &pv)
}

pub fn rfind_in(s: &[char], p: &[char]) -> (r: Option<usize>)
    ensures
        r matches Some(k) ==> rfind(s@, p@) == Some(k as int),
        r is None ==> rfind(s@, p@) is None,
{
    if p.len() > s.len() {
        return None;
    }
    let mut i: usize = s.len() - p.len();
    loop
        invariant
            i <= s@.len(),
            rfind(s@, p@) == rfind_down(s@, p@, i as int),
        decreases i,
    {
        if match_at(s, p, i) {
            return Some(i);
        }
        if i == 0 {
            assert(rfind_down(s@, p@, -1) is None);
            return None;
        }
        i -= 1;
    }
}

pub fn find_any_at(s: &[char], cs: &[char], from: usize) -> (r: Option<usize>)
    ensures
        r matches Some(k) ==> find_any_from(s@, cs@, from as int) == Some(k as int),
        r is None ==> find_any_from(s@, cs@, from as int) is None,
{
    let mut i = from;
    while i < s.len()
        invariant
            from <= i,
            find_any_from(s@, cs@, from as int) == find_any_from(s@, cs@, i as int),
        decreases s.len() - i,
    {
        if one_of(s[i], cs) {
            return Some(i);
        }
        i += 1;
    }
    None
}

pub fn one_of(c: char, cs: &[char]) -> (r: bool)
    ensures
        r == cs@.contains(c),
{
    let mut i: usize = 0;
    while i < cs.len()
        invariant
            i <= cs@.len(),
            forall|k: int| 0 <= k < i ==> cs@[k] != c,
        decreases cs.len() - i,
    {
        if cs[i] == c {
            assert(cs@[i as int] == c);
            return true;
        }
        i += 1;
    }
    false
}

// ---------------------------------------------------------------------------
// Trimming
// ---------------------------------------------------------------------------

pub open spec fn lead_in(s: Seq<char>, cs: Seq<char>, i: int) -> int
    decreases s.len() - i,
{
    if 0 <= i < s.len() && cs.contains(s[i]) {
        lead_in(s, cs, i + 1)
    } else {
        i
    }
}

pub open spec fn trail_in(s: Seq<char>, cs: Seq<char>, j: int) -> int
    decreases j,
{
    if 0 < j <= s.len() && cs.contains(s[j - 1]) {
        trail_in(s, cs, j - 1)
    } else {
        j
    }
}

/// `str::trim_start_matches` with a set of characters.
pub open spec fn trim_start_in(s: Seq<char>, cs: Seq<char>) -> Seq<char> {
    s.subrange(lead_in(s, cs, 0), s.len() as int)
}

/// `str::trim_end_matches` with a set of characters.
pub open spec fn trim_end_in(s: Seq<char>, cs: Seq<char>) -> Seq<char> {
    s.subrange(0, trail_in(s, cs, s.len() as int))
}

/// `str::trim_matches` with a set of characters.
pub open spec fn trim_in(s: Seq<char>, cs: Seq<char>) -> Seq<char> {
    trim_end_in(trim_start_in(s, cs), cs)
}

pub open spec fn lead_ws(s: Seq<char>, i: int) -> int
    decreases s.len() - i,
{
    if 0 <= i < s.len() && is_ws(s[i]) {
        lead_ws(s, i + 1)
    } else {
        i
    }
}

pub open spec fn trail_ws(s: Seq<char>, j: int) -> int
    decreases j,
{
    if 0 < j <= s.len() && is_ws(s[j - 1]) {
        trail_ws(s, j - 1)
    } else {
        j
    }
}

/// `str::trim_start`.
pub open spec fn trim_start(s: Seq<char>) -> Seq<char> {
    s.subrange(lead_ws(s, 0), s.len() as int)
}

/// `str::trim_end`.
pub open spec fn trim_end(s: Seq<char>) -> Seq<char> {
    s.subrange(0, trail_ws(s, s.len() as int))
}

/// `str::trim`.
pub open spec fn trim(s: Seq<char>) -> Seq<char> {
    trim_end(trim_start(s))
}

pub proof fn lemma_lead_ws_bounds(s: Seq<char>, i: int)
    requires
        0 <= i <= s.len(),
    ensures
        i <= lead_ws(s, i) <= s.len(),
    decreases s.len() - i,
{
    if i < s.len() && is_ws(s[i]) {
        lemma_lead_ws_bounds(s, i + 1);
    }
}

pub proof fn lemma_trail_ws_bounds(s: Seq<char>, j: int)
    requires
        0 <= j <= s.len(),
    ensures
        0 <= trail_ws(s, j) <= j,
    decreases j,
{
    if 0 < j && is_ws(s[j - 1]) {
        lemma_trail_ws_bounds(s, j - 1);
    }
}

pub proof fn lemma_lead_in_bounds(s: Seq<char>, cs: Seq<char>, i: int)
    requires
        0 <= i <= s.len(),
    ensures
        i <= lead_in(s, cs, i) <= s.len(),
    decreases s.len() - i,
{
    if i < s.len() && cs.contains(s[i]) {
        lemma_lead_in_bounds(s, cs, i + 1);
    }
}

pub proof fn lemma_trail_in_bounds(s: Seq<char>, cs: Seq<char>, j: int)
    requires
        0 <= j <= s.len(),
    ensures
        0 <= trail_in(s, cs, j) <= j,
    decreases j,
{
    if 0 < j && cs.contains(s[j - 1]) {
        lemma_trail_in_bounds(s, cs, j - 1);
    }
}

pub fn lead_ws_len(s: &[char]) -> (r: usize)
    ensures
        r == lead_ws(s@, 0),
        r <= s@.len(),
{
    let mut i: usize = 0;
    while i < s.len() && ws(s[i])
        invariant
            i <= s@.len(),
            lead_ws(s@, 0) == lead_ws(s@, i as int),
        decreases s.len() - i,
    {
        i += 1;
    }
    i
}

pub fn trail_ws_len(s: &[char]) -> (r: usize)
    ensures
        r == trail_ws(s@, s@.len() as int),
        r <= s@.len(),
{
    let mut j: usize = s.len();
    while j > 0 && ws(s[j - 1])
        invariant
            j <= s@.len(),
            trail_ws(s@, s@.len() as int) == trail_ws(s@, j as int),
        decreases j,
    {
        j -= 1;
    }
    j
}

pub fn trimmed_start(s: &[char]) -> (r: Vec<char>)
    ensures
        r@ == trim_start(s@),
{
    let a = lead_ws_len(s);
    slice_of(s, a, s.len())
}

pub fn trimmed_end(s: &[char]) -> (r: Vec<char>)
    ensures
        r@ == trim_end(s@),
{
    let b = trail_ws_len(s);
    slice_of(s, 0, b)
}

pub fn trimmed(s: &[char]) -> (r: Vec<char>)
    ensures
        r@ == trim(s@),
{
    let t = trimmed_start(s);
    trimmed_end(&t)
}

pub fn trimmed_start_in(s: &[char], cs: &[char]) -> (r: Vec<char>)
    ensures
        r@ == trim_start_in(s@, cs@),
{
    let mut i: usize = 0;
    while i < s.len() && one_of(s[i], cs)
        invariant
            i <= s@.len(),
            lead_in(s@, cs@, 0) == lead_in(s@, cs@, i as int),
        decreases s.len() - i,
    {
        i += 1;
    }
    slice_of(s, i, s.len())
}

pub fn trimmed_end_in(s: &[char], cs: &[char]) -> (r: Vec<char>)
    ensures
        r@ == trim_end_in(s@, cs@),
{
    let mut j: usize = s.len();
    while j > 0 && one_of(s[j - 1], cs)
        invariant
            j <= s@.len(),
            trail_in(s@, cs@, s@.len() as int) == trail_in(s@, cs@, j as int),
        decreases j,
    {
        j -= 1;
    }
    slice_of(s, 0, j)
}

pub fn trimmed_in(s: &[char], cs: &[char]) -> (r: Vec<char>)
    ensures
        r@ == trim_in(s@, cs@),
{
    let t = trimmed_start_in(s, cs);
    trimmed_end_in(&t, cs)
}

// ---------------------------------------------------------------------------
// Replacing, joining, splitting
// ---------------------------------------------------------------------------

pub open spec fn replace_from(s: Seq<char>, p: Seq<char>, r: Seq<char>, i: int) -> Seq<char>
    decreases s.len() - i,
{
    if i < 0 || i >= s.len() {
        Seq::empty()
    } else if p.len() > 0 && matches_at(s, p, i) {
        r + replace_from(s, p, r, i + p.len())
    } else {
        seq![s[i]] + replace_from(s, p, r, i + 1)
    }
}

/// `str::replace` with a non-empty pattern: every non-overlapping occurrence, left to
/// right.
pub open spec fn replace(s: Seq<char>, p: Seq<char>, r: Seq<char>) -> Seq<char> {
    replace_from(s, p, r, 0)
}

pub fn replaced(s: &[char], p: &[char], r: &[char]) -> (out: Vec<char>)
    requires
        p@.len() > 0,
    ensures
        out@ == replace(s@, p@, r@),
{
    let mut out: Vec<char> = Vec::new();
    let mut i: usize = 0;
    while i < s.len()
        invariant
            p@.len() > 0,
            i <= s@.len(),
            out@ + replace_from(s@, p@, r@, i as int) == replace(s@, p@, r@),
        decreases s.len() - i,
    {
        let ghost before = out@;
        if match_at(s, p, i) {
            push_all(&mut out, r);
            assert(before + replace_from(s@, p@, r@, i as int) =~= out@ + replace_from(
                s@,
                p@,
                r@,
                i + p@.len(),
            ));
            i += p.len();
        } else {
            out.push(s[i]);
            assert(before + replace_from(s@, p@, r@, i as int) =~= out@ + replace_from(
                s@,
                p@,
                r@,
                i + 1,
            ));
            i += 1;
        }
    }
    assert(out@ + replace_from(s@, p@, r@, i as int) =~= out@);
    out
}

pub fn replaced_str(s: &[char], p: &str, r: &str) -> (out: Vec<char>)
    requires
        p@.len() > 0,
    ensures
        out@ == replace(s@, p@, r@),
{
    let pv = chars_of(p);
    let rv = chars_of(r);
    replaced(s, &pv, &rv)
}

/// `[..].join(sep)`.
pub open spec fn join(parts: Seq<Seq<char>>, sep: Seq<char>) -> Seq<char>
    decreases parts.len(),
{
    if parts.len() == 0 {
        Seq::empty()
    } else if parts.len() == 1 {
        parts[0]
    } else {
        join(parts.drop_last(), sep) + sep + parts.last()
    }
}

pub fn joined(parts: &Vec<Vec<char>>, sep: &[char]) -> (out: Vec<char>)
    ensures
        out@ == join(views(parts@), sep@),
{
    let mut out: Vec<char> = Vec::new();
    let mut i: usize = 0;
    while i < parts.len()
        invariant
            i <= parts@.len(),
            out@ == join(views(parts@).take(i as int), sep@),
        decreases parts.len() - i,
    {
        let ghost prev = views(parts@).take(i as int);
        assert(views(parts@).take(i + 1).drop_last() =~= prev);
        if i > 0 {
            push_all(&mut out, sep);
        } else {
            assert(views(parts@).take(1) =~= seq![parts@[0]@]);
        }
        push_all(&mut out, &parts[i]);
        i += 1;
    }
    assert(views(parts@).take(parts@.len() as int) =~= views(parts@));
    out
}

pub fn joined_str(parts: &Vec<Vec<char>>, sep: &str) -> (out: Vec<char>)
    ensures
        out@ == join(views(parts@), sep@),
{
    let sv = chars_of(sep);
    joined(parts, &sv)
}

pub open spec fn lines_acc(s: Seq<char>, i: int, cur: Seq<char>, acc: Seq<Seq<char>>) -> Seq<
    Seq<char>,
>
    decreases s.len() - i,
{
    if i < 0 || i >= s.len() {
        if cur.len() > 0 {
            acc.push(cur)
        } else {
            acc
        }
    } else if s[i] == '\n' {
        lines_acc(s, i + 1, Seq::empty(), acc.push(strip_cr(cur)))
    } else {
        lines_acc(s, i + 1, cur.push(s[i]), acc)
    }
}

/// A line ending in `\r\n` loses both characters.
pub open spec fn strip_cr(line: Seq<char>) -> Seq<char> {
    if line.len() > 0 && line.last() == '\r' {
        line.drop_last()
    } else {
        line
    }
}

/// `str::lines`.
pub open spec fn lines(s: Seq<char>) -> Seq<Seq<char>> {
    lines_acc(s, 0, Seq::empty(), Seq::empty())
}

pub fn lines_of(s: &[char]) -> (out: Vec<Vec<char>>)
    ensures
        views(out@) == lines(s@),
{
    let mut out: Vec<Vec<char>> = Vec::new();
    let mut cur: Vec<char> = Vec::new();
    let mut i: usize = 0;
    assert(views(out@) =~= Seq::<Seq<char>>::empty());
    while i < s.len()
        invariant
            i <= s@.len(),
            lines_acc(s@, i as int, cur@, views(out@)) == lines(s@),
        decreases s.len() - i,
    {
        if s[i] == '\n' {
            let mut line = cur;
            if line.len() > 0 && line[line.len() - 1] == '\r' {
                line.pop();
            }
            proof {
                lemma_views_push(out@, line);
            }
            out.push(line);
            cur = Vec::new();
        } else {
            cur.push(s[i]);
        }
        i += 1;
    }
    if cur.len() > 0 {
        proof {
            lemma_views_push(out@, cur);
        }
        out.push(cur);
    }
    out
}

pub open spec fn words_acc(s: Seq<char>, i: int, cur: Seq<char>, acc: Seq<Seq<char>>) -> Seq<
    Seq<char>,
>
    decreases s.len() - i,
{
    if i < 0 || i >= s.len() {
        if cur.len() > 0 {
            acc.push(cur)
        } else {
            acc
        }
    } else if is_ws(s[i]) {
        words_acc(
            s,
            i + 1,
            Seq::empty(),
            if cur.len() > 0 {
                acc.push(cur)
            } else {
                acc
            },
        )
    } else {
        words_acc(s, i + 1, cur.push(s[i]), acc)
    }
}

/// `str::split_whitespace`.
pub open spec fn words(s: Seq<char>) -> Seq<Seq<char>> {
    words_acc(s, 0, Seq::empty(), Seq::empty())
}

pub fn words_of(s: &[char]) -> (out: Vec<Vec<char>>)
    ensures
        views(out@) == words(s@),
{
    let mut out: Vec<Vec<char>> = Vec::new();
    let mut cur: Vec<char> = Vec::new();
    let mut i: usize = 0;
    assert(views(out@) =~= Seq::<Seq<char>>::empty());
    while i < s.len()
        invariant
            i <= s@.len(),
            words_acc(s@, i as int, cur@, views(out@)) == words(s@),
        decreases s.len() - i,
    {
        if ws(s[i]) {
            if cur.len() > 0 {
                proof {
                    lemma_views_push(out@, cur);
                }
                out.push(cur);
            }
            cur = Vec::new();
        } else {
            cur.push(s[i]);
        }
        i += 1;
    }
    if cur.len() > 0 {
        proof {
            lemma_views_push(out@, cur);
        }
        out.push(cur);
    }
    out
}


// ---------------------------------------------------------------------------
// Splitting once, stripping, and byte offsets
// ---------------------------------------------------------------------------

/// `str::split_once` with a string pattern.
pub open spec fn split_once(s: Seq<char>, p: Seq<char>) -> Option<(Seq<char>, Seq<char>)> {
    match find(s, p) {
        Some(i) => Some((s.take(i), s.skip(i + p.len()))),
        None => None,
    }
}

pub fn split_once_of(s: &[char], p: &str) -> (r: Option<(Vec<char>, Vec<char>)>)
    ensures
        r matches Some(x) ==> split_once(s@, p@) == Some((x.0@, x.1@)),
        r is None ==> split_once(s@, p@) is None,
{
    let pv = chars_of(p);
    match find_in(s, &pv) {
        Some(i) => {
            proof {
                lemma_find_from_bounds(s@, p@, 0);
            }
            assert(i + pv@.len() <= s@.len());
            assert(s@.len() == s.len());
            let a = slice_of(s, 0, i);
            let b = slice_of(s, i + pv.len(), s.len());
            assert(a@ =~= s@.take(i as int));
            assert(b@ =~= s@.skip(i + p@.len()));
            Some((a, b))
        },
        None => None,
    }
}

pub fn strip_prefix_of(s: &[char], p: &str) -> (r: Option<Vec<char>>)
    ensures
        r matches Some(x) ==> strip_prefix(s@, p@) == Some(x@),
        r is None ==> strip_prefix(s@, p@) is None,
{
    let pv = chars_of(p);
    if starts(s, &pv) {
        let x = slice_of(s, pv.len(), s.len());
        assert(x@ =~= s@.skip(p@.len() as int));
        Some(x)
    } else {
        None
    }
}

pub fn strip_suffix_of(s: &[char], p: &str) -> (r: Option<Vec<char>>)
    ensures
        r matches Some(x) ==> strip_suffix(s@, p@) == Some(x@),
        r is None ==> strip_suffix(s@, p@) is None,
{
    let pv = chars_of(p);
    if ends(s, &pv) {
        let x = slice_of(s, 0, s.len() - pv.len());
        assert(x@ =~= s@.take(s@.len() - p@.len()));
        Some(x)
    } else {
        None
    }
}

pub fn starts_str(s: &[char], p: &str) -> (r: bool)
    ensures
        r == starts_with(s@, p@),
{
    let pv = chars_of(p);
    starts(s, &pv)
}

pub fn ends_str(s: &[char], p: &str) -> (r: bool)
    ensures
        r == ends_with(s@, p@),
{
    let pv = chars_of(p);
    ends(s, &pv)
}

/// The character index at which byte offset `b` falls, scanning from `j`, if `b` is on
/// a character boundary.
pub open spec fn index_at_byte_from(s: Seq<char>, b: int, j: int) -> Option<int>
    decreases s.len() + 1 - j,
{
    if j < 0 || j > s.len() {
        None
    } else if byte_len(s.take(j)) == b {
        Some(j)
    } else if byte_len(s.take(j)) > b {
        None
    } else {
        index_at_byte_from(s, b, j + 1)
    }
}

pub open spec fn index_at_byte(s: Seq<char>, b: int) -> Option<int> {
    index_at_byte_from(s, b, 0)
}

pub proof fn lemma_index_at_byte_ascii(s: Seq<char>, b: int, j: int)
    requires
        all_ascii(s),
        0 <= j <= b <= s.len(),
    ensures
        index_at_byte_from(s, b, j) == Some(b),
    decreases b - j,
{
    assert(all_ascii(s.take(j))) by {
        assert forall|k: int| 0 <= k < s.take(j).len() implies is_ascii_char(#[trigger] s.take(j)[k]) by {
            assert(s.take(j)[k] == s[k]);
        }
    }
    lemma_byte_len_ascii(s.take(j));
    if j < b {
        lemma_index_at_byte_ascii(s, b, j + 1);
    }
}

pub proof fn lemma_index_at_byte_bounds(s: Seq<char>, b: int, j: int)
    ensures
        index_at_byte_from(s, b, j) matches Some(k) ==> j <= k <= s.len() && byte_len(s.take(k)) == b,
    decreases s.len() + 1 - j,
{
    if !(j < 0 || j > s.len()) && byte_len(s.take(j)) != b && byte_len(s.take(j)) <= b {
        lemma_index_at_byte_bounds(s, b, j + 1);
    }
}

pub fn index_at_byte_of(s: &[char], b: u128) -> (r: Option<usize>)
    ensures
        r matches Some(k) ==> index_at_byte(s@, b as int) == Some(k as int),
        r is None ==> index_at_byte(s@, b as int) is None,
{
    let mut j: usize = 0;
    let mut acc: u128 = 0;
    while j <= s.len()
        invariant
            j <= s@.len() + 1,
            j <= s@.len() ==> acc == byte_len(s@.take(j as int)),
            acc <= b || j > s@.len(),
            index_at_byte_from(s@, b as int, j as int) == index_at_byte(s@, b as int),
        decreases s@.len() + 1 - j,
    {
        if acc == b {
            return Some(j);
        }
        if j == s.len() {
            assert(index_at_byte_from(s@, b as int, j + 1) is None);
            return None;
        }
        let w = char_utf8_len(s[j]) as u128;
        proof {
            assert(s@.take(j + 1) =~= s@.take(j as int).push(s@[j as int]));
            lemma_byte_len_push(s@.take(j as int), s@[j as int]);
        }
        if w > b - acc {
            assert(index_at_byte_from(s@, b as int, j + 1) is None) by {
                assert(byte_len(s@.take(j + 1)) > b);
            }
            return None;
        }
        acc += w;
        j += 1;
    }
    None
}

pub proof fn lemma_byte_len_le(s: Seq<char>)
    ensures
        byte_len(s) <= 4 * s.len(),
    decreases s.len(),
{
    if s.len() > 0 {
        lemma_byte_len_le(s.drop_last());
    }
}

pub proof fn lemma_byte_len_concat(a: Seq<char>, b: Seq<char>)
    ensures
        byte_len(a + b) == byte_len(a) + byte_len(b),
    decreases b.len(),
{
    if b.len() == 0 {
        assert(a + b =~= a);
    } else {
        assert((a + b).drop_last() =~= a + b.drop_last());
        lemma_byte_len_concat(a, b.drop_last());
    }
}

/// The number of bytes in the UTF-8 encoding of `s[..k]`.
pub fn prefix_bytes(s: &[char], k: usize) -> (r: u128)
    requires
        k <= s@.len(),
    ensures
        r == byte_len(s@.take(k as int)),
{
    let mut i: usize = 0;
    let mut acc: u128 = 0;
    while i < k
        invariant
            i <= k <= s@.len(),
            acc == byte_len(s@.take(i as int)),
            acc <= 4 * i,
        decreases k - i,
    {
        let w = char_utf8_len(s[i]) as u128;
        proof {
            assert(s@.take(i + 1) =~= s@.take(i as int).push(s@[i as int]));
            lemma_byte_len_push(s@.take(i as int), s@[i as int]);
        }
        acc = acc + w;
        i += 1;
    }
    acc
}

// ---------------------------------------------------------------------------
// Numbers
// ---------------------------------------------------------------------------

pub open spec fn digit_char(d: nat) -> char {
    if d == 0 {
        '0'
    } else if d == 1 {
        '1'
    } else if d == 2 {
        '2'
    } else if d == 3 {
        '3'
    } else if d == 4 {
        '4'
    } else if d == 5 {
        '5'
    } else if d == 6 {
        '6'
    } else if d == 7 {
        '7'
    } else if d == 8 {
        '8'
    } else {
        '9'
    }
}

fn digit_char_of(d: u128) -> (c: char)
    requires
        d < 10,
    ensures
        c == digit_char(d as nat),
{
    if d == 0 {
        '0'
    } else if d == 1 {
        '1'
    } else if d == 2 {
        '2'
    } else if d == 3 {
        '3'
    } else if d == 4 {
        '4'
    } else if d == 5 {
        '5'
    } else if d == 6 {
        '6'
    } else if d == 7 {
        '7'
    } else if d == 8 {
        '8'
    } else {
        '9'
    }
}

/// The decimal digits of `n`, as `Display` writes them.
pub open spec fn dec(n: nat) -> Seq<char>
    decreases n,
{
    if n < 10 {
        seq![digit_char(n)]
    } else {
        dec(n / 10).push(digit_char(n % 10))
    }
}

/// `Display` for a signed integer.
pub open spec fn dec_int(n: int) -> Seq<char> {
    if n < 0 {
        seq!['-'] + dec((-n) as nat)
    } else {
        dec(n as nat)
    }
}

pub fn push_decimal(out: &mut Vec<char>, n: u128)
    ensures
        final(out)@ == old(out)@ + dec(n as nat),
    decreases n,
{
    if n >= 10 {
        push_decimal(out, n / 10);
    }
    let c = digit_char_of(n % 10);
    out.push(c);
    proof {
        if n >= 10 {
            assert(old(out)@ + dec(n as nat) =~= old(out)@ + dec((n / 10) as nat) + seq![c]);
        } else {
            assert(old(out)@ + dec(n as nat) =~= old(out)@.push(c));
        }
    }
}

pub fn push_int(out: &mut Vec<char>, n: i64)
    ensures
        final(out)@ == old(out)@ + dec_int(n as int),
{
    if n < 0 {
        out.push('-');
        let m: u128 = if n == i64::MIN {
            9223372036854775808u128
        } else {
            (-n) as u128
        };
        push_decimal(out, m);
        assert(old(out)@ + dec_int(n as int) =~= old(out)@.push('-') + dec(m as nat));
    } else {
        push_decimal(out, n as u128);
    }
}

pub proof fn lemma_dec_len(n: nat)
    ensures
        dec(n).len() >= 1,
        n >= 10 ==> dec(n).len() >= 2,
        n < 10 ==> dec(n).len() == 1,
    decreases n,
{
    if n >= 10 {
        lemma_dec_len(n / 10);
    }
}

pub proof fn lemma_digit_char_injective(x: nat, y: nat)
    requires
        x < 10,
        y < 10,
        digit_char(x) == digit_char(y),
    ensures
        x == y,
{
}

/// Different numbers are written differently.
pub proof fn lemma_dec_injective(a: nat, b: nat)
    requires
        dec(a) == dec(b),
    ensures
        a == b,
    decreases a,
{
    lemma_dec_len(a);
    lemma_dec_len(b);
    assert(dec(a).len() == dec(b).len());
    if a < 10 && b < 10 {
        assert(dec(a) == seq![digit_char(a)]);
        assert(dec(b) == seq![digit_char(b)]);
        assert(dec(a)[0] == digit_char(a));
        assert(dec(b)[0] == digit_char(b));
        lemma_digit_char_injective(a, b);
    } else if a >= 10 && b >= 10 {
        assert(dec(a).drop_last() =~= dec(a / 10));
        assert(dec(b).drop_last() =~= dec(b / 10));
        let ca = digit_char(a % 10);
        let cb = digit_char(b % 10);
        assert(dec(a) == dec(a / 10).push(ca));
        assert(dec(b) == dec(b / 10).push(cb));
        assert(dec(a)[dec(a).len() - 1] == ca);
        assert(dec(b)[dec(b).len() - 1] == cb);
        lemma_dec_injective(a / 10, b / 10);
        assert(ca == cb);
        lemma_digit_char_injective(a % 10, b % 10);
        assert(a % 10 == b % 10);
        assert(a == 10 * (a / 10) + a % 10);
        assert(b == 10 * (b / 10) + b % 10);
    }
}

} // verus!
