//! Keys and labels derived from free text: slugs, ticket keys, repo keys.
use vstd::prelude::*;

use crate::text::{
    alnum, alpha, chars_of, digit, ends_with, find_any, find_any_at, find_in, is_alnum, is_alpha,
    is_digit, is_lower, join, lead_in, lemma_find_any_bounds, lemma_find_from_bounds,
    lemma_lead_in_bounds, lemma_trail_in_bounds, lemma_views_push, lines, lines_of, lower_char,
    lowercase, push_all, push_str, slice_of, starts, starts_with, string_of, strip_prefix,
    strip_suffix, to_lower_char, to_lowercase, trail_in, trim, trim_end_in, trim_in,
    trim_start_in, trimmed, trimmed_end_in, trimmed_in, trimmed_start_in, upper_seq, upper_ascii,
    views, ends, find,
};

verus! {

// ---------------------------------------------------------------------------
// Slugs
// ---------------------------------------------------------------------------

pub open spec fn slug_acc(s: Seq<char>, i: int, out: Seq<char>, prev_dash: bool) -> Seq<char>
    decreases s.len() - i,
{
    if i < 0 || i >= s.len() {
        trim_end_in(out, seq!['-'])
    } else if is_alnum(s[i]) {
        slug_acc(s, i + 1, out.push(lower_char(s[i])), false)
    } else if !prev_dash {
        slug_acc(s, i + 1, out.push('-'), true)
    } else {
        slug_acc(s, i + 1, out, prev_dash)
    }
}

/// ASCII letters and digits, lowercased; every other run of characters becomes one
/// dash; no dash at either end.
pub open spec fn slug(s: Seq<char>) -> Seq<char> {
    slug_acc(s, 0, Seq::empty(), true)
}

/// Lowercase kebab-case ASCII: letters, digits and single dashes between them.
pub open spec fn is_kebab(s: Seq<char>) -> bool {
    &&& forall|i: int| 0 <= i < s.len() ==> is_lower(#[trigger] s[i]) || is_digit(s[i]) || s[i] == '-'
    &&& s.len() > 0 ==> s[0] != '-' && s.last() != '-'
    &&& forall|i: int| 0 <= i < s.len() - 1 ==> !(#[trigger] s[i] == '-' && s[i + 1] == '-')
}

/// What the fold keeps true of its output before the last trailing dash is cut.
pub open spec fn slug_prefix_ok(out: Seq<char>, prev_dash: bool) -> bool {
    &&& forall|i: int| 0 <= i < out.len() ==> is_lower(#[trigger] out[i]) || is_digit(out[i]) || out[i] == '-'
    &&& out.len() > 0 ==> out[0] != '-'
    &&& forall|i: int| 0 <= i < out.len() - 1 ==> !(#[trigger] out[i] == '-' && out[i + 1] == '-')
    &&& prev_dash == (out.len() == 0 || out.last() == '-')
}

proof fn lemma_slug_shape(s: Seq<char>, i: int, out: Seq<char>, prev_dash: bool)
    requires
        0 <= i <= s.len(),
        slug_prefix_ok(out, prev_dash),
    ensures
        is_kebab(slug_acc(s, i, out, prev_dash)),
    decreases s.len() - i,
{
    if i >= s.len() {
        let t = trim_end_in(out, seq!['-']);
        lemma_trail_in_bounds(out, seq!['-'], out.len() as int);
        let j = trail_in(out, seq!['-'], out.len() as int);
        // at most one dash is cut, because no two dashes are adjacent
        if out.len() > 0 && out.last() == '-' {
            assert(seq!['-'][0] == out[out.len() - 1]);
            assert(seq!['-'].contains(out[out.len() - 1]));
            if out.len() > 1 {
                assert(out[out.len() - 2] != '-');
                assert(!seq!['-'].contains(out[out.len() - 2]));
                assert(trail_in(out, seq!['-'], out.len() - 1) == out.len() - 1);
            } else {
                assert(trail_in(out, seq!['-'], 0) == 0);
            }
        } else if out.len() > 0 {
            assert(!seq!['-'].contains(out[out.len() - 1]));
        }
        assert(is_kebab(t));
    } else if is_alnum(s[i]) {
        let c = lower_char(s[i]);
        assert(is_lower(c) || is_digit(c));
        let o2 = out.push(c);
        assert(slug_prefix_ok(o2, false));
        lemma_slug_shape(s, i + 1, o2, false);
    } else if !prev_dash {
        let o2 = out.push('-');
        assert(slug_prefix_ok(o2, true));
        lemma_slug_shape(s, i + 1, o2, true);
    } else {
        lemma_slug_shape(s, i + 1, out, prev_dash);
    }
}

proof fn lemma_slug_kebab_fixed(k: Seq<char>, i: int)
    requires
        is_kebab(k),
        0 <= i <= k.len(),
    ensures
        slug_acc(k, i, k.take(i), i == 0 || k[i - 1] == '-') == k,
    decreases k.len() - i,
{
    if i >= k.len() {
        assert(k.take(i) =~= k);
        if k.len() > 0 {
            assert(!seq!['-'].contains(k[k.len() - 1]));
        }
        assert(trim_end_in(k, seq!['-']) =~= k);
    } else {
        let c = k[i];
        if is_alnum(c) {
            assert(lower_char(c) == c);
            assert(k.take(i).push(c) =~= k.take(i + 1));
            lemma_slug_kebab_fixed(k, i + 1);
        } else {
            assert(c == '-');
            assert(i > 0);
            assert(k[i - 1] != '-');
            assert(k.take(i).push('-') =~= k.take(i + 1));
            lemma_slug_kebab_fixed(k, i + 1);
        }
    }
}

/// A slug is already its own slug: `slugify(slugify(x)) == slugify(x)`.
pub proof fn law_slugify_idempotent(s: Seq<char>)
    ensures
        slug(slug(s)) == slug(s),
{
    assert(slug_prefix_ok(Seq::empty(), true));
    lemma_slug_shape(s, 0, Seq::empty(), true);
    lemma_slug_kebab_fixed(slug(s), 0);
    assert(slug(s).take(0) =~= Seq::<char>::empty());
}

/// The text with its dashes taken out.
pub open spec fn without_dashes(x: Seq<char>) -> Seq<char>
    decreases x.len(),
{
    if x.len() == 0 {
        Seq::empty()
    } else if x.last() == '-' {
        without_dashes(x.drop_last())
    } else {
        without_dashes(x.drop_last()).push(x.last())
    }
}

/// The ASCII letters and digits of `s` from `i` on, lowercased, in order.
pub open spec fn alnum_from(s: Seq<char>, i: int) -> Seq<char>
    decreases s.len() - i,
{
    if i < 0 || i >= s.len() {
        Seq::empty()
    } else if is_alnum(s[i]) {
        seq![lower_char(s[i])] + alnum_from(s, i + 1)
    } else {
        alnum_from(s, i + 1)
    }
}

proof fn lemma_trailing_dashes(out: Seq<char>, j: int)
    requires
        0 <= j <= out.len(),
    ensures
        0 <= trail_in(out, seq!['-'], j) <= j,
        without_dashes(out.take(trail_in(out, seq!['-'], j))) == without_dashes(out.take(j)),
    decreases j,
{
    if 0 < j && seq!['-'].contains(out[j - 1]) {
        assert(out[j - 1] == '-') by {
            let k = choose|k: int| 0 <= k < 1 && seq!['-'][k] == out[j - 1];
        }
        lemma_trailing_dashes(out, j - 1);
        assert(out.take(j).drop_last() =~= out.take(j - 1));
    }
}

proof fn lemma_slug_letters(s: Seq<char>, i: int, out: Seq<char>, prev_dash: bool)
    requires
        0 <= i <= s.len(),
    ensures
        without_dashes(slug_acc(s, i, out, prev_dash)) == without_dashes(out) + alnum_from(s, i),
    decreases s.len() - i,
{
    if i >= s.len() {
        lemma_trailing_dashes(out, out.len() as int);
        assert(out.take(out.len() as int) =~= out);
        assert(without_dashes(out) + Seq::<char>::empty() =~= without_dashes(out));
    } else if is_alnum(s[i]) {
        let c = lower_char(s[i]);
        assert(c != '-');
        let o2 = out.push(c);
        assert(o2.drop_last() =~= out);
        lemma_slug_letters(s, i + 1, o2, false);
        assert(without_dashes(o2) == without_dashes(out).push(c));
        assert(without_dashes(out).push(c) + alnum_from(s, i + 1) =~= without_dashes(out) + (seq![c]
            + alnum_from(s, i + 1)));
    } else if !prev_dash {
        let o2 = out.push('-');
        assert(o2.drop_last() =~= out);
        lemma_slug_letters(s, i + 1, o2, true);
    } else {
        lemma_slug_letters(s, i + 1, out, prev_dash);
    }
}

/// A slug keeps exactly the text's ASCII letters and digits, lowercased and in order:
/// with its dashes taken out, it is nothing else.
pub proof fn law_a_slug_keeps_exactly_the_letters_and_digits(s: Seq<char>)
    ensures
        without_dashes(slug(s)) == alnum_from(s, 0),
{
    lemma_slug_letters(s, 0, Seq::empty(), true);
    assert(without_dashes(Seq::<char>::empty()) + alnum_from(s, 0) =~= alnum_from(s, 0));
}

/// `ACME-1234 - Reusable Date Range Picker` -> `acme-1234-reusable-date-range-picker`
pub fn slugify(input: &str) -> (r: String)
    ensures
        r@ == slug(input@),
        is_kebab(r@),
{
    let v = chars_of(input);
    let mut out: Vec<char> = Vec::new();
    let mut prev_dash = true;
    let mut i: usize = 0;
    while i < v.len()
        invariant
            i <= v@.len(),
            v@ == input@,
            slug_acc(v@, i as int, out@, prev_dash) == slug(input@),
        decreases v.len() - i,
    {
        let ch = v[i];
        if alnum(ch) {
            out.push(to_lower_char(ch));
            prev_dash = false;
        } else if !prev_dash {
            out.push('-');
            prev_dash = true;
        }
        i += 1;
    }
    let dash = ['-'];
    let t = trimmed_end_in(&out, &dash);
    assert(dash@ =~= seq!['-']);
    proof {
        assert(slug_prefix_ok(Seq::empty(), true));
        lemma_slug_shape(input@, 0, Seq::empty(), true);
    }
    string_of(&t)
}

// ---------------------------------------------------------------------------
// Ticket keys
// ---------------------------------------------------------------------------

pub open spec fn alpha_end(s: Seq<char>, i: int) -> int
    decreases s.len() - i,
{
    if 0 <= i < s.len() && is_alpha(s[i]) {
        alpha_end(s, i + 1)
    } else {
        i
    }
}

pub open spec fn digit_end(s: Seq<char>, i: int) -> int
    decreases s.len() - i,
{
    if 0 <= i < s.len() && is_digit(s[i]) {
        digit_end(s, i + 1)
    } else {
        i
    }
}

pub proof fn lemma_alpha_end(s: Seq<char>, i: int)
    requires
        0 <= i <= s.len(),
    ensures
        i <= alpha_end(s, i) <= s.len(),
        forall|k: int| i <= k < alpha_end(s, i) ==> is_alpha(#[trigger] s[k]),
        alpha_end(s, i) < s.len() ==> !is_alpha(s[alpha_end(s, i)]),
    decreases s.len() - i,
{
    if i < s.len() && is_alpha(s[i]) {
        lemma_alpha_end(s, i + 1);
    }
}

pub proof fn lemma_digit_end(s: Seq<char>, i: int)
    requires
        0 <= i <= s.len(),
    ensures
        i <= digit_end(s, i) <= s.len(),
        forall|k: int| i <= k < digit_end(s, i) ==> is_digit(#[trigger] s[k]),
        digit_end(s, i) < s.len() ==> !is_digit(s[digit_end(s, i)]),
    decreases s.len() - i,
{
    if i < s.len() && is_digit(s[i]) {
        lemma_digit_end(s, i + 1);
    }
}

/// The first `LETTERS-DIGITS` run from `i` on, with two to eight letters, upper-cased.
pub open spec fn ticket_from(s: Seq<char>, i: int) -> Option<Seq<char>>
    decreases s.len() - i,
{
    if i < 0 || i >= s.len() {
        None
    } else if !is_alpha(s[i]) {
        ticket_from(s, i + 1)
    } else {
        let e = alpha_end(s, i);
        proof {
            lemma_alpha_end(s, i);
        }
        if !(2 <= e - i <= 8) || e >= s.len() || s[e] != '-' {
            ticket_from(s, e)
        } else {
            let d = digit_end(s, e + 1);
            proof {
                lemma_digit_end(s, e + 1);
            }
            if d > e + 1 {
                Some(upper_seq(s.subrange(i, e)) + seq!['-'] + s.subrange(e + 1, d))
            } else {
                ticket_from(s, d)
            }
        }
    }
}

pub open spec fn ticket(s: Seq<char>) -> Option<Seq<char>> {
    ticket_from(s, 0)
}

/// Ticket keys as they appear in branches, titles and filenames: `ACME-1234`,
/// `ACME-980`. The first match, upper-cased.
pub fn ticket_key(input: &str) -> (r: Option<String>)
    ensures
        r matches Some(k) ==> ticket(input@) == Some(k@),
        r is None ==> ticket(input@) is None,
{
    let b = chars_of(input);
    let mut i: usize = 0;
    while i < b.len()
        invariant
            b@ == input@,
            i <= b@.len(),
            ticket_from(b@, i as int) == ticket(input@),
        decreases b.len() - i,
    {
        if !alpha(b[i]) {
            i += 1;
            continue;
        }
        let start = i;
        proof {
            lemma_alpha_end(b@, start as int);
        }
        while i < b.len() && alpha(b[i])
            invariant
                start <= i <= b@.len(),
                alpha_end(b@, start as int) == alpha_end(b@, i as int),
            decreases b.len() - i,
        {
            i += 1;
        }
        let letters = i - start;
        if !(2 <= letters && letters <= 8) || i >= b.len() || b[i] != '-' {
            continue;
        }
        let dash = i;
        i += 1;
        let digits_start = i;
        proof {
            lemma_digit_end(b@, digits_start as int);
        }
        while i < b.len() && digit(b[i])
            invariant
                digits_start <= i <= b@.len(),
                digit_end(b@, digits_start as int) == digit_end(b@, i as int),
            decreases b.len() - i,
        {
            i += 1;
        }
        if i > digits_start {
            let word = slice_of(&b, start, dash);
            let mut key = upper_ascii(&word);
            key.push('-');
            let num = slice_of(&b, digits_start, i);
            push_all(&mut key, &num);
            return Some(string_of(&key));
        }
    }
    None
}

// ---------------------------------------------------------------------------
// Remote URLs
// ---------------------------------------------------------------------------

pub open spec fn segs_acc(s: Seq<char>, i: int, cur: Seq<char>, acc: Seq<Seq<char>>) -> Seq<
    Seq<char>,
>
    decreases s.len() - i,
{
    if i < 0 || i >= s.len() {
        if cur.len() > 0 {
            acc.push(cur)
        } else {
            acc
        }
    } else if s[i] == '/' {
        segs_acc(
            s,
            i + 1,
            Seq::empty(),
            if cur.len() > 0 {
                acc.push(cur)
            } else {
                acc
            },
        )
    } else {
        segs_acc(s, i + 1, cur.push(s[i]), acc)
    }
}

/// `s.split('/').filter(|p| !p.is_empty())`.
pub open spec fn segments(s: Seq<char>) -> Seq<Seq<char>> {
    segs_acc(s, 0, Seq::empty(), Seq::empty())
}

pub(crate) fn segments_of(s: &[char]) -> (out: Vec<Vec<char>>)
    ensures
        views(out@) == segments(s@),
{
    let mut out: Vec<Vec<char>> = Vec::new();
    let mut cur: Vec<char> = Vec::new();
    let mut i: usize = 0;
    assert(views(out@) =~= Seq::<Seq<char>>::empty());
    while i < s.len()
        invariant
            i <= s@.len(),
            segs_acc(s@, i as int, cur@, views(out@)) == segments(s@),
        decreases s.len() - i,
    {
        if s[i] == '/' {
            if cur.len() > 0 {
                proof {
                    lemma_views_push(out@, cur);
                }
                out.push(cur);
            }
            cur = Vec::new();
        } else {
            cur.push(s[i]);
        }
        i += 1;
    }
    if cur.len() > 0 {
        proof {
            lemma_views_push(out@, cur);
        }
        out.push(cur);
    }
    out
}

/// The URL with its transport prefix removed, if it has one of the known ones.
pub open spec fn without_transport(s: Seq<char>) -> Seq<char> {
    if starts_with(s, "ssh://"@) {
        s.skip(6)
    } else if starts_with(s, "git+ssh://"@) {
        s.skip(10)
    } else if starts_with(s, "https://"@) {
        s.skip(8)
    } else if starts_with(s, "http://"@) {
        s.skip(7)
    } else if starts_with(s, "git://"@) {
        s.skip(6)
    } else {
        s
    }
}

/// `user@host...` loses the user part, unless what precedes the `@` has a `/`.
pub open spec fn without_userinfo(s: Seq<char>) -> Seq<char> {
    match find(s, seq!['@']) {
        Some(i) => if find(s.take(i), seq!['/']) is Some {
            s
        } else {
            s.skip(i + 1)
        },
        None => s,
    }
}

pub open spec fn all_digits(s: Seq<char>) -> bool {
    forall|i: int| 0 <= i < s.len() ==> is_digit(#[trigger] s[i])
}

/// `host/path`, `host:path` (scp-style) or `host:port/path`, split into host and path.
pub open spec fn host_and_path(s: Seq<char>) -> (Seq<char>, Seq<char>) {
    match find_any(s, seq![':', '/']) {
        Some(i) => if s[i] == ':' {
            let after = s.skip(i + 1);
            let seg_end = match find(after, seq!['/']) {
                Some(j) => j,
                None => after.len() as int,
            };
            let port = after.take(seg_end);
            if port.len() > 0 && all_digits(port) {
                (s.take(i), trim_start_in(after.skip(seg_end), seq!['/']))
            } else {
                (s.take(i), after)
            }
        } else {
            (s.take(i), s.skip(i + 1))
        },
        None => (s, Seq::empty()),
    }
}

pub open spec fn remote_key(url: Seq<char>) -> Seq<char> {
    let s = without_userinfo(without_transport(trim(url)));
    let (host, path) = host_and_path(s);
    let path = trim_end_in(path, seq!['/']);
    let path = match strip_suffix(path, ".git"@) {
        Some(p) => p,
        None => path,
    };
    join(segments(lowercase(host + seq!['/'] + path)), seq!['/'])
}

fn strip_transport(s: &[char]) -> (r: Vec<char>)
    ensures
        r@ == without_transport(s@),
{
    let p0 = chars_of("ssh://");
    let p1 = chars_of("git+ssh://");
    let p2 = chars_of("https://");
    let p3 = chars_of("http://");
    let p4 = chars_of("git://");
    proof {
        reveal_strlit("ssh://");
        reveal_strlit("git+ssh://");
        reveal_strlit("https://");
        reveal_strlit("http://");
        reveal_strlit("git://");
    }
    if starts(s, &p0) {
        slice_of(s, 6, s.len())
    } else if starts(s, &p1) {
        slice_of(s, 10, s.len())
    } else if starts(s, &p2) {
        slice_of(s, 8, s.len())
    } else if starts(s, &p3) {
        slice_of(s, 7, s.len())
    } else if starts(s, &p4) {
        slice_of(s, 6, s.len())
    } else {
        slice_of(s, 0, s.len())
    }
}

/// Normalise a git remote to a stable, transport-independent key.
/// `git@github.com:org/repo.git` and `https://github.com/org/repo` both become
/// `github.com/org/repo`.
pub fn normalise_remote(url: &str) -> (r: String)
    ensures
        r@ == remote_key(url@),
{
    let v = chars_of(url);
    let t = trimmed(&v);
    let s0 = strip_transport(&t);
    // userinfo
    let at = ['@'];
    let slash = ['/'];
    assert(at@ =~= seq!['@']);
    assert(slash@ =~= seq!['/']);
    let s = match find_in(&s0, &at) {
        Some(i) => {
            proof {
                lemma_find_from_bounds(s0@, at@, 0);
            }
            assert(at@.len() == 1);
            assert(i < s0.len());
            let user = slice_of(&s0, 0, i);
            assert(user@ =~= s0@.take(i as int));
            if find_in(&user, &slash).is_some() {
                s0
            } else {
                let r = slice_of(&s0, i + 1, s0.len());
                assert(r@ =~= s0@.skip(i + 1));
                r
            }
        },
        None => s0,
    };
    assert(s@ == without_userinfo(without_transport(trim(url@))));
    let seps = [':', '/'];
    assert(seps@ =~= seq![':', '/']);
    let (host, path) = match find_any_at(&s, &seps, 0) {
        Some(i) => {
            proof {
                lemma_find_any_bounds(s@, seps@, 0);
            }
            assert(i < s.len());
            if s[i] == ':' {
                let after = slice_of(&s, i + 1, s.len());
                assert(after@ =~= s@.skip(i + 1));
                let seg_end = match find_in(&after, &slash) {
                    Some(j) => {
                        proof {
                            lemma_find_from_bounds(after@, slash@, 0);
                        }
                        j
                    },
                    None => after.len(),
                };
                let port = slice_of(&after, 0, seg_end);
                assert(port@ =~= after@.take(seg_end as int));
                let mut digits_only = port.len() > 0;
                let mut k: usize = 0;
                while k < port.len()
                    invariant
                        k <= port@.len(),
                        digits_only == (port@.len() > 0 && forall|m: int|
                            0 <= m < k ==> is_digit(#[trigger] port@[m])),
                    decreases port.len() - k,
                {
                    if !digit(port[k]) {
                        digits_only = false;
                    }
                    k += 1;
                }
                let host = slice_of(&s, 0, i);
                assert(host@ =~= s@.take(i as int));
                if digits_only {
                    let rest = slice_of(&after, seg_end, after.len());
                    assert(rest@ =~= after@.skip(seg_end as int));
                    (host, trimmed_start_in(&rest, &slash))
                } else {
                    (host, after)
                }
            } else {
                let host = slice_of(&s, 0, i);
                assert(host@ =~= s@.take(i as int));
                let p = slice_of(&s, i + 1, s.len());
                assert(p@ =~= s@.skip(i + 1));
                (host, p)
            }
        },
        None => (s, Vec::new()),
    };
    assert((host@, path@) == host_and_path(s@));
    let path = trimmed_end_in(&path, &slash);
    let git = chars_of(".git");
    proof {
        reveal_strlit(".git");
    }
    let path = if ends(&path, &git) {
        let r = slice_of(&path, 0, path.len() - 4);
        assert(r@ =~= path@.take(path@.len() - 4));
        r
    } else {
        path
    };
    let ghost hp = host_and_path(without_userinfo(without_transport(trim(url@))));
    let ghost p1 = trim_end_in(hp.1, seq!['/']);
    let ghost p2 = match strip_suffix(p1, ".git"@) {
        Some(p) => p,
        None => p1,
    };
    assert(path@ == p2);
    let mut joined = host;
    joined.push('/');
    push_all(&mut joined, &path);
    assert(joined@ =~= hp.0 + seq!['/'] + p2);
    let low = to_lowercase(&joined);
    let parts = segments_of(&low);
    let out = crate::text::joined(&parts, &slash);
    string_of(&out)
}

// ---------------------------------------------------------------------------
// Truncation and first lines
// ---------------------------------------------------------------------------

/// Cut to `max` characters, the last of them an ellipsis, when it had to cut; with
/// no room at all, nothing is left.
pub open spec fn truncated(s: Seq<char>, max: nat) -> Seq<char> {
    if s.len() <= max {
        s
    } else if max == 0 {
        Seq::empty()
    } else {
        s.take(max - 1) + seq!['…']
    }
}

/// Truncate to `max` display columns, appending an ellipsis when it had to cut.
pub fn truncate(s: &str, max: usize) -> (r: String)
    ensures
        r@ == truncated(s@, max as nat),
        r@.len() <= max,
{
    let v = chars_of(s);
    if v.len() <= max {
        return string_of(&v);
    }
    if max == 0 {
        return String::new();
    }
    let keep = max - 1;
    let mut out = slice_of(&v, 0, keep);
    out.push('…');
    assert(v@.subrange(0, keep as int) =~= v@.take(keep as int));
    string_of(&out)
}

/// A line with its heading, quote and bullet markers stripped.
pub open spec fn bare_line(l: Seq<char>) -> Seq<char> {
    trim(trim_start_in(trim(l), seq!['#', '>', '-', '*']))
}

pub open spec fn first_bare_from(ls: Seq<Seq<char>>, i: int) -> Seq<char>
    decreases ls.len() - i,
{
    if i < 0 || i >= ls.len() {
        Seq::empty()
    } else if bare_line(ls[i]).len() > 0 {
        bare_line(ls[i])
    } else {
        first_bare_from(ls, i + 1)
    }
}

/// First non-empty line of a markdown blob, with heading/quote markers stripped.
pub fn first_line(body: &str) -> (r: String)
    ensures
        r@ == first_bare_from(lines(body@), 0),
{
    let v = chars_of(body);
    let ls = lines_of(&v);
    let marks = ['#', '>', '-', '*'];
    assert(marks@ =~= seq!['#', '>', '-', '*']);
    let mut i: usize = 0;
    while i < ls.len()
        invariant
            i <= ls@.len(),
            views(ls@) == lines(body@),
            marks@ == seq!['#', '>', '-', '*'],
            first_bare_from(lines(body@), i as int) == first_bare_from(lines(body@), 0),
        decreases ls.len() - i,
    {
        let t = trimmed(&ls[i]);
        let u = trimmed_start_in(&t, &marks);
        let w = trimmed(&u);
        assert(views(ls@)[i as int] == ls@[i as int]@);
        assert(bare_line(lines(body@)[i as int]) == w@);
        if w.len() > 0 {
            return string_of(&w);
        }
        i += 1;
    }
    string_of(&Vec::new())
}

} // verus!
