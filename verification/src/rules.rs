//! The always-on instruction block an agent's global charter carries: one marker top
//! and bottom, so the block can be found, replaced or removed without touching the
//! rest of the file.
use vstd::prelude::*;

use crate::text::{
    chars_of, contains, find, find_from, find_in, is_ws, lead_in, lemma_trail_ws_bounds, trail_ws, lemma_find_from_bounds, lemma_find_from_first, lemma_find_from_none,
    matches_at, push_all, push_str, slice_of, string_of, trim, trim_end, trim_start_in, trimmed,
    trimmed_end, trimmed_start_in,
};

verus! {

pub const MARKER: &'static str = "<!-- ai-planner:rules -->";

pub const RULES: &'static str = r#"## Build plans live in a database, not in files

This machine keeps build plans as rows, reachable with the `aip` CLI (and the
`ai-planner` MCP server when it is connected). There is no `BUILD_PLAN.md` or
`HANDOFF.md`: never create one, and never edit one you find - offer `aip import`.

Read the plan before you plan. Update it as the work happens, not at the end.

| Moment | Command |
| --- | --- |
| Starting any task | `aip status` (or `aip resume` after a context clear) |
| Before building a slice | `aip slice claim <key>` |
| Opening a PR | `aip slice set <key> in_review` + `aip slice edit <key> --pr <url>` |
| PR merged | `aip slice set <key> done` |
| Anything worth knowing later | `aip log "<what happened>" --slice <key>` |
| A choice future work must not re-open | `aip decision add "<title>" "<why>"` |
| A trap the code does not reveal | `aip gotcha add "<title>" "<detail>"` |
| Something only the user can decide | `aip question add "<question>"` |
| Before `/clear` or `/compact` | `aip handoff write --gate <name>=<result>` |

Two rules that matter more than the rest:

- **A slice status change is part of finishing the work,** not paperwork after it. A PR
  that is open while the plan says `ready` makes the plan lie to the next session.
- **`aip log` is append-only and cannot conflict,** so there is never a reason to batch
  notes up. Write them when they happen.

If the plan and reality have drifted, `aip sync` reconciles what git and `gh` can see
(merged branches, open PRs, dead claims) and `aip sync --fix` applies it."#;

pub open spec fn marker() -> Seq<char> {
    MARKER@
}

/// The block: marker, rules, marker, each on its own line.
pub open spec fn block_text() -> Seq<char> {
    marker() + "\n"@ + RULES@ + "\n"@ + marker() + "\n"@
}

pub fn block() -> (r: String)
    ensures
        r@ == block_text(),
{
    let mut out = chars_of(MARKER);
    push_str(&mut out, "\n");
    push_str(&mut out, RULES);
    push_str(&mut out, "\n");
    push_str(&mut out, MARKER);
    push_str(&mut out, "\n");
    string_of(&out)
}

/// What `apply` or `remove` did.
#[derive(Debug, Clone, Copy, PartialEq, Eq, Structural)]
pub enum Outcome {
    Added,
    Replaced,
    AlreadyCurrent,
    Removed,
    NotPresent,
}

/// Where the marked block sits, markers included: the first marker and the next one
/// after it, as character positions.
pub open spec fn extract_range(t: Seq<char>) -> Option<(int, int)> {
    match find(t, marker()) {
        Some(s) => match find(t.skip(s + marker().len()), marker()) {
            Some(i) => Some((s, s + marker().len() + i + marker().len())),
            None => None,
        },
        None => None,
    }
}

proof fn lemma_marker_shape()
    ensures
        marker().len() == 25,
        marker()[0] == '<',
        marker()[24] == '>',
        trim_end(block_text()) == marker() + "\n"@ + RULES@ + "\n"@ + marker(),
{
    reveal_strlit("<!-- ai-planner:rules -->");
    reveal_strlit("\n");
    let b = block_text();
    let c = marker() + "\n"@ + RULES@ + "\n"@ + marker();
    assert(b =~= c.push('\n'));
    assert(crate::text::is_ws('\n'));
    assert(!crate::text::is_ws('>'));
    assert(crate::text::trail_ws(b, b.len() as int) == crate::text::trail_ws(b, b.len() - 1));
    assert(crate::text::trail_ws(b, b.len() - 1) == b.len() - 1);
    assert(trim_end(b) =~= c);
}

/// The range, as the exec code finds it.
pub fn extract(t: &[char]) -> (r: Option<(usize, usize)>)
    ensures
        match r {
            Some((s, e)) => extract_range(t@) == Some((s as int, e as int)) && s < e <= t@.len(),
            None => extract_range(t@) is None,
        },
{
    let m = chars_of(MARKER);
    assert(t@.len() == t.len());
    let s = match find_in(t, &m) {
        Some(s) => s,
        None => return None,
    };
    proof {
        lemma_find_from_bounds(t@, m@, 0);
        lemma_marker_shape();
    }
    let after = s + m.len();
    let rest = slice_of(t, after, t.len());
    assert(rest@ =~= t@.skip(after as int));
    let i = match find_in(&rest, &m) {
        Some(i) => i,
        None => return None,
    };
    proof {
        lemma_find_from_bounds(rest@, m@, 0);
    }
    Some((s, after + i + m.len()))
}

pub open spec fn applied(t: Seq<char>, force: bool) -> (Seq<char>, Outcome) {
    let desired = block_text();
    match extract_range(t) {
        Some((s, e)) => if t.subrange(s, e) == trim_end(desired) {
            (t, Outcome::AlreadyCurrent)
        } else if !force {
            (t, Outcome::AlreadyCurrent)
        } else {
            (t.take(s) + trim_end(desired) + t.skip(e), Outcome::Replaced)
        },
        None => {
            let base = trim_end(t);
            (
                if base.len() > 0 {
                    base + "\n\n"@
                } else {
                    base
                } + desired,
                Outcome::Added,
            )
        },
    }
}

/// Append the block, replace an outdated one when forced, or leave a present one
/// alone.
pub fn apply(text: &str, force: bool) -> (r: (String, Outcome))
    ensures
        (r.0@, r.1) == applied(text@, force),
{
    let desired = chars_of(block().as_str());
    let t = chars_of(text);
    match extract(&t) {
        Some((start, end)) => {
            let current = slice_of(&t, start, end);
            let want = trimmed_end(&desired);
            if crate::text::eq_chars(&current, &want) {
                return (text.to_string(), Outcome::AlreadyCurrent);
            }
            if !force {
                return (text.to_string(), Outcome::AlreadyCurrent);
            }
            let mut out = slice_of(&t, 0, start);
            push_all(&mut out, &want);
            let tail = slice_of(&t, end, t.len());
            push_all(&mut out, &tail);
            assert(out@ =~= t@.take(start as int) + trim_end(block_text()) + t@.skip(end as int));
            (string_of(&out), Outcome::Replaced)
        },
        None => {
            let mut out = trimmed_end(&t);
            if out.len() > 0 {
                push_str(&mut out, "\n\n");
            }
            push_all(&mut out, &desired);
            (string_of(&out), Outcome::Added)
        },
    }
}

pub open spec fn removed(t: Seq<char>) -> (Seq<char>, Outcome) {
    match extract_range(t) {
        Some((s, e)) => {
            let head = trim_end(t.take(s));
            let tail = trim_start_in(t.skip(e), seq!['\n']);
            if trim(tail).len() > 0 {
                (head + "\n\n"@ + tail, Outcome::Removed)
            } else {
                (head + "\n"@, Outcome::Removed)
            }
        },
        None => (t, Outcome::NotPresent),
    }
}

/// Take the block out, leaving what surrounds it.
pub fn remove(text: &str) -> (r: (String, Outcome))
    ensures
        (r.0@, r.1) == removed(text@),
{
    let t = chars_of(text);
    match extract(&t) {
        Some((start, end)) => {
            let head = slice_of(&t, 0, start);
            let mut out = trimmed_end(&head);
            let rest = slice_of(&t, end, t.len());
            let nl = ['\n'];
            assert(nl@ =~= seq!['\n']);
            let tail = trimmed_start_in(&rest, &nl);
            let tt = trimmed(&tail);
            assert(head@ =~= t@.take(start as int));
            assert(rest@ =~= t@.skip(end as int));
            if tt.len() > 0 {
                push_str(&mut out, "\n\n");
                push_all(&mut out, &tail);
            } else {
                push_str(&mut out, "\n");
            }
            (string_of(&out), Outcome::Removed)
        },
        None => (text.to_string(), Outcome::NotPresent),
    }
}

// ---------------------------------------------------------------------------
// Laws
// ---------------------------------------------------------------------------

proof fn lemma_found_somewhere(s: Seq<char>, p: Seq<char>, j: int)
    requires
        matches_at(s, p, j),
    ensures
        find(s, p) matches Some(k) && 0 <= k <= j && matches_at(s, p, k),
{
    if find(s, p) is None {
        lemma_find_from_none(s, p, 0, j);
    }
    lemma_find_from_bounds(s, p, 0);
    let k = find(s, p)->0;
    if j < k {
        lemma_find_from_first(s, p, 0, j);
    }
}

/// Text holding two markers, the second starting after the first ends, has a block.
proof fn lemma_two_markers(u: Seq<char>, a: int, b: int)
    requires
        matches_at(u, marker(), a),
        matches_at(u, marker(), b),
        a + marker().len() <= b,
    ensures
        extract_range(u) is Some,
{
    lemma_found_somewhere(u, marker(), a);
    let k = find(u, marker())->0;
    let x = k + marker().len();
    let rest = u.skip(x);
    assert(rest.subrange(b - x, b - x + marker().len()) =~= u.subrange(b, b + marker().len()));
    assert(matches_at(rest, marker(), b - x));
    lemma_found_somewhere(rest, marker(), b - x);
}

/// Installing is idempotent: applying the block to a charter that went through
/// `apply` once changes nothing and reports it current.
pub proof fn law_installing_the_rules_is_idempotent(t: Seq<char>, force: bool)
    ensures
        applied(applied(t, force).0, false) == (applied(t, force).0, Outcome::AlreadyCurrent),
{
    lemma_marker_shape();
    reveal_strlit("\n");
    reveal_strlit("\n\n");
    let m = marker();
    let u = applied(t, force).0;
    match extract_range(t) {
        Some((s, e)) => {
            if applied(t, force).1 == Outcome::Replaced {
                let w = trim_end(block_text());
                let a = t.take(s).len() as int;
                let b = a + m.len() + 1 + RULES@.len() + 1;
                assert(u.subrange(a, a + m.len()) =~= m);
                assert(u.subrange(b, b + m.len()) =~= m);
                lemma_two_markers(u, a, b);
            }
        },
        None => {
            let base = trim_end(t);
            let pre = if base.len() > 0 {
                base + "\n\n"@
            } else {
                base
            };
            let a = pre.len() as int;
            let b = a + m.len() + 1 + RULES@.len() + 1;
            assert(u =~= pre + block_text());
            assert(u.subrange(a, a + m.len()) =~= m);
            assert(u.subrange(b, b + m.len()) =~= m);
            lemma_two_markers(u, a, b);
        },
    }
}



/// No `!` anywhere in the rules, so no marker can start inside them.
proof fn lemma_rules_have_no_bang()
    ensures
        forall|i: int| 0 <= i < RULES@.len() ==> RULES@[i] != '!',
{
    reveal_strlit("## Build plans live in a database, not in files

This machine keeps build plans as rows, reachable with the `aip` CLI (and the
`ai-planner` MCP server when it is connected). There is no `BUILD_PLAN.md` or
`HANDOFF.md`: never create one, and never edit one you find - offer `aip import`.

Read the plan before you plan. Update it as the work happens, not at the end.

| Moment | Command |
| --- | --- |
| Starting any task | `aip status` (or `aip resume` after a context clear) |
| Before building a slice | `aip slice claim <key>` |
| Opening a PR | `aip slice set <key> in_review` + `aip slice edit <key> --pr <url>` |
| PR merged | `aip slice set <key> done` |
| Anything worth knowing later | `aip log \"<what happened>\" --slice <key>` |
| A choice future work must not re-open | `aip decision add \"<title>\" \"<why>\"` |
| A trap the code does not reveal | `aip gotcha add \"<title>\" \"<detail>\"` |
| Something only the user can decide | `aip question add \"<question>\"` |
| Before `/clear` or `/compact` | `aip handoff write --gate <name>=<result>` |

Two rules that matter more than the rest:

- **A slice status change is part of finishing the work,** not paperwork after it. A PR
  that is open while the plan says `ready` makes the plan lie to the next session.
- **`aip log` is append-only and cannot conflict,** so there is never a reason to batch
  notes up. Write them when they happen.

If the plan and reality have drifted, `aip sync` reconciles what git and `gh` can see
(merged branches, open PRs, dead claims) and `aip sync --fix` applies it.");
}

proof fn lemma_marker_chars()
    ensures
        marker().len() == 25,
        marker()[1] == '!',
        forall|i: int| 0 <= i < marker().len() ==> marker()[i] != '\n',
{
    reveal_strlit("<!-- ai-planner:rules -->");
}

proof fn lemma_find_at(s: Seq<char>, p: Seq<char>, i: int, k: int)
    requires
        0 <= i <= k,
        matches_at(s, p, k),
        forall|j: int| i <= j < k ==> !#[trigger] matches_at(s, p, j),
    ensures
        find_from(s, p, i) == Some(k),
    decreases k - i,
{
    if i < k {
        lemma_find_at(s, p, i + 1, k);
    }
}

proof fn lemma_find_absent(s: Seq<char>, p: Seq<char>, i: int)
    requires
        0 <= i,
        forall|j: int| i <= j ==> !#[trigger] matches_at(s, p, j),
    ensures
        find_from(s, p, i) is None,
    decreases s.len() + 1 - i,
{
    if i + p.len() <= s.len() {
        lemma_find_absent(s, p, i + 1);
    }
}

proof fn lemma_trail_ws_stops(s: Seq<char>, j: int)
    requires
        0 <= j <= s.len(),
    ensures
        trail_ws(s, j) == 0 || !is_ws(s[trail_ws(s, j) - 1]),
    decreases j,
{
    if 0 < j && is_ws(s[j - 1]) {
        lemma_trail_ws_stops(s, j - 1);
    }
}

/// A window of `base + tail` that holds a marker lies inside `base`, when the first
/// characters of `tail` are line breaks and the window reaches them.
proof fn lemma_no_marker_in(t: Seq<char>, base: Seq<char>, u: Seq<char>, j: int, breaks: int)
    requires
        !contains(t, marker()),
        base == t.take(base.len() as int),
        1 <= breaks,
        base.len() + breaks <= u.len(),
        u.take(base.len() as int) == base,
        forall|x: int| base.len() <= x < base.len() + breaks ==> u[x] == '\n',
        0 <= j,
        j + marker().len() > base.len(),
        j < base.len() + breaks,
    ensures
        !matches_at(u, marker(), j),
{
    lemma_marker_chars();
    if matches_at(u, marker(), j) {
        let x = if j < base.len() { base.len() as int } else { j };
        assert(u[x] == '\n');
        assert(u.subrange(j, j + marker().len())[x - j] == u[x]);
        assert(marker()[x - j] == '\n');
    }
}

proof fn lemma_prefix_of_clean_text(t: Seq<char>, base: Seq<char>, u: Seq<char>, j: int)
    requires
        !contains(t, marker()),
        base == t.take(base.len() as int),
        base.len() <= t.len(),
        base.len() <= u.len(),
        u.take(base.len() as int) == base,
        0 <= j,
        j + marker().len() <= base.len(),
    ensures
        !matches_at(u, marker(), j),
{
    lemma_find_from_none(t, marker(), 0, j);
    if matches_at(u, marker(), j) {
        let w = base.len() as int;
        assert(u.subrange(j, j + marker().len()) =~= u.take(w).subrange(j, j + marker().len()));
        assert(t.subrange(j, j + marker().len()) =~= t.take(w).subrange(j, j + marker().len()));
    }
}

/// A charter whose block is already current is left as it is, forced or not.
pub proof fn law_a_current_block_is_left_alone(t: Seq<char>, force: bool)
    requires
        extract_range(t) matches Some((s, e)) && t.subrange(s, e) == trim_end(block_text()),
    ensures
        applied(t, force) == (t, Outcome::AlreadyCurrent),
{
}

/// Taking the rules out of a charter they were put into leaves the charter as it was,
/// up to its trailing whitespace and a final newline; taking them out again changes
/// nothing.
pub proof fn law_removing_the_rules_restores_the_charter(t: Seq<char>, force: bool)
    requires
        !contains(t, marker()),
    ensures
        removed(applied(t, force).0) == (trim_end(t) + "\n"@, Outcome::Removed),
        removed(trim_end(t) + "\n"@) == (trim_end(t) + "\n"@, Outcome::NotPresent),
{
    reveal_strlit("\n");
    reveal_strlit("\n\n");
    lemma_marker_chars();
    lemma_rules_have_no_bang();
    let m = marker();
    let base = trim_end(t);
    let n = base.len() as int;
    lemma_trail_ws_bounds(t, t.len() as int);
    lemma_trail_ws_stops(t, t.len() as int);
    assert(base =~= t.take(n));
    assert(extract_range(t) is None);
    let pre = if n > 0 { base + "\n\n"@ } else { base };
    let u = applied(t, force).0;
    assert(u =~= pre + block_text());
    let a = pre.len() as int;
    let r = RULES@.len() as int;
    // The first marker opens the block.
    assert(matches_at(u, m, a)) by {
        assert(u.subrange(a, a + 25) =~= m);
    }
    assert forall|j: int| 0 <= j < a implies !#[trigger] matches_at(u, m, j) by {
        assert(u.take(n) =~= base);
        if j + 25 <= n {
            lemma_prefix_of_clean_text(t, base, u, j);
        } else {
            lemma_no_marker_in(t, base, u, j, 2);
        }
    }
    lemma_find_at(u, m, 0, a);
    // The next one closes it: nothing in the rules can open a marker.
    let rest = u.skip(a + 25);
    assert(rest =~= "\n"@ + RULES@ + "\n"@ + m + "\n"@);
    assert(matches_at(rest, m, r + 2)) by {
        assert(rest.subrange(r + 2, r + 27) =~= m);
    }
    assert forall|j: int| 0 <= j < r + 2 implies !#[trigger] matches_at(rest, m, j) by {
        if matches_at(rest, m, j) {
            assert(rest.subrange(j, j + 25)[1] == rest[j + 1]);
            if j + 1 <= r {
                assert(rest[j + 1] == RULES@[j]);
            }
        }
    }
    lemma_find_at(rest, m, 0, r + 2);
    let e = a + 25 + r + 2 + 25;
    assert(extract_range(u) == Some((a, e)));
    // What is left: the charter's own text and a newline.
    let head = u.take(a);
    assert(head =~= pre);
    if n > 0 {
        assert(trail_ws(pre, n + 2) == trail_ws(pre, n + 1));
        assert(trail_ws(pre, n + 1) == trail_ws(pre, n));
        assert(pre[n - 1] == base[n - 1]);
        assert(trim_end(pre) =~= base);
    } else {
        assert(trim_end(pre) =~= base);
    }
    let after = u.skip(e);
    assert(after =~= seq!['\n']);
    assert(seq!['\n'].contains(after[0])) by {
        assert(seq!['\n'][0] == after[0]);
    }
    assert(lead_in(after, seq!['\n'], 1) == 1);
    assert(lead_in(after, seq!['\n'], 0) == 1);
    assert(trim_start_in(after, seq!['\n']) =~= Seq::<char>::empty());
    assert(trim(Seq::<char>::empty()) =~= Seq::<char>::empty());
    // And removing again finds nothing.
    let v = base + "\n"@;
    assert forall|j: int| 0 <= j implies !#[trigger] matches_at(v, m, j) by {
        assert(v.take(n) =~= base);
        if j + 25 <= n {
            lemma_prefix_of_clean_text(t, base, v, j);
        } else if j < n + 1 {
            lemma_no_marker_in(t, base, v, j, 1);
        }
    }
    lemma_find_absent(v, m, 0);
}

} // verus!
