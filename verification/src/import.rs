//! Turning documents into rows without losing anything: which documents are
//! handoffs, what a handoff's gotchas are, how an imported plan is keyed and what
//! status it starts in, and the fingerprint that makes copies import once.
use vstd::prelude::*;

use sha2::{Digest, Sha256};
use std::path::Path;

use crate::model::{status_terminal, Plan, Status};
use crate::parse::{ParsedPlan, ParsedSlice};
use crate::text::{
    byte_len, chars_of, contains, ends_with, find, find_in, has_str, index_at_byte,
    index_at_byte_of, is_ws, join, joined_str, lemma_find_from_bounds, lemma_index_at_byte_bounds,
    lemma_views_push, lines, lines_of, lowercase, push_all, push_str, slice_of, starts_str,
    starts_with, strip_prefix, strip_prefix_of, string_of, to_lowercase, to_uppercase, trim,
    trim_end, trim_in, trim_start, trim_start_in, trimmed, trimmed_in, trimmed_start,
    trimmed_start_in, uppercase, views,
};

verus! {

// ---------------------------------------------------------------------------
// A handoff's gotchas
// ---------------------------------------------------------------------------

pub struct GotchaScan {
    pub out: Seq<(Seq<char>, Seq<char>)>,
    pub in_section: bool,
    pub current: Option<(Seq<char>, Seq<Seq<char>>)>,
    pub fenced: bool,
}

/// A finished gotcha: its title and its lines, joined and trimmed.
pub open spec fn flush(
    out: Seq<(Seq<char>, Seq<char>)>,
    current: Option<(Seq<char>, Seq<Seq<char>>)>,
) -> Seq<(Seq<char>, Seq<char>)> {
    match current {
        Some((t, body)) => out.push((t, trim(join(body, "\n"@)))),
        None => out,
    }
}

/// One line of a handoff: a `## ` heading opens or closes the gotchas section, a
/// `### ` heading inside it starts a gotcha, anything else is the current gotcha's.
pub open spec fn gotcha_step(st: GotchaScan, line: Seq<char>) -> GotchaScan {
    let fenced = if starts_with(trim_start(line), "```"@) {
        !st.fenced
    } else {
        st.fenced
    };
    if !fenced && starts_with(line, "## "@) {
        GotchaScan {
            out: flush(st.out, st.current),
            in_section: contains(lowercase(trim(line.skip(3))), "gotcha"@),
            current: None,
            fenced,
        }
    } else if !st.in_section {
        GotchaScan { fenced, ..st }
    } else if !fenced && starts_with(line, "### "@) {
        GotchaScan {
            out: flush(st.out, st.current),
            current: Some((trim(line.skip(4)), Seq::empty())),
            fenced,
            ..st
        }
    } else {
        match st.current {
            Some((t, body)) => GotchaScan { current: Some((t, body.push(line))), fenced, ..st },
            None => GotchaScan { fenced, ..st },
        }
    }
}

pub open spec fn gotcha_scan(ls: Seq<Seq<char>>, i: int, st: GotchaScan) -> GotchaScan
    decreases ls.len() - i,
{
    if i < 0 || i >= ls.len() {
        st
    } else {
        gotcha_scan(ls, i + 1, gotcha_step(st, ls[i]))
    }
}

/// Gotchas with a title, in order.
pub open spec fn titled_only(gs: Seq<(Seq<char>, Seq<char>)>) -> Seq<(Seq<char>, Seq<char>)>
    decreases gs.len(),
{
    if gs.len() == 0 {
        Seq::empty()
    } else if gs.last().0.len() > 0 {
        titled_only(gs.drop_last()).push(gs.last())
    } else {
        titled_only(gs.drop_last())
    }
}

pub open spec fn gotchas_of(md: Seq<char>) -> Seq<(Seq<char>, Seq<char>)> {
    let st = gotcha_scan(
        lines(md),
        0,
        GotchaScan { out: Seq::empty(), in_section: false, current: None, fenced: false },
    );
    titled_only(flush(st.out, st.current))
}

pub open spec fn pair_views(v: Seq<(String, String)>) -> Seq<(Seq<char>, Seq<char>)> {
    v.map_values(|p: (String, String)| (p.0@, p.1@))
}

fn flush_of(out: &mut Vec<(String, String)>, current: Option<(Vec<char>, Vec<Vec<char>>)>)
    ensures
        pair_views(final(out)@) == flush(
            pair_views(old(out)@),
            match current {
                Some(c) => Some((c.0@, views(c.1@))),
                None => None,
            },
        ),
{
    match current {
        Some((t, body)) => {
            let j = joined_str(&body, "\n");
            let jt = trimmed(&j);
            out.push((string_of(&t), string_of(&jt)));
            assert(pair_views(out@) =~= pair_views(old(out)@).push((t@, trim(join(views(body@), "\n"@)))));
        },
        None => {},
    }
}

pub open spec fn cur_view(c: Option<(Vec<char>, Vec<Vec<char>>)>) -> Option<(Seq<char>, Seq<Seq<char>>)> {
    match c {
        Some(c) => Some((c.0@, views(c.1@))),
        None => None,
    }
}

/// Lifts a handoff's gotchas section into (title, body) rows: the API quirks and
/// verification tricks that the code alone does not reveal.
pub fn handoff_gotchas(md: &str) -> (r: Vec<(String, String)>)
    ensures
        pair_views(r@) == gotchas_of(md@),
{
    let cs = chars_of(md);
    let ls = lines_of(&cs);
    let mut out: Vec<(String, String)> = Vec::new();
    let mut in_section = false;
    let mut current: Option<(Vec<char>, Vec<Vec<char>>)> = None;
    let mut fenced = false;
    let ghost start = GotchaScan { out: Seq::empty(), in_section: false, current: None, fenced: false };
    assert(pair_views(out@) =~= Seq::<(Seq<char>, Seq<char>)>::empty());
    let mut i: usize = 0;
    while i < ls.len()
        invariant
            i <= ls@.len(),
            views(ls@) == lines(md@),
            gotcha_scan(
                views(ls@),
                i as int,
                GotchaScan {
                    out: pair_views(out@),
                    in_section,
                    current: cur_view(current),
                    fenced,
                },
            ) == gotcha_scan(views(ls@), 0, start),
        decreases ls.len() - i,
    {
        let line = &ls[i];
        assert(views(ls@)[i as int] == line@);
        let ghost st = GotchaScan {
            out: pair_views(out@),
            in_section,
            current: cur_view(current),
            fenced,
        };
        proof {
            reveal_strlit("## ");
            reveal_strlit("### ");
        }
        let lead = trimmed_start(line);
        if starts_str(&lead, "```") {
            fenced = !fenced;
        }
        if !fenced && starts_str(line, "## ") {
            let cur = current;
            current = None;
            flush_of(&mut out, cur);
            let rest = slice_of(line, 3, line.len());
            assert(rest@ =~= line@.skip(3));
            let rt = trimmed(&rest);
            let lower = to_lowercase(&rt);
            in_section = has_str(&lower, "gotcha");
        } else if !in_section {
        } else if !fenced && starts_str(line, "### ") {
            let cur = current;
            flush_of(&mut out, cur);
            let rest = slice_of(line, 4, line.len());
            assert(rest@ =~= line@.skip(4));
            let title = trimmed(&rest);
            current = Some((title, Vec::new()));
            assert(views(Seq::<Vec<char>>::empty()) =~= Seq::<Seq<char>>::empty());
        } else {
            match current {
                Some((t, mut body)) => {
                    let l = crate::text::copy(line);
                    proof {
                        lemma_views_push(body@, l);
                    }
                    body.push(l);
                    current = Some((t, body));
                },
                None => {},
            }
        }
        assert(GotchaScan {
            out: pair_views(out@),
            in_section,
            current: cur_view(current),
            fenced,
        } == gotcha_step(st, line@));
        i += 1;
    }
    let cur = current;
    flush_of(&mut out, cur);
    let ghost flushed = pair_views(out@);
    let mut kept: Vec<(String, String)> = Vec::new();
    assert(pair_views(kept@) =~= Seq::<(Seq<char>, Seq<char>)>::empty());
    let mut k: usize = 0;
    while k < out.len()
        invariant
            k <= out@.len(),
            pair_views(out@) == flushed,
            pair_views(kept@) == titled_only(flushed.take(k as int)),
        decreases out.len() - k,
    {
        assert(flushed.take(k + 1).drop_last() =~= flushed.take(k as int));
        let title = chars_of(out[k].0.as_str());
        if title.len() > 0 {
            let ghost before = kept@;
            kept.push((out[k].0.clone(), out[k].1.clone()));
            assert(pair_views(kept@) =~= pair_views(before).push(flushed[k as int]));
        }
        k += 1;
    }
    assert(flushed.take(flushed.len() as int) =~= flushed);
    kept
}


// ---------------------------------------------------------------------------
// Telling a handoff from a plan
// ---------------------------------------------------------------------------

/// What `Path::file_name` gives for a path written as text: its final component,
/// `None` when it ends in `..` or has none.
pub uninterp spec fn path_file_name(p: Seq<char>) -> Option<Seq<char>>;

/// `Path::file_name`, read back as text: a function of the path alone. Every
/// component of a path written as text is text, so the conversion back never fails.
#[verifier::external_body]
fn file_name_text(path: &str) -> (r: Option<String>)
    ensures
        crate::parse::opt_view(r) == path_file_name(path@),
{
    Path::new(path).file_name().and_then(|n| n.to_str()).map(|n| n.to_string())
}

/// The first `# ` heading of the document.
pub open spec fn first_title_from(ls: Seq<Seq<char>>, i: int) -> Option<Seq<char>>
    decreases ls.len() - i,
{
    if i < 0 || i >= ls.len() {
        None
    } else if starts_with(ls[i], "# "@) {
        Some(ls[i])
    } else {
        first_title_from(ls, i + 1)
    }
}

/// The first level-one heading says it is a handoff.
pub open spec fn heading_says_handoff(md: Seq<char>) -> bool {
    match first_title_from(lines(md), 0) {
        Some(l) => starts_with(uppercase(trim(l.skip(2))), "HANDOFF"@),
        None => false,
    }
}

/// The file's name, or its first heading, says it is a handoff.
pub open spec fn handoff_named(name: Option<Seq<char>>, md: Seq<char>) -> bool {
    starts_with(uppercase(match name { Some(n) => n, None => Seq::empty() }), "HANDOFF"@)
        || heading_says_handoff(md)
}

/// Whether a document called `name` (the file name, if it has one) is a handoff.
pub fn handoff_by_name(name: Option<&str>, md: &str) -> (r: bool)
    ensures
        r == handoff_named(
            match name {
                Some(n) => Some(n@),
                None => None,
            },
            md@,
        ),
{
    let n = match name {
        Some(n) => chars_of(n),
        None => Vec::new(),
    };
    let ghost nv = match name {
        Some(n) => n@,
        None => Seq::<char>::empty(),
    };
    assert(n@ =~= nv);
    let upper = to_uppercase(&n);
    proof {
        reveal_strlit("HANDOFF");
        reveal_strlit("# ");
    }
    if starts_str(&upper, "HANDOFF") {
        return true;
    }
    let cs = chars_of(md);
    let ls = lines_of(&cs);
    let mut i: usize = 0;
    while i < ls.len()
        invariant
            i <= ls@.len(),
            views(ls@) == lines(md@),
            first_title_from(lines(md@), 0) == first_title_from(lines(md@), i as int),
            !starts_with(uppercase(nv), "HANDOFF"@),
            nv == match name {
                Some(n) => n@,
                None => Seq::<char>::empty(),
            },
        decreases ls.len() - i,
    {
        proof {
            reveal_strlit("# ");
        }
        let l = &ls[i];
        assert(views(ls@)[i as int] == l@);
        if starts_str(l, "# ") {
            let rest = slice_of(l, 2, l.len());
            assert(rest@ =~= l@.skip(2));
            let t = trimmed(&rest);
            let u = to_uppercase(&t);
            return starts_str(&u, "HANDOFF");
        }
        i += 1;
    }
    false
}

/// A handoff records where one worktree got to, not what the project is: it attaches
/// to a plan rather than becoming one. A first heading that says so is enough; the
/// file's name, when it starts with `HANDOFF`, is too. The path is given as text.
pub fn looks_like_handoff(path: &str, md: &str) -> (r: bool)
    ensures
        r == handoff_named(path_file_name(path@), md@),
{
    let name = file_name_text(path);
    match name {
        Some(n) => handoff_by_name(Some(n.as_str()), md),
        None => handoff_by_name(None, md),
    }
}

// ---------------------------------------------------------------------------
// Fingerprints
// ---------------------------------------------------------------------------

/// What SHA-256 makes of a byte string.
pub uninterp spec fn sha256_of(bytes: Seq<u8>) -> Seq<u8>;

/// `Sha256::digest` from the `sha2` crate: the digest of the bytes, which is a
/// function of them alone, and 32 bytes long (its output size is `U32`).
#[verifier::external_body]
fn sha256_digest(bytes: &[u8]) -> (r: Vec<u8>)
    ensures
        r@ == sha256_of(bytes@),
        r@.len() == 32,
{
    Sha256::digest(bytes).to_vec()
}

pub open spec fn hex_digit(d: u8) -> char {
    if d < 10 {
        (48 + d) as char
    } else {
        (87 + d) as char
    }
}

/// Two lowercase hex digits per byte, high nibble first.
pub open spec fn hex_of(bytes: Seq<u8>) -> Seq<char>
    decreases bytes.len(),
{
    if bytes.len() == 0 {
        Seq::empty()
    } else {
        hex_of(bytes.drop_last()) + seq![
            hex_digit(bytes.last() / 16),
            hex_digit(bytes.last() % 16),
        ]
    }
}

fn hex_char(d: u8) -> (c: char)
    requires
        d < 16,
    ensures
        c == hex_digit(d),
{
    if d < 10 {
        crate::text::char_from_ascii(48 + d as u32)
    } else {
        crate::text::char_from_ascii(87 + d as u32)
    }
}

/// Lowercase hex of the bytes.
pub fn hex(bytes: &[u8]) -> (r: String)
    ensures
        r@ == hex_of(bytes@),
        r@.len() == 2 * bytes@.len(),
{
    let mut out: Vec<char> = Vec::new();
    let mut i: usize = 0;
    while i < bytes.len()
        invariant
            i <= bytes@.len(),
            out@ == hex_of(bytes@.take(i as int)),
            out@.len() == 2 * i,
        decreases bytes.len() - i,
    {
        assert(bytes@.take(i + 1).drop_last() =~= bytes@.take(i as int));
        let b = bytes[i];
        out.push(hex_char(b / 16));
        out.push(hex_char(b % 16));
        assert(out@ =~= hex_of(bytes@.take(i + 1)));
        i += 1;
    }
    assert(bytes@.take(bytes@.len() as int) =~= bytes@);
    string_of(&out)
}

/// The SHA-256 of the bytes as 64 lowercase hex digits: what makes the same file,
/// copied into four worktrees, import once.
pub fn sha256(bytes: &[u8]) -> (r: String)
    ensures
        r@ == hex_of(sha256_of(bytes@)),
        r@.len() == 64,
{
    let d = sha256_digest(bytes);
    hex(&d)
}


// ---------------------------------------------------------------------------
// What an import yields
// ---------------------------------------------------------------------------

#[derive(Debug, Clone, Copy)]
pub struct ImportOptions {
    /// Overwrite a plan of the same slug whose content has drifted.
    pub replace: bool,
    /// Parse and report, write nothing.
    pub dry_run: bool,
}

impl Default for ImportOptions {
    fn default() -> (r: ImportOptions)
        ensures
            !r.replace && !r.dry_run,
    {
        ImportOptions { replace: false, dry_run: false }
    }
}

#[derive(Debug, Clone)]
pub enum Outcome {
    Created { plan: Plan, slices: usize, decisions: usize, log: usize },
    /// Byte-identical to something already imported: the copies in other worktrees.
    AlreadyImported { plan: Plan, first_seen: String },
    /// Same plan, different content: two worktrees that drifted apart.
    Conflict { plan: Plan, existing_sources: Vec<String> },
    Replaced { plan: Plan },
    HandoffAttached { plan: Plan, worktree: String },
    Skipped { reason: String },
    Planned { title: String, slug: String, slices: usize, decisions: usize, log: usize },
}

// ---------------------------------------------------------------------------
// Keying and status of an imported plan
// ---------------------------------------------------------------------------

/// `str::trim_end_matches` with a string pattern: every trailing copy goes.
pub open spec fn trim_end_matching(s: Seq<char>, p: Seq<char>) -> Seq<char>
    decreases s.len(),
{
    if p.len() > 0 && ends_with(s, p) {
        trim_end_matching(s.take(s.len() - p.len()), p)
    } else {
        s
    }
}

fn trimmed_end_matching(s: &[char], p: &str) -> (r: Vec<char>)
    ensures
        r@ == trim_end_matching(s@, p@),
{
    let pv = chars_of(p);
    let mut end: usize = s.len();
    assert(s@.take(end as int) =~= s@);
    while pv.len() > 0 && pv.len() <= end && crate::text::ends(&slice_of(s, 0, end), &pv)
        invariant
            end <= s@.len(),
            pv@ == p@,
            trim_end_matching(s@.take(end as int), p@) == trim_end_matching(s@, p@),
        decreases end,
    {
        let ghost t = s@.take(end as int);
        assert(t.take(t.len() - p@.len()) =~= s@.take(end - pv.len()));
        end = end - pv.len();
    }
    let r = slice_of(s, 0, end);
    proof {
        assert(s@.take(s@.len() as int) =~= s@);
        let t = s@.take(end as int);
        assert(r@ =~= t);
        if pv@.len() > 0 && pv@.len() <= end && ends_with(t, p@) {
            assert(false);
        }
    }
    r
}

/// What an imported plan is keyed by: its ticket, or the subject of its title
/// (`Canvas Editor - Build Plan` is the Canvas Editor plan).
pub open spec fn slug_source(key: Option<Seq<char>>, title: Seq<char>) -> Seq<char> {
    match key {
        Some(k) => k,
        None => {
            let first = match find(title, " - "@) {
                Some(i) => title.take(i),
                None => title,
            };
            let t = trim(trim_end_matching(trim_end_matching(trim(first), "Build Plan"@), "build plan"@));
            if t.len() == 0 {
                title
            } else {
                t
            }
        },
    }
}

pub fn derive_slug(parsed: &ParsedPlan) -> (r: String)
    ensures
        r@ == crate::util::slug(slug_source(parsed@.ticket_key, parsed@.title)),
{
    if let Some(key) = &parsed.ticket_key {
        return crate::util::slugify(key.as_str());
    }
    let title = chars_of(parsed.title.as_str());
    let sep = chars_of(" - ");
    let f = find_in(&title, &sep);
    proof {
        lemma_find_from_bounds(title@, sep@, 0);
    }
    let first = match f {
        Some(i) => {
            let h = slice_of(&title, 0, i);
            assert(h@ =~= title@.take(i as int));
            h
        },
        None => title.clone(),
    };
    let t = trimmed(&first);
    let t = trimmed_end_matching(&t, "Build Plan");
    let t = trimmed_end_matching(&t, "build plan");
    let t = trimmed(&t);
    if t.len() == 0 {
        crate::util::slugify(parsed.title.as_str())
    } else {
        let ts = string_of(&t);
        crate::util::slugify(ts.as_str())
    }
}

pub open spec fn any_going(sl: Seq<crate::parse::SliceV>) -> bool {
    exists|i: int| 0 <= i < sl.len() && (sl[i].status == Status::Active || sl[i].status == Status::InReview)
}

pub open spec fn all_finished(sl: Seq<crate::parse::SliceV>) -> bool {
    forall|i: int| 0 <= i < sl.len() ==> status_terminal(#[trigger] sl[i].status)
}

pub open spec fn any_done(sl: Seq<crate::parse::SliceV>) -> bool {
    exists|i: int| 0 <= i < sl.len() && sl[i].status == Status::Done
}

/// The status an imported plan starts in: a draft without slices, active while
/// anything is going or something finished with more outstanding, done when
/// everything is finished, ready otherwise.
pub open spec fn status_for(sl: Seq<crate::parse::SliceV>) -> Status {
    if sl.len() == 0 {
        Status::Draft
    } else if any_going(sl) {
        Status::Active
    } else if all_finished(sl) {
        Status::Done
    } else if any_done(sl) {
        Status::Active
    } else {
        Status::Ready
    }
}

pub fn derive_status(parsed: &ParsedPlan) -> (r: Status)
    ensures
        r == status_for(parsed@.slices),
{
    let sl = &parsed.slices;
    let ghost sv = parsed@.slices;
    assert(sv.len() == sl@.len());
    if sl.len() == 0 {
        return Status::Draft;
    }
    let mut going = false;
    let mut finished = true;
    let mut done = false;
    let mut i: usize = 0;
    while i < sl.len()
        invariant
            i <= sl@.len(),
            sv == parsed@.slices,
            sv.len() == sl@.len(),
            forall|k: int| 0 <= k < sl@.len() ==> #[trigger] sv[k] == sl@[k]@,
            going == exists|k: int| 0 <= k < i && (sv[k].status == Status::Active || sv[k].status == Status::InReview),
            finished == forall|k: int| 0 <= k < i ==> status_terminal(#[trigger] sv[k].status),
            done == exists|k: int| 0 <= k < i && sv[k].status == Status::Done,
        decreases sl.len() - i,
    {
        let st = sl[i].status;
        assert(sv[i as int].status == st);
        if st == Status::Active || st == Status::InReview {
            going = true;
        }
        if !st.is_terminal() {
            finished = false;
        }
        if st == Status::Done {
            done = true;
        }
        i += 1;
    }
    if going {
        Status::Active
    } else if finished {
        Status::Done
    } else if done {
        Status::Active
    } else {
        Status::Ready
    }
}


// ---------------------------------------------------------------------------
// Which plan a handoff belongs to
// ---------------------------------------------------------------------------

pub open spec fn handoff_rest(t: Seq<char>) -> Option<Seq<char>> {
    match strip_prefix(t, "HANDOFF"@) {
        Some(r) => Some(r),
        None => match strip_prefix(t, "Handoff"@) {
            Some(r) => Some(r),
            None => strip_prefix(t, "handoff"@),
        },
    }
}

/// `HANDOFF - Canvas Editor (ACME-1151..39909)` is about Canvas Editor: the title
/// after the word, less separators, a trailing parenthetical and the word `project`.
pub open spec fn subject_of(title: Seq<char>) -> Option<Seq<char>> {
    match handoff_rest(trim(title)) {
        None => None,
        Some(r) => {
            let r1 = trim(trim_start_in(r, seq![':', '-', '–', '—', ' ']));
            let r2 = match find(r1, "("@) {
                Some(i) => trim(r1.take(i)),
                None => r1,
            };
            let r3 = trim(trim_end_matching(r2, " project"@));
            if r3.len() == 0 {
                None
            } else {
                Some(r3)
            }
        },
    }
}

pub fn handoff_subject(title: &str) -> (r: Option<String>)
    ensures
        crate::parse::opt_view(r) == subject_of(title@),
{
    let v = chars_of(title);
    let t = trimmed(&v);
    let rest = match strip_prefix_of(&t, "HANDOFF") {
        Some(r) => r,
        None => match strip_prefix_of(&t, "Handoff") {
            Some(r) => r,
            None => match strip_prefix_of(&t, "handoff") {
                Some(r) => r,
                None => return None,
            },
        },
    };
    let seps = [':', '-', '–', '—', ' '];
    assert(seps@ =~= seq![':', '-', '–', '—', ' ']);
    let r1 = trimmed_start_in(&rest, &seps);
    let r1 = trimmed(&r1);
    let paren = chars_of("(");
    let f = find_in(&r1, &paren);
    proof {
        lemma_find_from_bounds(r1@, paren@, 0);
    }
    let r2 = match f {
        Some(i) => {
            let h = slice_of(&r1, 0, i);
            assert(h@ =~= r1@.take(i as int));
            trimmed(&h)
        },
        None => r1,
    };
    let r3 = trimmed_end_matching(&r2, " project");
    let r3 = trimmed(&r3);
    if r3.len() == 0 {
        None
    } else {
        Some(string_of(&r3))
    }
}

/// What splits a handoff's text into tokens when looking for quoted filenames.
pub open spec fn is_token_sep(c: char) -> bool {
    is_ws(c) || c == '`' || c == '"' || c == '\'' || c == '(' || c == ')' || c == '[' || c == ']'
        || c == ','
}

pub open spec fn tokens_acc(s: Seq<char>, i: int, cur: Seq<char>, acc: Seq<Seq<char>>) -> Seq<
    Seq<char>,
>
    decreases s.len() - i,
{
    if i < 0 || i >= s.len() {
        if cur.len() > 0 {
            acc.push(cur)
        } else {
            acc
        }
    } else if is_token_sep(s[i]) {
        tokens_acc(
            s,
            i + 1,
            Seq::empty(),
            if cur.len() > 0 {
                acc.push(cur)
            } else {
                acc
            },
        )
    } else {
        tokens_acc(s, i + 1, cur.push(s[i]), acc)
    }
}

/// The non-empty pieces between separators, in order.
pub open spec fn tokens(s: Seq<char>) -> Seq<Seq<char>> {
    tokens_acc(s, 0, Seq::empty(), Seq::empty())
}

/// A token that names a build plan's markdown file.
pub open spec fn names_plan_file(tok: Seq<char>) -> bool {
    let u = uppercase(tok);
    ends_with(u, ".MD"@) && (contains(u, "BUILD_PLAN"@) || contains(u, "BUILD-PLAN"@))
}

/// Each build-plan filename once, in the order first quoted.
pub open spec fn plan_files(toks: Seq<Seq<char>>) -> Seq<Seq<char>>
    decreases toks.len(),
{
    if toks.len() == 0 {
        Seq::empty()
    } else {
        let prev = plan_files(toks.drop_last());
        let t = toks.last();
        if names_plan_file(t) && !prev.contains(trim(t)) {
            prev.push(trim(t))
        } else {
            prev
        }
    }
}

fn token_sep(c: char) -> (r: bool)
    ensures
        r == is_token_sep(c),
{
    crate::text::ws(c) || c == '`' || c == '"' || c == '\'' || c == '(' || c == ')' || c == '['
        || c == ']' || c == ','
}

fn tokens_of(s: &[char]) -> (out: Vec<Vec<char>>)
    ensures
        views(out@) == tokens(s@),
{
    let mut out: Vec<Vec<char>> = Vec::new();
    let mut cur: Vec<char> = Vec::new();
    let mut i: usize = 0;
    assert(views(out@) =~= Seq::<Seq<char>>::empty());
    while i < s.len()
        invariant
            i <= s@.len(),
            tokens_acc(s@, i as int, cur@, views(out@)) == tokens(s@),
        decreases s.len() - i,
    {
        if token_sep(s[i]) {
            if cur.len() > 0 {
                proof {
                    lemma_views_push(out@, cur);
                }
                out.push(cur);
            }
            cur = Vec::new();
        } else {
            cur.push(s[i]);
        }
        i += 1;
    }
    if cur.len() > 0 {
        proof {
            lemma_views_push(out@, cur);
        }
        out.push(cur);
    }
    out
}

fn holds_name(v: &Vec<Vec<char>>, name: &[char]) -> (found: bool)
    ensures
        found == views(v@).contains(name@),
{
    let mut i: usize = 0;
    while i < v.len()
        invariant
            i <= v@.len(),
            forall|j: int| 0 <= j < i ==> views(v@)[j] != name@,
        decreases v.len() - i,
    {
        if crate::text::eq_chars(&v[i], name) {
            assert(views(v@)[i as int] == name@);
            return true;
        }
        i += 1;
    }
    false
}

/// The build-plan files a bare handoff quotes by name, each once.
pub fn build_plan_files_named_in(md: &str) -> (r: Vec<String>)
    ensures
        r@.map_values(|x: String| x@) == plan_files(tokens(md@)),
{
    let cs = chars_of(md);
    let toks = tokens_of(&cs);
    let mut found: Vec<Vec<char>> = Vec::new();
    assert(views(found@) =~= Seq::<Seq<char>>::empty());
    let mut i: usize = 0;
    while i < toks.len()
        invariant
            i <= toks@.len(),
            views(found@) == plan_files(views(toks@).take(i as int)),
        decreases toks.len() - i,
    {
        assert(views(toks@).take(i + 1).drop_last() =~= views(toks@).take(i as int));
        assert(views(toks@)[i as int] == toks@[i as int]@);
        let t = &toks[i];
        let u = to_uppercase(t);
        let named = crate::text::ends_str(&u, ".MD") && (has_str(&u, "BUILD_PLAN") || has_str(
            &u,
            "BUILD-PLAN",
        ));
        if named {
            let name = trimmed(t);
            if !holds_name(&found, &name) {
                proof {
                    lemma_views_push(found@, name);
                }
                found.push(name);
            }
        }
        i += 1;
    }
    assert(views(toks@).take(toks@.len() as int) =~= views(toks@));
    let mut out: Vec<String> = Vec::new();
    let mut k: usize = 0;
    while k < found.len()
        invariant
            k <= found@.len(),
            out@.map_values(|x: String| x@) == views(found@).take(k as int),
        decreases found.len() - k,
    {
        let ghost before = out@;
        let name = string_of(&found[k]);
        assert(views(found@)[k as int] == found@[k as int]@);
        out.push(name);
        assert(out@.map_values(|x: String| x@) =~= before.map_values(|x: String| x@).push(name@));
        assert(views(found@).take(k + 1) =~= views(found@).take(k as int).push(views(found@)[k as int]));
        assert(out@.map_values(|x: String| x@) =~= views(found@).take(k + 1));
        k += 1;
    }
    assert(views(found@).take(found@.len() as int) =~= views(found@));
    out
}

// ---------------------------------------------------------------------------
// `branch:` and `head:` lines of a handoff
// ---------------------------------------------------------------------------

/// A line with its list, emphasis and heading markers taken off.
pub open spec fn field_text(line: Seq<char>) -> Seq<char> {
    trim(trim_start_in(trim(line), seq!['-', '*', '#']))
}

/// Scanning the first 80 lines for `label:`. The label is matched in the lowercased
/// line and the value starts that many bytes into the line as given; a line where that
/// would not land on a character boundary, or that carries no value, is passed over.
pub open spec fn field_from(ls: Seq<Seq<char>>, i: int, needle: Seq<char>) -> Option<Seq<char>>
    decreases ls.len() - i,
{
    if i < 0 || i >= ls.len() || i >= 80 {
        None
    } else {
        let t = field_text(ls[i]);
        if starts_with(lowercase(t), needle) {
            match index_at_byte(t, byte_len(needle) as int) {
                None => field_from(ls, i + 1, needle),
                Some(j) => {
                    let v = trim_in(trim(t.skip(j)), seq!['`']);
                    if v.len() > 0 {
                        Some(v)
                    } else {
                        field_from(ls, i + 1, needle)
                    }
                },
            }
        } else {
            field_from(ls, i + 1, needle)
        }
    }
}

pub open spec fn field_scan(md: Seq<char>, label: Seq<char>) -> Option<Seq<char>> {
    field_from(lines(md), 0, label + ":"@)
}

/// The value of the first `label:` line in the first 80 lines, trimmed and without
/// backticks.
pub fn field_after(md: &str, label: &str) -> (r: Option<String>)
    ensures
        crate::parse::opt_view(r) == field_scan(md@, label@),
{
    let mut needle = chars_of(label);
    push_str(&mut needle, ":");
    let cs = chars_of(md);
    let ls = lines_of(&cs);
    let ticks = ['`'];
    assert(ticks@ =~= seq!['`']);
    let marks = ['-', '*', '#'];
    assert(marks@ =~= seq!['-', '*', '#']);
    proof {
        crate::text::lemma_byte_len_le(needle@);
    }
    let nb = crate::text::prefix_bytes(&needle, needle.len());
    assert(needle@.take(needle@.len() as int) =~= needle@);
    let mut i: usize = 0;
    while i < ls.len() && i < 80
        invariant
            i <= ls@.len(),
            views(ls@) == lines(md@),
            needle@ == label@ + ":"@,
            nb == byte_len(needle@),
            ticks@ == seq!['`'],
            marks@ == seq!['-', '*', '#'],
            field_from(views(ls@), i as int, needle@) == field_scan(md@, label@),
        decreases ls.len() - i,
    {
        assert(views(ls@)[i as int] == ls@[i as int]@);
        let l1 = trimmed(&ls[i]);
        let l2 = trimmed_start_in(&l1, &marks);
        let t = trimmed(&l2);
        let lower = to_lowercase(&t);
        if crate::text::starts(&lower, &needle) {
            if let Some(j) = index_at_byte_of(&t, nb) {
                proof {
                    lemma_index_at_byte_bounds(t@, nb as int, 0);
                }
                let rest = slice_of(&t, j, t.len());
                assert(rest@ =~= t@.skip(j as int));
                let rt = trimmed(&rest);
                let v = trimmed_in(&rt, &ticks);
                if v.len() > 0 {
                    return Some(string_of(&v));
                }
            }
        }
        i += 1;
    }
    None
}

// ---------------------------------------------------------------------------
// What an import does
// ---------------------------------------------------------------------------

/// The step an import of a plan document takes, decided before anything is written.
pub enum ImportStep {
    /// Nothing to import: the reason.
    Skip(String),
    /// A dry run: what would be created.
    Plan { title: String, slug: String, slices: usize, decisions: usize, log: usize },
    /// The same bytes were imported before, as this plan, first seen there.
    Seen { plan_id: i64, first_seen: String },
    /// A plan with this slug exists and the document differs: reported, not merged.
    Conflict { plan_id: i64 },
    /// A plan with this slug exists and `--replace` was given: its content is rewritten.
    Replace { plan_id: i64 },
    /// A new plan, keyed by this slug.
    Create { slug: String },
}

pub open spec fn import_step_of(
    parsed: crate::parse::PlanV,
    slug: Seq<char>,
    opts: ImportOptions,
    seen: Option<(i64, Seq<char>)>,
    same_slug: Option<i64>,
) -> ImportStepV {
    if trim(parsed.title).len() == 0 {
        ImportStepV::Skip("no title heading"@)
    } else if opts.dry_run {
        ImportStepV::Plan(parsed.title, slug, parsed.slices.len(), parsed.decisions.len(), parsed.log.len())
    } else {
        match seen {
            Some((id, first)) => ImportStepV::Seen(id, first),
            None => match same_slug {
                Some(id) => if opts.replace {
                    ImportStepV::Replace(id)
                } else {
                    ImportStepV::Conflict(id)
                },
                None => ImportStepV::Create(slug),
            },
        }
    }
}

pub enum ImportStepV {
    Skip(Seq<char>),
    Plan(Seq<char>, Seq<char>, nat, nat, nat),
    Seen(i64, Seq<char>),
    Conflict(i64),
    Replace(i64),
    Create(Seq<char>),
}

impl ImportStep {
    pub open spec fn view(self) -> ImportStepV {
        match self {
            ImportStep::Skip(r) => ImportStepV::Skip(r@),
            ImportStep::Plan { title, slug, slices, decisions, log } => ImportStepV::Plan(
                title@,
                slug@,
                slices as nat,
                decisions as nat,
                log as nat,
            ),
            ImportStep::Seen { plan_id, first_seen } => ImportStepV::Seen(plan_id, first_seen@),
            ImportStep::Conflict { plan_id } => ImportStepV::Conflict(plan_id),
            ImportStep::Replace { plan_id } => ImportStepV::Replace(plan_id),
            ImportStep::Create { slug } => ImportStepV::Create(slug@),
        }
    }
}

/// What importing a plan document comes to. A document with no title is skipped; a
/// dry run reports what it would create and looks no further; the same bytes seen
/// before (by fingerprint) are recorded against the plan they became; a plan of the
/// same slug is reported as a conflict, or replaced when asked; otherwise a new plan
/// is created under the slug. `seen` and `same_slug` are what the store holds for the
/// document's fingerprint and slug.
pub fn import_step(
    parsed: &ParsedPlan,
    slug: &str,
    opts: ImportOptions,
    seen: Option<(i64, &str)>,
    same_slug: Option<i64>,
) -> (r: ImportStep)
    ensures
        r.view() == import_step_of(
            parsed@,
            slug@,
            opts,
            match seen {
                Some((i, f)) => Some((i, f@)),
                None => None,
            },
            same_slug,
        ),
{
    let tv = chars_of(parsed.title.as_str());
    if trimmed(&tv).len() == 0 {
        return ImportStep::Skip("no title heading".to_string());
    }
    if opts.dry_run {
        return ImportStep::Plan {
            title: parsed.title.clone(),
            slug: slug.to_string(),
            slices: parsed.slices.len(),
            decisions: parsed.decisions.len(),
            log: parsed.log.len(),
        };
    }
    match seen {
        Some((id, first)) => ImportStep::Seen { plan_id: id, first_seen: first.to_string() },
        None => match same_slug {
            Some(id) => if opts.replace {
                ImportStep::Replace { plan_id: id }
            } else {
                ImportStep::Conflict { plan_id: id }
            },
            None => ImportStep::Create { slug: slug.to_string() },
        },
    }
}

/// The same bytes import once: once a document's fingerprint is recorded against a
/// plan, importing it again (from any path, with or without `--replace`, whatever
/// plan holds its slug) creates and rewrites nothing; it is recorded against that plan,
/// and where it was first seen is named.
pub proof fn law_the_same_bytes_import_once(
    parsed: crate::parse::PlanV,
    slug: Seq<char>,
    opts: ImportOptions,
    plan_id: i64,
    first_seen: Seq<char>,
    same_slug: Option<i64>,
)
    requires
        trim(parsed.title).len() > 0,
        !opts.dry_run,
    ensures
        import_step_of(parsed, slug, opts, Some((plan_id, first_seen)), same_slug) == ImportStepV::Seen(
            plan_id,
            first_seen,
        ),
{
}

/// A handoff's title: its first `# ` heading, marker and surrounding space removed.
pub open spec fn handoff_title_of(md: Seq<char>) -> Seq<char> {
    match first_title_from(lines(md), 0) {
        Some(l) => trim(l.skip(2)),
        None => Seq::empty(),
    }
}

pub fn handoff_title(md: &str) -> (r: String)
    ensures
        r@ == handoff_title_of(md@),
{
    let v = chars_of(md);
    let ls = lines_of(&v);
    let mut i: usize = 0;
    while i < ls.len()
        invariant
            i <= ls@.len(),
            views(ls@) == lines(md@),
            first_title_from(lines(md@), i as int) == first_title_from(lines(md@), 0),
        decreases ls.len() - i,
    {
        assert(views(ls@)[i as int] == ls@[i as int]@);
        if crate::text::starts_str(&ls[i], "# ") {
            proof {
                reveal_strlit("# ");
            }
            let rest = slice_of(&ls[i], 2, ls[i].len());
            assert(rest@ =~= ls@[i as int]@.skip(2));
            let t = trimmed(&rest);
            return string_of(&t);
        }
        i += 1;
    }
    String::new()
}

/// Where to look for the plan a handoff belongs to, most reliable first: a ticket key
/// (from the title, else the file name), then the subject in its title, both as plan
/// references; then each build-plan file it quotes, as the file a plan was imported
/// from. The first that finds a plan wins.
pub enum HandoffLookup {
    Reference(String),
    ImportedFrom(String),
}

pub open spec fn lookup_view(l: HandoffLookup) -> (bool, Seq<char>) {
    match l {
        HandoffLookup::Reference(r) => (true, r@),
        HandoffLookup::ImportedFrom(f) => (false, f@),
    }
}

pub open spec fn handoff_lookups_of(title: Seq<char>, name: Seq<char>, md: Seq<char>) -> Seq<(bool, Seq<char>)> {
    (match crate::util::ticket(title) {
        Some(k) => seq![(true, k)],
        None => match crate::util::ticket(name) {
            Some(k) => seq![(true, k)],
            None => Seq::empty(),
        },
    }) + (match subject_of(title) {
        Some(s) => seq![(true, s)],
        None => Seq::empty(),
    }) + plan_files(tokens(md)).map_values(|f: Seq<char>| (false, f))
}

pub fn handoff_lookups(title: &str, name: &str, md: &str) -> (r: Vec<HandoffLookup>)
    ensures
        r@.map_values(|l: HandoffLookup| lookup_view(l)) == handoff_lookups_of(title@, name@, md@),
{
    let mut out: Vec<HandoffLookup> = Vec::new();
    let ghost want_a = match crate::util::ticket(title@) {
        Some(k) => seq![(true, k)],
        None => match crate::util::ticket(name@) {
            Some(k) => seq![(true, k)],
            None => Seq::<(bool, Seq<char>)>::empty(),
        },
    };
    let ghost want_b = match subject_of(title@) {
        Some(s) => seq![(true, s)],
        None => Seq::<(bool, Seq<char>)>::empty(),
    };
    match crate::util::ticket_key(title) {
        Some(k) => out.push(HandoffLookup::Reference(k)),
        None => match crate::util::ticket_key(name) {
            Some(k) => out.push(HandoffLookup::Reference(k)),
            None => {},
        },
    }
    assert(out@.map_values(|l: HandoffLookup| lookup_view(l)) =~= want_a);
    let ghost a = out@;
    match handoff_subject(title) {
        Some(sub) => out.push(HandoffLookup::Reference(sub)),
        None => {},
    }
    assert(out@.map_values(|l: HandoffLookup| lookup_view(l)) =~= want_a + want_b);
    let files = build_plan_files_named_in(md);
    let ghost fv = files@.map_values(|x: String| x@);
    let ghost head = out@.map_values(|l: HandoffLookup| lookup_view(l));
    let mut i: usize = 0;
    while i < files.len()
        invariant
            i <= files@.len(),
            fv == files@.map_values(|x: String| x@),
            out@.map_values(|l: HandoffLookup| lookup_view(l)) == head + fv.take(i as int).map_values(
                |f: Seq<char>| (false, f),
            ),
        decreases files.len() - i,
    {
        let ghost before = out@;
        let f = files[i].clone();
        assert(f@ == fv[i as int]);
        out.push(HandoffLookup::ImportedFrom(f));
        assert(out@ == before.push(HandoffLookup::ImportedFrom(f)));
        assert(out@.map_values(|l: HandoffLookup| lookup_view(l)) =~= before.map_values(
            |l: HandoffLookup| lookup_view(l),
        ).push((false, f@)));
        assert(fv.take(i + 1) =~= fv.take(i as int).push(fv[i as int]));
        assert(fv.take(i + 1).map_values(|f: Seq<char>| (false, f)) =~= fv.take(i as int).map_values(
            |f: Seq<char>| (false, f),
        ).push((false, fv[i as int])));
        assert(out@.map_values(|l: HandoffLookup| lookup_view(l)) =~= head + fv.take(i + 1).map_values(
            |f: Seq<char>| (false, f),
        ));
        i += 1;
    }
    assert(fv.take(fv.len() as int) =~= fv);
    out
}

/// Why a handoff was passed over: nothing identifies its plan.
pub open spec fn unattached_reason(name: Seq<char>) -> Seq<char> {
    name + ": no plan to attach it to - pass --as <plan>"@
}

pub fn unattached(name: &str) -> (r: String)
    ensures
        r@ == unattached_reason(name@),
{
    let mut out = chars_of(name);
    push_str(&mut out, ": no plan to attach it to - pass --as <plan>");
    string_of(&out)
}

/// The history line an imported handoff leaves.
pub open spec fn handoff_import_note(path: Seq<char>) -> Seq<char> {
    "imported handoff from "@ + path
}

pub fn handoff_note(path: &str) -> (r: String)
    ensures
        r@ == handoff_import_note(path@),
{
    let mut out: Vec<char> = Vec::new();
    push_str(&mut out, "imported handoff from ");
    push_str(&mut out, path);
    string_of(&out)
}

/// The positions whose flag is `want`, in order.
pub open spec fn positions(flags: Seq<bool>, want: bool) -> Seq<int>
    decreases flags.len(),
{
    if flags.len() == 0 {
        Seq::empty()
    } else if flags.last() == want {
        positions(flags.drop_last(), want).push(flags.len() - 1)
    } else {
        positions(flags.drop_last(), want)
    }
}

/// The order to import files in, given which of them (in the order they were found)
/// are handoffs: every plan first, then every handoff, each in the order found. A
/// handoff attaches to a plan that has to exist first.
pub fn import_order(handoff: &Vec<bool>) -> (r: Vec<usize>)
    ensures
        r@.map_values(|i: usize| i as int) == positions(handoff@, false) + positions(handoff@, true),
{
    let mut out: Vec<usize> = Vec::new();
    let mut pass: usize = 0;
    while pass < 2
        invariant
            pass <= 2,
            out@.map_values(|i: usize| i as int) == if pass == 0 {
                Seq::<int>::empty()
            } else if pass == 1 {
                positions(handoff@, false)
            } else {
                positions(handoff@, false) + positions(handoff@, true)
            },
        decreases 2 - pass,
    {
        let want = pass == 1;
        let ghost start = out@.map_values(|i: usize| i as int);
        let mut i: usize = 0;
        while i < handoff.len()
            invariant
                i <= handoff@.len(),
                out@.map_values(|i: usize| i as int) == start + positions(handoff@.take(i as int), want),
            decreases handoff.len() - i,
        {
            assert(handoff@.take(i + 1).drop_last() =~= handoff@.take(i as int));
            if handoff[i] == want {
                let ghost before = out@;
                out.push(i);
                assert(out@.map_values(|i: usize| i as int) =~= before.map_values(|i: usize| i as int).push(i as int));
            }
            i += 1;
        }
        assert(handoff@.take(handoff@.len() as int) =~= handoff@);
        proof {
            if pass == 0 {
                assert(start + positions(handoff@, want) =~= positions(handoff@, false));
            }
        }
        pass += 1;
    }
    out
}

} // verus!
