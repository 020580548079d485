//! What the command line prints: the status of a plan, the doctor's checklist and the
//! account of an import. Each is a function from the facts that were read to the
//! text, so the wording and the layout are checked here and the program around it
//! only reads and prints.
use vstd::prelude::*;

use crate::git::{paths_equal, GitContext};
use crate::model::{status_name, LogEntry, Question, Slice, Status};
use crate::out::{painted, status_code};
use crate::render::{date_part, done_count};
use crate::text::{
    chars_of, dec, dec_int, lines, lines_of, push_int, starts_with, push_all, push_decimal, push_str, string_of,
    strip_prefix, strip_prefix_of,
};

verus! {

// ---------------------------------------------------------------------------
// Pieces
// ---------------------------------------------------------------------------

/// Text in the colour `code` when colour is on, as it is otherwise.
pub open spec fn shade(colour: bool, code: Seq<char>, s: Seq<char>) -> Seq<char> {
    if colour {
        painted(code, s)
    } else {
        s
    }
}

/// Faint text when colour is on.
pub open spec fn faint(colour: bool, s: Seq<char>) -> Seq<char> {
    shade(colour, "2"@, s)
}

/// Bold text when colour is on.
pub open spec fn heavy(colour: bool, s: Seq<char>) -> Seq<char> {
    shade(colour, "1"@, s)
}

/// Text in the colour of a status when colour is on.
pub open spec fn tinted(colour: bool, status: Status, s: Seq<char>) -> Seq<char> {
    shade(colour, status_code(status), s)
}

fn push_shade(out: &mut Vec<char>, code: &str, s: &[char], colour: bool)
    ensures
        final(out)@ == old(out)@ + shade(colour, code@, s@),
{
    let ghost before = out@;
    if colour {
        out.push('\x1b');
        push_str(out, "[");
        push_str(out, code);
        push_str(out, "m");
        push_all(out, s);
        out.push('\x1b');
        push_str(out, "[0m");
        assert(out@ =~= before + painted(code@, s@));
    } else {
        push_all(out, s);
    }
}

fn push_faint(out: &mut Vec<char>, s: &str, colour: bool)
    ensures
        final(out)@ == old(out)@ + faint(colour, s@),
{
    let v = chars_of(s);
    push_shade(out, "2", &v, colour);
}

fn push_tinted(out: &mut Vec<char>, status: Status, s: &[char], colour: bool)
    ensures
        final(out)@ == old(out)@ + tinted(colour, status, s@),
{
    let code = match status {
        Status::Draft => "2",
        Status::Ready => "0",
        Status::Active => "36",
        Status::InReview => "35",
        Status::Blocked => "31",
        Status::Done => "32",
        Status::Deferred => "2",
    };
    push_shade(out, code, s, colour);
}

/// `format!("{:<w}", s)`: padded with spaces on the right to `w` characters.
pub open spec fn left_aligned(s: Seq<char>, w: nat) -> Seq<char> {
    if s.len() >= w {
        s
    } else {
        s + Seq::new((w - s.len()) as nat, |i: int| ' ')
    }
}

fn push_left_aligned(out: &mut Vec<char>, s: &[char], w: usize)
    ensures
        final(out)@ == old(out)@ + left_aligned(s@, w as nat),
{
    let ghost before = out@;
    push_all(out, s);
    let mut k: usize = s.len();
    while k < w
        invariant
            s@.len() <= k,
            k > w ==> k == s@.len(),
            out@ == before + s@ + Seq::new((k - s@.len()) as nat, |i: int| ' '),
        decreases w - k,
    {
        out.push(' ');
        k += 1;
        assert(out@ =~= before + s@ + Seq::new((k - s@.len()) as nat, |i: int| ' '));
    }
    assert(out@ =~= before + left_aligned(s@, w as nat));
}

/// A path with the home directory written as `~`.
pub open spec fn shortened(path: Seq<char>, home: Seq<char>) -> Seq<char> {
    match strip_prefix(path, home) {
        Some(rest) => seq!['~'] + rest,
        None => path,
    }
}

/// A path as the user reads it: under `home`, with `~` in its place. An empty `home`
/// (the variable unset) is a prefix of everything, so every path gets the `~`.
pub fn short_path(path: &str, home: &str) -> (r: String)
    ensures
        r@ == shortened(path@, home@),
{
    let v = chars_of(path);
    match strip_prefix_of(&v, home) {
        Some(rest) => {
            let mut out: Vec<char> = Vec::new();
            out.push('~');
            push_all(&mut out, &rest);
            assert(out@ =~= seq!['~'] + rest@);
            string_of(&out)
        },
        None => string_of(&v),
    }
}

/// The first line of a body, as `str::lines` gives it, or nothing.
pub open spec fn first_of(body: Seq<char>) -> Seq<char> {
    if lines(body).len() > 0 {
        lines(body)[0]
    } else {
        Seq::empty()
    }
}

fn push_first_line(out: &mut Vec<char>, body: &str)
    ensures
        final(out)@ == old(out)@ + first_of(body@),
{
    let v = chars_of(body);
    let ls = lines_of(&v);
    if ls.len() > 0 {
        assert(crate::text::views(ls@)[0] == ls@[0]@);
        push_all(out, &ls[0]);
    }
}

// ---------------------------------------------------------------------------
// status
// ---------------------------------------------------------------------------

/// The one-line form: `slug - title (status) · key status · done/total slices`.
pub open spec fn status_oneline(
    slug: Seq<char>,
    title: Seq<char>,
    status: Status,
    on: Option<Slice>,
    done: nat,
    total: nat,
) -> Seq<char> {
    slug + " - "@ + title + " ("@ + status_name(status) + ")"@ + match on {
        Some(s) => " · "@ + s.key@ + " "@ + status_name(s.status),
        None => Seq::empty(),
    } + " · "@ + dec(done) + "/"@ + dec(total) + " slices\n"@
}

pub open spec fn worktree_line(git: Option<GitContext>, home: Seq<char>, colour: bool) -> Seq<char> {
    match git {
        Some(g) => "  "@ + faint(colour, "worktree"@) + "  "@ + shortened(g.worktree@, home) + "  "@
            + faint(
            colour,
            "("@ + match g.branch {
                Some(b) => b@,
                None => "detached HEAD"@,
            } + match g.head_sha {
                Some(s) => " @ "@ + s@,
                None => Seq::empty(),
            } + ")"@,
        ) + "\n"@,
        None => Seq::empty(),
    }
}

/// The slice being worked on, and whether it is claimed from this checkout.
pub open spec fn on_line(on: Option<Slice>, worktree: Option<Seq<char>>, colour: bool) -> Seq<char> {
    match on {
        Some(s) => "  "@ + faint(colour, "on"@) + "        "@ + s.key@ + "  "@ + tinted(
            colour,
            s.status,
            status_name(s.status),
        ) + "  "@ + s.title@ + if opt_chars(s.worktree_path) == worktree && s.claimed_by is Some {
            faint(colour, "  (claimed here)"@)
        } else {
            Seq::empty()
        } + "\n"@,
        None => Seq::empty(),
    }
}

pub open spec fn opt_chars(o: Option<String>) -> Option<Seq<char>> {
    match o {
        Some(s) => Some(s@),
        None => None,
    }
}

/// The next slice: its key, its status padded so the columns line up, its title.
pub open spec fn next_slice_line(n: Slice, colour: bool) -> Seq<char> {
    "  "@ + faint(colour, "next"@) + "    "@ + left_aligned(n.key@, 4) + " "@ + tinted(
        colour,
        n.status,
        left_aligned(status_name(n.status), 9),
    ) + "  "@ + n.title@ + "\n"@
}

/// What comes next, unless it is the slice already being worked on; or that every
/// slice is done.
pub open spec fn next_line(next: Option<Slice>, on: Option<Slice>, done: nat, total: nat, colour: bool) -> Seq<char> {
    match next {
        Some(n) => if (match on {
            Some(o) => o.key@ != n.key@,
            None => true,
        }) {
            next_slice_line(n, colour)
        } else {
            Seq::empty()
        },
        None => if done == total && total > 0 {
            "  "@ + faint(colour, "next"@) + "    every slice is done\n"@
        } else {
            Seq::empty()
        },
    }
}

pub open spec fn question_line(q: Question) -> Seq<char> {
    "    - "@ + match q.slice_key {
        Some(k) => "("@ + k@ + ") "@,
        None => Seq::empty(),
    } + q.body@ + "\n"@
}

pub open spec fn question_lines(qs: Seq<Question>) -> Seq<char>
    decreases qs.len(),
{
    if qs.len() == 0 {
        Seq::empty()
    } else {
        question_lines(qs.drop_last()) + question_line(qs.last())
    }
}

/// Open questions: how many, and the first five.
pub open spec fn questions_block(qs: Seq<Question>, colour: bool) -> Seq<char> {
    if qs.len() == 0 {
        Seq::empty()
    } else {
        "\n  "@ + faint(colour, "open questions"@) + " ("@ + dec(qs.len()) + ")\n"@ + question_lines(
            qs.take(if qs.len() < 5 {
                qs.len() as int
            } else {
                5
            }),
        )
    }
}

pub open spec fn log_line(e: LogEntry, colour: bool) -> Seq<char> {
    "    "@ + faint(colour, date_part(e.at@)) + " "@ + first_of(e.body@) + "\n"@
}

pub open spec fn log_lines(es: Seq<LogEntry>, colour: bool) -> Seq<char>
    decreases es.len(),
{
    if es.len() == 0 {
        Seq::empty()
    } else {
        log_lines(es.drop_last(), colour) + log_line(es.last(), colour)
    }
}

/// The recent log: the date of each entry and the first line of its body.
pub open spec fn log_block(es: Seq<LogEntry>, colour: bool) -> Seq<char> {
    if es.len() == 0 {
        Seq::empty()
    } else {
        "\n  "@ + faint(colour, "recent"@) + "\n"@ + log_lines(es, colour)
    }
}

/// The full status page of a plan.
pub open spec fn status_page(v: StatusView, home: Seq<char>, colour: bool) -> Seq<char> {
    let done = done_count(v.slices@);
    let total = v.slices@.len();
    heavy(colour, v.slug@) + " "@ + tinted(colour, v.status, status_name(v.status)) + "  "@ + v.title@
        + "\n"@ + faint(colour, "  "@ + v.why@) + "\n"@ + "\n"@ + worktree_line(v.git, home, colour)
        + "  "@ + faint(colour, "progress"@) + "  "@ + dec(done) + "/"@ + dec(total)
        + " slices done\n"@ + "\n"@ + on_line(
        v.on,
        match v.git {
            Some(g) => Some(g.worktree@),
            None => None,
        },
        colour,
    ) + next_line(v.next, v.on, done, total, colour) + questions_block(v.questions@, colour)
        + log_block(v.log@, colour)
}

/// What the status page is drawn from: the plan, why it was picked, the checkout, its
/// slices, the one being worked on, the next one, its open questions and its recent
/// log.
pub struct StatusView {
    pub slug: String,
    pub title: String,
    pub status: Status,
    pub why: String,
    pub git: Option<GitContext>,
    pub slices: Vec<Slice>,
    pub on: Option<Slice>,
    pub next: Option<Slice>,
    pub questions: Vec<Question>,
    pub log: Vec<LogEntry>,
}

fn count_done(ss: &Vec<Slice>) -> (r: usize)
    ensures
        r == done_count(ss@),
        r <= ss@.len(),
{
    let mut done: usize = 0;
    let mut i: usize = 0;
    while i < ss.len()
        invariant
            i <= ss@.len(),
            done == done_count(ss@.take(i as int)),
            done <= i,
        decreases ss.len() - i,
    {
        assert(ss@.take(i + 1).drop_last() =~= ss@.take(i as int));
        if ss[i].status == Status::Done {
            done += 1;
        }
        i += 1;
    }
    assert(ss@.take(ss@.len() as int) =~= ss@);
    done
}

/// `aip status --oneline`.
pub fn oneline(v: &StatusView) -> (r: String)
    ensures
        r@ == status_oneline(v.slug@, v.title@, v.status, v.on, done_count(v.slices@), v.slices@.len()),
{
    let done = count_done(&v.slices);
    let mut out: Vec<char> = Vec::new();
    push_str(&mut out, v.slug.as_str());
    push_str(&mut out, " - ");
    push_str(&mut out, v.title.as_str());
    push_str(&mut out, " (");
    push_str(&mut out, v.status.as_str());
    push_str(&mut out, ")");
    match &v.on {
        Some(s) => {
            push_str(&mut out, " · ");
            push_str(&mut out, s.key.as_str());
            push_str(&mut out, " ");
            push_str(&mut out, s.status.as_str());
        },
        None => {},
    }
    push_str(&mut out, " · ");
    push_decimal(&mut out, done as u128);
    push_str(&mut out, "/");
    push_decimal(&mut out, v.slices.len() as u128);
    push_str(&mut out, " slices\n");
    let ghost want = status_oneline(v.slug@, v.title@, v.status, v.on, done_count(v.slices@), v.slices@.len());
    assert(out@ =~= want);
    string_of(&out)
}

fn push_worktree_line(out: &mut Vec<char>, git: &Option<GitContext>, home: &str, colour: bool)
    ensures
        final(out)@ == old(out)@ + worktree_line(*git, home@, colour),
{
    let ghost before = out@;
    match git {
        Some(g) => {
            push_str(out, "  ");
            push_faint(out, "worktree", colour);
            push_str(out, "  ");
            let sp = short_path(g.worktree.as_str(), home);
            push_str(out, sp.as_str());
            push_str(out, "  ");
            let mut inner: Vec<char> = Vec::new();
            push_str(&mut inner, "(");
            match &g.branch {
                Some(b) => push_str(&mut inner, b.as_str()),
                None => push_str(&mut inner, "detached HEAD"),
            }
            match &g.head_sha {
                Some(s) => {
                    push_str(&mut inner, " @ ");
                    push_str(&mut inner, s.as_str());
                },
                None => {},
            }
            push_str(&mut inner, ")");
            push_shade(out, "2", &inner, colour);
            push_str(out, "\n");
            assert(out@ =~= before + worktree_line(*git, home@, colour));
        },
        None => {
            assert(out@ =~= before + worktree_line(*git, home@, colour));
        },
    }
}

fn same_opt(a: &Option<String>, b: &Option<String>) -> (r: bool)
    ensures
        r == (opt_chars(*a) == opt_chars(*b)),
{
    match (a, b) {
        (Some(x), Some(y)) => {
            let xv = chars_of(x.as_str());
            let yv = chars_of(y.as_str());
            crate::text::eq_chars(&xv, &yv)
        },
        (None, None) => true,
        _ => false,
    }
}

fn push_on_line(out: &mut Vec<char>, on: &Option<Slice>, worktree: &Option<String>, colour: bool)
    ensures
        final(out)@ == old(out)@ + on_line(*on, opt_chars(*worktree), colour),
{
    let ghost before = out@;
    match on {
        Some(s) => {
            push_str(out, "  ");
            push_faint(out, "on", colour);
            push_str(out, "        ");
            push_str(out, s.key.as_str());
            push_str(out, "  ");
            let name = chars_of(s.status.as_str());
            push_tinted(out, s.status, &name, colour);
            push_str(out, "  ");
            push_str(out, s.title.as_str());
            if same_opt(&s.worktree_path, worktree) && s.claimed_by.is_some() {
                push_faint(out, "  (claimed here)", colour);
            }
            push_str(out, "\n");
            assert(out@ =~= before + on_line(*on, opt_chars(*worktree), colour));
        },
        None => {
            assert(out@ =~= before + on_line(*on, opt_chars(*worktree), colour));
        },
    }
}

fn push_next_slice(out: &mut Vec<char>, n: &Slice, colour: bool)
    ensures
        final(out)@ == old(out)@ + next_slice_line(*n, colour),
{
    let ghost before = out@;
    push_str(out, "  ");
    push_faint(out, "next", colour);
    push_str(out, "    ");
    let kv = chars_of(n.key.as_str());
    push_left_aligned(out, &kv, 4);
    push_str(out, " ");
    let name = chars_of(n.status.as_str());
    let mut padded: Vec<char> = Vec::new();
    push_left_aligned(&mut padded, &name, 9);
    assert(padded@ =~= left_aligned(status_name(n.status), 9));
    push_tinted(out, n.status, &padded, colour);
    push_str(out, "  ");
    push_str(out, n.title.as_str());
    push_str(out, "\n");
    assert(out@ =~= before + next_slice_line(*n, colour));
}

fn push_next_line(out: &mut Vec<char>, next: &Option<Slice>, on: &Option<Slice>, done: usize, total: usize, colour: bool)
    ensures
        final(out)@ == old(out)@ + next_line(*next, *on, done as nat, total as nat, colour),
{
    let ghost before = out@;
    match next {
        Some(n) => {
            let differs = match on {
                Some(o) => {
                    let ov = chars_of(o.key.as_str());
                    let nv = chars_of(n.key.as_str());
                    !crate::text::eq_chars(&ov, &nv)
                },
                None => true,
            };
            if differs {
                push_next_slice(out, n, colour);
            }
            assert(out@ =~= before + next_line(*next, *on, done as nat, total as nat, colour));
        },
        None => {
            if done == total && total > 0 {
                push_str(out, "  ");
                push_faint(out, "next", colour);
                push_str(out, "    every slice is done\n");
            }
            assert(out@ =~= before + next_line(*next, *on, done as nat, total as nat, colour));
        },
    }
}

fn push_questions(out: &mut Vec<char>, qs: &Vec<Question>, colour: bool)
    ensures
        final(out)@ == old(out)@ + questions_block(qs@, colour),
{
    let ghost before = out@;
    if qs.len() == 0 {
        assert(out@ =~= before + questions_block(qs@, colour));
        return;
    }
    push_str(out, "\n  ");
    push_faint(out, "open questions", colour);
    push_str(out, " (");
    push_decimal(out, qs.len() as u128);
    push_str(out, ")\n");
    let ghost head = out@;
    let n: usize = if qs.len() < 5 {
        qs.len()
    } else {
        5
    };
    let mut i: usize = 0;
    while i < n
        invariant
            i <= n,
            n <= qs@.len(),
            out@ == head + question_lines(qs@.take(i as int)),
        decreases n - i,
    {
        assert(qs@.take(i + 1).drop_last() =~= qs@.take(i as int));
        let q = &qs[i];
        let ghost mid = out@;
        push_str(out, "    - ");
        match &q.slice_key {
            Some(k) => {
                push_str(out, "(");
                push_str(out, k.as_str());
                push_str(out, ") ");
            },
            None => {},
        }
        push_str(out, q.body.as_str());
        push_str(out, "\n");
        assert(out@ =~= mid + question_line(qs@[i as int]));
        i += 1;
    }
    assert(out@ =~= before + questions_block(qs@, colour));
}

fn push_log(out: &mut Vec<char>, es: &Vec<LogEntry>, colour: bool)
    ensures
        final(out)@ == old(out)@ + log_block(es@, colour),
{
    let ghost before = out@;
    if es.len() == 0 {
        assert(out@ =~= before + log_block(es@, colour));
        return;
    }
    push_str(out, "\n  ");
    push_faint(out, "recent", colour);
    push_str(out, "\n");
    let ghost head = out@;
    let mut i: usize = 0;
    while i < es.len()
        invariant
            i <= es@.len(),
            out@ == head + log_lines(es@.take(i as int), colour),
        decreases es.len() - i,
    {
        assert(es@.take(i + 1).drop_last() =~= es@.take(i as int));
        let e = &es[i];
        let ghost mid = out@;
        push_str(out, "    ");
        let date = crate::render::date_of(e.at.as_str());
        push_shade(out, "2", &date, colour);
        push_str(out, " ");
        push_first_line(out, e.body.as_str());
        push_str(out, "\n");
        assert(out@ =~= mid + log_line(es@[i as int], colour));
        i += 1;
    }
    assert(es@.take(es@.len() as int) =~= es@);
    assert(out@ =~= before + log_block(es@, colour));
}

/// `aip status`: the plan, why it was picked, where this checkout is, progress, the
/// slice being worked on, what comes next, open questions and the recent log.
pub fn status_text(v: &StatusView, home: &str, colour: bool) -> (r: String)
    ensures
        r@ == status_page(*v, home@, colour),
{
    let done = count_done(&v.slices);
    let total = v.slices.len();
    let mut out: Vec<char> = Vec::new();
    let sv = chars_of(v.slug.as_str());
    push_shade(&mut out, "1", &sv, colour);
    push_str(&mut out, " ");
    let name = chars_of(v.status.as_str());
    push_tinted(&mut out, v.status, &name, colour);
    push_str(&mut out, "  ");
    push_str(&mut out, v.title.as_str());
    push_str(&mut out, "\n");
    let mut why: Vec<char> = Vec::new();
    push_str(&mut why, "  ");
    push_str(&mut why, v.why.as_str());
    push_shade(&mut out, "2", &why, colour);
    push_str(&mut out, "\n");
    push_str(&mut out, "\n");
    push_worktree_line(&mut out, &v.git, home, colour);
    push_str(&mut out, "  ");
    push_faint(&mut out, "progress", colour);
    push_str(&mut out, "  ");
    push_decimal(&mut out, done as u128);
    push_str(&mut out, "/");
    push_decimal(&mut out, total as u128);
    push_str(&mut out, " slices done\n");
    push_str(&mut out, "\n");
    let worktree: Option<String> = match &v.git {
        Some(g) => Some(g.worktree_str()),
        None => None,
    };
    push_on_line(&mut out, &v.on, &worktree, colour);
    push_next_line(&mut out, &v.next, &v.on, done, total, colour);
    push_questions(&mut out, &v.questions, colour);
    push_log(&mut out, &v.log, colour);
    assert(opt_chars(worktree) == match v.git {
        Some(g) => Some(g.worktree@),
        None => None::<Seq<char>>,
    });
    assert(out@ =~= status_page(*v, home@, colour));
    string_of(&out)
}

// ---------------------------------------------------------------------------
// current, and the plans to pick from
// ---------------------------------------------------------------------------

/// `aip current`: the plan, the slice when there is one, and why, when asked.
pub open spec fn current_page(slug: Seq<char>, slice: Option<Seq<char>>, why: Option<Seq<char>>, colour: bool) -> Seq<char> {
    heavy(colour, slug) + match slice {
        Some(k) => " · "@ + k,
        None => Seq::empty(),
    } + "\n"@ + match why {
        Some(w) => faint(colour, "  "@ + w) + "\n"@,
        None => Seq::empty(),
    }
}

pub open spec fn opt_str(o: Option<&str>) -> Option<Seq<char>> {
    match o {
        Some(s) => Some(s@),
        None => None,
    }
}

pub fn current_text(slug: &str, slice: Option<&str>, why: Option<&str>, colour: bool) -> (r: String)
    ensures
        r@ == current_page(slug@, opt_str(slice), opt_str(why), colour),
{
    let mut out: Vec<char> = Vec::new();
    let sv = chars_of(slug);
    push_shade(&mut out, "1", &sv, colour);
    match slice {
        Some(k) => {
            push_str(&mut out, " · ");
            push_str(&mut out, k);
        },
        None => {},
    }
    push_str(&mut out, "\n");
    match why {
        Some(w) => {
            let mut line: Vec<char> = Vec::new();
            push_str(&mut line, "  ");
            push_str(&mut line, w);
            push_shade(&mut out, "2", &line, colour);
            push_str(&mut out, "\n");
        },
        None => {},
    }
    assert(out@ =~= current_page(slug@, opt_str(slice), opt_str(why), colour));
    string_of(&out)
}

pub open spec fn candidate_lines(ps: Seq<crate::model::Plan>) -> Seq<char>
    decreases ps.len(),
{
    if ps.len() == 0 {
        Seq::empty()
    } else {
        candidate_lines(ps.drop_last()) + "  "@ + ps.last().slug@ + "  "@ + ps.last().title@ + "\n"@
    }
}

/// When nothing resolves: the unfinished plans to pick from, or how to start one.
pub open spec fn candidates_page(ps: Seq<crate::model::Plan>, colour: bool) -> Seq<char> {
    if ps.len() == 0 {
        faint(colour, "`aip new \"<title>\"` starts one"@) + "\n"@
    } else {
        faint(colour, "pick one with -p:"@) + "\n"@ + candidate_lines(ps)
    }
}

pub fn candidates_text(ps: &Vec<crate::model::Plan>, colour: bool) -> (r: String)
    ensures
        r@ == candidates_page(ps@, colour),
{
    let mut out: Vec<char> = Vec::new();
    if ps.len() == 0 {
        push_faint(&mut out, "`aip new \"<title>\"` starts one", colour);
        push_str(&mut out, "\n");
        return string_of(&out);
    }
    push_faint(&mut out, "pick one with -p:", colour);
    push_str(&mut out, "\n");
    let ghost head = out@;
    let mut i: usize = 0;
    while i < ps.len()
        invariant
            i <= ps@.len(),
            out@ == head + candidate_lines(ps@.take(i as int)),
        decreases ps.len() - i,
    {
        assert(ps@.take(i + 1).drop_last() =~= ps@.take(i as int));
        let ghost mid = out@;
        push_str(&mut out, "  ");
        push_str(&mut out, ps[i].slug.as_str());
        push_str(&mut out, "  ");
        push_str(&mut out, ps[i].title.as_str());
        push_str(&mut out, "\n");
        assert(out@ =~= mid + "  "@ + ps@[i as int].slug@ + "  "@ + ps@[i as int].title@ + "\n"@);
        i += 1;
    }
    assert(ps@.take(ps@.len() as int) =~= ps@);
    string_of(&out)
}

// ---------------------------------------------------------------------------
// doctor
// ---------------------------------------------------------------------------

/// One line of the doctor's report: fine, or a problem and the command that fixes it.
pub enum Check {
    Passed(String),
    Warn(String, String),
}

pub enum CheckV {
    Passed(Seq<char>),
    Warn(Seq<char>, Seq<char>),
}

impl Check {
    pub open spec fn view(self) -> CheckV {
        match self {
            Check::Passed(m) => CheckV::Passed(m@),
            Check::Warn(m, f) => CheckV::Warn(m@, f@),
        }
    }
}

pub open spec fn check_views(cs: Seq<Check>) -> Seq<CheckV> {
    cs.map_values(|c: Check| c.view())
}

/// A slice named by its plan.
pub struct SliceRef {
    pub plan: String,
    pub key: String,
}

/// A plan's slug and its slices.
pub struct PlanSlices {
    pub slug: String,
    pub slices: Vec<Slice>,
}

/// A plan or handoff file found on disk, as it is shown, and whether an import has
/// already seen it.
pub struct Leftover {
    pub shown: String,
    pub imported: bool,
}

/// What the doctor looked at.
pub struct DoctorFacts {
    pub db_path: String,
    pub pending: i64,
    pub schema_version: i64,
    pub repo_name: Option<String>,
    pub git: Option<GitContext>,
    /// Claims held by worktrees that no longer exist.
    pub stale: Vec<SliceRef>,
    pub plans: Vec<PlanSlices>,
    pub leftovers: Vec<Leftover>,
    /// Whether the rules block is in some global charter.
    pub rules_installed: bool,
    /// Skill files that are missing or differ from this build, as shown.
    pub stale_skills: Vec<String>,
    pub search_rows: i64,
}

pub open spec fn schema_checks(pending: i64, version: i64) -> Seq<CheckV> {
    if pending == 0 {
        seq![CheckV::Passed("schema v"@ + dec_int(version as int) + ", up to date"@)]
    } else {
        seq![
            CheckV::Warn(
                dec_int(pending as int) + " migration(s) pending"@,
                "run any aip command to apply them"@,
            ),
        ]
    }
}

pub open spec fn repo_checks(repo: Option<String>, git: Option<GitContext>, home: Seq<char>) -> Seq<CheckV> {
    match git {
        Some(g) => match repo {
            Some(r) => seq![CheckV::Passed("repo "@ + r@ + " registered"@)] + if !paths_equal(
                g.worktree@,
                g.main_path@,
            ) {
                seq![
                    CheckV::Passed(
                        "worktree "@ + shortened(g.worktree@, home)
                            + " shares the database with the main checkout"@,
                    ),
                ]
            } else {
                Seq::empty()
            },
            None => seq![CheckV::Warn(g.repo_key@ + " is not registered"@, "run `aip init` here"@)],
        },
        None => seq![CheckV::Warn("not inside a git repository"@, "most commands need one"@)],
    }
}

pub open spec fn stale_check(s: SliceRef) -> CheckV {
    CheckV::Warn(
        s.plan@ + " · "@ + s.key@ + " is claimed in a worktree that no longer exists"@,
        "aip -p "@ + s.plan@ + " slice release "@ + s.key@,
    )
}

pub open spec fn stale_checks(ss: Seq<SliceRef>) -> Seq<CheckV> {
    if ss.len() == 0 {
        seq![CheckV::Passed("no stale claims"@)]
    } else {
        ss.map_values(|s: SliceRef| stale_check(s))
    }
}

/// Blocked, with no reason written down (none, or only whitespace).
pub open spec fn blocked_silently(s: Slice) -> bool {
    s.status == Status::Blocked && match s.blocked_reason {
        Some(r) => crate::text::trim(r@).len() == 0,
        None => true,
    }
}

pub open spec fn blocked_check(slug: Seq<char>, key: Seq<char>) -> CheckV {
    CheckV::Warn(
        slug + " · "@ + key + " is blocked with no reason recorded"@,
        "aip -p "@ + slug + " slice set "@ + key + " blocked --reason \"...\""@,
    )
}

pub open spec fn blocked_in(slug: Seq<char>, ss: Seq<Slice>) -> Seq<CheckV>
    decreases ss.len(),
{
    if ss.len() == 0 {
        Seq::empty()
    } else {
        blocked_in(slug, ss.drop_last()) + if blocked_silently(ss.last()) {
            seq![blocked_check(slug, ss.last().key@)]
        } else {
            Seq::empty()
        }
    }
}

pub open spec fn blocked_checks(ps: Seq<PlanSlices>) -> Seq<CheckV>
    decreases ps.len(),
{
    if ps.len() == 0 {
        Seq::empty()
    } else {
        blocked_checks(ps.drop_last()) + blocked_in(ps.last().slug@, ps.last().slices@)
    }
}

/// The shown paths of the leftovers an import has (or has not) seen, in order.
pub open spec fn shown_where(ls: Seq<Leftover>, imported: bool) -> Seq<Seq<char>>
    decreases ls.len(),
{
    if ls.len() == 0 {
        Seq::empty()
    } else {
        shown_where(ls.drop_last(), imported) + if ls.last().imported == imported {
            seq![ls.last().shown@]
        } else {
            Seq::empty()
        }
    }
}

pub open spec fn leftover_checks(ls: Seq<Leftover>) -> Seq<CheckV> {
    let unknown = shown_where(ls, false);
    let imported = shown_where(ls, true);
    (if ls.len() == 0 {
        seq![CheckV::Passed("no plan or handoff markdown left on disk"@)]
    } else {
        Seq::empty()
    }) + (if unknown.len() > 0 {
        seq![
            CheckV::Warn(
                dec(unknown.len()) + " plan/handoff file(s) are not in the database"@,
                "aip import "@ + crate::text::join(unknown, " "@),
            ),
        ]
    } else {
        Seq::empty()
    }) + if imported.len() > 0 {
        seq![
            CheckV::Warn(
                dec(imported.len()) + " plan/handoff file(s) are imported and can be deleted"@,
                "rm "@ + crate::text::join(imported, " "@),
            ),
        ]
    } else {
        Seq::empty()
    }
}

pub open spec fn install_checks(rules_installed: bool, stale_skills: Seq<Seq<char>>, rows: i64) -> Seq<CheckV> {
    (if rules_installed {
        seq![CheckV::Passed("the always-on rules are in the global charter"@)]
    } else {
        seq![CheckV::Warn("the always-on rules are not in any global charter"@, "aip rules install"@)]
    }) + (if stale_skills.len() == 0 {
        seq![CheckV::Passed("the installed skill matches this binary"@)]
    } else {
        seq![
            CheckV::Warn(
                "the skill is missing or out of date in "@ + crate::text::join(stale_skills, ", "@),
                "aip setup"@,
            ),
        ]
    }) + if rows == 0 {
        seq![CheckV::Warn("search index is empty"@, "aip find --reindex <query>"@)]
    } else {
        seq![CheckV::Passed("search index holds "@ + dec_int(rows as int) + " rows"@)]
    }
}

/// Everything the doctor reports, in order: the database, its schema, the repo and
/// worktree, stale claims, silent blocks, leftover files, and the parts of the install
/// that live outside the binary.
pub open spec fn doctor_report(f: DoctorFacts, home: Seq<char>) -> Seq<CheckV> {
    seq![CheckV::Passed("database "@ + f.db_path@)] + schema_checks(f.pending, f.schema_version)
        + repo_checks(f.repo_name, f.git, home) + stale_checks(f.stale@) + blocked_checks(f.plans@)
        + leftover_checks(f.leftovers@) + install_checks(
        f.rules_installed,
        crate::update::strs(f.stale_skills@),
        f.search_rows,
    )
}

fn push_check(out: &mut Vec<Check>, c: Check)
    ensures
        check_views(final(out)@) == check_views(old(out)@).push(c.view()),
{
    out.push(c);
    assert(check_views(out@) =~= check_views(old(out)@).push(c.view()));
}

fn push_schema(out: &mut Vec<Check>, pending: i64, version: i64)
    ensures
        check_views(final(out)@) == check_views(old(out)@) + schema_checks(pending, version),
{
    let ghost before = check_views(out@);
    if pending == 0 {
        let mut m: Vec<char> = Vec::new();
        push_str(&mut m, "schema v");
        push_int(&mut m, version);
        push_str(&mut m, ", up to date");
        push_check(out, Check::Passed(string_of(&m)));
    } else {
        let mut m: Vec<char> = Vec::new();
        push_int(&mut m, pending);
        push_str(&mut m, " migration(s) pending");
        push_check(out, Check::Warn(string_of(&m), "run any aip command to apply them".to_string()));
    }
    assert(check_views(out@) =~= before + schema_checks(pending, version));
}

fn push_repo(out: &mut Vec<Check>, repo: &Option<String>, git: &Option<GitContext>, home: &str)
    ensures
        check_views(final(out)@) == check_views(old(out)@) + repo_checks(*repo, *git, home@),
{
    let ghost before = check_views(out@);
    match git {
        Some(g) => match repo {
            Some(r) => {
                let mut m: Vec<char> = Vec::new();
                push_str(&mut m, "repo ");
                push_str(&mut m, r.as_str());
                push_str(&mut m, " registered");
                push_check(out, Check::Passed(string_of(&m)));
                if g.is_linked_worktree() {
                    let mut w: Vec<char> = Vec::new();
                    push_str(&mut w, "worktree ");
                    let sp = short_path(g.worktree.as_str(), home);
                    push_str(&mut w, sp.as_str());
                    push_str(&mut w, " shares the database with the main checkout");
                    push_check(out, Check::Passed(string_of(&w)));
                }
            },
            None => {
                let mut m: Vec<char> = Vec::new();
                push_str(&mut m, g.repo_key.as_str());
                push_str(&mut m, " is not registered");
                push_check(out, Check::Warn(string_of(&m), "run `aip init` here".to_string()));
            },
        },
        None => {
            push_check(
                out,
                Check::Warn("not inside a git repository".to_string(), "most commands need one".to_string()),
            );
        },
    }
    assert(check_views(out@) =~= before + repo_checks(*repo, *git, home@));
}

fn push_stale(out: &mut Vec<Check>, ss: &Vec<SliceRef>)
    ensures
        check_views(final(out)@) == check_views(old(out)@) + stale_checks(ss@),
{
    let ghost before = check_views(out@);
    if ss.len() == 0 {
        push_check(out, Check::Passed("no stale claims".to_string()));
        assert(check_views(out@) =~= before + stale_checks(ss@));
        return;
    }
    let mut i: usize = 0;
    while i < ss.len()
        invariant
            i <= ss@.len(),
            check_views(out@) == before + ss@.take(i as int).map_values(|s: SliceRef| stale_check(s)),
        decreases ss.len() - i,
    {
        let s = &ss[i];
        let mut m: Vec<char> = Vec::new();
        push_str(&mut m, s.plan.as_str());
        push_str(&mut m, " · ");
        push_str(&mut m, s.key.as_str());
        push_str(&mut m, " is claimed in a worktree that no longer exists");
        let mut f: Vec<char> = Vec::new();
        push_str(&mut f, "aip -p ");
        push_str(&mut f, s.plan.as_str());
        push_str(&mut f, " slice release ");
        push_str(&mut f, s.key.as_str());
        let ghost mid = check_views(out@);
        push_check(out, Check::Warn(string_of(&m), string_of(&f)));
        assert(ss@.take(i + 1).map_values(|s: SliceRef| stale_check(s)) =~= ss@.take(i as int).map_values(
            |s: SliceRef| stale_check(s),
        ).push(stale_check(ss@[i as int])));
        i += 1;
    }
    assert(ss@.take(ss@.len() as int) =~= ss@);
    assert(check_views(out@) =~= before + stale_checks(ss@));
}

fn silently_blocked(s: &Slice) -> (r: bool)
    ensures
        r == blocked_silently(*s),
{
    if s.status != Status::Blocked {
        return false;
    }
    match &s.blocked_reason {
        Some(r) => {
            let v = chars_of(r.as_str());
            crate::text::trimmed(&v).len() == 0
        },
        None => true,
    }
}

fn push_blocked_in(out: &mut Vec<Check>, slug: &String, ss: &Vec<Slice>)
    ensures
        check_views(final(out)@) == check_views(old(out)@) + blocked_in(slug@, ss@),
{
    let ghost before = check_views(out@);
    let mut i: usize = 0;
    while i < ss.len()
        invariant
            i <= ss@.len(),
            check_views(out@) == before + blocked_in(slug@, ss@.take(i as int)),
        decreases ss.len() - i,
    {
        assert(ss@.take(i + 1).drop_last() =~= ss@.take(i as int));
        let s = &ss[i];
        if silently_blocked(s) {
            let mut m: Vec<char> = Vec::new();
            push_str(&mut m, slug.as_str());
            push_str(&mut m, " · ");
            push_str(&mut m, s.key.as_str());
            push_str(&mut m, " is blocked with no reason recorded");
            let mut f: Vec<char> = Vec::new();
            push_str(&mut f, "aip -p ");
            push_str(&mut f, slug.as_str());
            push_str(&mut f, " slice set ");
            push_str(&mut f, s.key.as_str());
            push_str(&mut f, " blocked --reason \"...\"");
            push_check(out, Check::Warn(string_of(&m), string_of(&f)));
        }
        assert(check_views(out@) =~= before + blocked_in(slug@, ss@.take(i + 1)));
        i += 1;
    }
    assert(ss@.take(ss@.len() as int) =~= ss@);
}

fn push_blocked(out: &mut Vec<Check>, ps: &Vec<PlanSlices>)
    ensures
        check_views(final(out)@) == check_views(old(out)@) + blocked_checks(ps@),
{
    let ghost before = check_views(out@);
    let mut i: usize = 0;
    while i < ps.len()
        invariant
            i <= ps@.len(),
            check_views(out@) == before + blocked_checks(ps@.take(i as int)),
        decreases ps.len() - i,
    {
        assert(ps@.take(i + 1).drop_last() =~= ps@.take(i as int));
        push_blocked_in(out, &ps[i].slug, &ps[i].slices);
        assert(check_views(out@) =~= before + blocked_checks(ps@.take(i + 1)));
        i += 1;
    }
    assert(ps@.take(ps@.len() as int) =~= ps@);
}

fn shown_of(ls: &Vec<Leftover>, imported: bool) -> (r: Vec<Vec<char>>)
    ensures
        crate::text::views(r@) == shown_where(ls@, imported),
{
    let mut out: Vec<Vec<char>> = Vec::new();
    let mut i: usize = 0;
    while i < ls.len()
        invariant
            i <= ls@.len(),
            crate::text::views(out@) == shown_where(ls@.take(i as int), imported),
        decreases ls.len() - i,
    {
        assert(ls@.take(i + 1).drop_last() =~= ls@.take(i as int));
        if ls[i].imported == imported {
            let c = chars_of(ls[i].shown.as_str());
            proof {
                crate::text::lemma_views_push(out@, c);
            }
            out.push(c);
        }
        assert(crate::text::views(out@) =~= shown_where(ls@.take(i + 1), imported));
        i += 1;
    }
    assert(ls@.take(ls@.len() as int) =~= ls@);
    out
}

fn push_leftovers(out: &mut Vec<Check>, ls: &Vec<Leftover>)
    ensures
        check_views(final(out)@) == check_views(old(out)@) + leftover_checks(ls@),
{
    let ghost before = check_views(out@);
    let unknown = shown_of(ls, false);
    let imported = shown_of(ls, true);
    if ls.len() == 0 {
        push_check(out, Check::Passed("no plan or handoff markdown left on disk".to_string()));
    }
    if unknown.len() > 0 {
        let mut m: Vec<char> = Vec::new();
        push_decimal(&mut m, unknown.len() as u128);
        push_str(&mut m, " plan/handoff file(s) are not in the database");
        let mut f: Vec<char> = Vec::new();
        push_str(&mut f, "aip import ");
        let j = crate::text::joined_str(&unknown, " ");
        push_all(&mut f, &j);
        push_check(out, Check::Warn(string_of(&m), string_of(&f)));
    }
    if imported.len() > 0 {
        let mut m: Vec<char> = Vec::new();
        push_decimal(&mut m, imported.len() as u128);
        push_str(&mut m, " plan/handoff file(s) are imported and can be deleted");
        let mut f: Vec<char> = Vec::new();
        push_str(&mut f, "rm ");
        let j = crate::text::joined_str(&imported, " ");
        push_all(&mut f, &j);
        push_check(out, Check::Warn(string_of(&m), string_of(&f)));
    }
    assert(check_views(out@) =~= before + leftover_checks(ls@));
}

fn push_install(out: &mut Vec<Check>, rules_installed: bool, stale_skills: &Vec<String>, rows: i64)
    ensures
        check_views(final(out)@) == check_views(old(out)@) + install_checks(
            rules_installed,
            crate::update::strs(stale_skills@),
            rows,
        ),
{
    let ghost before = check_views(out@);
    if rules_installed {
        push_check(out, Check::Passed("the always-on rules are in the global charter".to_string()));
    } else {
        push_check(
            out,
            Check::Warn(
                "the always-on rules are not in any global charter".to_string(),
                "aip rules install".to_string(),
            ),
        );
    }
    if stale_skills.len() == 0 {
        push_check(out, Check::Passed("the installed skill matches this binary".to_string()));
    } else {
        let parts = crate::update::copy_strings(stale_skills);
        let mut m: Vec<char> = Vec::new();
        push_str(&mut m, "the skill is missing or out of date in ");
        let j = crate::text::joined_str(&parts, ", ");
        push_all(&mut m, &j);
        push_check(out, Check::Warn(string_of(&m), "aip setup".to_string()));
    }
    if rows == 0 {
        push_check(
            out,
            Check::Warn("search index is empty".to_string(), "aip find --reindex <query>".to_string()),
        );
    } else {
        let mut m: Vec<char> = Vec::new();
        push_str(&mut m, "search index holds ");
        push_int(&mut m, rows);
        push_str(&mut m, " rows");
        push_check(out, Check::Passed(string_of(&m)));
    }
    assert(check_views(out@) =~= before + install_checks(
        rules_installed,
        crate::update::strs(stale_skills@),
        rows,
    ));
}

/// The doctor's checklist, from what it read.
pub fn doctor_checks(f: &DoctorFacts, home: &str) -> (r: Vec<Check>)
    ensures
        check_views(r@) == doctor_report(*f, home@),
{
    let mut out: Vec<Check> = Vec::new();
    assert(check_views(out@) =~= Seq::<CheckV>::empty());
    let mut m: Vec<char> = Vec::new();
    push_str(&mut m, "database ");
    push_str(&mut m, f.db_path.as_str());
    push_check(&mut out, Check::Passed(string_of(&m)));
    push_schema(&mut out, f.pending, f.schema_version);
    push_repo(&mut out, &f.repo_name, &f.git, home);
    push_stale(&mut out, &f.stale);
    push_blocked(&mut out, &f.plans);
    push_leftovers(&mut out, &f.leftovers);
    push_install(&mut out, f.rules_installed, &f.stale_skills, f.search_rows);
    assert(check_views(out@) =~= doctor_report(*f, home@));
    out
}

/// The mark in front of a check that passed.
pub open spec fn tick(colour: bool) -> Seq<char> {
    if colour {
        painted("32"@, "✓"@)
    } else {
        "ok  "@
    }
}

/// The mark in front of a problem.
pub open spec fn cross(colour: bool) -> Seq<char> {
    if colour {
        painted("33"@, "!"@)
    } else {
        "!   "@
    }
}

pub open spec fn check_text(c: CheckV, colour: bool) -> Seq<char> {
    match c {
        CheckV::Passed(m) => tick(colour) + " "@ + m + "\n"@,
        CheckV::Warn(m, f) => cross(colour) + " "@ + m + "\n"@ + "  "@ + faint(colour, f) + "\n"@,
    }
}

pub open spec fn checks_text(cs: Seq<CheckV>, colour: bool) -> Seq<char>
    decreases cs.len(),
{
    if cs.len() == 0 {
        Seq::empty()
    } else {
        checks_text(cs.drop_last(), colour) + check_text(cs.last(), colour)
    }
}

pub open spec fn warn_count(cs: Seq<CheckV>) -> nat
    decreases cs.len(),
{
    if cs.len() == 0 {
        0
    } else {
        warn_count(cs.drop_last()) + if cs.last() is Warn {
            1nat
        } else {
            0nat
        }
    }
}

/// The doctor's page: each check on its line, a blank line, then how many things need
/// looking at, or that none do.
pub open spec fn doctor_page(cs: Seq<CheckV>, colour: bool) -> Seq<char> {
    checks_text(cs, colour) + "\n"@ + if warn_count(cs) == 0 {
        "all good\n"@
    } else {
        dec(warn_count(cs)) + " thing(s) to look at\n"@
    }
}

pub fn doctor_text(cs: &Vec<Check>, colour: bool) -> (r: String)
    ensures
        r@ == doctor_page(check_views(cs@), colour),
{
    let ghost cv = check_views(cs@);
    let mut out: Vec<char> = Vec::new();
    let mut warns: usize = 0;
    let mut i: usize = 0;
    while i < cs.len()
        invariant
            i <= cs@.len(),
            cv == check_views(cs@),
            out@ == checks_text(cv.take(i as int), colour),
            warns == warn_count(cv.take(i as int)),
            warns <= i,
        decreases cs.len() - i,
    {
        assert(cv.take(i + 1).drop_last() =~= cv.take(i as int));
        assert(cv[i as int] == cs@[i as int].view());
        let ghost mid = out@;
        match &cs[i] {
            Check::Passed(m) => {
                if colour {
                    out.push('\x1b');
                    push_str(&mut out, "[32m✓");
                    out.push('\x1b');
                    push_str(&mut out, "[0m");
                } else {
                    push_str(&mut out, "ok  ");
                }
                proof {
                    reveal_strlit("[32m✓");
                    reveal_strlit("32");
                    reveal_strlit("✓");
                    reveal_strlit("[");
                    reveal_strlit("m");
                }
                assert(out@ =~= mid + tick(colour));
                push_str(&mut out, " ");
                push_str(&mut out, m.as_str());
                push_str(&mut out, "\n");
            },
            Check::Warn(m, f) => {
                if colour {
                    out.push('\x1b');
                    push_str(&mut out, "[33m!");
                    out.push('\x1b');
                    push_str(&mut out, "[0m");
                } else {
                    push_str(&mut out, "!   ");
                }
                proof {
                    reveal_strlit("[33m!");
                    reveal_strlit("33");
                    reveal_strlit("!");
                    reveal_strlit("[");
                    reveal_strlit("m");
                }
                assert(out@ =~= mid + cross(colour));
                push_str(&mut out, " ");
                push_str(&mut out, m.as_str());
                push_str(&mut out, "\n");
                push_str(&mut out, "  ");
                let fv = chars_of(f.as_str());
                push_shade(&mut out, "2", &fv, colour);
                push_str(&mut out, "\n");
                warns += 1;
            },
        }
        assert(out@ =~= mid + check_text(cv[i as int], colour));
        i += 1;
    }
    assert(cv.take(cv.len() as int) =~= cv);
    push_str(&mut out, "\n");
    if warns == 0 {
        push_str(&mut out, "all good\n");
    } else {
        push_decimal(&mut out, warns as u128);
        push_str(&mut out, " thing(s) to look at\n");
    }
    assert(out@ =~= doctor_page(cv, colour));
    string_of(&out)
}

// ---------------------------------------------------------------------------
// import
// ---------------------------------------------------------------------------

/// What stands in front of a success message: the tick and a space, or `ok` and two
/// spaces without colour.
pub open spec fn ok_mark(colour: bool) -> Seq<char> {
    if colour {
        tick(colour) + " "@
    } else {
        "ok  "@
    }
}

/// A line that reports success.
pub open spec fn ok_line(colour: bool, msg: Seq<char>) -> Seq<char> {
    ok_mark(colour) + msg + "\n"@
}

/// A line naming the file with a faint tag in front of it.
pub open spec fn tagged_line(colour: bool, tag: Seq<char>, name: Seq<char>) -> Seq<char> {
    "  "@ + faint(colour, tag) + " "@ + name + "\n"@
}

/// The indented, faint line under it.
pub open spec fn detail_line(colour: bool, d: Seq<char>) -> Seq<char> {
    "       "@ + faint(colour, d) + "\n"@
}

pub open spec fn shortened_all(ps: Seq<String>, home: Seq<char>) -> Seq<Seq<char>> {
    ps.map_values(|p: String| shortened(p@, home))
}

/// What one imported file came to.
pub open spec fn import_lines(name: Seq<char>, o: crate::import::Outcome, home: Seq<char>, colour: bool) -> Seq<char> {
    match o {
        crate::import::Outcome::Created { plan, slices, decisions, log } => ok_line(
            colour,
            heavy(colour, plan.slug@) + " <- "@ + name,
        ) + detail_line(
            colour,
            dec(slices as nat) + " slices · "@ + dec(decisions as nat) + " decisions · "@ + dec(
                log as nat,
            ) + " log entries · "@ + status_name(plan.status),
        ),
        crate::import::Outcome::AlreadyImported { plan, first_seen } => tagged_line(colour, "dup "@, name)
            + detail_line(
            colour,
            "identical to "@ + shortened(first_seen@, home) + " already imported as "@ + plan.slug@,
        ),
        crate::import::Outcome::Conflict { plan, existing_sources } => tagged_line(colour, "!   "@, name)
            + detail_line(
            colour,
            plan.slug@ + " already exists, imported from "@ + crate::text::join(
                shortened_all(existing_sources@, home),
                ", "@,
            ),
        ),
        crate::import::Outcome::Replaced { plan } => ok_line(
            colour,
            heavy(colour, plan.slug@) + " replaced from "@ + name,
        ),
        crate::import::Outcome::HandoffAttached { plan, worktree } => ok_line(
            colour,
            heavy(colour, plan.slug@) + " <- "@ + name,
        ) + detail_line(colour, "handoff for "@ + shortened(worktree@, home)),
        crate::import::Outcome::Skipped { reason } => tagged_line(colour, "skip"@, name) + detail_line(
            colour,
            reason@,
        ),
        crate::import::Outcome::Planned { title, slug, slices, decisions, log } => tagged_line(
            colour,
            "would"@,
            name,
        ) + detail_line(
            colour,
            slug@ + " - "@ + title@ + " ("@ + dec(slices as nat) + " slices, "@ + dec(decisions as nat)
                + " decisions, "@ + dec(log as nat) + " log entries)"@,
        ),
    }
}

fn push_ok_mark(out: &mut Vec<char>, colour: bool)
    ensures
        final(out)@ == old(out)@ + ok_mark(colour),
{
    let ghost before = out@;
    if colour {
        out.push('\x1b');
        push_str(out, "[32m✓");
        out.push('\x1b');
        push_str(out, "[0m");
        push_str(out, " ");
    } else {
        push_str(out, "ok  ");
    }
    proof {
        reveal_strlit("[32m✓");
        reveal_strlit("32");
        reveal_strlit("✓");
        reveal_strlit("[");
        reveal_strlit("m");
    }
    assert(out@ =~= before + ok_mark(colour));
}

fn push_tagged(out: &mut Vec<char>, tag: &str, name: &str, colour: bool)
    ensures
        final(out)@ == old(out)@ + tagged_line(colour, tag@, name@),
{
    let ghost before = out@;
    push_str(out, "  ");
    push_faint(out, tag, colour);
    push_str(out, " ");
    push_str(out, name);
    push_str(out, "\n");
    assert(out@ =~= before + tagged_line(colour, tag@, name@));
}

fn push_detail(out: &mut Vec<char>, d: &[char], colour: bool)
    ensures
        final(out)@ == old(out)@ + detail_line(colour, d@),
{
    let ghost before = out@;
    push_str(out, "       ");
    push_shade(out, "2", d, colour);
    push_str(out, "\n");
    assert(out@ =~= before + detail_line(colour, d@));
}

fn push_bold_plan(out: &mut Vec<char>, slug: &str, colour: bool)
    ensures
        final(out)@ == old(out)@ + heavy(colour, slug@),
{
    let v = chars_of(slug);
    push_shade(out, "1", &v, colour);
}

fn shortened_list(ps: &Vec<String>, home: &str) -> (r: Vec<Vec<char>>)
    ensures
        crate::text::views(r@) == shortened_all(ps@, home@),
{
    let mut out: Vec<Vec<char>> = Vec::new();
    let mut i: usize = 0;
    while i < ps.len()
        invariant
            i <= ps@.len(),
            crate::text::views(out@) == shortened_all(ps@.take(i as int), home@),
        decreases ps.len() - i,
    {
        let sp = short_path(ps[i].as_str(), home);
        let c = chars_of(sp.as_str());
        proof {
            crate::text::lemma_views_push(out@, c);
        }
        out.push(c);
        assert(crate::text::views(out@) =~= shortened_all(ps@.take(i + 1), home@));
        i += 1;
    }
    assert(ps@.take(ps@.len() as int) =~= ps@);
    out
}

/// `aip import`: what became of one file.
pub fn import_report(name: &str, o: &crate::import::Outcome, home: &str, colour: bool) -> (r: String)
    ensures
        r@ == import_lines(name@, *o, home@, colour),
{
    let mut out: Vec<char> = Vec::new();
    match o {
        crate::import::Outcome::Created { plan, slices, decisions, log } => {
            push_ok_mark(&mut out, colour);
            push_bold_plan(&mut out, plan.slug.as_str(), colour);
            push_str(&mut out, " <- ");
            push_str(&mut out, name);
            push_str(&mut out, "\n");
            let mut d: Vec<char> = Vec::new();
            push_decimal(&mut d, *slices as u128);
            push_str(&mut d, " slices · ");
            push_decimal(&mut d, *decisions as u128);
            push_str(&mut d, " decisions · ");
            push_decimal(&mut d, *log as u128);
            push_str(&mut d, " log entries · ");
            push_str(&mut d, plan.status.as_str());
            push_detail(&mut out, &d, colour);
        },
        crate::import::Outcome::AlreadyImported { plan, first_seen } => {
            push_tagged(&mut out, "dup ", name, colour);
            let mut d: Vec<char> = Vec::new();
            push_str(&mut d, "identical to ");
            let sp = short_path(first_seen.as_str(), home);
            push_str(&mut d, sp.as_str());
            push_str(&mut d, " already imported as ");
            push_str(&mut d, plan.slug.as_str());
            push_detail(&mut out, &d, colour);
        },
        crate::import::Outcome::Conflict { plan, existing_sources } => {
            push_tagged(&mut out, "!   ", name, colour);
            let mut d: Vec<char> = Vec::new();
            push_str(&mut d, plan.slug.as_str());
            push_str(&mut d, " already exists, imported from ");
            let parts = shortened_list(existing_sources, home);
            let j = crate::text::joined_str(&parts, ", ");
            push_all(&mut d, &j);
            push_detail(&mut out, &d, colour);
        },
        crate::import::Outcome::Replaced { plan } => {
            push_ok_mark(&mut out, colour);
            push_bold_plan(&mut out, plan.slug.as_str(), colour);
            push_str(&mut out, " replaced from ");
            push_str(&mut out, name);
            push_str(&mut out, "\n");
        },
        crate::import::Outcome::HandoffAttached { plan, worktree } => {
            push_ok_mark(&mut out, colour);
            push_bold_plan(&mut out, plan.slug.as_str(), colour);
            push_str(&mut out, " <- ");
            push_str(&mut out, name);
            push_str(&mut out, "\n");
            let mut d: Vec<char> = Vec::new();
            push_str(&mut d, "handoff for ");
            let sp = short_path(worktree.as_str(), home);
            push_str(&mut d, sp.as_str());
            push_detail(&mut out, &d, colour);
        },
        crate::import::Outcome::Skipped { reason } => {
            push_tagged(&mut out, "skip", name, colour);
            let d = chars_of(reason.as_str());
            push_detail(&mut out, &d, colour);
        },
        crate::import::Outcome::Planned { title, slug, slices, decisions, log } => {
            push_tagged(&mut out, "would", name, colour);
            let mut d: Vec<char> = Vec::new();
            push_str(&mut d, slug.as_str());
            push_str(&mut d, " - ");
            push_str(&mut d, title.as_str());
            push_str(&mut d, " (");
            push_decimal(&mut d, *slices as u128);
            push_str(&mut d, " slices, ");
            push_decimal(&mut d, *decisions as u128);
            push_str(&mut d, " decisions, ");
            push_decimal(&mut d, *log as u128);
            push_str(&mut d, " log entries)");
            push_detail(&mut out, &d, colour);
        },
    }
    assert(out@ =~= import_lines(name@, *o, home@, colour));
    string_of(&out)
}

/// A file outside any repository, passed over.
pub open spec fn outside_repo_lines(shown: Seq<char>, colour: bool) -> Seq<char> {
    tagged_line(colour, "skip"@, shown) + detail_line(colour, "not inside a git repository"@)
}

pub fn outside_repo_report(shown: &str, colour: bool) -> (r: String)
    ensures
        r@ == outside_repo_lines(shown@, colour),
{
    let mut out: Vec<char> = Vec::new();
    push_tagged(&mut out, "skip", shown, colour);
    let d = chars_of("not inside a git repository");
    push_detail(&mut out, &d, colour);
    assert(out@ =~= outside_repo_lines(shown@, colour));
    string_of(&out)
}

/// The closing note when copies of one plan drifted apart; nothing when none did.
pub open spec fn conflicts_lines(n: nat, colour: bool) -> Seq<char> {
    if n == 0 {
        Seq::empty()
    } else {
        "\n"@ + faint(
            colour,
            dec(n)
                + " conflict(s): two copies of one plan have drifted apart. Compare them, then re-run with --replace to keep the one you passed."@,
        ) + "\n"@
    }
}

pub fn conflicts_note(n: usize, colour: bool) -> (r: String)
    ensures
        r@ == conflicts_lines(n as nat, colour),
{
    let mut out: Vec<char> = Vec::new();
    if n > 0 {
        push_str(&mut out, "\n");
        let mut d: Vec<char> = Vec::new();
        push_decimal(&mut d, n as u128);
        push_str(
            &mut d,
            " conflict(s): two copies of one plan have drifted apart. Compare them, then re-run with --replace to keep the one you passed.",
        );
        push_shade(&mut out, "2", &d, colour);
        push_str(&mut out, "\n");
    }
    assert(out@ =~= conflicts_lines(n as nat, colour));
    string_of(&out)
}

/// The documents this tool replaces, by file name: markdown whose name, in capitals,
/// holds `BUILD_PLAN` or `BUILD-PLAN` or starts with `HANDOFF`.
pub open spec fn names_a_plan_document(upper: Seq<char>) -> bool {
    crate::text::contains(upper, "BUILD_PLAN"@) || crate::text::contains(upper, "BUILD-PLAN"@)
        || starts_with(upper, "HANDOFF"@)
}

/// What `aip doctor` counts as a leftover: the name in capitals ends in `.MD` and
/// names a plan document.
pub open spec fn leftover_name(name: Seq<char>) -> bool {
    crate::text::ends_with(crate::text::uppercase(name), ".MD"@) && names_a_plan_document(
        crate::text::uppercase(name),
    )
}

pub fn is_leftover_name(name: &str) -> (r: bool)
    ensures
        r == leftover_name(name@),
{
    let v = chars_of(name);
    let up = crate::text::to_uppercase(&v);
    crate::text::ends_str(&up, ".MD") && (crate::text::has_str(&up, "BUILD_PLAN")
        || crate::text::has_str(&up, "BUILD-PLAN") || crate::text::starts_str(&up, "HANDOFF"))
}

/// What `aip import` picks up from a directory: the name in lower case ends in `.md`
/// and, in capitals, names a plan document.
pub open spec fn importable_name(name: Seq<char>) -> bool {
    crate::text::ends_with(crate::text::lowercase(name), ".md"@) && names_a_plan_document(
        crate::text::uppercase(name),
    )
}

pub fn is_importable_name(name: &str) -> (r: bool)
    ensures
        r == importable_name(name@),
{
    let v = chars_of(name);
    let low = crate::text::to_lowercase(&v);
    if !crate::text::ends_str(&low, ".md") {
        return false;
    }
    let up = crate::text::to_uppercase(&v);
    crate::text::has_str(&up, "BUILD_PLAN") || crate::text::has_str(&up, "BUILD-PLAN")
        || crate::text::starts_str(&up, "HANDOFF")
}

/// Directories a scan does not enter: hidden ones and the usual dependency and build
/// output directories.
pub open spec fn skipped_dir(name: Seq<char>) -> bool {
    starts_with(name, "."@) || name == "node_modules"@ || name == "vendor"@ || name == "target"@
        || name == "dist"@ || name == "build"@ || name == "storage"@
}

pub fn skips_dir(name: &str) -> (r: bool)
    ensures
        r == skipped_dir(name@),
{
    let v = chars_of(name);
    if crate::text::starts_str(&v, ".") {
        return true;
    }
    let w = |x: &str| -> (r: bool)
        ensures
            r == (v@ == x@),
        {
            let xv = chars_of(x);
            crate::text::eq_chars(&v, &xv)
        };
    w("node_modules") || w("vendor") || w("target") || w("dist") || w("build") || w("storage")
}

// ---------------------------------------------------------------------------
// handoff write
// ---------------------------------------------------------------------------

pub open spec fn bullet_lines(items: Seq<Seq<char>>) -> Seq<Seq<char>> {
    items.map_values(|n: Seq<char>| "- "@ + n)
}

/// What comes next in a handoff: the steps given, one bullet a line; with none given,
/// the plan's own next slice (key and title); with neither, nothing.
pub open spec fn handoff_next_text(asked: Seq<Seq<char>>, next: Option<Slice>) -> Seq<char> {
    if asked.len() == 0 {
        match next {
            Some(s) => s.key@ + " - "@ + s.title@,
            None => Seq::empty(),
        }
    } else {
        crate::text::join(bullet_lines(asked), "\n"@)
    }
}

pub fn handoff_next(asked: &Vec<String>, next: &Option<Slice>) -> (r: String)
    ensures
        r@ == handoff_next_text(crate::update::strs(asked@), *next),
{
    if asked.len() == 0 {
        let mut out: Vec<char> = Vec::new();
        match next {
            Some(s) => {
                push_str(&mut out, s.key.as_str());
                push_str(&mut out, " - ");
                push_str(&mut out, s.title.as_str());
            },
            None => {},
        }
        assert(out@ =~= handoff_next_text(crate::update::strs(asked@), *next));
        return string_of(&out);
    }
    let ghost av = crate::update::strs(asked@);
    let mut items: Vec<Vec<char>> = Vec::new();
    let mut i: usize = 0;
    while i < asked.len()
        invariant
            i <= asked@.len(),
            av == crate::update::strs(asked@),
            crate::text::views(items@) == bullet_lines(av).take(i as int),
        decreases asked.len() - i,
    {
        let mut b: Vec<char> = Vec::new();
        push_str(&mut b, "- ");
        push_str(&mut b, asked[i].as_str());
        proof {
            crate::text::lemma_views_push(items@, b);
        }
        items.push(b);
        assert(crate::text::views(items@) =~= bullet_lines(av).take(i + 1));
        i += 1;
    }
    assert(bullet_lines(av).take(asked@.len() as int) =~= bullet_lines(av));
    let j = crate::text::joined_str(&items, "\n");
    string_of(&j)
}

/// A handoff from a worktree with uncommitted changes is refused unless asked for:
/// the next session would resume from work nobody can see.
pub fn handoff_refusal(dirty: bool, allow_dirty: bool) -> (r: Option<String>)
    ensures
        r matches Some(m) <==> dirty && !allow_dirty,
        r matches Some(m) ==> m@
            == "this worktree has uncommitted changes - commit and push first, or pass --allow-dirty to record the handoff anyway"@,
{
    if dirty && !allow_dirty {
        Some(
            "this worktree has uncommitted changes - commit and push first, or pass --allow-dirty to record the handoff anyway".to_string(),
        )
    } else {
        None
    }
}

/// What `aip handoff write` says: where the handoff was written, then whether its
/// gates are a green baseline, naming the red ones, or that none were recorded.
pub open spec fn handoff_written_page(
    slug: Seq<char>,
    worktree: Seq<char>,
    gates: Seq<crate::handoff::Gate>,
    home: Seq<char>,
    colour: bool,
) -> Seq<char> {
    let red = crate::handoff::failed_names(gates);
    ok_line(colour, "handoff for "@ + heavy(colour, slug) + " in "@ + shortened(worktree, home)) + "  "@
        + if red.len() > 0 {
        faint(colour, "RED: "@ + crate::text::join(red, ", "@) + " - not a green baseline"@)
    } else if gates.len() > 0 {
        faint(colour, dec(gates.len()) + " gates green"@)
    } else {
        faint(colour, "no gates recorded - the next context has nothing to trust"@)
    } + "\n"@ + "\nResume in a fresh session with: "@ + heavy(colour, "aip resume"@) + "\n"@
}

pub fn handoff_written(
    slug: &str,
    worktree: &str,
    gates: &Vec<crate::handoff::Gate>,
    home: &str,
    colour: bool,
) -> (r: String)
    ensures
        r@ == handoff_written_page(slug@, worktree@, gates@, home@, colour),
{
    let mut out: Vec<char> = Vec::new();
    push_ok_mark(&mut out, colour);
    push_str(&mut out, "handoff for ");
    push_bold_plan(&mut out, slug, colour);
    push_str(&mut out, " in ");
    let sp = short_path(worktree, home);
    push_str(&mut out, sp.as_str());
    push_str(&mut out, "\n");
    push_str(&mut out, "  ");
    let red = crate::handoff::failed_of(gates);
    let mut d: Vec<char> = Vec::new();
    if red.len() > 0 {
        push_str(&mut d, "RED: ");
        let j = crate::text::joined_str(&red, ", ");
        push_all(&mut d, &j);
        push_str(&mut d, " - not a green baseline");
    } else if gates.len() > 0 {
        push_decimal(&mut d, gates.len() as u128);
        push_str(&mut d, " gates green");
    } else {
        push_str(&mut d, "no gates recorded - the next context has nothing to trust");
    }
    push_shade(&mut out, "2", &d, colour);
    push_str(&mut out, "\n");
    push_str(&mut out, "\nResume in a fresh session with: ");
    push_bold_plan(&mut out, "aip resume", colour);
    push_str(&mut out, "\n");
    assert(out@ =~= handoff_written_page(slug@, worktree@, gates@, home@, colour));
    string_of(&out)
}

// ---------------------------------------------------------------------------
// sync
// ---------------------------------------------------------------------------

pub open spec fn finding_lines(fs: Seq<crate::drift::Finding>, fix: bool, colour: bool) -> Seq<char>
    decreases fs.len(),
{
    if fs.len() == 0 {
        Seq::empty()
    } else {
        finding_lines(fs.drop_last(), fix, colour) + "  "@ + crate::drift::finding_text(fs.last()@)
            + "\n"@ + if fix {
            Seq::empty()
        } else {
            "    "@ + faint(colour, crate::drift::remedy_text(fs.last()@)) + "\n"@
        }
    }
}

/// What `aip sync` says before it fixes anything: that the plan matches git (and that
/// pull requests went unchecked without `gh`), or each finding with, unless fixing,
/// its remedy and how to apply them all.
pub open spec fn sync_page(slug: Seq<char>, fs: Seq<crate::drift::Finding>, used_gh: bool, fix: bool, colour: bool) -> Seq<
    char,
> {
    if fs.len() == 0 {
        ok_line(colour, slug + " matches git"@) + if !used_gh {
            faint(colour, "  gh is unavailable, so PR state was not checked - only branch history"@)
                + "\n"@
        } else {
            Seq::empty()
        }
    } else {
        heavy(colour, slug) + " "@ + faint(colour, dec(fs.len()) + " thing(s) out of sync"@) + "\n"@
            + finding_lines(fs, fix, colour) + if !fix {
            "\n"@ + faint(colour, "re-run with --fix to apply these"@) + "\n"@
        } else {
            Seq::empty()
        }
    }
}

pub fn sync_text(slug: &str, fs: &Vec<crate::drift::Finding>, used_gh: bool, fix: bool, colour: bool) -> (r: String)
    ensures
        r@ == sync_page(slug@, fs@, used_gh, fix, colour),
{
    let mut out: Vec<char> = Vec::new();
    if fs.len() == 0 {
        push_ok_mark(&mut out, colour);
        push_str(&mut out, slug);
        push_str(&mut out, " matches git");
        push_str(&mut out, "\n");
        if !used_gh {
            push_faint(&mut out, "  gh is unavailable, so PR state was not checked - only branch history", colour);
            push_str(&mut out, "\n");
        }
        assert(out@ =~= sync_page(slug@, fs@, used_gh, fix, colour));
        return string_of(&out);
    }
    push_bold_plan(&mut out, slug, colour);
    push_str(&mut out, " ");
    let mut d: Vec<char> = Vec::new();
    push_decimal(&mut d, fs.len() as u128);
    push_str(&mut d, " thing(s) out of sync");
    push_shade(&mut out, "2", &d, colour);
    push_str(&mut out, "\n");
    let ghost head = out@;
    let mut i: usize = 0;
    while i < fs.len()
        invariant
            i <= fs@.len(),
            out@ == head + finding_lines(fs@.take(i as int), fix, colour),
        decreases fs.len() - i,
    {
        assert(fs@.take(i + 1).drop_last() =~= fs@.take(i as int));
        let ghost mid = out@;
        push_str(&mut out, "  ");
        let t = fs[i].describe();
        push_str(&mut out, t.as_str());
        push_str(&mut out, "\n");
        if !fix {
            push_str(&mut out, "    ");
            let rv = chars_of(fs[i].remedy().as_str());
            push_shade(&mut out, "2", &rv, colour);
            push_str(&mut out, "\n");
        }
        assert(out@ =~= mid + "  "@ + crate::drift::finding_text(fs@[i as int]@) + "\n"@ + if fix {
            Seq::empty()
        } else {
            "    "@ + faint(colour, crate::drift::remedy_text(fs@[i as int]@)) + "\n"@
        });
        i += 1;
    }
    assert(fs@.take(fs@.len() as int) =~= fs@);
    if !fix {
        push_str(&mut out, "\n");
        push_faint(&mut out, "re-run with --fix to apply these", colour);
        push_str(&mut out, "\n");
    }
    assert(out@ =~= sync_page(slug@, fs@, used_gh, fix, colour));
    string_of(&out)
}

/// After fixing: how many were applied and, when some were not, how many.
pub open spec fn applied_page(applied: nat, skipped: nat, colour: bool) -> Seq<char> {
    "\n"@ + ok_line(colour, "applied "@ + dec(applied)) + if skipped > 0 {
        faint(colour, "  skipped "@ + dec(skipped)) + "\n"@
    } else {
        Seq::empty()
    }
}

pub fn applied_text(report: &crate::drift::FixReport, colour: bool) -> (r: String)
    ensures
        r@ == applied_page(report.applied as nat, report.skipped as nat, colour),
{
    let mut out: Vec<char> = Vec::new();
    push_str(&mut out, "\n");
    push_ok_mark(&mut out, colour);
    push_str(&mut out, "applied ");
    push_decimal(&mut out, report.applied as u128);
    push_str(&mut out, "\n");
    if report.skipped > 0 {
        let mut d: Vec<char> = Vec::new();
        push_str(&mut d, "  skipped ");
        push_decimal(&mut d, report.skipped as u128);
        push_shade(&mut out, "2", &d, colour);
        push_str(&mut out, "\n");
    }
    assert(out@ =~= applied_page(report.applied as nat, report.skipped as nat, colour));
    string_of(&out)
}

// ---------------------------------------------------------------------------
// The session-start hook
// ---------------------------------------------------------------------------

/// The one line a session-start hook hands the agent: the plan and its progress, the
/// slice being worked on, what comes next (unless it is that slice), open questions,
/// a waiting handoff, and the commands to use.
pub open spec fn hook_on_part(on: Option<Slice>) -> Seq<char> {
    match on {
        Some(o) => " On "@ + o.key@ + " ("@ + status_name(o.status) + ")."@,
        None => Seq::empty(),
    }
}

pub open spec fn hook_next_part(next: Option<Slice>, on: Option<Slice>) -> Seq<char> {
    match next {
        Some(n) => if (match on {
            Some(o) => o.key@ != n.key@,
            None => true,
        }) {
            " Next: "@ + n.key@ + " - "@ + n.title@ + "."@
        } else {
            Seq::empty()
        },
        None => Seq::empty(),
    }
}

pub open spec fn hook_tail(open_questions: nat, has_handoff: bool) -> Seq<char> {
    (if open_questions > 0 {
        " "@ + dec(open_questions) + " open question(s)."@
    } else {
        Seq::empty()
    }) + (if has_handoff {
        " A handoff exists for this worktree - run `aip resume` before starting."@
    } else {
        Seq::empty()
    }) + " Use `aip status`, `aip show`, `aip log`, `aip slice set`."@
}

pub open spec fn hook_line_text(
    slug: Seq<char>,
    title: Seq<char>,
    status: Status,
    done: nat,
    total: nat,
    on: Option<Slice>,
    next: Option<Slice>,
    open_questions: nat,
    has_handoff: bool,
) -> Seq<char> {
    "Build plan: "@ + slug + " - "@ + title + " ("@ + status_name(status) + "), "@ + dec(done) + "/"@
        + dec(total) + " slices done."@ + hook_on_part(on) + hook_next_part(next, on) + hook_tail(
        open_questions,
        has_handoff,
    )
}

fn push_hook_on(out: &mut Vec<char>, on: &Option<Slice>)
    ensures
        final(out)@ == old(out)@ + hook_on_part(*on),
{
    let ghost before = out@;
    match on {
        Some(o) => {
            push_str(out, " On ");
            push_str(out, o.key.as_str());
            push_str(out, " (");
            push_str(out, o.status.as_str());
            push_str(out, ").");
        },
        None => {},
    }
    assert(out@ =~= before + hook_on_part(*on));
}

fn push_hook_next(out: &mut Vec<char>, next: &Option<Slice>, on: &Option<Slice>)
    ensures
        final(out)@ == old(out)@ + hook_next_part(*next, *on),
{
    let ghost before = out@;
    match next {
        Some(n) => {
            let differs = match on {
                Some(o) => {
                    let ov = chars_of(o.key.as_str());
                    let nv = chars_of(n.key.as_str());
                    !crate::text::eq_chars(&ov, &nv)
                },
                None => true,
            };
            if differs {
                push_str(out, " Next: ");
                push_str(out, n.key.as_str());
                push_str(out, " - ");
                push_str(out, n.title.as_str());
                push_str(out, ".");
            }
        },
        None => {},
    }
    assert(out@ =~= before + hook_next_part(*next, *on));
}

fn push_hook_tail(out: &mut Vec<char>, open_questions: usize, has_handoff: bool)
    ensures
        final(out)@ == old(out)@ + hook_tail(open_questions as nat, has_handoff),
{
    let ghost before = out@;
    if open_questions > 0 {
        push_str(out, " ");
        push_decimal(out, open_questions as u128);
        push_str(out, " open question(s).");
    }
    if has_handoff {
        push_str(out, " A handoff exists for this worktree - run `aip resume` before starting.");
    }
    push_str(out, " Use `aip status`, `aip show`, `aip log`, `aip slice set`.");
    assert(out@ =~= before + hook_tail(open_questions as nat, has_handoff));
}

pub fn hook_line(
    slug: &str,
    title: &str,
    status: Status,
    slices: &Vec<Slice>,
    on: &Option<Slice>,
    next: &Option<Slice>,
    open_questions: usize,
    has_handoff: bool,
) -> (r: String)
    ensures
        r@ == hook_line_text(
            slug@,
            title@,
            status,
            done_count(slices@),
            slices@.len(),
            *on,
            *next,
            open_questions as nat,
            has_handoff,
        ),
{
    let done = count_done(slices);
    let mut out: Vec<char> = Vec::new();
    push_str(&mut out, "Build plan: ");
    push_str(&mut out, slug);
    push_str(&mut out, " - ");
    push_str(&mut out, title);
    push_str(&mut out, " (");
    push_str(&mut out, status.as_str());
    push_str(&mut out, "), ");
    push_decimal(&mut out, done as u128);
    push_str(&mut out, "/");
    push_decimal(&mut out, slices.len() as u128);
    push_str(&mut out, " slices done.");
    push_hook_on(&mut out, on);
    push_hook_next(&mut out, next, on);
    push_hook_tail(&mut out, open_questions, has_handoff);
    assert(out@ =~= hook_line_text(
        slug@,
        title@,
        status,
        done_count(slices@),
        slices@.len(),
        *on,
        *next,
        open_questions as nat,
        has_handoff,
    ));
    string_of(&out)
}

/// What the hook prints: the line, as the harness's session-start context.
pub fn hook_output(line: &str) -> (r: crate::json::Json)
    ensures
        crate::json::jv(r) == crate::json::JsonV::Object(
            seq![
                (
                    "hookSpecificOutput"@,
                    crate::json::JsonV::Object(
                        seq![
                            ("hookEventName"@, crate::json::JsonV::Str("SessionStart"@)),
                            ("additionalContext"@, crate::json::JsonV::Str(line@)),
                        ],
                    ),
                ),
            ],
        ),
{
    let inner = vec![
        crate::json::Member { key: "hookEventName".to_string(), value: crate::json::Json::Str("SessionStart".to_string()) },
        crate::json::Member { key: "additionalContext".to_string(), value: crate::json::Json::Str(line.to_string()) },
    ];
    proof {
        crate::json::lemma_jv_object(inner);
        assert(crate::json::members_v(inner@) =~= seq![
            ("hookEventName"@, crate::json::JsonV::Str("SessionStart"@)),
            ("additionalContext"@, crate::json::JsonV::Str(line@)),
        ]);
    }
    let inner_obj = crate::json::Json::Object(inner);
    let outer = vec![crate::json::Member { key: "hookSpecificOutput".to_string(), value: inner_obj }];
    proof {
        crate::json::lemma_jv_object(outer);
        assert(crate::json::members_v(outer@) =~= seq![("hookSpecificOutput"@, crate::json::jv(inner_obj))]);
    }
    crate::json::Json::Object(outer)
}

// ---------------------------------------------------------------------------
// find
// ---------------------------------------------------------------------------

/// Where a hit is, for the WHERE column: the plan's title, a log note by its label,
/// or the kind and its reference.
pub open spec fn hit_where_text(kind: Seq<char>, reference: Seq<char>) -> Seq<char> {
    if kind == "plan"@ {
        "title"@
    } else if kind == "log"@ {
        "log "@ + reference
    } else {
        kind + " "@ + reference
    }
}

pub fn hit_where(kind: &str, reference: &str) -> (r: String)
    ensures
        r@ == hit_where_text(kind@, reference@),
{
    let kv = chars_of(kind);
    let w = |x: &str| -> (r: bool)
        ensures
            r == (kv@ == x@),
        {
            let xv = chars_of(x);
            crate::text::eq_chars(&kv, &xv)
        };
    if w("plan") {
        "title".to_string()
    } else if w("log") {
        let mut out: Vec<char> = Vec::new();
        push_str(&mut out, "log ");
        push_str(&mut out, reference);
        string_of(&out)
    } else {
        let mut out: Vec<char> = Vec::new();
        push_str(&mut out, kind);
        push_str(&mut out, " ");
        push_str(&mut out, reference);
        string_of(&out)
    }
}

/// Nothing matched: say so, and suggest every repo when the search was narrowed to
/// this one.
pub open spec fn no_hits_text(query: Seq<char>, all: bool, colour: bool) -> Seq<char> {
    faint(colour, "nothing matches "@ + crate::text::debug_quoted(query)) + "\n"@ + if !all {
        faint(colour, "try --all to search every repo"@) + "\n"@
    } else {
        Seq::empty()
    }
}

pub fn no_hits(query: &str, all: bool, colour: bool) -> (r: String)
    ensures
        r@ == no_hits_text(query@, all, colour),
{
    let mut out: Vec<char> = Vec::new();
    let mut d: Vec<char> = Vec::new();
    push_str(&mut d, "nothing matches ");
    let qv = chars_of(query);
    let q = crate::text::debug_str(&qv);
    push_all(&mut d, &q);
    push_shade(&mut out, "2", &d, colour);
    push_str(&mut out, "\n");
    if !all {
        push_faint(&mut out, "try --all to search every repo", colour);
        push_str(&mut out, "\n");
    }
    assert(out@ =~= no_hits_text(query@, all, colour));
    string_of(&out)
}

// ---------------------------------------------------------------------------
// Listings
// ---------------------------------------------------------------------------

/// A log entry as `aip logs` prints it: a faint header of date, author (or `-`)
/// padded to ten and kind padded to twelve, then the slice key and the body with its
/// continuation lines indented.
pub open spec fn log_entry_line(e: LogEntry, colour: bool) -> Seq<char> {
    faint(
        colour,
        date_part(e.at@) + " "@ + left_aligned(
            match e.actor {
                Some(a) => a@,
                None => "-"@,
            },
            10,
        ) + " "@ + left_aligned(crate::model::log_kind_name(e.kind), 12),
    ) + " "@ + match e.slice_key {
        Some(k) => k@ + " "@,
        None => Seq::empty(),
    } + crate::text::replace(e.body@, "\n"@, "\n  "@) + "\n"@
}

pub open spec fn log_listing(es: Seq<LogEntry>, colour: bool) -> Seq<char>
    decreases es.len(),
{
    if es.len() == 0 {
        Seq::empty()
    } else {
        log_listing(es.drop_last(), colour) + log_entry_line(es.last(), colour)
    }
}

pub open spec fn logs_page(es: Seq<LogEntry>, colour: bool) -> Seq<char> {
    if es.len() == 0 {
        faint(colour, "nothing logged yet"@) + "\n"@
    } else {
        log_listing(es, colour)
    }
}

fn push_log_entry(out: &mut Vec<char>, e: &LogEntry, colour: bool)
    ensures
        final(out)@ == old(out)@ + log_entry_line(*e, colour),
{
    let ghost before = out@;
    let mut h: Vec<char> = crate::render::date_of(e.at.as_str());
    push_str(&mut h, " ");
    let who = match &e.actor {
        Some(a) => chars_of(a.as_str()),
        None => chars_of("-"),
    };
    push_left_aligned(&mut h, &who, 10);
    push_str(&mut h, " ");
    let kind = chars_of(e.kind.as_str());
    push_left_aligned(&mut h, &kind, 12);
    push_shade(out, "2", &h, colour);
    push_str(out, " ");
    match &e.slice_key {
        Some(k) => {
            push_str(out, k.as_str());
            push_str(out, " ");
        },
        None => {},
    }
    let bv = chars_of(e.body.as_str());
    proof {
        reveal_strlit("\n");
    }
    let body = crate::text::replaced_str(&bv, "\n", "\n  ");
    push_all(out, &body);
    push_str(out, "\n");
    assert(out@ =~= before + log_entry_line(*e, colour));
}

/// `aip logs`.
pub fn logs_text(es: &Vec<LogEntry>, colour: bool) -> (r: String)
    ensures
        r@ == logs_page(es@, colour),
{
    let mut out: Vec<char> = Vec::new();
    if es.len() == 0 {
        push_faint(&mut out, "nothing logged yet", colour);
        push_str(&mut out, "\n");
        return string_of(&out);
    }
    let mut i: usize = 0;
    while i < es.len()
        invariant
            i <= es@.len(),
            out@ == log_listing(es@.take(i as int), colour),
        decreases es.len() - i,
    {
        assert(es@.take(i + 1).drop_last() =~= es@.take(i as int));
        push_log_entry(&mut out, &es[i], colour);
        i += 1;
    }
    assert(es@.take(es@.len() as int) =~= es@);
    string_of(&out)
}

/// A question as `aip question ls` prints it: ticked when answered, its id padded to
/// four, its slice, its text, and the answer on a faint line below when there is one.
pub open spec fn question_head(q: Question) -> Seq<char> {
    "["@ + (if q.status@ == "open"@ {
        " "@
    } else {
        "x"@
    }) + "] "@ + left_aligned(dec_int(q.id as int), 4) + " "@ + match q.slice_key {
        Some(k) => "("@ + k@ + ") "@,
        None => Seq::empty(),
    } + q.body@ + "\n"@
}

pub open spec fn answer_part(q: Question, colour: bool) -> Seq<char> {
    match q.answer {
        Some(a) => "       "@ + faint(colour, "answer: "@ + a@) + "\n"@,
        None => Seq::empty(),
    }
}

pub open spec fn question_entry(q: Question, colour: bool) -> Seq<char> {
    question_head(q) + answer_part(q, colour)
}

pub open spec fn question_listing(qs: Seq<Question>, colour: bool) -> Seq<char>
    decreases qs.len(),
{
    if qs.len() == 0 {
        Seq::empty()
    } else {
        question_listing(qs.drop_last(), colour) + question_entry(qs.last(), colour)
    }
}

pub open spec fn questions_page(qs: Seq<Question>, colour: bool) -> Seq<char> {
    if qs.len() == 0 {
        faint(colour, "no open questions"@) + "\n"@
    } else {
        question_listing(qs, colour)
    }
}

fn push_question(out: &mut Vec<char>, q: &Question, colour: bool)
    ensures
        final(out)@ == old(out)@ + question_entry(*q, colour),
{
    push_question_head(out, q);
    push_answer(out, q, colour);
}

fn push_answer(out: &mut Vec<char>, q: &Question, colour: bool)
    ensures
        final(out)@ == old(out)@ + answer_part(*q, colour),
{
    let ghost before = out@;
    match &q.answer {
        Some(a) => {
            push_str(out, "       ");
            let mut d: Vec<char> = Vec::new();
            push_str(&mut d, "answer: ");
            push_str(&mut d, a.as_str());
            push_shade(out, "2", &d, colour);
            push_str(out, "\n");
        },
        None => {},
    }
    assert(out@ =~= before + answer_part(*q, colour));
}

fn push_question_head(out: &mut Vec<char>, q: &Question)
    ensures
        final(out)@ == old(out)@ + question_head(*q),
{
    let ghost before = out@;
    push_str(out, "[");
    let sv = chars_of(q.status.as_str());
    let open = chars_of("open");
    if crate::text::eq_chars(&sv, &open) {
        push_str(out, " ");
    } else {
        push_str(out, "x");
    }
    push_str(out, "] ");
    let mut idv: Vec<char> = Vec::new();
    push_int(&mut idv, q.id);
    push_left_aligned(out, &idv, 4);
    push_str(out, " ");
    match &q.slice_key {
        Some(k) => {
            push_str(out, "(");
            push_str(out, k.as_str());
            push_str(out, ") ");
        },
        None => {},
    }
    push_str(out, q.body.as_str());
    push_str(out, "\n");
    assert(out@ =~= before + question_head(*q));
}

/// `aip question ls`.
pub fn questions_text(qs: &Vec<Question>, colour: bool) -> (r: String)
    ensures
        r@ == questions_page(qs@, colour),
{
    let mut out: Vec<char> = Vec::new();
    if qs.len() == 0 {
        push_faint(&mut out, "no open questions", colour);
        push_str(&mut out, "\n");
        return string_of(&out);
    }
    let mut i: usize = 0;
    while i < qs.len()
        invariant
            i <= qs@.len(),
            out@ == question_listing(qs@.take(i as int), colour),
        decreases qs.len() - i,
    {
        assert(qs@.take(i + 1).drop_last() =~= qs@.take(i as int));
        push_question(&mut out, &qs[i], colour);
        i += 1;
    }
    assert(qs@.take(qs@.len() as int) =~= qs@);
    string_of(&out)
}

/// A gotcha as `aip gotcha ls` prints it: its title as a heading, then its body
/// (trailing space removed) when it has one.
pub open spec fn gotcha_entry(g: crate::model::Gotcha) -> Seq<char> {
    "## "@ + g.title@ + "\n"@ + "\n"@ + if crate::text::trim(g.body@).len() > 0 {
        crate::text::trim_end(g.body@) + "\n"@ + "\n"@
    } else {
        Seq::empty()
    }
}

pub open spec fn gotcha_listing(gs: Seq<crate::model::Gotcha>) -> Seq<char>
    decreases gs.len(),
{
    if gs.len() == 0 {
        Seq::empty()
    } else {
        gotcha_listing(gs.drop_last()) + gotcha_entry(gs.last())
    }
}

pub open spec fn gotchas_page(gs: Seq<crate::model::Gotcha>, colour: bool) -> Seq<char> {
    if gs.len() == 0 {
        faint(colour, "no gotchas recorded"@) + "\n"@
    } else {
        gotcha_listing(gs)
    }
}

/// `aip gotcha ls`.
pub fn gotchas_text(gs: &Vec<crate::model::Gotcha>, colour: bool) -> (r: String)
    ensures
        r@ == gotchas_page(gs@, colour),
{
    let mut out: Vec<char> = Vec::new();
    if gs.len() == 0 {
        push_faint(&mut out, "no gotchas recorded", colour);
        push_str(&mut out, "\n");
        return string_of(&out);
    }
    let mut i: usize = 0;
    while i < gs.len()
        invariant
            i <= gs@.len(),
            out@ == gotcha_listing(gs@.take(i as int)),
        decreases gs.len() - i,
    {
        assert(gs@.take(i + 1).drop_last() =~= gs@.take(i as int));
        let g = &gs[i];
        let ghost mid = out@;
        push_str(&mut out, "## ");
        push_str(&mut out, g.title.as_str());
        push_str(&mut out, "\n");
        push_str(&mut out, "\n");
        let bv = chars_of(g.body.as_str());
        if crate::text::trimmed(&bv).len() > 0 {
            let t = crate::text::trimmed_end(&bv);
            push_all(&mut out, &t);
            push_str(&mut out, "\n");
            push_str(&mut out, "\n");
        }
        assert(out@ =~= mid + gotcha_entry(gs@[i as int]));
        i += 1;
    }
    assert(gs@.take(gs@.len() as int) =~= gs@);
    string_of(&out)
}

// ---------------------------------------------------------------------------
// The agent tools
// ---------------------------------------------------------------------------

/// The text a section write stores: with `append`, the new text after what is there
/// (a blank line between, outer space trimmed), or just the new text when nothing is
/// there; otherwise the new text as given.
pub open spec fn section_body_text(existing: Option<Seq<char>>, body: Seq<char>, append: bool) -> Seq<char> {
    if append {
        let cur = match existing {
            Some(e) => e,
            None => Seq::empty(),
        };
        if crate::text::trim(cur).len() == 0 {
            body
        } else {
            crate::text::trim_end(cur) + "\n\n"@ + crate::text::trim(body)
        }
    } else {
        body
    }
}

pub fn section_body(existing: Option<&str>, body: &str, append: bool) -> (r: String)
    ensures
        r@ == section_body_text(opt_str(existing), body@, append),
{
    if !append {
        return body.to_string();
    }
    let cur = match existing {
        Some(e) => chars_of(e),
        None => Vec::new(),
    };
    if crate::text::trimmed(&cur).len() == 0 {
        return body.to_string();
    }
    let mut out = crate::text::trimmed_end(&cur);
    push_str(&mut out, "\n\n");
    let bv = chars_of(body);
    let bt = crate::text::trimmed(&bv);
    push_all(&mut out, &bt);
    string_of(&out)
}

pub open spec fn slug_list(ps: Seq<crate::model::Plan>) -> Seq<Seq<char>> {
    ps.map_values(|p: crate::model::Plan| p.slug@)
}

/// Why a tool could not find its plan, and what to do: create one when there is
/// nothing to pick from, or name one of the candidates.
pub open spec fn unresolved_text(reason: Seq<char>, candidates: Seq<crate::model::Plan>) -> Seq<char> {
    reason + " - "@ + if candidates.len() == 0 {
        "call create_plan first"@
    } else {
        "pass `plan` with one of: "@ + crate::text::join(slug_list(candidates), ", "@)
    }
}

pub fn unresolved_message(reason: &str, candidates: &Vec<crate::model::Plan>) -> (r: String)
    ensures
        r@ == unresolved_text(reason@, candidates@),
{
    let mut out = chars_of(reason);
    push_str(&mut out, " - ");
    if candidates.len() == 0 {
        push_str(&mut out, "call create_plan first");
    } else {
        push_str(&mut out, "pass `plan` with one of: ");
        let mut names: Vec<Vec<char>> = Vec::new();
        let mut i: usize = 0;
        while i < candidates.len()
            invariant
                i <= candidates@.len(),
                crate::text::views(names@) == slug_list(candidates@).take(i as int),
            decreases candidates.len() - i,
        {
            let n = chars_of(candidates[i].slug.as_str());
            proof {
                crate::text::lemma_views_push(names@, n);
            }
            names.push(n);
            assert(crate::text::views(names@) =~= slug_list(candidates@).take(i + 1));
            i += 1;
        }
        assert(slug_list(candidates@).take(candidates@.len() as int) =~= slug_list(candidates@));
        let j = crate::text::joined_str(&names, ", ");
        push_all(&mut out, &j);
    }
    string_of(&out)
}

fn member(key: &str, value: crate::json::Json) -> (m: crate::json::Member)
    ensures
        m.key@ == key@,
        crate::json::jv(m.value) == crate::json::jv(value),
{
    crate::json::Member { key: key.to_string(), value }
}

fn text_value(s: &str) -> (j: crate::json::Json)
    ensures
        crate::json::jv(j) == crate::json::JsonV::Str(s@),
{
    crate::json::Json::Str(s.to_string())
}

fn count_value(n: usize) -> (j: crate::json::Json)
    ensures
        crate::json::jv(j) == crate::json::JsonV::Number(dec(n as nat)),
{
    let mut d: Vec<char> = Vec::new();
    push_decimal(&mut d, n as u128);
    crate::json::Json::Number(string_of(&d))
}

pub open spec fn sv(s: Seq<char>) -> crate::json::JsonV {
    crate::json::JsonV::Str(s)
}

pub open spec fn strings_v(ss: Seq<String>) -> Seq<crate::json::JsonV> {
    ss.map_values(|x: String| crate::json::JsonV::Str(x@))
}

/// What the import tool reports of one file: its path, what happened (`created`,
/// `duplicate`, `conflict`, `replaced`, `handoff`, `skipped`, `would_create`) and the
/// facts that go with it.
pub open spec fn outcome_members(file: Seq<char>, o: crate::import::Outcome) -> Seq<(Seq<char>, crate::json::JsonV)> {
    match o {
        crate::import::Outcome::Created { plan, slices, .. } => seq![
            ("file"@, sv(file)),
            ("outcome"@, sv("created"@)),
            ("plan"@, sv(plan.slug@)),
            ("slices"@, crate::json::JsonV::Number(dec(slices as nat))),
        ],
        crate::import::Outcome::AlreadyImported { plan, first_seen } => seq![
            ("file"@, sv(file)),
            ("outcome"@, sv("duplicate"@)),
            ("plan"@, sv(plan.slug@)),
            ("same_as"@, sv(first_seen@)),
        ],
        crate::import::Outcome::Conflict { plan, existing_sources } => seq![
            ("file"@, sv(file)),
            ("outcome"@, sv("conflict"@)),
            ("plan"@, sv(plan.slug@)),
            ("existing_sources"@, crate::json::JsonV::Array(strings_v(existing_sources@))),
            ("detail"@, sv("two copies of this plan have drifted apart - compare them before replacing"@)),
        ],
        crate::import::Outcome::Replaced { plan } => seq![
            ("file"@, sv(file)),
            ("outcome"@, sv("replaced"@)),
            ("plan"@, sv(plan.slug@)),
        ],
        crate::import::Outcome::HandoffAttached { plan, worktree } => seq![
            ("file"@, sv(file)),
            ("outcome"@, sv("handoff"@)),
            ("plan"@, sv(plan.slug@)),
            ("worktree"@, sv(worktree@)),
        ],
        crate::import::Outcome::Skipped { reason } => seq![
            ("file"@, sv(file)),
            ("outcome"@, sv("skipped"@)),
            ("detail"@, sv(reason@)),
        ],
        crate::import::Outcome::Planned { title, slug, slices, .. } => seq![
            ("file"@, sv(file)),
            ("outcome"@, sv("would_create"@)),
            ("plan"@, sv(slug@)),
            ("title"@, sv(title@)),
            ("slices"@, crate::json::JsonV::Number(dec(slices as nat))),
        ],
    }
}

fn string_list(ss: &Vec<String>) -> (j: crate::json::Json)
    ensures
        crate::json::jv(j) == crate::json::JsonV::Array(strings_v(ss@)),
{
    let mut items: Vec<crate::json::Json> = Vec::new();
    let mut i: usize = 0;
    while i < ss.len()
        invariant
            i <= ss@.len(),
            crate::json::items_v(items@) == strings_v(ss@).take(i as int),
        decreases ss.len() - i,
    {
        let v = text_value(ss[i].as_str());
        let ghost before = crate::json::items_v(items@);
        items.push(v);
        assert(crate::json::items_v(items@) =~= before.push(crate::json::jv(v)));
        assert(strings_v(ss@).take(i + 1) =~= strings_v(ss@).take(i as int).push(
            crate::json::JsonV::Str(ss@[i as int]@),
        ));
        i += 1;
    }
    assert(strings_v(ss@).take(ss@.len() as int) =~= strings_v(ss@));
    proof {
        crate::json::lemma_jv_array(items);
    }
    crate::json::Json::Array(items)
}

pub fn outcome_json(file: &str, o: &crate::import::Outcome) -> (j: crate::json::Json)
    ensures
        crate::json::jv(j) == crate::json::JsonV::Object(outcome_members(file@, *o)),
{
    let ms: Vec<crate::json::Member> = match o {
        crate::import::Outcome::Created { plan, slices, .. } => vec![
            member("file", text_value(file)),
            member("outcome", text_value("created")),
            member("plan", text_value(plan.slug.as_str())),
            member("slices", count_value(*slices)),
        ],
        crate::import::Outcome::AlreadyImported { plan, first_seen } => vec![
            member("file", text_value(file)),
            member("outcome", text_value("duplicate")),
            member("plan", text_value(plan.slug.as_str())),
            member("same_as", text_value(first_seen.as_str())),
        ],
        crate::import::Outcome::Conflict { plan, existing_sources } => vec![
            member("file", text_value(file)),
            member("outcome", text_value("conflict")),
            member("plan", text_value(plan.slug.as_str())),
            member("existing_sources", string_list(existing_sources)),
            member(
                "detail",
                text_value("two copies of this plan have drifted apart - compare them before replacing"),
            ),
        ],
        crate::import::Outcome::Replaced { plan } => vec![
            member("file", text_value(file)),
            member("outcome", text_value("replaced")),
            member("plan", text_value(plan.slug.as_str())),
        ],
        crate::import::Outcome::HandoffAttached { plan, worktree } => vec![
            member("file", text_value(file)),
            member("outcome", text_value("handoff")),
            member("plan", text_value(plan.slug.as_str())),
            member("worktree", text_value(worktree.as_str())),
        ],
        crate::import::Outcome::Skipped { reason } => vec![
            member("file", text_value(file)),
            member("outcome", text_value("skipped")),
            member("detail", text_value(reason.as_str())),
        ],
        crate::import::Outcome::Planned { title, slug, slices, .. } => vec![
            member("file", text_value(file)),
            member("outcome", text_value("would_create")),
            member("plan", text_value(slug.as_str())),
            member("title", text_value(title.as_str())),
            member("slices", count_value(*slices)),
        ],
    };
    proof {
        crate::json::lemma_jv_object(ms);
    }
    assert(crate::json::members_v(ms@) =~= outcome_members(file@, *o));
    crate::json::Json::Object(ms)
}


/// The name a resolution rule goes by in the agent's answer.
pub open spec fn rule_key(r: crate::resolve::Rule) -> Seq<char> {
    match r {
        crate::resolve::Rule::Explicit => "explicit"@,
        crate::resolve::Rule::SliceBranch => "slice_branch"@,
        crate::resolve::Rule::WorktreeClaim => "worktree_claim"@,
        crate::resolve::Rule::Handoff => "handoff"@,
        crate::resolve::Rule::Affinity => "affinity"@,
        crate::resolve::Rule::BranchTicket => "branch_ticket"@,
        crate::resolve::Rule::OnlyPlan => "only_plan"@,
    }
}

pub fn rule_name(r: crate::resolve::Rule) -> (s: &'static str)
    ensures
        s@ == rule_key(r),
{
    match r {
        crate::resolve::Rule::Explicit => "explicit",
        crate::resolve::Rule::SliceBranch => "slice_branch",
        crate::resolve::Rule::WorktreeClaim => "worktree_claim",
        crate::resolve::Rule::Handoff => "handoff",
        crate::resolve::Rule::Affinity => "affinity",
        crate::resolve::Rule::BranchTicket => "branch_ticket",
        crate::resolve::Rule::OnlyPlan => "only_plan",
    }
}

pub open spec fn opt_sv(o: Option<Seq<char>>) -> crate::json::JsonV {
    match o {
        Some(s) => sv(s),
        None => crate::json::JsonV::Null,
    }
}

fn opt_text_value(o: Option<&str>) -> (j: crate::json::Json)
    ensures
        crate::json::jv(j) == opt_sv(opt_str(o)),
{
    match o {
        Some(s) => text_value(s),
        None => crate::json::Json::Null,
    }
}

/// What the locate tool answers once a plan resolved: the plan, the slice this worktree
/// is on, the next one to take, how far the plan is, why it was chosen, and where the
/// caller stands.
pub open spec fn located_members(
    r: crate::resolve::Resolution,
    slices: Seq<Slice>,
    next: Option<Slice>,
    open_questions: nat,
    branch: Option<Seq<char>>,
    worktree: Seq<char>,
    has_handoff: bool,
) -> Seq<(Seq<char>, crate::json::JsonV)> {
    seq![
        ("plan"@, sv(r.plan.slug@)),
        ("title"@, sv(r.plan.title@)),
        ("status"@, sv(status_name(r.plan.status))),
        ("slice"@, match r.slice { Some(s) => sv(s.key@), None => crate::json::JsonV::Null }),
        ("slice_status"@, match r.slice {
            Some(s) => sv(status_name(s.status)),
            None => crate::json::JsonV::Null,
        }),
        ("next_slice"@, match next { Some(s) => sv(s.key@), None => crate::json::JsonV::Null }),
        ("next_title"@, match next { Some(s) => sv(s.title@), None => crate::json::JsonV::Null }),
        ("done"@, crate::json::JsonV::Number(dec(done_count(slices)))),
        ("total"@, crate::json::JsonV::Number(dec(slices.len()))),
        ("open_questions"@, crate::json::JsonV::Number(dec(open_questions))),
        ("rule"@, sv(rule_key(r.rule))),
        ("why"@, sv(crate::resolve::rule_reason(r.rule))),
        ("branch"@, opt_sv(branch)),
        ("worktree"@, sv(worktree)),
        ("has_handoff"@, crate::json::JsonV::Bool(has_handoff)),
    ]
}

pub fn located_json(
    r: &crate::resolve::Resolution,
    slices: &Vec<Slice>,
    next: &Option<Slice>,
    open_questions: usize,
    branch: Option<&str>,
    worktree: &str,
    has_handoff: bool,
) -> (j: crate::json::Json)
    ensures
        crate::json::jv(j) == crate::json::JsonV::Object(
            located_members(*r, slices@, *next, open_questions as nat, opt_str(branch), worktree@, has_handoff),
        ),
{
    let slice_key = match &r.slice {
        Some(s) => text_value(s.key.as_str()),
        None => crate::json::Json::Null,
    };
    let slice_status = match &r.slice {
        Some(s) => text_value(s.status.as_str()),
        None => crate::json::Json::Null,
    };
    let next_key = match next {
        Some(s) => text_value(s.key.as_str()),
        None => crate::json::Json::Null,
    };
    let next_title = match next {
        Some(s) => text_value(s.title.as_str()),
        None => crate::json::Json::Null,
    };
    let done = count_done(slices);
    let ms: Vec<crate::json::Member> = vec![
        member("plan", text_value(r.plan.slug.as_str())),
        member("title", text_value(r.plan.title.as_str())),
        member("status", text_value(r.plan.status.as_str())),
        member("slice", slice_key),
        member("slice_status", slice_status),
        member("next_slice", next_key),
        member("next_title", next_title),
        member("done", count_value(done)),
        member("total", count_value(slices.len())),
        member("open_questions", count_value(open_questions)),
        member("rule", text_value(rule_name(r.rule))),
        member("why", text_value(r.rule.why())),
        member("branch", opt_text_value(branch)),
        member("worktree", text_value(worktree)),
        member("has_handoff", crate::json::Json::Bool(has_handoff)),
    ];
    proof {
        crate::json::lemma_jv_object(ms);
    }
    assert(crate::json::members_v(ms@) =~= located_members(
        *r,
        slices@,
        *next,
        open_questions as nat,
        opt_str(branch),
        worktree@,
        has_handoff,
    ));
    crate::json::Json::Object(ms)
}

pub open spec fn candidate_v(p: crate::model::Plan) -> crate::json::JsonV {
    crate::json::JsonV::Object(seq![("plan"@, sv(p.slug@)), ("title"@, sv(p.title@))])
}

/// What the locate tool answers when nothing resolved: that it did not, why, and the
/// plans the caller could mean.
pub open spec fn unresolved_members(u: crate::resolve::Unresolved) -> Seq<(Seq<char>, crate::json::JsonV)> {
    seq![
        ("resolved"@, crate::json::JsonV::Bool(false)),
        ("reason"@, sv(u.reason@)),
        ("candidates"@, crate::json::JsonV::Array(u.candidates@.map_values(|p: crate::model::Plan| candidate_v(p)))),
    ]
}

pub fn unresolved_json(u: &crate::resolve::Unresolved) -> (j: crate::json::Json)
    ensures
        crate::json::jv(j) == crate::json::JsonV::Object(unresolved_members(*u)),
{
    let ghost want = u.candidates@.map_values(|p: crate::model::Plan| candidate_v(p));
    let mut items: Vec<crate::json::Json> = Vec::new();
    let mut i: usize = 0;
    while i < u.candidates.len()
        invariant
            i <= u.candidates@.len(),
            want == u.candidates@.map_values(|p: crate::model::Plan| candidate_v(p)),
            crate::json::items_v(items@) == want.take(i as int),
        decreases u.candidates.len() - i,
    {
        let p = &u.candidates[i];
        let ms: Vec<crate::json::Member> = vec![
            member("plan", text_value(p.slug.as_str())),
            member("title", text_value(p.title.as_str())),
        ];
        proof {
            crate::json::lemma_jv_object(ms);
        }
        assert(crate::json::members_v(ms@) =~= seq![("plan"@, sv(p.slug@)), ("title"@, sv(p.title@))]);
        let v = crate::json::Json::Object(ms);
        let ghost before = crate::json::items_v(items@);
        items.push(v);
        assert(crate::json::items_v(items@) =~= before.push(crate::json::jv(v)));
        assert(want.take(i + 1) =~= want.take(i as int).push(candidate_v(u.candidates@[i as int])));
        i += 1;
    }
    assert(want.take(u.candidates@.len() as int) =~= want);
    proof {
        crate::json::lemma_jv_array(items);
    }
    let ms: Vec<crate::json::Member> = vec![
        member("resolved", crate::json::Json::Bool(false)),
        member("reason", text_value(u.reason.as_str())),
        member("candidates", crate::json::Json::Array(items)),
    ];
    proof {
        crate::json::lemma_jv_object(ms);
    }
    assert(crate::json::members_v(ms@) =~= unresolved_members(*u));
    crate::json::Json::Object(ms)
}

} // verus!
