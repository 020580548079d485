//! The rows and pages of the command line's listings: plans, slices, handoffs,
//! repositories. Each row is the cells a table prints, already coloured where colour
//! is on; the table sizes its columns on the visible text.
use vstd::prelude::*;

use crate::handoff::{gate_passed, Gate, Handoff};
use crate::model::{status_marker, status_name, LogEntry, Plan, Repo, Slice, Status};
use crate::out::painted;
use crate::parse::opt_view;
use crate::render::{date_part, done_count};
use crate::report::{faint, heavy, shortened, short_path, tinted};
use crate::text::{chars_of, dec, push_all, push_decimal, push_str, string_of, trim, trim_end};
use crate::update::strs;

verus! {

fn coloured(status: Status, s: &str, colour: bool) -> (r: String)
    ensures
        r@ == tinted(colour, status, s@),
{
    crate::out::status_colour(status, s, colour)
}

fn text_of(o: &Option<String>) -> (r: String)
    ensures
        r@ == match *o {
            Some(s) => s@,
            None => Seq::<char>::empty(),
        },
{
    match o {
        Some(s) => s.clone(),
        None => String::new(),
    }
}

fn count_done(ss: &Vec<Slice>) -> (r: usize)
    ensures
        r == done_count(ss@),
        r <= ss@.len(),
{
    let mut done: usize = 0;
    let mut i: usize = 0;
    while i < ss.len()
        invariant
            i <= ss@.len(),
            done == done_count(ss@.take(i as int)),
            done <= i,
        decreases ss.len() - i,
    {
        assert(ss@.take(i + 1).drop_last() =~= ss@.take(i as int));
        if ss[i].status == Status::Done {
            done += 1;
        }
        i += 1;
    }
    assert(ss@.take(ss@.len() as int) =~= ss@);
    done
}

// ---------------------------------------------------------------------------
// Plans
// ---------------------------------------------------------------------------

/// How far a plan is: `done/total`, or `-` before it has slices.
pub open spec fn progress_text(slices: Seq<Slice>) -> Seq<char> {
    if slices.len() == 0 {
        "-"@
    } else {
        dec(done_count(slices)) + "/"@ + dec(slices.len())
    }
}

/// A row of `aip ls`: marker, slug, status, progress, repo, title.
pub open spec fn plan_row_cells(p: Plan, slices: Seq<Slice>, colour: bool) -> Seq<Seq<char>> {
    seq![
        tinted(colour, p.status, status_marker(p.status)),
        p.slug@,
        tinted(colour, p.status, status_name(p.status)),
        progress_text(slices),
        p.repo_name@,
        p.title@,
    ]
}

pub fn plan_row(p: &Plan, slices: &Vec<Slice>, colour: bool) -> (r: Vec<String>)
    ensures
        strs(r@) == plan_row_cells(*p, slices@, colour),
{
    let progress = if slices.len() == 0 {
        "-".to_string()
    } else {
        let done = count_done(slices);
        let mut out: Vec<char> = Vec::new();
        push_decimal(&mut out, done as u128);
        push_str(&mut out, "/");
        push_decimal(&mut out, slices.len() as u128);
        string_of(&out)
    };
    let r = vec![
        coloured(p.status, p.status.marker(), colour),
        p.slug.clone(),
        coloured(p.status, p.status.as_str(), colour),
        progress,
        p.repo_name.clone(),
        p.title.clone(),
    ];
    assert(strs(r@) =~= plan_row_cells(*p, slices@, colour));
    r
}

/// A row of `aip repos`: name, how many plans, key, main checkout.
pub open spec fn repo_row_cells(r: Repo, plans: nat) -> Seq<Seq<char>> {
    seq![
        r.name@,
        dec(plans),
        r.key@,
        match r.main_path {
            Some(m) => m@,
            None => Seq::empty(),
        },
    ]
}

pub fn repo_row(repo: &Repo, plans: usize) -> (r: Vec<String>)
    ensures
        strs(r@) == repo_row_cells(*repo, plans as nat),
{
    let mut n: Vec<char> = Vec::new();
    push_decimal(&mut n, plans as u128);
    let r = vec![repo.name.clone(), string_of(&n), repo.key.clone(), text_of(&repo.main_path)];
    assert(strs(r@) =~= repo_row_cells(*repo, plans as nat));
    r
}

// ---------------------------------------------------------------------------
// Slices
// ---------------------------------------------------------------------------

/// Who holds a slice, as `aip slice ls` shows it: marked `(here)` when claimed from
/// this checkout, else where (with `~` for home), or just who when no worktree was
/// recorded; nothing when it is free.
pub open spec fn claim_cell_text(
    by: Option<Seq<char>>,
    worktree: Option<Seq<char>>,
    here: Option<Seq<char>>,
    home: Seq<char>,
) -> Seq<char> {
    match (by, worktree) {
        (Some(b), Some(w)) => if here == Some(w) {
            b + " (here)"@
        } else {
            b + " in "@ + shortened(w, home)
        },
        (Some(b), None) => b,
        _ => Seq::empty(),
    }
}

fn same_text(a: &String, b: &Option<String>) -> (r: bool)
    ensures
        r == (opt_view(*b) == Some(a@)),
{
    match b {
        Some(x) => {
            let av = chars_of(a.as_str());
            let xv = chars_of(x.as_str());
            crate::text::eq_chars(&av, &xv)
        },
        None => false,
    }
}

pub fn claim_cell(s: &Slice, here: &Option<String>, home: &str) -> (r: String)
    ensures
        r@ == claim_cell_text(opt_view(s.claimed_by), opt_view(s.worktree_path), opt_view(*here), home@),
{
    match (&s.claimed_by, &s.worktree_path) {
        (Some(by), Some(wt)) => {
            let mut out = chars_of(by.as_str());
            if same_text(wt, here) {
                push_str(&mut out, " (here)");
            } else {
                push_str(&mut out, " in ");
                let sp = short_path(wt.as_str(), home);
                push_str(&mut out, sp.as_str());
            }
            string_of(&out)
        },
        (Some(by), None) => by.clone(),
        _ => String::new(),
    }
}

/// A row of `aip slice ls`: marker, key, status, branch, holder, title.
pub open spec fn slice_row_cells(s: Slice, here: Option<Seq<char>>, home: Seq<char>, colour: bool) -> Seq<Seq<char>> {
    seq![
        tinted(colour, s.status, status_marker(s.status)),
        s.key@,
        tinted(colour, s.status, status_name(s.status)),
        match s.branch {
            Some(b) => b@,
            None => Seq::empty(),
        },
        claim_cell_text(opt_view(s.claimed_by), opt_view(s.worktree_path), here, home),
        s.title@,
    ]
}

pub fn slice_row(s: &Slice, here: &Option<String>, home: &str, colour: bool) -> (r: Vec<String>)
    ensures
        strs(r@) == slice_row_cells(*s, opt_view(*here), home@, colour),
{
    let r = vec![
        coloured(s.status, s.status.marker(), colour),
        s.key.clone(),
        coloured(s.status, s.status.as_str(), colour),
        text_of(&s.branch),
        claim_cell(s, here, home),
        s.title.clone(),
    ];
    assert(strs(r@) =~= slice_row_cells(*s, opt_view(*here), home@, colour));
    r
}

/// A row of `aip slice stale`: key, status, holder, worktree.
pub open spec fn stale_row_cells(s: Slice) -> Seq<Seq<char>> {
    seq![
        s.key@,
        status_name(s.status),
        match s.claimed_by {
            Some(b) => b@,
            None => Seq::empty(),
        },
        match s.worktree_path {
            Some(w) => w@,
            None => Seq::empty(),
        },
    ]
}

pub fn stale_row(s: &Slice) -> (r: Vec<String>)
    ensures
        strs(r@) == stale_row_cells(*s),
{
    let r = vec![s.key.clone(), s.status.as_str().to_string(), text_of(&s.claimed_by), text_of(&s.worktree_path)];
    assert(strs(r@) =~= stale_row_cells(*s));
    r
}

/// The first slice that is ready or under way.
pub open spec fn first_open(ss: Seq<Slice>) -> Option<int>
    decreases ss.len(),
{
    if ss.len() == 0 {
        None
    } else {
        match first_open(ss.drop_last()) {
            Some(i) => Some(i),
            None => if ss.last().status == Status::Ready || ss.last().status == Status::Active {
                Some(ss.len() - 1)
            } else {
                None
            },
        }
    }
}

proof fn lemma_first_open(ss: Seq<Slice>)
    ensures
        match first_open(ss) {
            Some(i) => 0 <= i < ss.len() && (ss[i].status == Status::Ready || ss[i].status == Status::Active)
                && forall|j: int| 0 <= j < i ==> !((#[trigger] ss[j]).status == Status::Ready || ss[j].status == Status::Active),
            None => forall|j: int| 0 <= j < ss.len() ==> !((#[trigger] ss[j]).status == Status::Ready || ss[j].status == Status::Active),
        },
    decreases ss.len(),
{
    if ss.len() > 0 {
        lemma_first_open(ss.drop_last());
        assert(forall|j: int| 0 <= j < ss.len() - 1 ==> ss.drop_last()[j] == ss[j]);
    }
}

/// After a status change: how many are done and what is next, or that every slice
/// is done.
pub open spec fn remaining_text(ss: Seq<Slice>, colour: bool) -> Seq<char> {
    match first_open(ss) {
        Some(i) => faint(
            colour,
            "  "@ + dec(done_count(ss)) + "/"@ + dec(ss.len()) + " done · next: "@ + ss[i].key@ + " - "@
                + ss[i].title@,
        ) + "\n"@,
        None => if done_count(ss) == ss.len() && ss.len() > 0 {
            faint(colour, "  every slice is done"@) + "\n"@
        } else {
            Seq::empty()
        },
    }
}

pub fn remaining(ss: &Vec<Slice>, colour: bool) -> (r: String)
    ensures
        r@ == remaining_text(ss@, colour),
{
    let done = count_done(ss);
    let mut next: Option<usize> = None;
    let mut i: usize = 0;
    while i < ss.len() && next.is_none()
        invariant
            i <= ss@.len(),
            match next {
                Some(k) => k < ss@.len() && (ss@[k as int].status == Status::Ready || ss@[k as int].status
                    == Status::Active) && forall|j: int|
                    0 <= j < k ==> !((#[trigger] ss@[j]).status == Status::Ready || ss@[j].status == Status::Active),
                None => forall|j: int|
                    0 <= j < i ==> !((#[trigger] ss@[j]).status == Status::Ready || ss@[j].status == Status::Active),
            },
        decreases ss.len() - i,
    {
        if ss[i].status == Status::Ready || ss[i].status == Status::Active {
            next = Some(i);
        }
        i += 1;
    }
    proof {
        lemma_first_open(ss@);
    }
    let mut out: Vec<char> = Vec::new();
    match next {
        Some(k) => {
            assert(first_open(ss@) == Some(k as int));
            let mut d: Vec<char> = Vec::new();
            push_str(&mut d, "  ");
            push_decimal(&mut d, done as u128);
            push_str(&mut d, "/");
            push_decimal(&mut d, ss.len() as u128);
            push_str(&mut d, " done · next: ");
            push_str(&mut d, ss[k].key.as_str());
            push_str(&mut d, " - ");
            push_str(&mut d, ss[k].title.as_str());
            let s = string_of(&d);
            let f = crate::out::dim(s.as_str(), colour);
            push_str(&mut out, f.as_str());
            push_str(&mut out, "\n");
        },
        None => {
            assert(first_open(ss@) is None);
            if done == ss.len() && ss.len() > 0 {
                let f = crate::out::dim("  every slice is done", colour);
                push_str(&mut out, f.as_str());
                push_str(&mut out, "\n");
            }
        },
    }
    assert(out@ =~= remaining_text(ss@, colour));
    string_of(&out)
}

pub open spec fn history_lines(es: Seq<LogEntry>) -> Seq<char>
    decreases es.len(),
{
    if es.len() == 0 {
        Seq::empty()
    } else {
        history_lines(es.drop_last()) + "- "@ + date_part(es.last().at@) + " - "@ + crate::text::replace(
            es.last().body@,
            "\n"@,
            " "@,
        ) + "\n"@
    }
}

/// `aip slice show`: the heading, the meta line, the scope, the demo, the block, and
/// the slice's own history.
pub open spec fn slice_page(s: Slice, history: Seq<LogEntry>) -> Seq<char> {
    "# "@ + s.key@ + " - "@ + s.title@ + "\n\n"@ + crate::render::meta_line(s) + "\n\n"@ + (if trim(
        s.scope_md@,
    ).len() > 0 {
        trim_end(s.scope_md@) + "\n\n"@
    } else {
        Seq::empty()
    }) + (match s.demo_md {
        Some(d) => if trim(d@).len() > 0 {
            "**Demo:** "@ + d@ + "\n\n"@
        } else {
            Seq::empty()
        },
        None => Seq::empty(),
    }) + (match s.blocked_reason {
        Some(r) => "**Blocked:** "@ + r@ + "\n\n"@,
        None => Seq::empty(),
    }) + if history.len() > 0 {
        "## History\n\n"@ + history_lines(history)
    } else {
        Seq::empty()
    }
}

#[verifier::spinoff_prover]
#[verifier::rlimit(40)]
pub fn slice_text(s: &Slice, history: &Vec<LogEntry>) -> (r: String)
    ensures
        r@ == slice_page(*s, history@),
{
    let mut out: Vec<char> = Vec::new();
    push_str(&mut out, "# ");
    push_str(&mut out, s.key.as_str());
    push_str(&mut out, " - ");
    push_str(&mut out, s.title.as_str());
    push_str(&mut out, "\n\n");
    let meta = crate::render::slice_meta_line(s);
    push_str(&mut out, meta.as_str());
    push_str(&mut out, "\n\n");
    let sv = chars_of(s.scope_md.as_str());
    if crate::text::trimmed(&sv).len() > 0 {
        let t = crate::text::trimmed_end(&sv);
        push_all(&mut out, &t);
        push_str(&mut out, "\n\n");
    }
    match &s.demo_md {
        Some(d) => {
            let dv = chars_of(d.as_str());
            if crate::text::trimmed(&dv).len() > 0 {
                push_str(&mut out, "**Demo:** ");
                push_str(&mut out, d.as_str());
                push_str(&mut out, "\n\n");
            }
        },
        None => {},
    }
    match &s.blocked_reason {
        Some(r) => {
            push_str(&mut out, "**Blocked:** ");
            push_str(&mut out, r.as_str());
            push_str(&mut out, "\n\n");
        },
        None => {},
    }
    let ghost head = out@;
    if history.len() > 0 {
        push_str(&mut out, "## History\n\n");
        let ghost top = out@;
        let mut i: usize = 0;
        while i < history.len()
            invariant
                i <= history@.len(),
                out@ == top + history_lines(history@.take(i as int)),
            decreases history.len() - i,
        {
            assert(history@.take(i + 1).drop_last() =~= history@.take(i as int));
            let e = &history[i];
            push_str(&mut out, "- ");
            let date = crate::render::date_of(e.at.as_str());
            push_all(&mut out, &date);
            push_str(&mut out, " - ");
            let bv = chars_of(e.body.as_str());
            proof {
                reveal_strlit("\n");
            }
            let flat = crate::text::replaced_str(&bv, "\n", " ");
            push_all(&mut out, &flat);
            push_str(&mut out, "\n");
            i += 1;
        }
        assert(history@.take(history@.len() as int) =~= history@);
    }
    assert(out@ =~= slice_page(*s, history@));
    string_of(&out)
}

// ---------------------------------------------------------------------------
// Handoffs
// ---------------------------------------------------------------------------

pub open spec fn red_count(gs: Seq<Gate>) -> nat {
    crate::handoff::failed_names(gs).len()
}

/// The gates of a handoff in one cell: `-` when none were run, how many are green
/// when all are, else how many are red.
pub open spec fn gates_cell_text(gs: Seq<Gate>) -> Seq<char> {
    if gs.len() == 0 {
        "-"@
    } else if red_count(gs) == 0 {
        dec(gs.len()) + " green"@
    } else {
        dec(red_count(gs)) + " RED"@
    }
}

/// A row of `aip handoff ls`: date, branch, head, gates, worktree (`(here)` when it
/// is this checkout).
pub open spec fn handoff_row_cells(h: Handoff, here: Option<Seq<char>>, home: Seq<char>) -> Seq<Seq<char>> {
    seq![
        date_part(h.at@),
        match h.branch {
            Some(b) => b@,
            None => Seq::empty(),
        },
        match h.head_sha {
            Some(s) => s@,
            None => Seq::empty(),
        },
        gates_cell_text(h.gates@),
        if here == Some(h.worktree_path@) {
            shortened(h.worktree_path@, home) + " (here)"@
        } else {
            shortened(h.worktree_path@, home)
        },
    ]
}

pub fn handoff_row(h: &Handoff, here: &Option<String>, home: &str) -> (r: Vec<String>)
    ensures
        strs(r@) == handoff_row_cells(*h, opt_view(*here), home@),
{
    let red = crate::handoff::failed_of(&h.gates);
    let gates = if h.gates.len() == 0 {
        "-".to_string()
    } else if red.len() == 0 {
        let mut d: Vec<char> = Vec::new();
        push_decimal(&mut d, h.gates.len() as u128);
        push_str(&mut d, " green");
        string_of(&d)
    } else {
        let mut d: Vec<char> = Vec::new();
        push_decimal(&mut d, red.len() as u128);
        push_str(&mut d, " RED");
        string_of(&d)
    };
    let sp = short_path(h.worktree_path.as_str(), home);
    let wt = if same_text(&h.worktree_path, here) {
        let mut w = chars_of(sp.as_str());
        push_str(&mut w, " (here)");
        string_of(&w)
    } else {
        sp
    };
    let date = crate::render::date_of(h.at.as_str());
    let r = vec![string_of(&date), text_of(&h.branch), text_of(&h.head_sha), gates, wt];
    assert(strs(r@) =~= handoff_row_cells(*h, opt_view(*here), home@));
    r
}

pub open spec fn gate_lines(gs: Seq<Gate>) -> Seq<char>
    decreases gs.len(),
{
    if gs.len() == 0 {
        Seq::empty()
    } else {
        gate_lines(gs.drop_last()) + "  "@ + (if gate_passed(gs.last().result@) {
            "✔"@
        } else {
            "✘"@
        }) + " "@ + gs.last().name@ + " "@ + match gs.last().detail {
            Some(d) => d@,
            None => Seq::empty(),
        } + "\n"@
    }
}

/// `aip handoff show`: when and where, each gate ticked or crossed, then what is next
/// and the notes, each under its heading when there is any.
pub open spec fn handoff_page(h: Option<Handoff>, colour: bool) -> Seq<char> {
    match h {
        Some(h) => h.at@ + " · "@ + (match h.branch {
            Some(b) => b@,
            None => "?"@,
        }) + " @ "@ + (match h.head_sha {
            Some(s) => s@,
            None => "?"@,
        }) + "\n"@ + gate_lines(h.gates@) + (if trim(h.next_md@).len() > 0 {
            "\n"@ + heavy(colour, "Next"@) + "\n\n"@ + trim(h.next_md@) + "\n"@
        } else {
            Seq::empty()
        }) + if trim(h.resume_md@).len() > 0 {
            "\n"@ + heavy(colour, "Notes"@) + "\n\n"@ + trim(h.resume_md@) + "\n"@
        } else {
            Seq::empty()
        },
        None => faint(colour, "no handoff from this worktree yet"@) + "\n"@,
    }
}

fn push_titled(out: &mut Vec<char>, title: &str, body: &String, colour: bool)
    ensures
        final(out)@ == old(out)@ + if trim(body@).len() > 0 {
            "\n"@ + heavy(colour, title@) + "\n\n"@ + trim(body@) + "\n"@
        } else {
            Seq::empty()
        },
{
    let ghost before = out@;
    let bv = chars_of(body.as_str());
    let t = crate::text::trimmed(&bv);
    if t.len() > 0 {
        push_str(out, "\n");
        let b = crate::out::bold(title, colour);
        push_str(out, b.as_str());
        push_str(out, "\n\n");
        push_all(out, &t);
        push_str(out, "\n");
    }
    assert(out@ =~= before + if trim(body@).len() > 0 {
        "\n"@ + heavy(colour, title@) + "\n\n"@ + trim(body@) + "\n"@
    } else {
        Seq::empty()
    });
}

pub fn handoff_text(h: &Option<Handoff>, colour: bool) -> (r: String)
    ensures
        r@ == handoff_page(*h, colour),
{
    let mut out: Vec<char> = Vec::new();
    match h {
        Some(h) => {
            push_str(&mut out, h.at.as_str());
            push_str(&mut out, " · ");
            match &h.branch {
                Some(b) => push_str(&mut out, b.as_str()),
                None => push_str(&mut out, "?"),
            }
            push_str(&mut out, " @ ");
            match &h.head_sha {
                Some(s) => push_str(&mut out, s.as_str()),
                None => push_str(&mut out, "?"),
            }
            push_str(&mut out, "\n");
            let ghost head = out@;
            let mut i: usize = 0;
            while i < h.gates.len()
                invariant
                    i <= h.gates@.len(),
                    out@ == head + gate_lines(h.gates@.take(i as int)),
                decreases h.gates.len() - i,
            {
                assert(h.gates@.take(i + 1).drop_last() =~= h.gates@.take(i as int));
                let g = &h.gates[i];
                let ghost mid = out@;
                push_str(&mut out, "  ");
                if g.passed() {
                    push_str(&mut out, "✔");
                } else {
                    push_str(&mut out, "✘");
                }
                push_str(&mut out, " ");
                push_str(&mut out, g.name.as_str());
                push_str(&mut out, " ");
                match &g.detail {
                    Some(d) => push_str(&mut out, d.as_str()),
                    None => {},
                }
                push_str(&mut out, "\n");
                assert(out@ =~= head + gate_lines(h.gates@.take(i + 1)));
                i += 1;
            }
            assert(h.gates@.take(h.gates@.len() as int) =~= h.gates@);
            push_titled(&mut out, "Next", &h.next_md, colour);
            push_titled(&mut out, "Notes", &h.resume_md, colour);
        },
        None => {
            let f = crate::out::dim("no handoff from this worktree yet", colour);
            push_str(&mut out, f.as_str());
            push_str(&mut out, "\n");
        },
    }
    assert(out@ =~= handoff_page(*h, colour));
    string_of(&out)
}

} // verus!
