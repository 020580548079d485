//! Checkpointing a worktree so a fresh context resumes where the last one stopped:
//! the gates a handoff certifies, the note it leaves in the log, and the resume
//! document assembled from live state.
use vstd::prelude::*;

use crate::model::{status_name, Gotcha, LogEntry, Plan, Question, Slice, Status};
use crate::render::{date_part, done_count};
use crate::text::{
    chars_of, contains, dec, join, joined_str, lemma_views_push, lowercase, push_all,
    push_decimal, push_str, replace, replaced_str, split_once, split_once_of, string_of,
    to_lowercase, trim, trimmed, views,
};

verus! {

/// One certified check: `typecheck=pass`, `test=pass:731 tests`, `lint=fail`.
#[derive(Debug, Clone)]
pub struct Gate {
    pub name: String,
    /// `pass`, `fail`, or whatever the runner actually said.
    pub result: String,
    pub detail: Option<String>,
}

/// A recorded checkpoint of one worktree.
#[derive(Debug, Clone)]
pub struct Handoff {
    pub id: i64,
    pub plan_id: i64,
    pub worktree_path: String,
    pub branch: Option<String>,
    pub head_sha: Option<String>,
    pub gates: Vec<Gate>,
    pub resume_md: String,
    pub next_md: String,
    pub actor: Option<String>,
    pub at: String,
}

/// What a caller hands in to write a handoff.
#[derive(Debug, Clone)]
pub struct NewHandoff {
    pub plan_id: i64,
    pub worktree_path: String,
    pub branch: Option<String>,
    pub head_sha: Option<String>,
    pub gates: Vec<Gate>,
    pub resume_md: String,
    pub next_md: String,
}

impl Default for NewHandoff {
    fn default() -> (r: NewHandoff)
        ensures
            r.plan_id == 0,
            r.worktree_path@ == Seq::<char>::empty(),
            r.branch is None,
            r.head_sha is None,
            r.gates@.len() == 0,
            r.resume_md@ == Seq::<char>::empty(),
            r.next_md@ == Seq::<char>::empty(),
    {
        NewHandoff {
            plan_id: 0,
            worktree_path: String::new(),
            branch: None,
            head_sha: None,
            gates: Vec::new(),
            resume_md: String::new(),
            next_md: String::new(),
        }
    }
}

/// How `name=result:detail` reads: the name before `=`, the result before `:` and the
/// detail after it. A bare name passed.
pub open spec fn gate_parts(spec: Seq<char>) -> (Seq<char>, Seq<char>, Option<Seq<char>>) {
    let (name, rest) = match split_once(spec, "="@) {
        Some(p) => p,
        None => (spec, "pass"@),
    };
    let (result, detail) = match split_once(rest, ":"@) {
        Some(p) => p,
        None => (rest, Seq::empty()),
    };
    (
        trim(name),
        trim(result),
        if trim(detail).len() > 0 {
            Some(trim(detail))
        } else {
            None
        },
    )
}

/// What runners print for a green gate, in any case.
pub open spec fn gate_passed(result: Seq<char>) -> bool {
    let r = lowercase(result);
    r == "pass"@ || r == "passed"@ || r == "green"@ || r == "ok"@ || r == "yes"@
}

impl Gate {
    /// `typecheck=pass`, `test=pass:731 tests`, `lint=fail`, or a bare `build`.
    pub fn parse(spec: &str) -> (g: Gate)
        ensures
            (g.name@, g.result@, crate::parse::opt_view(g.detail)) == gate_parts(spec@),
    {
        let v = chars_of(spec);
        let (name, rest) = match split_once_of(&v, "=") {
            Some(p) => p,
            None => {
                let pass = chars_of("pass");
                (v, pass)
            },
        };
        let (result, detail) = match split_once_of(&rest, ":") {
            Some(p) => p,
            None => (rest, Vec::new()),
        };
        let name = trimmed(&name);
        let result = trimmed(&result);
        let detail = trimmed(&detail);
        let d = if detail.len() > 0 {
            Some(string_of(&detail))
        } else {
            None
        };
        Gate { name: string_of(&name), result: string_of(&result), detail: d }
    }

    pub fn passed(&self) -> (r: bool)
        ensures
            r == gate_passed(self.result@),
    {
        let v = chars_of(self.result.as_str());
        let r = to_lowercase(&v);
        crate::model::is_word(&r, "pass") || crate::model::is_word(&r, "passed")
            || crate::model::is_word(&r, "green") || crate::model::is_word(&r, "ok")
            || crate::model::is_word(&r, "yes")
    }
}

/// The names of the gates that did not pass, in order.
pub open spec fn failed_names(gs: Seq<Gate>) -> Seq<Seq<char>>
    decreases gs.len(),
{
    if gs.len() == 0 {
        Seq::empty()
    } else if gate_passed(gs.last().result@) {
        failed_names(gs.drop_last())
    } else {
        failed_names(gs.drop_last()).push(gs.last().name@)
    }
}

pub(crate) fn failed_of(gs: &Vec<Gate>) -> (r: Vec<Vec<char>>)
    ensures
        views(r@) == failed_names(gs@),
{
    let mut out: Vec<Vec<char>> = Vec::new();
    assert(views(out@) =~= Seq::<Seq<char>>::empty());
    let mut i: usize = 0;
    while i < gs.len()
        invariant
            i <= gs@.len(),
            views(out@) == failed_names(gs@.take(i as int)),
        decreases gs.len() - i,
    {
        assert(gs@.take(i + 1).drop_last() =~= gs@.take(i as int));
        let g = &gs[i];
        if !g.passed() {
            let n = chars_of(g.name.as_str());
            proof {
                lemma_views_push(out@, n);
            }
            out.push(n);
        }
        i += 1;
    }
    assert(gs@.take(gs@.len() as int) =~= gs@);
    out
}

/// The log line a handoff leaves: never green over a failure.
pub open spec fn handoff_note_text(gs: Seq<Gate>) -> Seq<char> {
    if gs.len() == 0 {
        "handoff written (no gates recorded)"@
    } else if failed_names(gs).len() == 0 {
        "handoff written, "@ + dec(gs.len()) + " gates green"@
    } else {
        "handoff written, RED: "@ + join(failed_names(gs), ", "@)
    }
}

pub fn handoff_note(gates: &Vec<Gate>) -> (r: String)
    ensures
        r@ == handoff_note_text(gates@),
{
    if gates.len() == 0 {
        return "handoff written (no gates recorded)".to_string();
    }
    let failed = failed_of(gates);
    let mut out: Vec<char> = Vec::new();
    if failed.len() == 0 {
        push_str(&mut out, "handoff written, ");
        push_decimal(&mut out, gates.len() as u128);
        push_str(&mut out, " gates green");
    } else {
        push_str(&mut out, "handoff written, RED: ");
        let j = joined_str(&failed, ", ");
        push_all(&mut out, &j);
    }
    string_of(&out)
}


/// A handoff can never read green over a failed gate: when any gate failed, the note
/// leads with `RED` and names every gate that failed.
pub proof fn law_a_failed_gate_is_never_reported_green(gates: Seq<Gate>, i: int)
    requires
        0 <= i < gates.len(),
        !gate_passed(gates[i].result@),
    ensures
        handoff_note_text(gates) == "handoff written, RED: "@ + join(failed_names(gates), ", "@),
        failed_names(gates).contains(gates[i].name@),
    decreases gates.len(),
{
    if i == gates.len() - 1 {
        assert(failed_names(gates) == failed_names(gates.drop_last()).push(gates[i].name@));
        assert(failed_names(gates)[failed_names(gates).len() - 1] == gates[i].name@);
    } else {
        law_a_failed_gate_is_never_reported_green(gates.drop_last(), i);
        assert(gates.drop_last()[i] == gates[i]);
        let k = choose|k: int|
            0 <= k < failed_names(gates.drop_last()).len() && failed_names(gates.drop_last())[k]
                == gates[i].name@;
        assert(failed_names(gates)[k] == gates[i].name@);
    }
}

// ---------------------------------------------------------------------------
// The resume document
// ---------------------------------------------------------------------------

pub open spec fn or_mark(o: Option<String>, mark: Seq<char>) -> Seq<char> {
    match o {
        Some(x) => x@,
        None => mark,
    }
}

pub open spec fn gates_line(gs: Seq<Gate>) -> Seq<char> {
    if gs.len() == 0 {
        Seq::empty()
    } else if failed_names(gs).len() == 0 {
        "**Gates:** all "@ + dec(gs.len()) + " green at that point - re-run them before trusting it\n"@
    } else {
        "**Gates: RED** - "@ + join(failed_names(gs), ", "@) + "\n"@
    }
}

pub open spec fn handoff_lines(h: Option<Handoff>) -> Seq<char> {
    match h {
        Some(h) => "**Last handoff:** "@ + date_part(h.at@) + " by "@ + or_mark(h.actor, "?"@)
            + " · `"@ + or_mark(h.branch, "?"@) + "` @ `"@ + or_mark(h.head_sha, "?"@) + "`\n"@
            + gates_line(h.gates@),
        None => Seq::empty(),
    }
}

/// `## heading`, then the trimmed text, when there is any.
pub open spec fn titled(heading: Seq<char>, text: Seq<char>) -> Seq<char> {
    if trim(text).len() > 0 {
        "## "@ + heading + "\n\n"@ + trim(text) + "\n\n"@
    } else {
        Seq::empty()
    }
}

pub open spec fn next_part(n: Option<Slice>) -> Seq<char> {
    match n {
        Some(n) => "## Next slice\n\n"@ + "**"@ + n.key@ + " - "@ + n.title@ + "** ("@
            + status_name(n.status) + ")\n\n"@ + if trim(n.scope_md@).len() > 0 {
            trim(n.scope_md@) + "\n\n"@
        } else {
            Seq::empty()
        } + match n.demo_md {
            Some(d) => if trim(d@).len() > 0 {
                "**Demo:** "@ + d@ + "\n\n"@
            } else {
                Seq::empty()
            },
            None => Seq::empty(),
        },
        None => Seq::empty(),
    }
}

/// Who holds a slice, as seen from `worktree`.
pub open spec fn where_text(s: Slice, worktree: Option<Seq<char>>) -> Seq<char> {
    match (s.claimed_by, s.worktree_path) {
        (Some(by), Some(wt)) => if worktree == Some(wt@) {
            by@ + ", here"@
        } else {
            by@ + " in `"@ + wt@ + "`"@
        },
        _ => Seq::empty(),
    }
}

pub open spec fn resume_row(s: Slice, worktree: Option<Seq<char>>) -> Seq<char> {
    "| "@ + s.key@ + " "@ + s.title@ + " | "@ + status_name(s.status) + " | "@ + or_mark(
        s.branch,
        Seq::empty(),
    ) + " | "@ + where_text(s, worktree) + " |\n"@
}

pub open spec fn resume_rows(ss: Seq<Slice>, worktree: Option<Seq<char>>) -> Seq<char>
    decreases ss.len(),
{
    if ss.len() == 0 {
        Seq::empty()
    } else {
        resume_rows(ss.drop_last(), worktree) + resume_row(ss.last(), worktree)
    }
}

pub open spec fn slices_part(ss: Seq<Slice>, worktree: Option<Seq<char>>) -> Seq<char> {
    if ss.len() == 0 {
        Seq::empty()
    } else {
        "## Slices\n\n| Slice | Status | Branch | Where |\n| --- | --- | --- | --- |\n"@ + resume_rows(
            ss,
            worktree,
        ) + "\n"@
    }
}

pub open spec fn gotcha_entries(gs: Seq<Gotcha>) -> Seq<char>
    decreases gs.len(),
{
    if gs.len() == 0 {
        Seq::empty()
    } else {
        gotcha_entries(gs.drop_last()) + "### "@ + gs.last().title@ + "\n\n"@ + if trim(
            gs.last().body@,
        ).len() > 0 {
            trim(gs.last().body@) + "\n\n"@
        } else {
            Seq::empty()
        }
    }
}

pub open spec fn gotchas_part(gs: Seq<Gotcha>) -> Seq<char> {
    if gs.len() == 0 {
        Seq::empty()
    } else {
        "## Gotchas\n\n"@ + gotcha_entries(gs)
    }
}

pub open spec fn question_entries(qs: Seq<Question>) -> Seq<char>
    decreases qs.len(),
{
    if qs.len() == 0 {
        Seq::empty()
    } else {
        question_entries(qs.drop_last()) + "- "@ + qs.last().body@ + "\n"@
    }
}

pub open spec fn questions_part(qs: Seq<Question>) -> Seq<char> {
    if qs.len() == 0 {
        Seq::empty()
    } else {
        "## Open questions\n\n"@ + question_entries(qs) + "\n"@
    }
}

pub open spec fn recent_line(e: LogEntry) -> Seq<char> {
    "- "@ + date_part(e.at@) + " - "@ + match e.slice_key {
        Some(k) => "**"@ + k@ + "** "@,
        None => Seq::empty(),
    } + replace(e.body@, "\n"@, " "@) + "\n"@
}

pub open spec fn recent_lines(es: Seq<LogEntry>) -> Seq<char>
    decreases es.len(),
{
    if es.len() == 0 {
        Seq::empty()
    } else {
        recent_lines(es.drop_last()) + recent_line(es.last())
    }
}

pub open spec fn recent_part(es: Seq<LogEntry>) -> Seq<char> {
    if es.len() == 0 {
        Seq::empty()
    } else {
        "## Recent\n\n"@ + recent_lines(es) + "\n"@
    }
}

/// The document a fresh context reads first: where the plan stands, what the last
/// handoff certified, what to do first, the next slice, who holds what, the gotchas,
/// the open questions, the recent log and the last session's notes.
pub open spec fn resume_text(
    plan: Plan,
    slices: Seq<Slice>,
    handoff: Option<Handoff>,
    next: Option<Slice>,
    gotchas: Seq<Gotcha>,
    questions: Seq<Question>,
    log: Seq<LogEntry>,
    worktree: Option<Seq<char>>,
) -> Seq<char> {
    "# Resume: "@ + plan.title@ + "\n\n"@ + "**Plan:** `"@ + plan.slug@ + "` · **Status:** "@
        + status_name(plan.status) + " · **"@ + dec(done_count(slices)) + "/"@ + dec(slices.len())
        + " slices done**\n"@ + handoff_lines(handoff) + "\n"@ + match handoff {
        Some(h) => titled("Do this first"@, h.next_md@),
        None => Seq::empty(),
    } + next_part(next) + slices_part(slices, worktree) + gotchas_part(gotchas) + questions_part(
        questions,
    ) + recent_part(log) + match handoff {
        Some(h) => titled("Notes from the last session"@, h.resume_md@),
        None => Seq::empty(),
    } + "---\n\nRead the full plan with `aip show "@ + plan.slug@
        + "`. Record progress as you go with `aip log`, and move slices with `aip slice set <key> <status>`.\n"@
}

fn push_or_mark(out: &mut Vec<char>, o: &Option<String>, mark: &str)
    ensures
        final(out)@ == old(out)@ + or_mark(*o, mark@),
{
    match o {
        Some(x) => push_str(out, x.as_str()),
        None => push_str(out, mark),
    }
}

fn push_handoff_lines(out: &mut Vec<char>, h: &Option<Handoff>)
    ensures
        final(out)@ == old(out)@ + handoff_lines(*h),
{
    match h {
        Some(h) => {
            push_str(out, "**Last handoff:** ");
            let d = crate::render::date_of(h.at.as_str());
            push_all(out, &d);
            push_str(out, " by ");
            push_or_mark(out, &h.actor, "?");
            push_str(out, " · `");
            push_or_mark(out, &h.branch, "?");
            push_str(out, "` @ `");
            push_or_mark(out, &h.head_sha, "?");
            push_str(out, "`\n");
            let ghost mid = out@;
            if h.gates.len() > 0 {
                let red = failed_of(&h.gates);
                if red.len() == 0 {
                    push_str(out, "**Gates:** all ");
                    push_decimal(out, h.gates.len() as u128);
                    push_str(out, " green at that point - re-run them before trusting it\n");
                } else {
                    push_str(out, "**Gates: RED** - ");
                    let j = joined_str(&red, ", ");
                    push_all(out, &j);
                    push_str(out, "\n");
                }
            }
            assert(out@ =~= mid + gates_line(h.gates@));
            assert(out@ =~= old(out)@ + handoff_lines(Some(*h)));
        },
        None => {
            assert(old(out)@ + handoff_lines(*h) =~= old(out)@);
        },
    }
}

fn push_titled(out: &mut Vec<char>, heading: &str, text: &str)
    ensures
        final(out)@ == old(out)@ + titled(heading@, text@),
{
    let v = chars_of(text);
    let t = trimmed(&v);
    if t.len() > 0 {
        push_str(out, "## ");
        push_str(out, heading);
        push_str(out, "\n\n");
        push_all(out, &t);
        push_str(out, "\n\n");
    } else {
        assert(old(out)@ + titled(heading@, text@) =~= old(out)@);
    }
}

fn push_next(out: &mut Vec<char>, n: &Option<Slice>)
    ensures
        final(out)@ == old(out)@ + next_part(*n),
{
    match n {
        Some(n) => {
            push_str(out, "## Next slice\n\n");
            push_str(out, "**");
            push_str(out, n.key.as_str());
            push_str(out, " - ");
            push_str(out, n.title.as_str());
            push_str(out, "** (");
            push_str(out, n.status.as_str());
            push_str(out, ")\n\n");
            let ghost mid = out@;
            let sv = chars_of(n.scope_md.as_str());
            let st = trimmed(&sv);
            if st.len() > 0 {
                push_all(out, &st);
                push_str(out, "\n\n");
            }
            let ghost mid2 = out@;
            match &n.demo_md {
                Some(d) => {
                    let dv = chars_of(d.as_str());
                    let dt = trimmed(&dv);
                    if dt.len() > 0 {
                        push_str(out, "**Demo:** ");
                        push_all(out, &dv);
                        push_str(out, "\n\n");
                    }
                },
                None => {},
            }
            assert(out@ =~= old(out)@ + next_part(Some(*n)));
        },
        None => {
            assert(old(out)@ + next_part(*n) =~= old(out)@);
        },
    }
}

#[verifier::spinoff_prover]
#[verifier::rlimit(40)]
fn push_resume_row(out: &mut Vec<char>, s: &Slice, worktree: &Option<String>)
    ensures
        final(out)@ == old(out)@ + resume_row(*s, crate::parse::opt_view(*worktree)),
{
    push_str(out, "| ");
    push_str(out, s.key.as_str());
    push_str(out, " ");
    push_str(out, s.title.as_str());
    push_str(out, " | ");
    push_str(out, s.status.as_str());
    push_str(out, " | ");
    push_or_mark(out, &s.branch, "");
    proof {
        reveal_strlit("");
    }
    push_str(out, " | ");
    let ghost mid = out@;
    match (&s.claimed_by, &s.worktree_path) {
        (Some(by), Some(wt)) => {
            let here = match worktree {
                Some(w) => {
                    let a = chars_of(w.as_str());
                    let b = chars_of(wt.as_str());
                    crate::text::eq_chars(&a, &b)
                },
                None => false,
            };
            push_str(out, by.as_str());
            if here {
                push_str(out, ", here");
            } else {
                push_str(out, " in `");
                push_str(out, wt.as_str());
                push_str(out, "`");
            }
        },
        _ => {},
    }
    assert(out@ =~= mid + where_text(*s, crate::parse::opt_view(*worktree)));
    push_str(out, " |\n");
    assert(out@ =~= old(out)@ + resume_row(*s, crate::parse::opt_view(*worktree)));
}

fn push_slices_part(out: &mut Vec<char>, ss: &Vec<Slice>, worktree: &Option<String>)
    ensures
        final(out)@ == old(out)@ + slices_part(ss@, crate::parse::opt_view(*worktree)),
{
    if ss.len() == 0 {
        assert(old(out)@ + slices_part(ss@, crate::parse::opt_view(*worktree)) =~= old(out)@);
        return;
    }
    push_str(out, "## Slices\n\n| Slice | Status | Branch | Where |\n| --- | --- | --- | --- |\n");
    let ghost head = out@;
    let ghost wv = crate::parse::opt_view(*worktree);
    let mut i: usize = 0;
    while i < ss.len()
        invariant
            i <= ss@.len(),
            wv == crate::parse::opt_view(*worktree),
            out@ == head + resume_rows(ss@.take(i as int), wv),
        decreases ss.len() - i,
    {
        assert(ss@.take(i + 1).drop_last() =~= ss@.take(i as int));
        push_resume_row(out, &ss[i], worktree);
        assert(out@ =~= head + resume_rows(ss@.take(i + 1), wv));
        i += 1;
    }
    assert(ss@.take(ss@.len() as int) =~= ss@);
    push_str(out, "\n");
}

fn push_gotchas_part(out: &mut Vec<char>, gs: &Vec<Gotcha>)
    ensures
        final(out)@ == old(out)@ + gotchas_part(gs@),
{
    if gs.len() == 0 {
        assert(old(out)@ + gotchas_part(gs@) =~= old(out)@);
        return;
    }
    push_str(out, "## Gotchas\n\n");
    let ghost head = out@;
    let mut i: usize = 0;
    while i < gs.len()
        invariant
            i <= gs@.len(),
            out@ == head + gotcha_entries(gs@.take(i as int)),
        decreases gs.len() - i,
    {
        assert(gs@.take(i + 1).drop_last() =~= gs@.take(i as int));
        let g = &gs[i];
        let ghost before = out@;
        push_str(out, "### ");
        push_str(out, g.title.as_str());
        push_str(out, "\n\n");
        let bv = chars_of(g.body.as_str());
        let bt = trimmed(&bv);
        if bt.len() > 0 {
            push_all(out, &bt);
            push_str(out, "\n\n");
        }
        assert(out@ =~= head + gotcha_entries(gs@.take(i + 1)));
        i += 1;
    }
    assert(gs@.take(gs@.len() as int) =~= gs@);
}

fn push_questions_part(out: &mut Vec<char>, qs: &Vec<Question>)
    ensures
        final(out)@ == old(out)@ + questions_part(qs@),
{
    if qs.len() == 0 {
        assert(old(out)@ + questions_part(qs@) =~= old(out)@);
        return;
    }
    push_str(out, "## Open questions\n\n");
    let ghost head = out@;
    let mut i: usize = 0;
    while i < qs.len()
        invariant
            i <= qs@.len(),
            out@ == head + question_entries(qs@.take(i as int)),
        decreases qs.len() - i,
    {
        assert(qs@.take(i + 1).drop_last() =~= qs@.take(i as int));
        push_str(out, "- ");
        push_str(out, qs[i].body.as_str());
        push_str(out, "\n");
        assert(out@ =~= head + question_entries(qs@.take(i + 1)));
        i += 1;
    }
    assert(qs@.take(qs@.len() as int) =~= qs@);
    push_str(out, "\n");
}

fn push_recent_line(out: &mut Vec<char>, e: &LogEntry)
    ensures
        final(out)@ == old(out)@ + recent_line(*e),
{
    push_str(out, "- ");
    let d = crate::render::date_of(e.at.as_str());
    push_all(out, &d);
    push_str(out, " - ");
    match &e.slice_key {
        Some(k) => {
            push_str(out, "**");
            push_str(out, k.as_str());
            push_str(out, "** ");
        },
        None => {},
    }
    let bv = chars_of(e.body.as_str());
    proof {
        reveal_strlit("\n");
    }
    let b = replaced_str(&bv, "\n", " ");
    push_all(out, &b);
    push_str(out, "\n");
    assert(out@ =~= old(out)@ + recent_line(*e));
}

fn push_recent_part(out: &mut Vec<char>, es: &Vec<LogEntry>)
    ensures
        final(out)@ == old(out)@ + recent_part(es@),
{
    if es.len() == 0 {
        assert(old(out)@ + recent_part(es@) =~= old(out)@);
        return;
    }
    push_str(out, "## Recent\n\n");
    let ghost head = out@;
    let mut i: usize = 0;
    while i < es.len()
        invariant
            i <= es@.len(),
            out@ == head + recent_lines(es@.take(i as int)),
        decreases es.len() - i,
    {
        assert(es@.take(i + 1).drop_last() =~= es@.take(i as int));
        push_recent_line(out, &es[i]);
        assert(out@ =~= head + recent_lines(es@.take(i + 1)));
        i += 1;
    }
    assert(es@.take(es@.len() as int) =~= es@);
    push_str(out, "\n");
}

/// The resume document, from the plan's live rows: its slices in order, the latest
/// handoff from this worktree, the next slice to pick up, its gotchas, its open
/// questions and its most recent log entries.
pub fn render_resume(
    plan: &Plan,
    slices: &Vec<Slice>,
    handoff: &Option<Handoff>,
    next: &Option<Slice>,
    gotchas: &Vec<Gotcha>,
    questions: &Vec<Question>,
    log: &Vec<LogEntry>,
    worktree: &Option<String>,
) -> (r: String)
    ensures
        r@ == resume_text(
            *plan,
            slices@,
            *handoff,
            *next,
            gotchas@,
            questions@,
            log@,
            crate::parse::opt_view(*worktree),
        ),
{
    let mut done: usize = 0;
    let mut i: usize = 0;
    while i < slices.len()
        invariant
            i <= slices@.len(),
            done == done_count(slices@.take(i as int)),
            done <= i,
        decreases slices.len() - i,
    {
        assert(slices@.take(i + 1).drop_last() =~= slices@.take(i as int));
        if slices[i].status == Status::Done {
            done += 1;
        }
        i += 1;
    }
    assert(slices@.take(slices@.len() as int) =~= slices@);
    let mut out: Vec<char> = Vec::new();
    push_str(&mut out, "# Resume: ");
    push_str(&mut out, plan.title.as_str());
    push_str(&mut out, "\n\n");
    push_str(&mut out, "**Plan:** `");
    push_str(&mut out, plan.slug.as_str());
    push_str(&mut out, "` · **Status:** ");
    push_str(&mut out, plan.status.as_str());
    push_str(&mut out, " · **");
    push_decimal(&mut out, done as u128);
    push_str(&mut out, "/");
    push_decimal(&mut out, slices.len() as u128);
    push_str(&mut out, " slices done**\n");
    push_handoff_lines(&mut out, handoff);
    push_str(&mut out, "\n");
    let ghost a = out@;
    match handoff {
        Some(h) => push_titled(&mut out, "Do this first", h.next_md.as_str()),
        None => {},
    }
    let ghost b = out@;
    push_next(&mut out, next);
    push_slices_part(&mut out, slices, worktree);
    push_gotchas_part(&mut out, gotchas);
    push_questions_part(&mut out, questions);
    push_recent_part(&mut out, log);
    let ghost c = out@;
    match handoff {
        Some(h) => push_titled(&mut out, "Notes from the last session", h.resume_md.as_str()),
        None => {},
    }
    let ghost d = out@;
    push_str(&mut out, "---\n\nRead the full plan with `aip show ");
    push_str(&mut out, plan.slug.as_str());
    push_str(
        &mut out,
        "`. Record progress as you go with `aip log`, and move slices with `aip slice set <key> <status>`.\n",
    );
    proof {
        assert(b =~= a + match *handoff {
            Some(h) => titled("Do this first"@, h.next_md@),
            None => Seq::empty(),
        });
        assert(d =~= c + match *handoff {
            Some(h) => titled("Notes from the last session"@, h.resume_md@),
            None => Seq::empty(),
        });
    }
    assert(out@ =~= resume_text(
        *plan,
        slices@,
        *handoff,
        *next,
        gotchas@,
        questions@,
        log@,
        crate::parse::opt_view(*worktree),
    ));
    string_of(&out)
}
} // verus!
