//! Rendering a plan back to the markdown it replaced: an agent that wants "the plan"
//! gets the document it used to read, assembled from the rows.
use vstd::prelude::*;

use crate::model::{
    decision_status_name, status_marker, status_name, Decision, DecisionStatus, Gotcha, LogEntry,
    LogKind, PlanBundle, PlanSource, Question, Renders, Section, Slice, Status,
};
use crate::text::{
    chars_of, dec, dec_int, ends_with, find, find_in, join, joined_str, lemma_views_push, lines,
    lines_of, push_all, push_decimal, push_int, push_str, replace, replaced_str, slice_of,
    string_of, to_uppercase, trim, trim_end, trimmed, trimmed_end, uppercase, views,
};

verus! {

// ---------------------------------------------------------------------------
// Small pieces
// ---------------------------------------------------------------------------

/// Progress notes, verification results, blockers and handoffs make the document's
/// log; status flips and decision records are visible elsewhere.
pub open spec fn narrative(kind: LogKind) -> bool {
    kind == LogKind::Progress || kind == LogKind::Verification || kind == LogKind::Blocker || kind
        == LogKind::Handoff
}

pub fn is_narrative(kind: LogKind) -> (r: bool)
    ensures
        r == narrative(kind),
{
    matches!(kind, LogKind::Progress | LogKind::Verification | LogKind::Blocker | LogKind::Handoff)
}

/// The first character upper-cased, the rest as it is.
pub open spec fn capitalised(s: Seq<char>) -> Seq<char> {
    if s.len() == 0 {
        Seq::empty()
    } else {
        uppercase(s.take(1)) + s.skip(1)
    }
}

pub fn capitalise(s: &str) -> (r: String)
    ensures
        r@ == capitalised(s@),
{
    let v = chars_of(s);
    if v.len() == 0 {
        return String::new();
    }
    let first = slice_of(&v, 0, 1);
    let rest = slice_of(&v, 1, v.len());
    let mut out = to_uppercase(&first);
    push_all(&mut out, &rest);
    assert(first@ =~= s@.take(1));
    assert(rest@ =~= s@.skip(1));
    string_of(&out)
}

/// The heading given to generated content that has no section of its own.
pub open spec fn default_title(r: Renders) -> Seq<char> {
    match r {
        Renders::Body => "Notes"@,
        Renders::Sources => "Sources"@,
        Renders::Decisions => "Decisions"@,
        Renders::Slices => "Delivery slices"@,
        Renders::Questions => "Open questions"@,
        Renders::Gotchas => "Gotchas"@,
        Renders::Log => "Progress log"@,
    }
}

pub fn default_heading(r: Renders) -> (s: &'static str)
    ensures
        s@ == default_title(r),
{
    match r {
        Renders::Body => "Notes",
        Renders::Sources => "Sources",
        Renders::Decisions => "Decisions",
        Renders::Slices => "Delivery slices",
        Renders::Questions => "Open questions",
        Renders::Gotchas => "Gotchas",
        Renders::Log => "Progress log",
    }
}

/// The text of an optional field, or nothing.
pub open spec fn or_empty(o: Option<String>) -> Seq<char> {
    match o {
        Some(s) => s@,
        None => Seq::empty(),
    }
}

/// `writeln!(out, "{text}\n")` for text that may be blank: nothing when it is.
pub open spec fn para(text: Seq<char>) -> Seq<char> {
    if text.len() == 0 {
        Seq::empty()
    } else {
        text + "\n\n"@
    }
}

fn push_para(out: &mut Vec<char>, text: &[char])
    ensures
        final(out)@ == old(out)@ + para(text@),
{
    if text.len() > 0 {
        push_all(out, text);
        push_str(out, "\n\n");
    } else {
        assert(old(out)@ + para(text@) =~= old(out)@);
    }
}

// ---------------------------------------------------------------------------
// Sources
// ---------------------------------------------------------------------------

pub open spec fn source_row(s: PlanSource) -> Seq<char> {
    "| "@ + s.kind@ + " | "@ + s.reference@ + " | "@ + or_empty(s.note) + " |\n"@
}

pub open spec fn source_rows(ss: Seq<PlanSource>) -> Seq<char>
    decreases ss.len(),
{
    if ss.len() == 0 {
        Seq::empty()
    } else {
        source_rows(ss.drop_last()) + source_row(ss.last())
    }
}

pub open spec fn sources_block(ss: Seq<PlanSource>) -> Option<Seq<char>> {
    if ss.len() == 0 {
        None
    } else {
        Some("| Kind | Reference | Note |\n| --- | --- | --- |\n"@ + source_rows(ss))
    }
}

fn push_opt(out: &mut Vec<char>, o: &Option<String>)
    ensures
        final(out)@ == old(out)@ + or_empty(*o),
{
    match o {
        Some(s) => push_str(out, s.as_str()),
        None => {
            assert(old(out)@ + or_empty(*o) =~= old(out)@);
        },
    }
}

fn render_sources(ss: &Vec<PlanSource>) -> (r: Option<Vec<char>>)
    ensures
        match r {
            Some(v) => sources_block(ss@) == Some(v@),
            None => sources_block(ss@) is None,
        },
{
    if ss.len() == 0 {
        return None;
    }
    let mut out: Vec<char> = Vec::new();
    push_str(&mut out, "| Kind | Reference | Note |\n| --- | --- | --- |\n");
    let ghost head = out@;
    let mut i: usize = 0;
    while i < ss.len()
        invariant
            i <= ss@.len(),
            out@ == head + source_rows(ss@.take(i as int)),
        decreases ss.len() - i,
    {
        let s = &ss[i];
        assert(ss@.take(i + 1).drop_last() =~= ss@.take(i as int));
        push_str(&mut out, "| ");
        push_str(&mut out, s.kind.as_str());
        push_str(&mut out, " | ");
        push_str(&mut out, s.reference.as_str());
        push_str(&mut out, " | ");
        push_opt(&mut out, &s.note);
        push_str(&mut out, " |\n");
        assert(out@ =~= head + source_rows(ss@.take(i + 1)));
        i += 1;
    }
    assert(ss@.take(ss@.len() as int) =~= ss@);
    Some(out)
}

// ---------------------------------------------------------------------------
// Gotchas
// ---------------------------------------------------------------------------

pub open spec fn gotcha_text(g: Gotcha) -> Seq<char> {
    "### "@ + g.title@ + "\n\n"@ + para(trim_end(g.body@))
}

pub open spec fn gotcha_texts(gs: Seq<Gotcha>) -> Seq<char>
    decreases gs.len(),
{
    if gs.len() == 0 {
        Seq::empty()
    } else {
        gotcha_texts(gs.drop_last()) + gotcha_text(gs.last())
    }
}

pub open spec fn gotchas_block(gs: Seq<Gotcha>) -> Option<Seq<char>> {
    if gs.len() == 0 {
        None
    } else {
        Some(gotcha_texts(gs))
    }
}

fn render_gotchas(gs: &Vec<Gotcha>) -> (r: Option<Vec<char>>)
    ensures
        match r {
            Some(v) => gotchas_block(gs@) == Some(v@),
            None => gotchas_block(gs@) is None,
        },
{
    if gs.len() == 0 {
        return None;
    }
    let mut out: Vec<char> = Vec::new();
    let mut i: usize = 0;
    while i < gs.len()
        invariant
            i <= gs@.len(),
            out@ == gotcha_texts(gs@.take(i as int)),
        decreases gs.len() - i,
    {
        let g = &gs[i];
        assert(gs@.take(i + 1).drop_last() =~= gs@.take(i as int));
        push_str(&mut out, "### ");
        push_str(&mut out, g.title.as_str());
        push_str(&mut out, "\n\n");
        let body = chars_of(g.body.as_str());
        let body = trimmed_end(&body);
        push_para(&mut out, &body);
        assert(out@ =~= gotcha_texts(gs@.take(i + 1)));
        i += 1;
    }
    assert(gs@.take(gs@.len() as int) =~= gs@);
    Some(out)
}


// ---------------------------------------------------------------------------
// Decisions
// ---------------------------------------------------------------------------

/// `Superseded by D4`, `Rejected`: what a decision that is not agreed says about itself.
pub open spec fn decision_head(d: Decision) -> Seq<char> {
    capitalised(decision_status_name(d.status)) + match d.superseded_by {
        Some(k) => " by "@ + k@,
        None => Seq::empty(),
    }
}

pub open spec fn decision_banner(d: Decision) -> Seq<char> {
    if d.status == DecisionStatus::Agreed {
        Seq::empty()
    } else {
        match d.supersede_note {
            Some(n) => if trim(n@).len() > 0 {
                "> **"@ + decision_head(d) + "** - "@ + n@ + "\n\n"@
            } else {
                "> **"@ + decision_head(d) + "**\n\n"@
            },
            None => "> **"@ + decision_head(d) + "**\n\n"@,
        }
    }
}

pub open spec fn decision_text(d: Decision) -> Seq<char> {
    "### "@ + d.key@ + " - "@ + d.title@ + "\n\n"@ + decision_banner(d) + para(trim_end(d.body@))
}

pub open spec fn decision_texts(ds: Seq<Decision>) -> Seq<char>
    decreases ds.len(),
{
    if ds.len() == 0 {
        Seq::empty()
    } else {
        decision_texts(ds.drop_last()) + decision_text(ds.last())
    }
}

pub open spec fn decisions_block(ds: Seq<Decision>) -> Option<Seq<char>> {
    if ds.len() == 0 {
        None
    } else {
        Some(decision_texts(ds))
    }
}

fn push_decision_banner(out: &mut Vec<char>, d: &Decision)
    ensures
        final(out)@ == old(out)@ + decision_banner(*d),
{
    if d.status == DecisionStatus::Agreed {
        assert(old(out)@ + decision_banner(*d) =~= old(out)@);
        return;
    }
    let word = capitalise(d.status.as_str());
    let mut head = chars_of(word.as_str());
    match &d.superseded_by {
        Some(k) => {
            push_str(&mut head, " by ");
            push_str(&mut head, k.as_str());
        },
        None => {},
    }
    assert(head@ =~= decision_head(*d));
    push_str(out, "> **");
    push_all(out, &head);
    match &d.supersede_note {
        Some(n) => {
            let nv = chars_of(n.as_str());
            let nt = trimmed(&nv);
            if nt.len() > 0 {
                push_str(out, "** - ");
                push_all(out, &nv);
                push_str(out, "\n\n");
            } else {
                push_str(out, "**\n\n");
            }
        },
        None => {
            push_str(out, "**\n\n");
        },
    }
    assert(final(out)@ =~= old(out)@ + decision_banner(*d)) by {
        assert(out@ =~= old(out)@ + decision_banner(*d));
    }
}

fn render_decisions(ds: &Vec<Decision>) -> (r: Option<Vec<char>>)
    ensures
        match r {
            Some(v) => decisions_block(ds@) == Some(v@),
            None => decisions_block(ds@) is None,
        },
{
    if ds.len() == 0 {
        return None;
    }
    let mut out: Vec<char> = Vec::new();
    let mut i: usize = 0;
    while i < ds.len()
        invariant
            i <= ds@.len(),
            out@ == decision_texts(ds@.take(i as int)),
        decreases ds.len() - i,
    {
        let d = &ds[i];
        assert(ds@.take(i + 1).drop_last() =~= ds@.take(i as int));
        push_str(&mut out, "### ");
        push_str(&mut out, d.key.as_str());
        push_str(&mut out, " - ");
        push_str(&mut out, d.title.as_str());
        push_str(&mut out, "\n\n");
        push_decision_banner(&mut out, d);
        let body = chars_of(d.body.as_str());
        let body = trimmed_end(&body);
        push_para(&mut out, &body);
        assert(out@ =~= decision_texts(ds@.take(i + 1)));
        i += 1;
    }
    assert(ds@.take(ds@.len() as int) =~= ds@);
    Some(out)
}

// ---------------------------------------------------------------------------
// Questions
// ---------------------------------------------------------------------------

pub open spec fn question_text(q: Question) -> Seq<char> {
    "- ["@ + seq![if q.status@ == "open"@ { ' ' } else { 'x' }] + "] "@ + match q.slice_key {
        Some(k) => "("@ + k@ + ") "@,
        None => Seq::empty(),
    } + q.body@ + "\n"@ + match q.answer {
        Some(a) => if trim(a@).len() > 0 {
            "  - **Answer:** "@ + a@ + "\n"@
        } else {
            Seq::empty()
        },
        None => Seq::empty(),
    }
}

/// A question's line: the box is empty exactly when the question is open and ticked
/// otherwise, the question's text follows on the same line, and an answer that is not
/// blank ends the entry on a line of its own (with none, the question's line ends it).
pub proof fn law_a_question_is_ticked_exactly_when_it_is_not_open(q: Question)
    ensures
        crate::text::starts_with(question_text(q), "- [ ] "@) <==> q.status@ == "open"@,
        crate::text::starts_with(question_text(q), "- [x] "@) <==> q.status@ != "open"@,
        exists|a: Seq<char>, c: Seq<char>| question_text(q) == a + q.body@ + "\n"@ + c,
        (q.answer matches Some(x) && trim(x@).len() > 0) ==> ends_with(
            question_text(q),
            "  - **Answer:** "@ + q.answer->0@ + "\n"@,
        ),
        !(q.answer matches Some(x) && trim(x@).len() > 0) ==> ends_with(question_text(q), q.body@ + "\n"@),
{
    reveal_strlit("- [ ] ");
    reveal_strlit("- [x] ");
    reveal_strlit("- [");
    reveal_strlit("] ");
    let mark = "- ["@ + seq![if q.status@ == "open"@ { ' ' } else { 'x' }] + "] "@;
    let scope = match q.slice_key {
        Some(k) => "("@ + k@ + ") "@,
        None => Seq::empty(),
    };
    let tail = match q.answer {
        Some(a) => if trim(a@).len() > 0 {
            "  - **Answer:** "@ + a@ + "\n"@
        } else {
            Seq::empty()
        },
        None => Seq::empty(),
    };
    let t = question_text(q);
    assert(t == mark + scope + q.body@ + "\n"@ + tail);
    assert(t.take(6) =~= mark);
    assert(mark[3] == if q.status@ == "open"@ { ' ' } else { 'x' });
    assert(("- [ ] "@)[3] == ' ');
    assert(("- [x] "@)[3] == 'x');
    if q.status@ == "open"@ {
        assert(mark =~= "- [ ] "@);
        assert(t.take(6)[3] != ("- [x] "@)[3]);
    } else {
        assert(mark =~= "- [x] "@);
        assert(t.take(6)[3] != ("- [ ] "@)[3]);
    }
    assert(t == (mark + scope) + q.body@ + "\n"@ + tail);
    let u = q.body@ + "\n"@;
    if tail.len() > 0 {
        assert(t.subrange(t.len() - tail.len(), t.len() as int) =~= tail);
    } else {
        assert(t =~= (mark + scope) + u);
        assert(t.subrange(t.len() - u.len(), t.len() as int) =~= u);
    }
}

pub open spec fn question_texts(qs: Seq<Question>) -> Seq<char>
    decreases qs.len(),
{
    if qs.len() == 0 {
        Seq::empty()
    } else {
        question_texts(qs.drop_last()) + question_text(qs.last())
    }
}

pub open spec fn questions_block(qs: Seq<Question>) -> Option<Seq<char>> {
    if qs.len() == 0 {
        None
    } else {
        Some(question_texts(qs) + "\n"@)
    }
}

fn push_question(out: &mut Vec<char>, q: &Question)
    ensures
        final(out)@ == old(out)@ + question_text(*q),
{
    let st = chars_of(q.status.as_str());
    let open = crate::model::is_word(&st, "open");
    push_str(out, "- [");
    out.push(if open { ' ' } else { 'x' });
    push_str(out, "] ");
    match &q.slice_key {
        Some(k) => {
            push_str(out, "(");
            push_str(out, k.as_str());
            push_str(out, ") ");
        },
        None => {},
    }
    push_str(out, q.body.as_str());
    push_str(out, "\n");
    match &q.answer {
        Some(a) => {
            let av = chars_of(a.as_str());
            let at = trimmed(&av);
            if at.len() > 0 {
                push_str(out, "  - **Answer:** ");
                push_all(out, &av);
                push_str(out, "\n");
            }
        },
        None => {},
    }
    assert(out@ =~= old(out)@ + question_text(*q));
}

fn render_questions(qs: &Vec<Question>) -> (r: Option<Vec<char>>)
    ensures
        match r {
            Some(v) => questions_block(qs@) == Some(v@),
            None => questions_block(qs@) is None,
        },
{
    if qs.len() == 0 {
        return None;
    }
    let mut out: Vec<char> = Vec::new();
    let mut i: usize = 0;
    while i < qs.len()
        invariant
            i <= qs@.len(),
            out@ == question_texts(qs@.take(i as int)),
        decreases qs.len() - i,
    {
        let ghost before = out@;
        assert(qs@.take(i + 1).drop_last() =~= qs@.take(i as int));
        push_question(&mut out, &qs[i]);
        assert(out@ =~= question_texts(qs@.take(i + 1)));
        i += 1;
    }
    assert(qs@.take(qs@.len() as int) =~= qs@);
    push_str(&mut out, "\n");
    Some(out)
}

// ---------------------------------------------------------------------------
// Progress log
// ---------------------------------------------------------------------------

/// The date part of a timestamp: everything before the first `T`.
pub open spec fn date_part(at: Seq<char>) -> Seq<char> {
    match find(at, "T"@) {
        Some(i) => at.take(i),
        None => at,
    }
}

pub fn date_of(at: &str) -> (r: Vec<char>)
    ensures
        r@ == date_part(at@),
{
    let v = chars_of(at);
    let t = chars_of("T");
    let f = find_in(&v, &t);
    proof {
        crate::text::lemma_find_from_bounds(v@, t@, 0);
    }
    match f {
        Some(i) => {
            let r = slice_of(&v, 0, i);
            assert(r@ =~= at@.take(i as int));
            r
        },
        None => v,
    }
}

pub open spec fn log_line(e: LogEntry) -> Seq<char> {
    "- "@ + date_part(e.at@) + match e.actor {
        Some(a) => if a@.len() > 0 {
            " ("@ + a@ + ")"@
        } else {
            Seq::empty()
        },
        None => Seq::empty(),
    } + " - "@ + match e.slice_key {
        Some(k) => "**"@ + k@ + "** "@,
        None => Seq::empty(),
    } + replace(trim(e.body@), "\n"@, "\n  "@) + "\n"@
}

/// The bullets of the narrative entries, in order; other kinds are left out.
pub open spec fn log_lines(es: Seq<LogEntry>) -> Seq<char>
    decreases es.len(),
{
    if es.len() == 0 {
        Seq::empty()
    } else if narrative(es.last().kind) {
        log_lines(es.drop_last()) + log_line(es.last())
    } else {
        log_lines(es.drop_last())
    }
}

/// No narrative entry, no block.
pub open spec fn log_block(es: Seq<LogEntry>) -> Option<Seq<char>> {
    if log_lines(es).len() == 0 {
        None
    } else {
        Some(log_lines(es) + "\n"@)
    }
}

fn push_log_line(out: &mut Vec<char>, e: &LogEntry)
    ensures
        final(out)@ == old(out)@ + log_line(*e),
{
    push_str(out, "- ");
    let d = date_of(e.at.as_str());
    push_all(out, &d);
    let ghost mid = out@;
    match &e.actor {
        Some(a) => {
            let av = chars_of(a.as_str());
            if av.len() > 0 {
                push_str(out, " (");
                push_all(out, &av);
                push_str(out, ")");
            }
        },
        None => {},
    }
    push_str(out, " - ");
    match &e.slice_key {
        Some(k) => {
            push_str(out, "**");
            push_str(out, k.as_str());
            push_str(out, "** ");
        },
        None => {},
    }
    let bv = chars_of(e.body.as_str());
    let bt = trimmed(&bv);
    proof {
        reveal_strlit("\n");
    }
    let body = replaced_str(&bt, "\n", "\n  ");
    push_all(out, &body);
    push_str(out, "\n");
    assert(out@ =~= old(out)@ + log_line(*e));
}

fn render_log(es: &Vec<LogEntry>) -> (r: Option<Vec<char>>)
    ensures
        match r {
            Some(v) => log_block(es@) == Some(v@),
            None => log_block(es@) is None,
        },
{
    let mut out: Vec<char> = Vec::new();
    let mut i: usize = 0;
    while i < es.len()
        invariant
            i <= es@.len(),
            out@ == log_lines(es@.take(i as int)),
        decreases es.len() - i,
    {
        let e = &es[i];
        let ghost before = out@;
        assert(es@.take(i + 1).drop_last() =~= es@.take(i as int));
        if is_narrative(e.kind) {
            push_log_line(&mut out, e);
        }
        assert(out@ =~= log_lines(es@.take(i + 1)));
        i += 1;
    }
    assert(es@.take(es@.len() as int) =~= es@);
    if out.len() == 0 {
        return None;
    }
    push_str(&mut out, "\n");
    Some(out)
}


// ---------------------------------------------------------------------------
// Slices
// ---------------------------------------------------------------------------

pub open spec fn status_text(st: Status) -> Seq<char> {
    status_marker(st) + " "@ + status_name(st)
}

/// The pieces of a slice's meta line, in the order they are shown.
pub open spec fn meta_bits(s: Slice) -> Seq<Seq<char>> {
    let b0 = seq!["**Status:** "@ + status_text(s.status)];
    let b1 = match s.estimate_files {
        Some(n) => b0.push("**~"@ + dec_int(n as int) + " files**"@),
        None => b0,
    };
    let b2 = match s.branch {
        Some(x) => b1.push("**Branch:** `"@ + x@ + "`"@),
        None => b1,
    };
    let b3 = match s.base_branch {
        Some(x) => b2.push("**Base:** `"@ + x@ + "`"@),
        None => b2,
    };
    let b4 = match s.pr_url {
        Some(x) => b3.push("**PR:** "@ + x@),
        None => b3,
    };
    match (s.claimed_by, s.worktree_path) {
        (Some(by), Some(wt)) => b4.push("**Claimed:** "@ + by@ + " in `"@ + wt@ + "`"@),
        _ => b4,
    }
}

pub open spec fn meta_line(s: Slice) -> Seq<char> {
    join(meta_bits(s), " · "@)
}

fn push_bit(bits: &mut Vec<Vec<char>>, bit: Vec<char>)
    ensures
        views(final(bits)@) == views(old(bits)@).push(bit@),
{
    proof {
        lemma_views_push(bits@, bit);
    }
    bits.push(bit);
}

/// The line under a slice's heading: status, size, branch, base, PR and claim.
pub fn slice_meta_line(s: &Slice) -> (r: String)
    ensures
        r@ == meta_line(*s),
{
    let mut bits: Vec<Vec<char>> = Vec::new();
    let mut b: Vec<char> = Vec::new();
    push_str(&mut b, "**Status:** ");
    push_str(&mut b, s.status.marker());
    push_str(&mut b, " ");
    push_str(&mut b, s.status.as_str());
    assert(b@ =~= "**Status:** "@ + status_text(s.status));
    assert(views(bits@) =~= Seq::<Seq<char>>::empty());
    push_bit(&mut bits, b);
    let ghost b0 = seq!["**Status:** "@ + status_text(s.status)];
    assert(views(bits@) =~= b0);
    if let Some(n) = s.estimate_files {
        let mut b: Vec<char> = Vec::new();
        push_str(&mut b, "**~");
        push_int(&mut b, n);
        push_str(&mut b, " files**");
        assert(b@ =~= "**~"@ + dec_int(n as int) + " files**"@);
        push_bit(&mut bits, b);
    }
    let ghost b1 = match s.estimate_files {
        Some(n) => b0.push("**~"@ + dec_int(n as int) + " files**"@),
        None => b0,
    };
    assert(views(bits@) =~= b1);
    if let Some(x) = &s.branch {
        let mut b: Vec<char> = Vec::new();
        push_str(&mut b, "**Branch:** `");
        push_str(&mut b, x.as_str());
        push_str(&mut b, "`");
        assert(b@ =~= "**Branch:** `"@ + x@ + "`"@);
        push_bit(&mut bits, b);
    }
    let ghost b2 = match &s.branch {
        Some(x) => b1.push("**Branch:** `"@ + x@ + "`"@),
        None => b1,
    };
    assert(views(bits@) =~= b2);
    if let Some(x) = &s.base_branch {
        let mut b: Vec<char> = Vec::new();
        push_str(&mut b, "**Base:** `");
        push_str(&mut b, x.as_str());
        push_str(&mut b, "`");
        assert(b@ =~= "**Base:** `"@ + x@ + "`"@);
        push_bit(&mut bits, b);
    }
    let ghost b3 = match &s.base_branch {
        Some(x) => b2.push("**Base:** `"@ + x@ + "`"@),
        None => b2,
    };
    assert(views(bits@) =~= b3);
    if let Some(x) = &s.pr_url {
        let mut b: Vec<char> = Vec::new();
        push_str(&mut b, "**PR:** ");
        push_str(&mut b, x.as_str());
        assert(b@ =~= "**PR:** "@ + x@);
        push_bit(&mut bits, b);
    }
    let ghost b4 = match &s.pr_url {
        Some(x) => b3.push("**PR:** "@ + x@),
        None => b3,
    };
    assert(views(bits@) =~= b4);
    match (&s.claimed_by, &s.worktree_path) {
        (Some(by), Some(wt)) => {
            let mut b: Vec<char> = Vec::new();
            push_str(&mut b, "**Claimed:** ");
            push_str(&mut b, by.as_str());
            push_str(&mut b, " in `");
            push_str(&mut b, wt.as_str());
            push_str(&mut b, "`");
            assert(b@ =~= "**Claimed:** "@ + by@ + " in `"@ + wt@ + "`"@);
            push_bit(&mut bits, b);
        },
        _ => {},
    }
    assert(views(bits@) =~= meta_bits(*s));
    let line = joined_str(&bits, " · ");
    string_of(&line)
}

pub open spec fn slice_row(s: Slice) -> Seq<char> {
    "| "@ + s.key@ + " | "@ + s.title@ + " | "@ + status_text(s.status) + " | "@ + match s.branch {
        Some(x) => "`"@ + x@ + "`"@,
        None => Seq::empty(),
    } + " | "@ + or_empty(s.pr_url) + " |\n"@
}

pub open spec fn slice_rows(ss: Seq<Slice>) -> Seq<char>
    decreases ss.len(),
{
    if ss.len() == 0 {
        Seq::empty()
    } else {
        slice_rows(ss.drop_last()) + slice_row(ss.last())
    }
}

/// A trimmed optional field with something in it, shown as `label` and the text.
pub open spec fn labelled(label: Seq<char>, o: Option<String>) -> Seq<char> {
    match o {
        Some(x) => if trim(x@).len() > 0 {
            label + trim(x@) + "\n\n"@
        } else {
            Seq::empty()
        },
        None => Seq::empty(),
    }
}

pub open spec fn slice_text(s: Slice) -> Seq<char> {
    "### "@ + s.key@ + " - "@ + s.title@ + "\n\n"@ + meta_line(s) + "\n\n"@ + para(
        trim_end(s.scope_md@),
    ) + labelled("**Demo:** "@, s.demo_md) + labelled("**Blocked:** "@, s.blocked_reason)
}

pub open spec fn slice_texts(ss: Seq<Slice>) -> Seq<char>
    decreases ss.len(),
{
    if ss.len() == 0 {
        Seq::empty()
    } else {
        slice_texts(ss.drop_last()) + slice_text(ss.last())
    }
}

/// The at-a-glance table first, then each slice under its own heading.
pub open spec fn slices_block(ss: Seq<Slice>) -> Option<Seq<char>> {
    if ss.len() == 0 {
        None
    } else {
        Some(
            "| Slice | Title | Status | Branch | PR |\n| --- | --- | --- | --- | --- |\n"@
                + slice_rows(ss) + "\n"@ + slice_texts(ss),
        )
    }
}

fn push_labelled(out: &mut Vec<char>, label: &str, o: &Option<String>)
    ensures
        final(out)@ == old(out)@ + labelled(label@, *o),
{
    match o {
        Some(x) => {
            let xv = chars_of(x.as_str());
            let xt = trimmed(&xv);
            if xt.len() > 0 {
                push_str(out, label);
                push_all(out, &xt);
                push_str(out, "\n\n");
            } else {
                assert(old(out)@ + labelled(label@, *o) =~= old(out)@);
            }
        },
        None => {
            assert(old(out)@ + labelled(label@, *o) =~= old(out)@);
        },
    }
}

#[verifier::spinoff_prover]
#[verifier::rlimit(40)]
fn push_slice_row(out: &mut Vec<char>, s: &Slice)
    ensures
        final(out)@ == old(out)@ + slice_row(*s),
{
    push_str(out, "| ");
    push_str(out, s.key.as_str());
    push_str(out, " | ");
    push_str(out, s.title.as_str());
    push_str(out, " | ");
    push_str(out, s.status.marker());
    push_str(out, " ");
    push_str(out, s.status.as_str());
    push_str(out, " | ");
    match &s.branch {
        Some(x) => {
            push_str(out, "`");
            push_str(out, x.as_str());
            push_str(out, "`");
        },
        None => {},
    }
    push_str(out, " | ");
    push_opt(out, &s.pr_url);
    push_str(out, " |\n");
    assert(out@ =~= old(out)@ + slice_row(*s));
}

fn push_slice_text(out: &mut Vec<char>, s: &Slice)
    ensures
        final(out)@ == old(out)@ + slice_text(*s),
{
    push_str(out, "### ");
    push_str(out, s.key.as_str());
    push_str(out, " - ");
    push_str(out, s.title.as_str());
    push_str(out, "\n\n");
    let meta = slice_meta_line(s);
    push_str(out, meta.as_str());
    push_str(out, "\n\n");
    let sc = chars_of(s.scope_md.as_str());
    let sc = trimmed_end(&sc);
    push_para(out, &sc);
    push_labelled(out, "**Demo:** ", &s.demo_md);
    push_labelled(out, "**Blocked:** ", &s.blocked_reason);
    assert(out@ =~= old(out)@ + slice_text(*s));
}

fn render_slices(ss: &Vec<Slice>) -> (r: Option<Vec<char>>)
    ensures
        match r {
            Some(v) => slices_block(ss@) == Some(v@),
            None => slices_block(ss@) is None,
        },
{
    if ss.len() == 0 {
        return None;
    }
    let mut out: Vec<char> = Vec::new();
    push_str(&mut out, "| Slice | Title | Status | Branch | PR |\n| --- | --- | --- | --- | --- |\n");
    let ghost head = out@;
    let mut i: usize = 0;
    while i < ss.len()
        invariant
            i <= ss@.len(),
            out@ == head + slice_rows(ss@.take(i as int)),
        decreases ss.len() - i,
    {
        assert(ss@.take(i + 1).drop_last() =~= ss@.take(i as int));
        push_slice_row(&mut out, &ss[i]);
        assert(out@ =~= head + slice_rows(ss@.take(i + 1)));
        i += 1;
    }
    assert(ss@.take(ss@.len() as int) =~= ss@);
    push_str(&mut out, "\n");
    let ghost table = out@;
    let mut i: usize = 0;
    while i < ss.len()
        invariant
            i <= ss@.len(),
            out@ == table + slice_texts(ss@.take(i as int)),
        decreases ss.len() - i,
    {
        assert(ss@.take(i + 1).drop_last() =~= ss@.take(i as int));
        push_slice_text(&mut out, &ss[i]);
        assert(out@ =~= table + slice_texts(ss@.take(i + 1)));
        i += 1;
    }
    assert(ss@.take(ss@.len() as int) =~= ss@);
    Some(out)
}


// ---------------------------------------------------------------------------
// The document
// ---------------------------------------------------------------------------

/// What a section of this kind splices in after its body.
pub open spec fn block_of(b: PlanBundle, r: Renders) -> Option<Seq<char>> {
    match r {
        Renders::Body => None,
        Renders::Sources => sources_block(b.sources@),
        Renders::Decisions => decisions_block(b.decisions@),
        Renders::Slices => slices_block(b.slices@),
        Renders::Questions => questions_block(b.questions@),
        Renders::Gotchas => gotchas_block(b.gotchas@),
        Renders::Log => log_block(b.log@),
    }
}

fn render_block(b: &PlanBundle, r: Renders) -> (out: Option<Vec<char>>)
    ensures
        match out {
            Some(v) => block_of(*b, r) == Some(v@),
            None => block_of(*b, r) is None,
        },
{
    match r {
        Renders::Body => None,
        Renders::Sources => render_sources(&b.sources),
        Renders::Decisions => render_decisions(&b.decisions),
        Renders::Slices => render_slices(&b.slices),
        Renders::Questions => render_questions(&b.questions),
        Renders::Gotchas => render_gotchas(&b.gotchas),
        Renders::Log => render_log(&b.log),
    }
}

pub open spec fn quote_lines(ls: Seq<Seq<char>>) -> Seq<char>
    decreases ls.len(),
{
    if ls.len() == 0 {
        Seq::empty()
    } else {
        quote_lines(ls.drop_last()) + "> "@ + ls.last() + "\n"@
    }
}

/// The summary as a blockquote, when there is one with something in it.
pub open spec fn summary_text(summary: Option<String>) -> Seq<char> {
    match summary {
        Some(x) => if trim(x@).len() > 0 {
            quote_lines(lines(trim(x@))) + "\n"@
        } else {
            Seq::empty()
        },
        None => Seq::empty(),
    }
}

pub open spec fn ticket_items(key: Option<String>, url: Option<String>) -> Seq<Seq<char>> {
    match (key, url) {
        (Some(t), Some(u)) => seq!["**Ticket:** ["@ + t@ + "]("@ + u@ + ")"@],
        (Some(t), None) => seq!["**Ticket:** "@ + t@],
        (None, Some(u)) => seq!["**Ticket:** "@ + u@],
        (None, None) => Seq::empty(),
    }
}

/// The header line's pieces: ticket, status, base branch, owner, slug.
pub open spec fn plan_meta_items(b: PlanBundle) -> Seq<Seq<char>> {
    let p = b.plan;
    let m1 = ticket_items(p.ticket_key, p.ticket_url).push("**Status:** "@ + status_name(p.status));
    let m2 = match p.base_branch {
        Some(x) => m1.push("**Base branch:** `"@ + x@ + "`"@),
        None => m1,
    };
    let m3 = match p.owner {
        Some(x) => m2.push("**Owner:** "@ + x@),
        None => m2,
    };
    m3.push("**Plan:** `"@ + p.slug@ + "`"@)
}

/// A section is shown when it has a body or something to splice in; an empty one
/// would be a hollow heading.
pub open spec fn shown(b: PlanBundle, s: Section) -> bool {
    trim_end(s.body@).len() > 0 || block_of(b, s.renders) is Some
}

pub open spec fn section_text(b: PlanBundle, s: Section) -> Seq<char> {
    if shown(b, s) {
        "## "@ + s.title@ + "\n\n"@ + para(trim_end(s.body@)) + match block_of(b, s.renders) {
            Some(k) => trim_end(k) + "\n\n"@,
            None => Seq::empty(),
        }
    } else {
        Seq::empty()
    }
}

pub open spec fn section_texts(b: PlanBundle, ss: Seq<Section>) -> Seq<char>
    decreases ss.len(),
{
    if ss.len() == 0 {
        Seq::empty()
    } else {
        section_texts(b, ss.drop_last()) + section_text(b, ss.last())
    }
}

/// Some shown section already splices in content of this kind.
pub open spec fn hosted(b: PlanBundle, ss: Seq<Section>, r: Renders) -> bool
    decreases ss.len(),
{
    ss.len() > 0 && (hosted(b, ss.drop_last(), r) || (shown(b, ss.last()) && ss.last().renders
        == r))
}

/// Content with no section to host it still appears, under a heading of its own.
pub open spec fn orphan_text(b: PlanBundle, r: Renders) -> Seq<char> {
    if hosted(b, b.sections@, r) {
        Seq::empty()
    } else {
        match block_of(b, r) {
            Some(k) => "## "@ + default_title(r) + "\n\n"@ + trim_end(k) + "\n\n"@,
            None => Seq::empty(),
        }
    }
}

pub open spec fn orphan_texts(b: PlanBundle) -> Seq<char> {
    orphan_text(b, Renders::Sources) + orphan_text(b, Renders::Decisions) + orphan_text(
        b,
        Renders::Slices,
    ) + orphan_text(b, Renders::Questions) + orphan_text(b, Renders::Gotchas) + orphan_text(
        b,
        Renders::Log,
    )
}

/// Blank lines at the end are dropped until at most one newline is left.
pub open spec fn settled(s: Seq<char>) -> Seq<char>
    decreases s.len(),
{
    if s.len() > 0 && ends_with(s, "\n\n"@) {
        settled(s.drop_last())
    } else {
        s
    }
}

/// The whole document.
pub open spec fn rendered(b: PlanBundle) -> Seq<char> {
    settled(
        "# "@ + b.plan.title@ + "\n\n"@ + summary_text(b.plan.summary) + join(
            plan_meta_items(b),
            " · "@,
        ) + "\n\n"@ + section_texts(b, b.sections@) + orphan_texts(b),
    )
}

fn push_summary(out: &mut Vec<char>, summary: &Option<String>)
    ensures
        final(out)@ == old(out)@ + summary_text(*summary),
{
    match summary {
        Some(x) => {
            let xv = chars_of(x.as_str());
            let xt = trimmed(&xv);
            if xt.len() > 0 {
                let ls = lines_of(&xt);
                let ghost start = out@;
                let mut i: usize = 0;
                while i < ls.len()
                    invariant
                        i <= ls@.len(),
                        out@ == start + quote_lines(views(ls@).take(i as int)),
                    decreases ls.len() - i,
                {
                    assert(views(ls@).take(i + 1).drop_last() =~= views(ls@).take(i as int));
                    assert(views(ls@)[i as int] == ls@[i as int]@);
                    push_str(out, "> ");
                    push_all(out, &ls[i]);
                    push_str(out, "\n");
                    assert(out@ =~= start + quote_lines(views(ls@).take(i + 1)));
                    i += 1;
                }
                assert(views(ls@).take(ls@.len() as int) =~= views(ls@));
                push_str(out, "\n");
            } else {
                assert(old(out)@ + summary_text(*summary) =~= old(out)@);
            }
        },
        None => {
            assert(old(out)@ + summary_text(*summary) =~= old(out)@);
        },
    }
}

fn plan_meta(b: &PlanBundle) -> (r: Vec<char>)
    ensures
        r@ == join(plan_meta_items(*b), " · "@),
{
    let p = &b.plan;
    let mut items: Vec<Vec<char>> = Vec::new();
    assert(views(items@) =~= Seq::<Seq<char>>::empty());
    match (&p.ticket_key, &p.ticket_url) {
        (Some(t), Some(u)) => {
            let mut m: Vec<char> = Vec::new();
            push_str(&mut m, "**Ticket:** [");
            push_str(&mut m, t.as_str());
            push_str(&mut m, "](");
            push_str(&mut m, u.as_str());
            push_str(&mut m, ")");
            push_bit(&mut items, m);
        },
        (Some(t), None) => {
            let mut m: Vec<char> = Vec::new();
            push_str(&mut m, "**Ticket:** ");
            push_str(&mut m, t.as_str());
            push_bit(&mut items, m);
        },
        (None, Some(u)) => {
            let mut m: Vec<char> = Vec::new();
            push_str(&mut m, "**Ticket:** ");
            push_str(&mut m, u.as_str());
            push_bit(&mut items, m);
        },
        (None, None) => {},
    }
    assert(views(items@) =~= ticket_items(p.ticket_key, p.ticket_url));
    let mut m: Vec<char> = Vec::new();
    push_str(&mut m, "**Status:** ");
    push_str(&mut m, p.status.as_str());
    push_bit(&mut items, m);
    let ghost m1 = ticket_items(p.ticket_key, p.ticket_url).push("**Status:** "@ + status_name(p.status));
    assert(views(items@) =~= m1);
    if let Some(x) = &p.base_branch {
        let mut m: Vec<char> = Vec::new();
        push_str(&mut m, "**Base branch:** `");
        push_str(&mut m, x.as_str());
        push_str(&mut m, "`");
        assert(m@ =~= "**Base branch:** `"@ + x@ + "`"@);
        push_bit(&mut items, m);
    }
    let ghost m2 = match &p.base_branch {
        Some(x) => m1.push("**Base branch:** `"@ + x@ + "`"@),
        None => m1,
    };
    assert(views(items@) =~= m2);
    if let Some(x) = &p.owner {
        let mut m: Vec<char> = Vec::new();
        push_str(&mut m, "**Owner:** ");
        push_str(&mut m, x.as_str());
        push_bit(&mut items, m);
    }
    let ghost m3 = match &p.owner {
        Some(x) => m2.push("**Owner:** "@ + x@),
        None => m2,
    };
    assert(views(items@) =~= m3);
    let mut m: Vec<char> = Vec::new();
    push_str(&mut m, "**Plan:** `");
    push_str(&mut m, p.slug.as_str());
    push_str(&mut m, "`");
    assert(m@ =~= "**Plan:** `"@ + p.slug@ + "`"@);
    push_bit(&mut items, m);
    assert(views(items@) =~= plan_meta_items(*b));
    joined_str(&items, " · ")
}

/// Pushes a section's text; says whether it was shown.
fn push_section(out: &mut Vec<char>, b: &PlanBundle, s: &Section) -> (shown_here: bool)
    ensures
        final(out)@ == old(out)@ + section_text(*b, *s),
        shown_here == shown(*b, *s),
{
    let block = render_block(b, s.renders);
    let bv = chars_of(s.body.as_str());
    let body = trimmed_end(&bv);
    if body.len() == 0 && block.is_none() {
        assert(old(out)@ + section_text(*b, *s) =~= old(out)@);
        return false;
    }
    push_str(out, "## ");
    push_str(out, s.title.as_str());
    push_str(out, "\n\n");
    push_para(out, &body);
    match &block {
        Some(k) => {
            let kt = trimmed_end(k);
            push_all(out, &kt);
            push_str(out, "\n\n");
        },
        None => {},
    }
    assert(out@ =~= old(out)@ + section_text(*b, *s));
    true
}

fn holds(v: &Vec<Renders>, r: Renders) -> (found: bool)
    ensures
        found == v@.contains(r),
{
    let mut i: usize = 0;
    while i < v.len()
        invariant
            i <= v@.len(),
            forall|j: int| 0 <= j < i ==> v@[j] != r,
        decreases v.len() - i,
    {
        if v[i] == r {
            assert(v@[i as int] == r);
            return true;
        }
        i += 1;
    }
    false
}

fn push_orphan(out: &mut Vec<char>, b: &PlanBundle, emitted: &Vec<Renders>, r: Renders)
    requires
        forall|x: Renders| emitted@.contains(x) <==> hosted(*b, b.sections@, x),
    ensures
        final(out)@ == old(out)@ + orphan_text(*b, r),
{
    if holds(emitted, r) {
        assert(old(out)@ + orphan_text(*b, r) =~= old(out)@);
        return;
    }
    match render_block(b, r) {
        Some(k) => {
            push_str(out, "## ");
            push_str(out, default_heading(r));
            push_str(out, "\n\n");
            let kt = trimmed_end(&k);
            push_all(out, &kt);
            push_str(out, "\n\n");
            assert(out@ =~= old(out)@ + orphan_text(*b, r));
        },
        None => {
            assert(old(out)@ + orphan_text(*b, r) =~= old(out)@);
        },
    }
}

fn settle(out: &mut Vec<char>)
    ensures
        final(out)@ == settled(old(out)@),
{
    proof {
        reveal_strlit("\n\n");
    }
    while out.len() >= 2 && out[out.len() - 1] == '\n' && out[out.len() - 2] == '\n'
        invariant
            settled(out@) == settled(old(out)@),
        decreases out.len(),
    {
        assert(ends_with(out@, "\n\n"@)) by {
            reveal_strlit("\n\n");
            assert(out@.skip(out@.len() - 2) =~= "\n\n"@);
        }
        out.pop();
    }
    proof {
        if out@.len() > 0 && ends_with(out@, "\n\n"@) {
            assert(out@.skip(out@.len() - 2)[0] == "\n\n"@[0]);
            assert(out@.skip(out@.len() - 2)[1] == "\n\n"@[1]);
        }
    }
}

/// The plan as the markdown document it replaced: title, summary, header line, each
/// section with what it hosts, then whatever had no section to host it.
pub fn render_plan(b: &PlanBundle) -> (r: String)
    ensures
        r@ == rendered(*b),
{
    let mut out: Vec<char> = Vec::new();
    push_str(&mut out, "# ");
    push_str(&mut out, b.plan.title.as_str());
    push_str(&mut out, "\n\n");
    push_summary(&mut out, &b.plan.summary);
    let meta = plan_meta(b);
    push_all(&mut out, &meta);
    push_str(&mut out, "\n\n");
    let ghost head = out@;
    let mut emitted: Vec<Renders> = Vec::new();
    let mut i: usize = 0;
    while i < b.sections.len()
        invariant
            i <= b.sections@.len(),
            out@ == head + section_texts(*b, b.sections@.take(i as int)),
            forall|x: Renders| emitted@.contains(x) <==> hosted(*b, b.sections@.take(i as int), x),
        decreases b.sections.len() - i,
    {
        let s = &b.sections[i];
        let ghost prev = b.sections@.take(i as int);
        assert(b.sections@.take(i + 1).drop_last() =~= prev);
        let ghost before = emitted@;
        let here = push_section(&mut out, b, s);
        if here {
            emitted.push(s.renders);
        }
        assert forall|x: Renders| emitted@.contains(x) <==> hosted(
            *b,
            b.sections@.take(i + 1),
            x,
        ) by {
            if here {
                assert(emitted@ == before.push(s.renders));
                if x == s.renders {
                    assert(emitted@[before.len() as int] == x);
                }
                if before.contains(x) {
                    let j = choose|j: int| 0 <= j < before.len() && before[j] == x;
                    assert(emitted@[j] == x);
                }
                if emitted@.contains(x) && x != s.renders {
                    let j = choose|j: int| 0 <= j < emitted@.len() && emitted@[j] == x;
                    assert(before[j] == x);
                }
            }
        }
        assert(out@ =~= head + section_texts(*b, b.sections@.take(i + 1)));
        i += 1;
    }
    assert(b.sections@.take(b.sections@.len() as int) =~= b.sections@);
    push_orphan(&mut out, b, &emitted, Renders::Sources);
    push_orphan(&mut out, b, &emitted, Renders::Decisions);
    push_orphan(&mut out, b, &emitted, Renders::Slices);
    push_orphan(&mut out, b, &emitted, Renders::Questions);
    push_orphan(&mut out, b, &emitted, Renders::Gotchas);
    push_orphan(&mut out, b, &emitted, Renders::Log);
    assert(out@ =~= "# "@ + b.plan.title@ + "\n\n"@ + summary_text(b.plan.summary) + join(
        plan_meta_items(*b),
        " · "@,
    ) + "\n\n"@ + section_texts(*b, b.sections@) + orphan_texts(*b));
    settle(&mut out);
    string_of(&out)
}

// ---------------------------------------------------------------------------
// The one-line headline
// ---------------------------------------------------------------------------

pub open spec fn done_count(ss: Seq<Slice>) -> nat
    decreases ss.len(),
{
    if ss.len() == 0 {
        0
    } else {
        done_count(ss.drop_last()) + if ss.last().status == Status::Done {
            1nat
        } else {
            0nat
        }
    }
}

pub open spec fn headline(b: PlanBundle) -> Seq<char> {
    b.plan.title@ + " ("@ + status_name(b.plan.status) + ")"@ + if b.slices@.len() > 0 {
        " ["@ + dec(done_count(b.slices@)) + "/"@ + dec(b.slices@.len()) + " slices]"@
    } else {
        Seq::empty()
    }
}

/// A one-line summary: title, status and, when there are slices, how many are done.
pub fn plan_headline(b: &PlanBundle) -> (r: String)
    ensures
        r@ == headline(*b),
{
    let mut done: usize = 0;
    let mut i: usize = 0;
    while i < b.slices.len()
        invariant
            i <= b.slices@.len(),
            done == done_count(b.slices@.take(i as int)),
            done <= i,
        decreases b.slices.len() - i,
    {
        assert(b.slices@.take(i + 1).drop_last() =~= b.slices@.take(i as int));
        if b.slices[i].status == Status::Done {
            done += 1;
        }
        i += 1;
    }
    assert(b.slices@.take(b.slices@.len() as int) =~= b.slices@);
    let mut out: Vec<char> = Vec::new();
    push_str(&mut out, b.plan.title.as_str());
    push_str(&mut out, " (");
    push_str(&mut out, b.plan.status.as_str());
    push_str(&mut out, ")");
    if b.slices.len() > 0 {
        push_str(&mut out, " [");
        push_decimal(&mut out, done as u128);
        push_str(&mut out, "/");
        push_decimal(&mut out, b.slices.len() as u128);
        push_str(&mut out, " slices]");
    }
    assert(out@ =~= headline(*b));
    string_of(&out)
}


// ---------------------------------------------------------------------------
// Everything is rendered somewhere
// ---------------------------------------------------------------------------

/// Some character of `c` is not whitespace.
pub open spec fn some_non_ws(c: Seq<char>) -> bool {
    exists|i: int| 0 <= i < c.len() && !crate::text::is_ws(#[trigger] c[i])
}

/// A slice's heading line as the document shows it.
pub open spec fn slice_heading(s: Slice) -> Seq<char> {
    "### "@ + s.key@ + " - "@ + s.title@ + "\n"@
}

/// `x` stands in `s` with text after it: `s` is `a + x + c` with something in `c`.
pub open spec fn stands_in(s: Seq<char>, x: Seq<char>, a: Seq<char>, c: Seq<char>) -> bool {
    s == a + x + c && some_non_ws(c)
}

proof fn lemma_stands_append(s: Seq<char>, x: Seq<char>, a: Seq<char>, c: Seq<char>, t: Seq<char>)
    requires
        stands_in(s, x, a, c),
    ensures
        stands_in(s + t, x, a, c + t),
{
    let i = choose|i: int| 0 <= i < c.len() && !crate::text::is_ws(#[trigger] c[i]);
    assert((c + t)[i] == c[i]);
    assert(s + t =~= a + x + (c + t));
}

proof fn lemma_stands_prepend(s: Seq<char>, x: Seq<char>, a: Seq<char>, c: Seq<char>, t: Seq<char>)
    requires
        stands_in(s, x, a, c),
    ensures
        stands_in(t + s, x, t + a, c),
{
    assert(t + s =~= (t + a) + x + c);
}

proof fn lemma_trail_ws_keeps(s: Seq<char>, j: int, k: int)
    requires
        0 <= k < j <= s.len(),
        !crate::text::is_ws(s[k]),
    ensures
        crate::text::trail_ws(s, j) > k,
    decreases j,
{
    if j - 1 > k && crate::text::is_ws(s[j - 1]) {
        lemma_trail_ws_keeps(s, j - 1, k);
    }
}

/// Trimming the end keeps what stands before the last character that is not blank.
proof fn lemma_stands_trimmed(s: Seq<char>, x: Seq<char>, a: Seq<char>, c: Seq<char>) -> (c2: Seq<char>)
    requires
        stands_in(s, x, a, c),
    ensures
        stands_in(trim_end(s), x, a, c2),
{
    let i = choose|i: int| 0 <= i < c.len() && !crate::text::is_ws(#[trigger] c[i]);
    let k = a.len() + x.len() + i;
    assert(s[k] == c[i]);
    lemma_trail_ws_keeps(s, s.len() as int, k);
    let m = crate::text::trail_ws(s, s.len() as int);
    crate::text::lemma_trail_ws_bounds(s, s.len() as int);
    let c2 = c.take(m - a.len() - x.len());
    assert(trim_end(s) =~= a + x + c2);
    assert(c2[i] == c[i]);
    c2
}

proof fn lemma_settled_keeps(s: Seq<char>, k: int)
    requires
        0 <= k < s.len(),
        s[k] != '\n',
    ensures
        settled(s).len() > k,
        settled(s).len() <= s.len(),
        settled(s) == s.take(settled(s).len() as int),
    decreases s.len(),
{
    reveal_strlit("\n\n");
    if s.len() > 0 && ends_with(s, "\n\n"@) {
        assert(s.subrange(s.len() - 2, s.len() as int) == "\n\n"@);
        assert(s[s.len() - 1] == s.subrange(s.len() - 2, s.len() as int)[1]);
        assert(s[s.len() - 1] == '\n');
        assert(k < s.len() - 1);
        assert(s.drop_last()[k] == s[k]);
        lemma_settled_keeps(s.drop_last(), k);
        assert(settled(s) == settled(s.drop_last()));
        assert(s.drop_last().take(settled(s).len() as int) =~= s.take(settled(s).len() as int));
    } else {
        assert(s.take(s.len() as int) =~= s);
    }
}

proof fn lemma_stands_settled(s: Seq<char>, x: Seq<char>, a: Seq<char>, c: Seq<char>) -> (c2: Seq<char>)
    requires
        stands_in(s, x, a, c),
    ensures
        stands_in(settled(s), x, a, c2),
{
    let i = choose|i: int| 0 <= i < c.len() && !crate::text::is_ws(#[trigger] c[i]);
    let k = a.len() + x.len() + i;
    assert(s[k] == c[i]);
    assert(crate::text::is_ws('\n'));
    lemma_settled_keeps(s, k);
    let n = settled(s).len() as int;
    let c2 = c.take(n - a.len() - x.len());
    assert(settled(s) =~= a + x + c2);
    assert(c2[i] == c[i]);
    c2
}

proof fn lemma_join_starts(parts: Seq<Seq<char>>, sep: Seq<char>)
    requires
        parts.len() > 0,
        parts[0].len() > 0,
    ensures
        join(parts, sep).len() > 0,
        join(parts, sep)[0] == parts[0][0],
    decreases parts.len(),
{
    if parts.len() > 1 {
        assert(parts.drop_last()[0] == parts[0]);
        lemma_join_starts(parts.drop_last(), sep);
    }
}

/// A slice's text is its heading line, then a blank line and its meta line, which
/// starts with the status.
proof fn lemma_slice_text_stands(s: Slice) -> (c: Seq<char>)
    ensures
        stands_in(slice_text(s), slice_heading(s), Seq::empty(), c),
{
    reveal_strlit("### ");
    reveal_strlit(" - ");
    reveal_strlit("\n");
    reveal_strlit("\n\n");
    reveal_strlit("**Status:** ");
    let bits = meta_bits(s);
    assert(bits[0] == "**Status:** "@ + status_text(s.status));
    lemma_join_starts(bits, " · "@);
    let rest = slice_text(s).skip(slice_heading(s).len() as int);
    assert(slice_text(s) =~= Seq::<char>::empty() + slice_heading(s) + rest);
    assert(rest[1] == meta_line(s)[0]);
    assert(meta_line(s)[0] == '*');
    assert(!crate::text::is_ws(rest[1]));
    rest
}

proof fn lemma_slice_texts_stand(ss: Seq<Slice>, i: int) -> (w: (Seq<char>, Seq<char>))
    requires
        0 <= i < ss.len(),
    ensures
        stands_in(slice_texts(ss), slice_heading(ss[i]), w.0, w.1),
    decreases ss.len(),
{
    let prev = slice_texts(ss.drop_last());
    if i == ss.len() - 1 {
        let c = lemma_slice_text_stands(ss.last());
        lemma_stands_prepend(slice_text(ss.last()), slice_heading(ss[i]), Seq::empty(), c, prev);
        (prev + Seq::<char>::empty(), c)
    } else {
        assert(ss.drop_last()[i] == ss[i]);
        let (a, c) = lemma_slice_texts_stand(ss.drop_last(), i);
        lemma_stands_append(prev, slice_heading(ss[i]), a, c, slice_text(ss.last()));
        (a, c + slice_text(ss.last()))
    }
}

proof fn lemma_slices_block_stands(b: PlanBundle, i: int) -> (w: (Seq<char>, Seq<char>))
    requires
        0 <= i < b.slices@.len(),
    ensures
        block_of(b, Renders::Slices) matches Some(k) && stands_in(k, slice_heading(b.slices@[i]), w.0, w.1),
{
    let ss = b.slices@;
    let (a, c) = lemma_slice_texts_stand(ss, i);
    let head = "| Slice | Title | Status | Branch | PR |\n| --- | --- | --- | --- | --- |\n"@ + slice_rows(ss) + "\n"@;
    lemma_stands_prepend(slice_texts(ss), slice_heading(ss[i]), a, c, head);
    (head + a, c)
}

/// Where the slices block is spliced in, the heading stands.
proof fn lemma_spliced_stands(b: PlanBundle, front: Seq<char>, i: int) -> (w: (Seq<char>, Seq<char>))
    requires
        0 <= i < b.slices@.len(),
    ensures
        block_of(b, Renders::Slices) matches Some(k) && stands_in(
            front + trim_end(k) + "\n\n"@,
            slice_heading(b.slices@[i]),
            w.0,
            w.1,
        ),
{
    let (a, c) = lemma_slices_block_stands(b, i);
    let k = block_of(b, Renders::Slices)->0;
    let c2 = lemma_stands_trimmed(k, slice_heading(b.slices@[i]), a, c);
    lemma_stands_append(trim_end(k), slice_heading(b.slices@[i]), a, c2, "\n\n"@);
    lemma_stands_prepend(trim_end(k) + "\n\n"@, slice_heading(b.slices@[i]), a, c2 + "\n\n"@, front);
    assert(front + (trim_end(k) + "\n\n"@) =~= front + trim_end(k) + "\n\n"@);
    (front + a, c2 + "\n\n"@)
}

proof fn lemma_sections_stand(b: PlanBundle, ss: Seq<Section>, i: int) -> (w: (Seq<char>, Seq<char>))
    requires
        0 <= i < b.slices@.len(),
        hosted(b, ss, Renders::Slices),
    ensures
        stands_in(section_texts(b, ss), slice_heading(b.slices@[i]), w.0, w.1),
    decreases ss.len(),
{
    let prev = section_texts(b, ss.drop_last());
    let x = slice_heading(b.slices@[i]);
    if hosted(b, ss.drop_last(), Renders::Slices) {
        let (a, c) = lemma_sections_stand(b, ss.drop_last(), i);
        lemma_stands_append(prev, x, a, c, section_text(b, ss.last()));
        (a, c + section_text(b, ss.last()))
    } else {
        let s = ss.last();
        assert(shown(b, s) && s.renders == Renders::Slices);
        let front = "## "@ + s.title@ + "\n\n"@ + para(trim_end(s.body@));
        let (a, c) = lemma_spliced_stands(b, front, i);
        let k = block_of(b, Renders::Slices)->0;
        assert(section_text(b, s) == front + trim_end(k) + "\n\n"@);
        lemma_stands_prepend(section_text(b, s), x, a, c, prev);
        (prev + a, c)
    }
}

pub open spec fn document_head(b: PlanBundle) -> Seq<char> {
    "# "@ + b.plan.title@ + "\n\n"@ + summary_text(b.plan.summary) + join(plan_meta_items(b), " · "@)
        + "\n\n"@
}

proof fn lemma_hosted_case(b: PlanBundle, i: int) -> (w: (Seq<char>, Seq<char>))
    requires
        0 <= i < b.slices@.len(),
        hosted(b, b.sections@, Renders::Slices),
    ensures
        stands_in(
            document_head(b) + section_texts(b, b.sections@) + orphan_texts(b),
            slice_heading(b.slices@[i]),
            w.0,
            w.1,
        ),
{
    let x = slice_heading(b.slices@[i]);
    let head = document_head(b);
    let secs = section_texts(b, b.sections@);
    let orph = orphan_texts(b);
    let (a0, c0) = lemma_sections_stand(b, b.sections@, i);
    lemma_stands_append(secs, x, a0, c0, orph);
    lemma_stands_prepend(secs + orph, x, a0, c0 + orph, head);
    assert(head + (secs + orph) =~= head + secs + orph);
    (head + a0, c0 + orph)
}

#[verifier::rlimit(40)]
proof fn lemma_orphan_case(b: PlanBundle, i: int) -> (w: (Seq<char>, Seq<char>))
    requires
        0 <= i < b.slices@.len(),
        !hosted(b, b.sections@, Renders::Slices),
    ensures
        stands_in(
            document_head(b) + section_texts(b, b.sections@) + orphan_texts(b),
            slice_heading(b.slices@[i]),
            w.0,
            w.1,
        ),
{
    let x = slice_heading(b.slices@[i]);
    let head = document_head(b);
    let secs = section_texts(b, b.sections@);
    let o1 = orphan_text(b, Renders::Sources) + orphan_text(b, Renders::Decisions);
    let o2 = orphan_text(b, Renders::Questions) + orphan_text(b, Renders::Gotchas) + orphan_text(
        b,
        Renders::Log,
    );
    let front = "## "@ + default_title(Renders::Slices) + "\n\n"@;
    let (a0, c0) = lemma_spliced_stands(b, front, i);
    let mid = orphan_text(b, Renders::Slices);
    assert(mid == front + trim_end(block_of(b, Renders::Slices)->0) + "\n\n"@);
    lemma_stands_append(mid, x, a0, c0, o2);
    lemma_stands_prepend(mid + o2, x, a0, c0 + o2, head + secs + o1);
    assert(orphan_texts(b) =~= o1 + mid + o2);
    assert((head + secs + o1) + (mid + o2) =~= head + secs + orphan_texts(b));
    (head + secs + o1 + a0, c0 + o2)
}

/// Every slice of a plan is rendered under its own heading, whether a section hosts
/// the slices or they come under a heading of their own: the document holds
/// `### <key> - <title>` on a line of its own for each.
pub proof fn law_every_slice_is_rendered(b: PlanBundle, i: int)
    requires
        0 <= i < b.slices@.len(),
    ensures
        exists|a: Seq<char>, c: Seq<char>| rendered(b) == a + slice_heading(b.slices@[i]) + c,
{
    let x = slice_heading(b.slices@[i]);
    let whole = document_head(b) + section_texts(b, b.sections@) + orphan_texts(b);
    let (a, c) = if hosted(b, b.sections@, Renders::Slices) {
        lemma_hosted_case(b, i)
    } else {
        lemma_orphan_case(b, i)
    };
    let c2 = lemma_stands_settled(whole, x, a, c);
    assert(rendered(b) == settled(whole));
    assert(rendered(b) == a + x + c2);
}


/// A gotcha's heading line as the document shows it.
pub open spec fn gotcha_heading(g: Gotcha) -> Seq<char> {
    "### "@ + g.title@ + "\n"@
}

/// The title ends in a character that is not blank.
pub open spec fn ends_in_text(t: Seq<char>) -> bool {
    t.len() > 0 && !crate::text::is_ws(t.last())
}

/// `y + "\n"` stands in `s` at `a`, and either `y` ends in a character that is not
/// blank or something that is not blank follows the line.
pub open spec fn line_in(s: Seq<char>, y: Seq<char>, a: Seq<char>, c: Seq<char>) -> bool {
    &&& s == a + y + "\n"@ + c
    &&& (ends_in_text(y) || some_non_ws(c))
}

/// A gotcha's heading line survives the trimming of its block: its title ends in a
/// character that is not blank, or its body is not blank, or another gotcha follows.
pub open spec fn heading_followed(gs: Seq<Gotcha>, i: int) -> bool {
    ||| ends_in_text(gs[i].title@)
    ||| some_non_ws(gs[i].body@)
    ||| i + 1 < gs.len()
}

proof fn lemma_non_ws_append(c: Seq<char>, t: Seq<char>)
    requires
        some_non_ws(c),
    ensures
        some_non_ws(c + t),
        some_non_ws(t + c),
{
    let j = choose|j: int| 0 <= j < c.len() && !crate::text::is_ws(#[trigger] c[j]);
    assert((c + t)[j] == c[j]);
    assert((t + c)[t.len() + j] == c[j]);
}

proof fn lemma_line_append(s: Seq<char>, y: Seq<char>, a: Seq<char>, c: Seq<char>, t: Seq<char>)
    requires
        line_in(s, y, a, c),
    ensures
        line_in(s + t, y, a, c + t),
{
    assert(s + t =~= a + y + "\n"@ + (c + t));
    if some_non_ws(c) {
        lemma_non_ws_append(c, t);
    }
}

proof fn lemma_line_prepend(s: Seq<char>, y: Seq<char>, a: Seq<char>, c: Seq<char>, t: Seq<char>)
    requires
        line_in(s, y, a, c),
    ensures
        line_in(t + s, y, t + a, c),
{
    assert(t + s =~= (t + a) + y + "\n"@ + c);
}

/// Trimming the end and then ending with a blank line keeps the line: the text before
/// its line break is not blank, so at most the break is trimmed, and it comes back.
proof fn lemma_line_trimmed(s: Seq<char>, y: Seq<char>, a: Seq<char>, c: Seq<char>) -> (c2: Seq<char>)
    requires
        line_in(s, y, a, c),
    ensures
        line_in(trim_end(s) + "\n\n"@, y, a, c2),
{
    reveal_strlit("\n");
    reveal_strlit("\n\n");
    let q = (a.len() + y.len()) as int;
    assert(s[q] == '\n');
    let k: int = if ends_in_text(y) {
        assert(s[q - 1] == y.last());
        q - 1
    } else {
        let j = choose|j: int| 0 <= j < c.len() && !crate::text::is_ws(#[trigger] c[j]);
        assert(s[q + 1 + j] == c[j]);
        q + 1 + j
    };
    lemma_trail_ws_keeps(s, s.len() as int, k);
    let m = crate::text::trail_ws(s, s.len() as int);
    crate::text::lemma_trail_ws_bounds(s, s.len() as int);
    if m > q {
        let c1 = c.take(m - q - 1);
        assert(trim_end(s) =~= a + y + "\n"@ + c1);
        assert(trim_end(s) + "\n\n"@ =~= a + y + "\n"@ + (c1 + "\n\n"@));
        if !ends_in_text(y) {
            assert((c1 + "\n\n"@)[k - q - 1] == s[k]);
        }
        c1 + "\n\n"@
    } else {
        assert(trim_end(s) =~= a + y);
        assert(trim_end(s) + "\n\n"@ =~= a + y + "\n"@ + "\n"@);
        "\n"@
    }
}

proof fn lemma_settled_keeps_break(s: Seq<char>, q: int)
    requires
        1 <= q < s.len(),
        s[q] == '\n',
        s[q - 1] != '\n',
    ensures
        settled(s).len() > q,
        settled(s).len() <= s.len(),
        settled(s) == s.take(settled(s).len() as int),
    decreases s.len(),
{
    reveal_strlit("\n\n");
    if s.len() > 0 && ends_with(s, "\n\n"@) {
        assert(s.subrange(s.len() - 2, s.len() as int) == "\n\n"@);
        assert(s[s.len() - 1] == s.subrange(s.len() - 2, s.len() as int)[1]);
        assert(s[s.len() - 2] == s.subrange(s.len() - 2, s.len() as int)[0]);
        assert(q < s.len() - 1);
        assert(s.drop_last()[q] == s[q] && s.drop_last()[q - 1] == s[q - 1]);
        lemma_settled_keeps_break(s.drop_last(), q);
        assert(settled(s) == settled(s.drop_last()));
        assert(s.drop_last().take(settled(s).len() as int) =~= s.take(settled(s).len() as int));
    } else {
        assert(s.take(s.len() as int) =~= s);
    }
}

proof fn lemma_line_settled(s: Seq<char>, y: Seq<char>, a: Seq<char>, c: Seq<char>) -> (c2: Seq<char>)
    requires
        line_in(s, y, a, c),
    ensures
        line_in(settled(s), y, a, c2),
{
    reveal_strlit("\n");
    let q = (a.len() + y.len()) as int;
    assert(s[q] == '\n');
    assert(crate::text::is_ws('\n'));
    if ends_in_text(y) {
        assert(s[q - 1] == y.last());
        lemma_settled_keeps_break(s, q);
        let n = settled(s).len() as int;
        let c2 = c.take(n - q - 1);
        assert(settled(s) =~= a + y + "\n"@ + c2);
        c2
    } else {
        let j = choose|j: int| 0 <= j < c.len() && !crate::text::is_ws(#[trigger] c[j]);
        assert(s[q + 1 + j] == c[j]);
        lemma_settled_keeps(s, q + 1 + j);
        let n = settled(s).len() as int;
        let c2 = c.take(n - q - 1);
        assert(settled(s) =~= a + y + "\n"@ + c2);
        assert(c2[j] == c[j]);
        c2
    }
}

proof fn lemma_gotcha_texts_line(gs: Seq<Gotcha>, i: int) -> (w: (Seq<char>, Seq<char>))
    requires
        0 <= i < gs.len(),
        heading_followed(gs, i),
    ensures
        line_in(gotcha_texts(gs), "### "@ + gs[i].title@, w.0, w.1),
    decreases gs.len(),
{
    reveal_strlit("### ");
    reveal_strlit("\n");
    reveal_strlit("\n\n");
    let prev = gotcha_texts(gs.drop_last());
    let y = "### "@ + gs[i].title@;
    if gs[i].title@.len() > 0 {
        assert(y.last() == gs[i].title@.last());
    }
    if i == gs.len() - 1 {
        let g = gs.last();
        let c = "\n"@ + para(trim_end(g.body@));
        assert(gotcha_text(g) =~= Seq::<char>::empty() + y + "\n"@ + c);
        if !ends_in_text(y) {
            let body = g.body@;
            let j = choose|j: int| 0 <= j < body.len() && !crate::text::is_ws(#[trigger] body[j]);
            lemma_trail_ws_keeps(body, body.len() as int, j);
            crate::text::lemma_trail_ws_bounds(body, body.len() as int);
            assert(trim_end(body)[j] == body[j]);
            assert(para(trim_end(body))[j] == body[j]);
            assert(c[1 + j] == body[j]);
        }
        lemma_line_prepend(gotcha_text(g), y, Seq::empty(), c, prev);
        (prev + Seq::<char>::empty(), c)
    } else if heading_followed(gs.drop_last(), i) {
        assert(gs.drop_last()[i] == gs[i]);
        let (a, c) = lemma_gotcha_texts_line(gs.drop_last(), i);
        lemma_line_append(prev, y, a, c, gotcha_text(gs.last()));
        (a, c + gotcha_text(gs.last()))
    } else {
        let d = gs.drop_last();
        assert(d.last() == gs[i]);
        let p2 = gotcha_texts(d.drop_last());
        let front = "\n"@ + para(trim_end(gs[i].body@));
        let t = gotcha_text(gs.last());
        let c = front + t;
        assert(gotcha_texts(gs) =~= p2 + y + "\n"@ + c);
        assert(t[0] == '#');
        assert(some_non_ws(t));
        lemma_non_ws_append(t, front);
        (p2, c)
    }
}

proof fn lemma_gotchas_spliced(b: PlanBundle, front: Seq<char>, i: int) -> (w: (Seq<char>, Seq<char>))
    requires
        0 <= i < b.gotchas@.len(),
        heading_followed(b.gotchas@, i),
    ensures
        block_of(b, Renders::Gotchas) matches Some(k) && line_in(
            front + trim_end(k) + "\n\n"@,
            "### "@ + b.gotchas@[i].title@,
            w.0,
            w.1,
        ),
{
    let y = "### "@ + b.gotchas@[i].title@;
    let (a, c) = lemma_gotcha_texts_line(b.gotchas@, i);
    let k = block_of(b, Renders::Gotchas)->0;
    assert(k == gotcha_texts(b.gotchas@));
    let c2 = lemma_line_trimmed(k, y, a, c);
    lemma_line_prepend(trim_end(k) + "\n\n"@, y, a, c2, front);
    assert(front + (trim_end(k) + "\n\n"@) =~= front + trim_end(k) + "\n\n"@);
    (front + a, c2)
}

proof fn lemma_gotcha_sections(b: PlanBundle, ss: Seq<Section>, i: int) -> (w: (Seq<char>, Seq<char>))
    requires
        0 <= i < b.gotchas@.len(),
        heading_followed(b.gotchas@, i),
        hosted(b, ss, Renders::Gotchas),
    ensures
        line_in(section_texts(b, ss), "### "@ + b.gotchas@[i].title@, w.0, w.1),
    decreases ss.len(),
{
    let prev = section_texts(b, ss.drop_last());
    let y = "### "@ + b.gotchas@[i].title@;
    if hosted(b, ss.drop_last(), Renders::Gotchas) {
        let (a, c) = lemma_gotcha_sections(b, ss.drop_last(), i);
        lemma_line_append(prev, y, a, c, section_text(b, ss.last()));
        (a, c + section_text(b, ss.last()))
    } else {
        let s = ss.last();
        assert(shown(b, s) && s.renders == Renders::Gotchas);
        let front = "## "@ + s.title@ + "\n\n"@ + para(trim_end(s.body@));
        let (a, c) = lemma_gotchas_spliced(b, front, i);
        let k = block_of(b, Renders::Gotchas)->0;
        assert(section_text(b, s) == front + trim_end(k) + "\n\n"@);
        lemma_line_prepend(section_text(b, s), y, a, c, prev);
        (prev + a, c)
    }
}

#[verifier::rlimit(40)]
proof fn lemma_gotcha_document(b: PlanBundle, i: int) -> (w: (Seq<char>, Seq<char>))
    requires
        0 <= i < b.gotchas@.len(),
        heading_followed(b.gotchas@, i),
    ensures
        line_in(
            document_head(b) + section_texts(b, b.sections@) + orphan_texts(b),
            "### "@ + b.gotchas@[i].title@,
            w.0,
            w.1,
        ),
{
    let y = "### "@ + b.gotchas@[i].title@;
    let head = document_head(b);
    let secs = section_texts(b, b.sections@);
    let orph = orphan_texts(b);
    if hosted(b, b.sections@, Renders::Gotchas) {
        let (a0, c0) = lemma_gotcha_sections(b, b.sections@, i);
        lemma_line_append(secs, y, a0, c0, orph);
        lemma_line_prepend(secs + orph, y, a0, c0 + orph, head);
        assert(head + (secs + orph) =~= head + secs + orph);
        (head + a0, c0 + orph)
    } else {
        let o1 = orphan_text(b, Renders::Sources) + orphan_text(b, Renders::Decisions) + orphan_text(
            b,
            Renders::Slices,
        ) + orphan_text(b, Renders::Questions);
        let o2 = orphan_text(b, Renders::Log);
        let front = "## "@ + default_title(Renders::Gotchas) + "\n\n"@;
        let (a0, c0) = lemma_gotchas_spliced(b, front, i);
        let mid = orphan_text(b, Renders::Gotchas);
        assert(mid == front + trim_end(block_of(b, Renders::Gotchas)->0) + "\n\n"@);
        lemma_line_append(mid, y, a0, c0, o2);
        lemma_line_prepend(mid + o2, y, a0, c0 + o2, head + secs + o1);
        assert(orph =~= o1 + mid + o2);
        assert((head + secs + o1) + (mid + o2) =~= head + secs + orph);
        (head + secs + o1 + a0, c0 + o2)
    }
}

/// Every gotcha is rendered under its own heading, hosted or not: the document holds
/// `### <title>` on a line of its own for each gotcha that is followed by more text
/// (a body that is not blank, or another gotcha), and for any gotcha whose title ends
/// in a character that is not blank.
pub proof fn law_every_gotcha_is_rendered(b: PlanBundle, i: int)
    requires
        0 <= i < b.gotchas@.len(),
        heading_followed(b.gotchas@, i),
    ensures
        exists|a: Seq<char>, c: Seq<char>| rendered(b) == a + gotcha_heading(b.gotchas@[i]) + c,
{
    let y = "### "@ + b.gotchas@[i].title@;
    let whole = document_head(b) + section_texts(b, b.sections@) + orphan_texts(b);
    let (a, c) = lemma_gotcha_document(b, i);
    let c2 = lemma_line_settled(whole, y, a, c);
    assert(rendered(b) == settled(whole));
    assert(rendered(b) == a + gotcha_heading(b.gotchas@[i]) + c2);
}


proof fn lemma_settled_ends(s: Seq<char>)
    ensures
        !(settled(s).len() > 0 && ends_with(settled(s), "\n\n"@)),
    decreases s.len(),
{
    if s.len() > 0 && ends_with(s, "\n\n"@) {
        lemma_settled_ends(s.drop_last());
    }
}

/// The document never ends in a blank line.
pub proof fn law_the_document_ends_without_a_blank_line(b: PlanBundle)
    ensures
        !ends_with(rendered(b), "\n\n"@),
{
    let whole = document_head(b) + section_texts(b, b.sections@) + orphan_texts(b);
    assert(rendered(b) == settled(whole));
    lemma_settled_ends(whole);
    reveal_strlit("\n\n");
    if rendered(b).len() == 0 {
        assert(!ends_with(rendered(b), "\n\n"@));
    }
}

/// The document opens with the plan's title as a level-one heading on a line of its own.
pub proof fn law_the_document_opens_with_its_title(b: PlanBundle)
    ensures
        rendered(b).len() > b.plan.title@.len() + 3,
        rendered(b).take(b.plan.title@.len() + 3int) == "# "@ + b.plan.title@ + "\n"@,
{
    reveal_strlit("# ");
    reveal_strlit("\n");
    reveal_strlit("\n\n");
    reveal_strlit("`");
    let items = plan_meta_items(b);
    let last = "**Plan:** `"@ + b.plan.slug@ + "`"@;
    assert(items.len() >= 1 && items.last() == last);
    let j = join(items, " · "@);
    assert(j.len() >= 1 && j.last() == '`') by {
        if items.len() == 1 {
            assert(j == last);
        } else {
            assert(j == join(items.drop_last(), " · "@) + " · "@ + last);
        }
        assert(last.last() == '`');
    }
    let t = b.plan.title@;
    let top = "# "@ + t + "\n\n"@;
    let x = top + summary_text(b.plan.summary);
    let head = document_head(b);
    assert(head == x + j + "\n\n"@);
    let k = head.len() - 3;
    assert(head[k] == j.last());
    let whole = head + section_texts(b, b.sections@) + orphan_texts(b);
    assert(rendered(b) == settled(whole));
    assert(whole[k] == '`');
    lemma_settled_keeps(whole, k);
    let n: int = t.len() + 3int;
    assert(k > n);
    assert(rendered(b).take(n) =~= whole.take(n));
    assert(whole.take(n) =~= "# "@ + t + "\n"@);
}

} // verus!
