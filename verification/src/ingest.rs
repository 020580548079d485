//! The rows a parsed plan becomes. Sections, decisions and slices keep the document's
//! order with room between them (10, 20, 30...), decisions arrive agreed, a slice the
//! document already ticked off is stamped complete, and the log is written oldest
//! first so that row ids follow the order things happened.
use vstd::prelude::*;

use crate::model::{DecisionStatus, LogKind, Renders, Status};
use crate::parse::ParsedPlan;

verus! {

/// The position of the `i`-th item: 10, 20, 30...
pub open spec fn ord_of(i: int) -> int {
    (i + 1) * 10
}

#[derive(Debug, Clone)]
pub struct SectionRow {
    pub ord: i64,
    pub key: String,
    pub title: String,
    pub body: String,
    pub renders: Renders,
}

#[derive(Debug, Clone)]
pub struct DecisionRow {
    pub ord: i64,
    pub key: String,
    pub title: String,
    pub body: String,
    pub status: DecisionStatus,
}

#[derive(Debug, Clone)]
pub struct SliceRow {
    pub ord: i64,
    pub key: String,
    pub title: String,
    pub status: Status,
    pub scope: String,
    pub demo: Option<String>,
    pub estimate_files: Option<i64>,
    pub completed_at: Option<String>,
}

#[derive(Debug, Clone)]
pub struct LogRow {
    pub at: String,
    pub actor: String,
    pub kind: LogKind,
    pub body: String,
}

/// Everything an imported document writes, in the order it is written. Gotchas go
/// into a table that keeps the first of a title, so a repeated title is written once.
pub struct ParsedRows {
    pub sections: Vec<SectionRow>,
    pub decisions: Vec<DecisionRow>,
    pub slices: Vec<SliceRow>,
    pub questions: Vec<String>,
    pub gotchas: Vec<(String, String)>,
    pub log: Vec<LogRow>,
}

pub open spec fn opt_eq(a: Option<String>, b: Option<String>) -> bool {
    match (a, b) {
        (Some(x), Some(y)) => x@ == y@,
        (None, None) => true,
        _ => false,
    }
}

/// How many of anything one document can hold before its positions leave `i64`.
pub open spec fn fits(n: nat) -> bool {
    n * 10 <= i64::MAX
}

fn section_rows(p: &ParsedPlan) -> (r: Vec<SectionRow>)
    requires
        fits(p.sections@.len()),
    ensures
        r@.len() == p.sections@.len(),
        forall|i: int|
            0 <= i < r@.len() ==> {
                let (row, s) = (#[trigger] r@[i], p.sections@[i]);
                &&& row.ord == ord_of(i)
                &&& row.key@ == s.key@
                &&& row.title@ == s.title@
                &&& row.body@ == s.body@
                &&& row.renders == s.renders
            },
{
    let mut out: Vec<SectionRow> = Vec::new();
    let mut i: usize = 0;
    while i < p.sections.len()
        invariant
            i <= p.sections@.len(),
            fits(p.sections@.len()),
            out@.len() == i,
            forall|j: int|
                0 <= j < i ==> {
                    let (row, s) = (#[trigger] out@[j], p.sections@[j]);
                    &&& row.ord == ord_of(j)
                    &&& row.key@ == s.key@
                    &&& row.title@ == s.title@
                    &&& row.body@ == s.body@
                    &&& row.renders == s.renders
                },
        decreases p.sections.len() - i,
    {
        let s = &p.sections[i];
        let ord: i64 = (i as i64 + 1) * 10;
        out.push(
            SectionRow {
                ord,
                key: s.key.clone(),
                title: s.title.clone(),
                body: s.body.clone(),
                renders: s.renders,
            },
        );
        i += 1;
    }
    out
}

fn decision_rows(p: &ParsedPlan) -> (r: Vec<DecisionRow>)
    requires
        fits(p.decisions@.len()),
    ensures
        r@.len() == p.decisions@.len(),
        forall|i: int|
            0 <= i < r@.len() ==> {
                let (row, d) = (#[trigger] r@[i], p.decisions@[i]);
                &&& row.ord == ord_of(i)
                &&& row.key@ == d.key@
                &&& row.title@ == d.title@
                &&& row.body@ == d.body@
                &&& row.status == DecisionStatus::Agreed
            },
{
    let mut out: Vec<DecisionRow> = Vec::new();
    let mut i: usize = 0;
    while i < p.decisions.len()
        invariant
            i <= p.decisions@.len(),
            fits(p.decisions@.len()),
            out@.len() == i,
            forall|j: int|
                0 <= j < i ==> {
                    let (row, d) = (#[trigger] out@[j], p.decisions@[j]);
                    &&& row.ord == ord_of(j)
                    &&& row.key@ == d.key@
                    &&& row.title@ == d.title@
                    &&& row.body@ == d.body@
                    &&& row.status == DecisionStatus::Agreed
                },
        decreases p.decisions.len() - i,
    {
        let d = &p.decisions[i];
        let ord: i64 = (i as i64 + 1) * 10;
        out.push(
            DecisionRow {
                ord,
                key: d.key.clone(),
                title: d.title.clone(),
                body: d.body.clone(),
                status: DecisionStatus::Agreed,
            },
        );
        i += 1;
    }
    out
}

fn copy_opt(o: &Option<String>) -> (r: Option<String>)
    ensures
        opt_eq(r, *o),
{
    match o {
        Some(s) => Some(s.clone()),
        None => None,
    }
}

fn slice_rows(p: &ParsedPlan, ts: &str) -> (r: Vec<SliceRow>)
    requires
        fits(p.slices@.len()),
    ensures
        r@.len() == p.slices@.len(),
        forall|i: int|
            0 <= i < r@.len() ==> {
                let (row, s) = (#[trigger] r@[i], p.slices@[i]);
                &&& row.ord == ord_of(i)
                &&& row.key@ == s.key@
                &&& row.title@ == s.title@
                &&& row.status == s.status
                &&& row.scope@ == s.scope@
                &&& opt_eq(row.demo, s.demo)
                &&& row.estimate_files == s.estimate_files
                &&& match row.completed_at {
                    Some(c) => s.status == Status::Done && c@ == ts@,
                    None => s.status != Status::Done,
                }
            },
{
    let mut out: Vec<SliceRow> = Vec::new();
    let mut i: usize = 0;
    while i < p.slices.len()
        invariant
            i <= p.slices@.len(),
            fits(p.slices@.len()),
            out@.len() == i,
            forall|j: int|
                0 <= j < i ==> {
                    let (row, s) = (#[trigger] out@[j], p.slices@[j]);
                    &&& row.ord == ord_of(j)
                    &&& row.key@ == s.key@
                    &&& row.title@ == s.title@
                    &&& row.status == s.status
                    &&& row.scope@ == s.scope@
                    &&& opt_eq(row.demo, s.demo)
                    &&& row.estimate_files == s.estimate_files
                    &&& match row.completed_at {
                        Some(c) => s.status == Status::Done && c@ == ts@,
                        None => s.status != Status::Done,
                    }
                },
        decreases p.slices.len() - i,
    {
        let s = &p.slices[i];
        let ord: i64 = (i as i64 + 1) * 10;
        let completed_at = if s.status == Status::Done {
            Some(ts.to_string())
        } else {
            None
        };
        out.push(
            SliceRow {
                ord,
                key: s.key.clone(),
                title: s.title.clone(),
                status: s.status,
                scope: s.scope.clone(),
                demo: copy_opt(&s.demo),
                estimate_files: s.estimate_files,
                completed_at,
            },
        );
        i += 1;
    }
    out
}

fn log_rows(p: &ParsedPlan, ts: &str, actor: &str) -> (r: Vec<LogRow>)
    ensures
        r@.len() == p.log@.len(),
        forall|i: int|
            0 <= i < r@.len() ==> {
                let (row, e) = (#[trigger] r@[i], p.log@[p.log@.len() - 1 - i]);
                &&& row.at@ == match e.at {
                    Some(a) => a@,
                    None => ts@,
                }
                &&& row.actor@ == actor@
                &&& row.kind == LogKind::Progress
                &&& row.body@ == e.body@
            },
{
    let n = p.log.len();
    let mut out: Vec<LogRow> = Vec::new();
    let mut i: usize = 0;
    while i < n
        invariant
            n == p.log@.len(),
            i <= n,
            out@.len() == i,
            forall|j: int|
                0 <= j < i ==> {
                    let (row, e) = (#[trigger] out@[j], p.log@[n - 1 - j]);
                    &&& row.at@ == match e.at {
                        Some(a) => a@,
                        None => ts@,
                    }
                    &&& row.actor@ == actor@
                    &&& row.kind == LogKind::Progress
                    &&& row.body@ == e.body@
                },
        decreases n - i,
    {
        let e = &p.log[n - 1 - i];
        let at = match &e.at {
            Some(a) => a.clone(),
            None => ts.to_string(),
        };
        out.push(LogRow { at, actor: actor.to_string(), kind: LogKind::Progress, body: e.body.clone() });
        i += 1;
    }
    out
}

/// The rows a parsed document is written as: sections, decisions and slices at 10, 20,
/// 30... in the document's order; decisions agreed; a slice that is done stamped
/// complete at `ts`; every question and gotcha as it stands; and the log reversed, so
/// the oldest entry is written first, with `ts` where an entry carried no date and
/// `actor` as its author.
pub fn rows_of(p: &ParsedPlan, ts: &str, actor: &str) -> (r: ParsedRows)
    requires
        fits(p.sections@.len()),
        fits(p.decisions@.len()),
        fits(p.slices@.len()),
    ensures
        r.sections@.len() == p.sections@.len(),
        forall|i: int|
            0 <= i < r.sections@.len() ==> {
                let (row, s) = (#[trigger] r.sections@[i], p.sections@[i]);
                &&& row.ord == ord_of(i)
                &&& row.key@ == s.key@
                &&& row.title@ == s.title@
                &&& row.body@ == s.body@
                &&& row.renders == s.renders
            },
        r.decisions@.len() == p.decisions@.len(),
        forall|i: int|
            0 <= i < r.decisions@.len() ==> {
                let (row, d) = (#[trigger] r.decisions@[i], p.decisions@[i]);
                &&& row.ord == ord_of(i)
                &&& row.key@ == d.key@
                &&& row.title@ == d.title@
                &&& row.body@ == d.body@
                &&& row.status == DecisionStatus::Agreed
            },
        r.slices@.len() == p.slices@.len(),
        forall|i: int|
            0 <= i < r.slices@.len() ==> {
                let (row, s) = (#[trigger] r.slices@[i], p.slices@[i]);
                &&& row.ord == ord_of(i)
                &&& row.key@ == s.key@
                &&& row.title@ == s.title@
                &&& row.status == s.status
                &&& row.scope@ == s.scope@
                &&& opt_eq(row.demo, s.demo)
                &&& row.estimate_files == s.estimate_files
                &&& match row.completed_at {
                    Some(c) => s.status == Status::Done && c@ == ts@,
                    None => s.status != Status::Done,
                }
            },
        crate::text::views_of_strings(r.questions@) == crate::text::views_of_strings(p.questions@),
        r.gotchas@.len() == p.gotchas@.len(),
        forall|i: int|
            0 <= i < r.gotchas@.len() ==> (#[trigger] r.gotchas@[i]).0@ == p.gotchas@[i].0@
                && r.gotchas@[i].1@ == p.gotchas@[i].1@,
        r.log@.len() == p.log@.len(),
        forall|i: int|
            0 <= i < r.log@.len() ==> {
                let (row, e) = (#[trigger] r.log@[i], p.log@[p.log@.len() - 1 - i]);
                &&& row.at@ == match e.at {
                    Some(a) => a@,
                    None => ts@,
                }
                &&& row.actor@ == actor@
                &&& row.kind == LogKind::Progress
                &&& row.body@ == e.body@
            },
{
    let mut questions: Vec<String> = Vec::new();
    let mut i: usize = 0;
    while i < p.questions.len()
        invariant
            i <= p.questions@.len(),
            crate::text::views_of_strings(questions@) == crate::text::views_of_strings(
                p.questions@.take(i as int),
            ),
        decreases p.questions.len() - i,
    {
        let q = p.questions[i].clone();
        let ghost before = questions@;
        questions.push(q);
        assert(questions@ == before.push(q));
        assert(crate::text::views_of_strings(questions@) =~= crate::text::views_of_strings(before).push(q@));
        assert(p.questions@.take(i + 1) =~= p.questions@.take(i as int).push(p.questions@[i as int]));
        assert(crate::text::views_of_strings(p.questions@.take(i + 1)) =~= crate::text::views_of_strings(
            p.questions@.take(i as int),
        ).push(p.questions@[i as int]@));
        i += 1;
    }
    assert(p.questions@.take(p.questions@.len() as int) =~= p.questions@);
    let mut gotchas: Vec<(String, String)> = Vec::new();
    let mut k: usize = 0;
    while k < p.gotchas.len()
        invariant
            k <= p.gotchas@.len(),
            gotchas@.len() == k,
            forall|j: int|
                0 <= j < k ==> (#[trigger] gotchas@[j]).0@ == p.gotchas@[j].0@ && gotchas@[j].1@
                    == p.gotchas@[j].1@,
        decreases p.gotchas.len() - k,
    {
        let t = p.gotchas[k].0.clone();
        let b = p.gotchas[k].1.clone();
        gotchas.push((t, b));
        k += 1;
    }
    ParsedRows {
        sections: section_rows(p),
        decisions: decision_rows(p),
        slices: slice_rows(p, ts),
        questions,
        gotchas,
        log: log_rows(p, ts, actor),
    }
}

} // verus!
