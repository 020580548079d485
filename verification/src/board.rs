//! The shapes a board reads: repos with their counts, plans with their roll-ups, a
//! column per status with a card per slice, and one ticket opened.
use vstd::prelude::*;

use crate::model::{status_name, LogEntry, Plan, Slice, Status};
use crate::text::{chars_of, join, joined_str, lemma_views_push, push_str, string_of, views};

verus! {

/// A repo as the sidebar shows it: the row, plus enough counts to decide whether it is
/// worth expanding.
#[derive(Debug, Clone)]
pub struct RepoSummary {
    pub id: i64,
    pub key: String,
    pub name: String,
    pub remote_url: Option<String>,
    pub main_path: Option<String>,
    pub plans: i64,
    /// Plans that are neither done nor deliberately dropped.
    pub unfinished_plans: i64,
    pub open_questions: i64,
    pub last_activity: Option<String>,
}

/// A plan with its progress roll-ups.
#[derive(Debug, Clone)]
pub struct PlanSummary {
    pub plan: Plan,
    pub slices: i64,
    pub done: i64,
    /// `None` when the plan has no slices yet, which is different from 0%.
    pub percent: Option<i64>,
    pub open_questions: i64,
    pub last_activity: Option<String>,
}

#[derive(Debug, Clone)]
pub struct BoardColumn {
    pub status: Status,
    pub slices: Vec<Slice>,
}

#[derive(Debug, Clone)]
pub struct Board {
    pub plan: Plan,
    /// Every status in `Status::ALL` order, empty columns included: a column that
    /// disappears when it empties is a column you cannot drag a card into.
    pub columns: Vec<BoardColumn>,
}

/// One ticket, opened.
#[derive(Debug, Clone)]
pub struct SliceDetail {
    pub slice: Slice,
    pub plan_id: i64,
    pub plan_slug: String,
    pub plan_title: String,
    pub repo: String,
    pub log: Vec<LogEntry>,
}

/// The slices with a given status, in their order.
pub open spec fn with_status(ss: Seq<Slice>, st: Status) -> Seq<Slice>
    decreases ss.len(),
{
    if ss.len() == 0 {
        Seq::empty()
    } else if ss.last().status == st {
        with_status(ss.drop_last(), st).push(ss.last())
    } else {
        with_status(ss.drop_last(), st)
    }
}

fn column_for(slices: &Vec<Slice>, st: Status) -> (c: BoardColumn)
    ensures
        c.status == st,
        c.slices@ == with_status(slices@, st),
{
    let mut out: Vec<Slice> = Vec::new();
    let mut i: usize = 0;
    while i < slices.len()
        invariant
            i <= slices@.len(),
            out@ == with_status(slices@.take(i as int), st),
        decreases slices.len() - i,
    {
        assert(slices@.take(i + 1).drop_last() =~= slices@.take(i as int));
        if slices[i].status == st {
            out.push(slices[i].copied());
        }
        i += 1;
    }
    assert(slices@.take(slices@.len() as int) =~= slices@);
    BoardColumn { status: st, slices: out }
}

/// A column per status, in `Status::ALL` order, each holding that status's slices in
/// order: every slice lands in exactly the column of its status.
pub fn columns(slices: Vec<Slice>) -> (r: Vec<BoardColumn>)
    ensures
        r@.len() == 7,
        forall|i: int|
            0 <= i < 7 ==> (#[trigger] r@[i]).status == Status::ALL@[i] && r@[i].slices@
                == with_status(slices@, Status::ALL@[i]),
{
    let mut r: Vec<BoardColumn> = Vec::new();
    let all = Status::ALL;
    let mut k: usize = 0;
    while k < 7
        invariant
            k <= 7,
            all@ == Status::ALL@,
            r@.len() == k,
            forall|i: int|
                0 <= i < k ==> (#[trigger] r@[i]).status == Status::ALL@[i] && r@[i].slices@
                    == with_status(slices@, Status::ALL@[i]),
        decreases 7 - k,
    {
        let c = column_for(&slices, all[k]);
        r.push(c);
        k += 1;
    }
    r
}

pub open spec fn quoted_names(ss: Seq<Status>) -> Seq<Seq<char>> {
    ss.map_values(|s: Status| "'"@ + status_name(s) + "'"@)
}

/// `'ready','active'`: statuses as an SQL list.
pub fn status_list(statuses: &[Status]) -> (r: String)
    ensures
        r@ == join(quoted_names(statuses@), ","@),
{
    let mut parts: Vec<Vec<char>> = Vec::new();
    let mut i: usize = 0;
    while i < statuses.len()
        invariant
            i <= statuses@.len(),
            views(parts@) == quoted_names(statuses@).take(i as int),
        decreases statuses.len() - i,
    {
        let mut p: Vec<char> = Vec::new();
        push_str(&mut p, "'");
        push_str(&mut p, statuses[i].as_str());
        push_str(&mut p, "'");
        proof {
            lemma_views_push(parts@, p);
        }
        parts.push(p);
        assert(views(parts@) =~= quoted_names(statuses@).take(i + 1));
        i += 1;
    }
    assert(quoted_names(statuses@).take(statuses@.len() as int) =~= quoted_names(statuses@));
    let j = joined_str(&parts, ",");
    string_of(&j)
}

} // verus!
