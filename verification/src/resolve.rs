//! Answering "which plan am I on?" from where the caller is standing. The cascade is
//! deterministic and stops at the first hit; an unresolved lookup returns candidates
//! rather than a guess, because a wrong answer writes progress into the wrong plan.
use vstd::prelude::*;

use crate::git::GitContext;
use crate::model::{status_terminal, Plan, Slice, Status};
use crate::parse::opt_view;
use crate::text::{chars_of, dec, eq_chars, push_decimal, push_str, string_of, trim, trimmed};
use crate::util::ticket;

verus! {

#[derive(Debug, Clone, Copy, PartialEq, Eq, Structural)]
pub enum Rule {
    /// `--plan`, or `$AI_PLANNER_PLAN`.
    Explicit,
    /// A slice records this exact branch.
    SliceBranch,
    /// Something is claimed in this worktree.
    WorktreeClaim,
    /// The last handoff written from this worktree.
    Handoff,
    /// Learned from previous confirmed resolutions here.
    Affinity,
    /// A ticket key in the branch name matches a plan.
    BranchTicket,
    /// The repo has exactly one unfinished plan.
    OnlyPlan,
}

pub open spec fn rule_reason(r: Rule) -> Seq<char> {
    match r {
        Rule::Explicit => "you named it"@,
        Rule::SliceBranch => "a slice records this branch"@,
        Rule::WorktreeClaim => "a slice is claimed in this worktree"@,
        Rule::Handoff => "the last handoff from this worktree"@,
        Rule::Affinity => "this branch resolved here before"@,
        Rule::BranchTicket => "the branch name carries the ticket key"@,
        Rule::OnlyPlan => "the only unfinished plan in this repo"@,
    }
}

impl Rule {
    pub fn why(self) -> (r: &'static str)
        ensures
            r@ == rule_reason(self),
    {
        match self {
            Rule::Explicit => "you named it",
            Rule::SliceBranch => "a slice records this branch",
            Rule::WorktreeClaim => "a slice is claimed in this worktree",
            Rule::Handoff => "the last handoff from this worktree",
            Rule::Affinity => "this branch resolved here before",
            Rule::BranchTicket => "the branch name carries the ticket key",
            Rule::OnlyPlan => "the only unfinished plan in this repo",
        }
    }
}

#[derive(Debug, Clone)]
pub struct Resolution {
    pub plan: Plan,
    /// The slice this worktree is on, when the rule identified one.
    pub slice: Option<Slice>,
    pub rule: Rule,
}

/// What to say when nothing resolved, with the candidates so the caller can offer
/// them instead of inventing an answer.
#[derive(Debug, Clone)]
pub struct Unresolved {
    pub reason: String,
    pub candidates: Vec<Plan>,
}

// ---------------------------------------------------------------------------
// Picking a slice
// ---------------------------------------------------------------------------

pub open spec fn claimed_here(s: Slice, wt: Seq<char>) -> bool {
    opt_view(s.worktree_path) == Some(wt) && s.claimed_by is Some
}

pub open spec fn live_on_branch(s: Slice, b: Seq<char>) -> bool {
    opt_view(s.branch) == Some(b) && !status_terminal(s.status)
}

pub open spec fn going(s: Slice) -> bool {
    s.status == Status::Active || s.status == Status::InReview
}

pub open spec fn first_claimed_here(ss: Seq<Slice>, wt: Seq<char>, i: int) -> Option<Slice>
    decreases ss.len() - i,
{
    if i < 0 || i >= ss.len() {
        None
    } else if claimed_here(ss[i], wt) {
        Some(ss[i])
    } else {
        first_claimed_here(ss, wt, i + 1)
    }
}

pub open spec fn first_live_on_branch(ss: Seq<Slice>, b: Seq<char>, i: int) -> Option<Slice>
    decreases ss.len() - i,
{
    if i < 0 || i >= ss.len() {
        None
    } else if live_on_branch(ss[i], b) {
        Some(ss[i])
    } else {
        first_live_on_branch(ss, b, i + 1)
    }
}

pub open spec fn first_going(ss: Seq<Slice>, i: int) -> Option<Slice>
    decreases ss.len() - i,
{
    if i < 0 || i >= ss.len() {
        None
    } else if going(ss[i]) {
        Some(ss[i])
    } else {
        first_going(ss, i + 1)
    }
}

/// Where a caller stands: its checkout and its branch.
pub open spec fn spot(git: Option<GitContext>) -> Option<(Seq<char>, Option<Seq<char>>)> {
    match git {
        Some(g) => Some((g.worktree@, opt_view(g.branch))),
        None => None,
    }
}

/// The slice within a plan that this worktree is on: claimed here first, then an
/// unfinished one on this branch, then the first one that is going.
pub open spec fn slice_for_of(ss: Seq<Slice>, at: Option<(Seq<char>, Option<Seq<char>>)>) -> Option<Slice> {
    let here = match at {
        Some((wt, _)) => first_claimed_here(ss, wt, 0),
        None => None,
    };
    let on_branch = match at {
        Some((_, Some(b))) => first_live_on_branch(ss, b, 0),
        _ => None,
    };
    if here is Some {
        here
    } else if on_branch is Some {
        on_branch
    } else {
        first_going(ss, 0)
    }
}

fn same_text(a: &str, b: &str) -> (r: bool)
    ensures
        r == (a@ == b@),
{
    let x = chars_of(a);
    let y = chars_of(b);
    eq_chars(&x, &y)
}

fn opt_is(o: &Option<String>, v: &str) -> (r: bool)
    ensures
        r == (opt_view(*o) == Some(v@)),
{
    match o {
        Some(s) => same_text(s.as_str(), v),
        None => false,
    }
}

/// The slice this worktree is on within a plan's slices (in plan order).
pub fn slice_for(slices: &Vec<Slice>, git: &Option<GitContext>) -> (r: Option<Slice>)
    ensures
        r == slice_for_of(slices@, spot(*git)),
{
    let ghost ss = slices@;
    if let Some(g) = git {
        let wt = g.worktree_str();
        let mut i: usize = 0;
        while i < slices.len()
            invariant
                i <= slices@.len(),
                ss == slices@,
                wt@ == g.worktree@,
                spot(*git) == Some((g.worktree@, opt_view(g.branch))),
                first_claimed_here(ss, wt@, 0) == first_claimed_here(ss, wt@, i as int),
            decreases slices.len() - i,
        {
            let s = &slices[i];
            if opt_is(&s.worktree_path, wt.as_str()) && s.claimed_by.is_some() {
                assert(claimed_here(ss[i as int], wt@));
                return Some(s.copied());
            }
            i += 1;
        }
        assert(first_claimed_here(ss, g.worktree@, 0) is None);
        if let Some(b) = &g.branch {
            let mut i: usize = 0;
            while i < slices.len()
                invariant
                    i <= slices@.len(),
                    ss == slices@,
                    spot(*git) == Some((g.worktree@, opt_view(g.branch))),
                    opt_view(g.branch) == Some(b@),
                    first_claimed_here(ss, g.worktree@, 0) is None,
                    first_live_on_branch(ss, b@, 0) == first_live_on_branch(ss, b@, i as int),
                decreases slices.len() - i,
            {
                let s = &slices[i];
                if opt_is(&s.branch, b.as_str()) && !s.status.is_terminal() {
                    assert(live_on_branch(ss[i as int], b@));
                    return Some(s.copied());
                }
                i += 1;
            }
            assert(first_live_on_branch(ss, b@, 0) is None);
        }
    }
    assert(slice_for_of(ss, spot(*git)) == first_going(ss, 0));
    let mut i: usize = 0;
    while i < slices.len()
        invariant
            i <= slices@.len(),
            ss == slices@,
            slice_for_of(ss, spot(*git)) == first_going(ss, 0),
            first_going(ss, 0) == first_going(ss, i as int),
        decreases slices.len() - i,
    {
        let s = &slices[i];
        if s.status == Status::Active || s.status == Status::InReview {
            return Some(s.copied());
        }
        i += 1;
    }
    None
}

pub open spec fn mine(s: Slice, worktree: Option<Seq<char>>) -> bool {
    !status_terminal(s.status) && s.claimed_by is Some && opt_view(s.worktree_path) == worktree
}

pub open spec fn free(s: Slice) -> bool {
    (s.status == Status::Ready || s.status == Status::Active) && s.claimed_by is None
}

pub open spec fn first_mine(ss: Seq<Slice>, worktree: Option<Seq<char>>, i: int) -> Option<Slice>
    decreases ss.len() - i,
{
    if i < 0 || i >= ss.len() {
        None
    } else if mine(ss[i], worktree) {
        Some(ss[i])
    } else {
        first_mine(ss, worktree, i + 1)
    }
}

pub open spec fn first_free(ss: Seq<Slice>, i: int) -> Option<Slice>
    decreases ss.len() - i,
{
    if i < 0 || i >= ss.len() {
        None
    } else if free(ss[i]) {
        Some(ss[i])
    } else {
        first_free(ss, i + 1)
    }
}

/// The next thing to pick up: what this worktree already holds comes first, then the
/// first slice that is ready or going and held by nobody.
pub open spec fn next_of(ss: Seq<Slice>, worktree: Option<Seq<char>>) -> Option<Slice> {
    if first_mine(ss, worktree, 0) is Some {
        first_mine(ss, worktree, 0)
    } else {
        first_free(ss, 0)
    }
}

pub fn next_slice(slices: &Vec<Slice>, worktree: &Option<String>) -> (r: Option<Slice>)
    ensures
        r == next_of(slices@, opt_view(*worktree)),
{
    let ghost w = opt_view(*worktree);
    let mut i: usize = 0;
    while i < slices.len()
        invariant
            i <= slices@.len(),
            w == opt_view(*worktree),
            first_mine(slices@, w, 0) == first_mine(slices@, w, i as int),
        decreases slices.len() - i,
    {
        let s = &slices[i];
        let here = match (&s.worktree_path, worktree) {
            (Some(a), Some(b)) => same_text(a.as_str(), b.as_str()),
            (None, None) => true,
            _ => false,
        };
        if !s.status.is_terminal() && s.claimed_by.is_some() && here {
            assert(mine(slices@[i as int], w));
            return Some(s.copied());
        }
        i += 1;
    }
    assert(first_mine(slices@, w, 0) is None);
    let mut i: usize = 0;
    while i < slices.len()
        invariant
            i <= slices@.len(),
            first_mine(slices@, w, 0) is None,
            w == opt_view(*worktree),
            first_free(slices@, 0) == first_free(slices@, i as int),
        decreases slices.len() - i,
    {
        let s = &slices[i];
        if (s.status == Status::Ready || s.status == Status::Active) && s.claimed_by.is_none() {
            return Some(s.copied());
        }
        i += 1;
    }
    None
}

proof fn lemma_first_mine(ss: Seq<Slice>, w: Option<Seq<char>>, i: int)
    requires
        0 <= i,
    ensures
        first_mine(ss, w, i) matches Some(s) ==> exists|j: int|
            i <= j < ss.len() && #[trigger] ss[j] == s && mine(s, w) && forall|k: int| i <= k < j ==> !mine(#[trigger] ss[k], w),
        first_mine(ss, w, i) is None ==> forall|j: int| i <= j < ss.len() ==> !mine(#[trigger] ss[j], w),
    decreases ss.len() - i,
{
    if i < ss.len() {
        lemma_first_mine(ss, w, i + 1);
        if !mine(ss[i], w) {
            if first_mine(ss, w, i + 1) is Some {
                let s = first_mine(ss, w, i + 1)->0;
                let j = choose|j: int|
                    i + 1 <= j < ss.len() && #[trigger] ss[j] == s && mine(s, w) && forall|k: int|
                        i + 1 <= k < j ==> !mine(#[trigger] ss[k], w);
                assert(i <= j < ss.len() && ss[j] == s && forall|k: int| i <= k < j ==> !mine(#[trigger] ss[k], w));
            }
        }
    }
}

proof fn lemma_first_free(ss: Seq<Slice>, i: int)
    requires
        0 <= i,
    ensures
        first_free(ss, i) matches Some(s) ==> exists|j: int|
            i <= j < ss.len() && #[trigger] ss[j] == s && free(s) && forall|k: int| i <= k < j ==> !free(#[trigger] ss[k]),
        first_free(ss, i) is None ==> forall|j: int| i <= j < ss.len() ==> !free(#[trigger] ss[j]),
    decreases ss.len() - i,
{
    if i < ss.len() {
        lemma_first_free(ss, i + 1);
        if !free(ss[i]) {
            if first_free(ss, i + 1) is Some {
                let s = first_free(ss, i + 1)->0;
                let j = choose|j: int|
                    i + 1 <= j < ss.len() && #[trigger] ss[j] == s && free(s) && forall|k: int|
                        i + 1 <= k < j ==> !free(#[trigger] ss[k]);
                assert(i <= j < ss.len() && ss[j] == s && forall|k: int| i <= k < j ==> !free(#[trigger] ss[k]));
            }
        }
    }
}

/// The next slice to pick up. When this worktree holds live work, it is the first
/// slice it holds. Otherwise it is the first slice that is ready or active and held by
/// nobody, so a blocked, in-review, finished or claimed slice is never offered; and
/// there is none only when no slice is like that.
pub proof fn law_the_next_slice_is_held_here_or_free(ss: Seq<Slice>, w: Option<Seq<char>>)
    ensures
        (exists|i: int|
            0 <= i < ss.len() && !status_terminal(#[trigger] ss[i].status) && ss[i].claimed_by is Some && opt_view(
                ss[i].worktree_path,
            ) == w) ==> (next_of(ss, w) matches Some(s) && exists|i: int|
            0 <= i < ss.len() && #[trigger] ss[i] == s && !status_terminal(s.status) && s.claimed_by is Some
                && opt_view(s.worktree_path) == w && forall|k: int|
                0 <= k < i ==> !(!status_terminal(#[trigger] ss[k].status) && ss[k].claimed_by is Some && opt_view(
                    ss[k].worktree_path,
                ) == w)),
        (forall|i: int|
            0 <= i < ss.len() ==> !(!status_terminal(#[trigger] ss[i].status) && ss[i].claimed_by is Some && opt_view(
                ss[i].worktree_path,
            ) == w)) ==> match next_of(ss, w) {
            Some(s) => exists|i: int|
                0 <= i < ss.len() && #[trigger] ss[i] == s && (s.status == Status::Ready || s.status == Status::Active)
                    && s.claimed_by is None && forall|k: int|
                    0 <= k < i ==> !((#[trigger] ss[k].status == Status::Ready || ss[k].status == Status::Active)
                        && ss[k].claimed_by is None),
            None => forall|i: int|
                0 <= i < ss.len() ==> !((#[trigger] ss[i].status == Status::Ready || ss[i].status == Status::Active)
                    && ss[i].claimed_by is None),
        },
{
    lemma_first_mine(ss, w, 0);
    lemma_first_free(ss, 0);
    if exists|i: int|
        0 <= i < ss.len() && !status_terminal(#[trigger] ss[i].status) && ss[i].claimed_by is Some && opt_view(
            ss[i].worktree_path,
        ) == w {
        let i = choose|i: int|
            0 <= i < ss.len() && !status_terminal(#[trigger] ss[i].status) && ss[i].claimed_by is Some && opt_view(
                ss[i].worktree_path,
            ) == w;
        assert(mine(ss[i], w));
    }
    if forall|i: int|
        0 <= i < ss.len() ==> !(!status_terminal(#[trigger] ss[i].status) && ss[i].claimed_by is Some && opt_view(
            ss[i].worktree_path,
        ) == w) {
        if first_mine(ss, w, 0) is Some {
            let s = first_mine(ss, w, 0)->0;
            let j = choose|j: int|
                0 <= j < ss.len() && #[trigger] ss[j] == s && mine(s, w) && forall|k: int| 0 <= k < j ==> !mine(#[trigger] ss[k], w);
            assert(mine(ss[j], w));
        }
    }
}

pub open spec fn first_live(ss: Seq<Slice>, i: int) -> Option<Slice>
    decreases ss.len() - i,
{
    if i < 0 || i >= ss.len() {
        None
    } else if !status_terminal(ss[i].status) {
        Some(ss[i])
    } else {
        first_live(ss, i + 1)
    }
}

fn first_live_of(ss: &Vec<Slice>) -> (r: Option<Slice>)
    ensures
        r == first_live(ss@, 0),
{
    let mut i: usize = 0;
    while i < ss.len()
        invariant
            i <= ss@.len(),
            first_live(ss@, 0) == first_live(ss@, i as int),
        decreases ss.len() - i,
    {
        if !ss[i].status.is_terminal() {
            return Some(ss[i].copied());
        }
        i += 1;
    }
    None
}

/// Of the slices claimed in a worktree (newest claim first), the unfinished one, or
/// failing that the newest.
pub open spec fn claimed_pick(ss: Seq<Slice>) -> Option<Slice> {
    if first_live(ss, 0) is Some {
        first_live(ss, 0)
    } else if ss.len() > 0 {
        Some(ss[0])
    } else {
        None
    }
}

pub fn claimed_in(slices: &Vec<Slice>) -> (r: Option<Slice>)
    ensures
        r == claimed_pick(slices@),
{
    match first_live_of(slices) {
        Some(s) => Some(s),
        None => {
            if slices.len() > 0 {
                Some(slices[0].copied())
            } else {
                None
            }
        },
    }
}


// ---------------------------------------------------------------------------
// The cascade
// ---------------------------------------------------------------------------

/// What the caller named: `--plan`, else `$AI_PLANNER_PLAN`; a blank name is none.
pub open spec fn named_of(explicit: Option<Seq<char>>, env: Option<Seq<char>>) -> Option<Seq<char>> {
    let n = match explicit {
        Some(e) => Some(e),
        None => env,
    };
    match n {
        Some(x) => if trim(x).len() > 0 {
            Some(x)
        } else {
            None
        },
        None => None,
    }
}

pub fn named_plan(explicit: Option<String>, env: Option<String>) -> (r: Option<String>)
    ensures
        opt_view(r) == named_of(opt_view(explicit), opt_view(env)),
{
    let n = match explicit {
        Some(e) => Some(e),
        None => env,
    };
    match n {
        Some(x) => {
            let v = chars_of(x.as_str());
            let t = trimmed(&v);
            if t.len() > 0 {
                Some(x)
            } else {
                None
            }
        },
        None => None,
    }
}

/// What the cascade has learned so far, one answer per question it asked. A `None`
/// field is a question not yet asked.
#[derive(Debug, Clone)]
pub struct Evidence {
    /// The plan the caller named.
    pub named_plan: Option<Plan>,
    /// Slices anywhere in the repo that record the current branch.
    pub on_branch: Option<Vec<Slice>>,
    /// Slices claimed in this worktree, newest claim first.
    pub claimed: Option<Vec<Slice>>,
    /// The plan of the last handoff written from this worktree, if any.
    pub handoff_plan: Option<Option<i64>>,
    /// The plan learned for this branch or worktree, if any.
    pub affinity_plan: Option<Option<i64>>,
    /// The plan the branch's ticket key finds, if any.
    pub ticket_plan: Option<Option<Plan>>,
    /// The repo's unfinished plans, as `unfinished_plans` picks them out.
    pub unfinished: Option<Vec<Plan>>,
    /// The plan of the rule that fired, fetched by id.
    pub fetched: Option<Plan>,
    /// The slices, in order, of the plan that resolved.
    pub plan_slices: Option<Vec<Slice>>,
}

impl Evidence {
    /// Nothing asked yet.
    pub fn new() -> (r: Evidence)
        ensures
            r.named_plan is None && r.on_branch is None && r.claimed is None && r.handoff_plan
                is None && r.affinity_plan is None && r.ticket_plan is None && r.unfinished
                is None && r.fetched is None && r.plan_slices is None,
    {
        Evidence {
            named_plan: None,
            on_branch: None,
            claimed: None,
            handoff_plan: None,
            affinity_plan: None,
            ticket_plan: None,
            unfinished: None,
            fetched: None,
            plan_slices: None,
        }
    }
}

/// The next thing the cascade needs to know.
#[derive(Debug, Clone)]
pub enum Query {
    /// `find_plan` for the name the caller gave.
    FindNamed(String),
    /// The slices that record this branch.
    SlicesOnBranch(String),
    /// The slices claimed in this worktree.
    ClaimedIn(String),
    /// The plan of the last handoff from this worktree.
    LastHandoff(String),
    /// The plan learned for this branch or worktree.
    Affinity(Option<String>, String),
    /// `find_plan` for a ticket key, in this repo.
    FindTicket(String),
    /// The repo's unfinished plans: `unfinished_plans` over the repo's plans.
    Unfinished,
    /// A plan by id.
    GetPlan(i64),
    /// A plan's slices, in order.
    SlicesOf(i64),
}

pub enum QueryV {
    FindNamed(Seq<char>),
    SlicesOnBranch(Seq<char>),
    ClaimedIn(Seq<char>),
    LastHandoff(Seq<char>),
    Affinity(Option<Seq<char>>, Seq<char>),
    FindTicket(Seq<char>),
    Unfinished,
    GetPlan(i64),
    SlicesOf(i64),
}

/// Ask another question, or stop with a resolution or with candidates.
#[derive(Debug, Clone)]
pub enum Move {
    Ask(Query),
    Resolved(Resolution),
    Unresolved(Unresolved),
}

pub enum MoveV {
    Ask(QueryV),
    Resolved(Plan, Option<Slice>, Rule),
    Unresolved(Seq<char>, Seq<Plan>),
}

pub open spec fn query_view(q: Query) -> QueryV {
    match q {
        Query::FindNamed(n) => QueryV::FindNamed(n@),
        Query::SlicesOnBranch(b) => QueryV::SlicesOnBranch(b@),
        Query::ClaimedIn(w) => QueryV::ClaimedIn(w@),
        Query::LastHandoff(w) => QueryV::LastHandoff(w@),
        Query::Affinity(b, w) => QueryV::Affinity(opt_view(b), w@),
        Query::FindTicket(k) => QueryV::FindTicket(k@),
        Query::Unfinished => QueryV::Unfinished,
        Query::GetPlan(id) => QueryV::GetPlan(id),
        Query::SlicesOf(id) => QueryV::SlicesOf(id),
    }
}

pub open spec fn move_view(m: Move) -> MoveV {
    match m {
        Move::Ask(q) => MoveV::Ask(query_view(q)),
        Move::Resolved(r) => MoveV::Resolved(r.plan, r.slice, r.rule),
        Move::Unresolved(u) => MoveV::Unresolved(u.reason@, u.candidates@),
    }
}

/// Resolved by `rule` to `p`, once its slices are known.
pub open spec fn with_slices(ev: Evidence, p: Plan, rule: Rule, at: Option<(Seq<char>, Option<Seq<char>>)>) -> MoveV {
    match ev.plan_slices {
        None => MoveV::Ask(QueryV::SlicesOf(p.id)),
        Some(ss) => MoveV::Resolved(p, slice_for_of(ss@, at), rule),
    }
}

/// Resolved by `rule` to the plan with this id, once it is fetched.
pub open spec fn fetch_then(ev: Evidence, id: i64, rule: Rule, at: Option<(Seq<char>, Option<Seq<char>>)>) -> MoveV {
    match ev.fetched {
        None => MoveV::Ask(QueryV::GetPlan(id)),
        Some(p) => with_slices(ev, p, rule, at),
    }
}

pub open spec fn unresolved_reason(n: nat) -> Seq<char> {
    if n == 0 {
        "no unfinished plan in this repo"@
    } else {
        dec(n) + " unfinished plans here and nothing ties this worktree to one"@
    }
}

/// A repo's unfinished plans: those of `repo_id` whose status is in
/// `Status::UNFINISHED`, drafts included, in the order given.
pub open spec fn unfinished_in(plans: Seq<Plan>, repo_id: i64) -> Seq<Plan>
    decreases plans.len(),
{
    if plans.len() == 0 {
        Seq::empty()
    } else if plans.last().repo_id == repo_id && Status::UNFINISHED@.contains(plans.last().status) {
        unfinished_in(plans.drop_last(), repo_id).push(plans.last())
    } else {
        unfinished_in(plans.drop_last(), repo_id)
    }
}

/// The answer to `Query::Unfinished`, taken from the plans the store holds.
pub fn unfinished_plans(plans: &Vec<Plan>, repo_id: i64) -> (r: Vec<Plan>)
    ensures
        r@ == unfinished_in(plans@, repo_id),
{
    let mut out: Vec<Plan> = Vec::new();
    let mut i: usize = 0;
    while i < plans.len()
        invariant
            i <= plans@.len(),
            out@ == unfinished_in(plans@.take(i as int), repo_id),
        decreases plans.len() - i,
    {
        assert(plans@.take(i + 1).drop_last() =~= plans@.take(i as int));
        let p = &plans[i];
        proof {
            crate::model::law_incomplete_is_unfinished_work(p.status);
        }
        if p.repo_id == repo_id && !p.status.is_terminal() {
            out.push(p.copied());
        }
        i += 1;
    }
    assert(plans@.take(plans@.len() as int) =~= plans@);
    out
}

/// With nothing else to go on, the one unfinished plan of the repo (a draft counts)
/// is the plan; with several, they come back as candidates and none is picked.
pub proof fn law_the_only_unfinished_plan_is_the_plan(
    ev: Evidence,
    plans: Seq<Plan>,
    repo_id: i64,
    at: Option<(Seq<char>, Option<Seq<char>>)>,
)
    requires
        ev.unfinished matches Some(v) && v@ == unfinished_in(plans, repo_id),
        ev.plan_slices is Some,
    ensures
        unfinished_in(plans, repo_id).len() == 1 ==> (step_only(ev, at) matches MoveV::Resolved(p, _, rule)
            && p == unfinished_in(plans, repo_id)[0] && rule == Rule::OnlyPlan),
        unfinished_in(plans, repo_id).len() != 1 ==> step_only(ev, at) == MoveV::Unresolved(
            unresolved_reason(unfinished_in(plans, repo_id).len()),
            unfinished_in(plans, repo_id),
        ),
{
}

/// 7. Only one unfinished plan in the repo; otherwise the candidates.
pub open spec fn step_only(ev: Evidence, at: Option<(Seq<char>, Option<Seq<char>>)>) -> MoveV {
    match ev.unfinished {
        None => MoveV::Ask(QueryV::Unfinished),
        Some(v) => if v@.len() == 1 {
            with_slices(ev, v@[0], Rule::OnlyPlan, at)
        } else {
            MoveV::Unresolved(unresolved_reason(v@.len()), v@)
        },
    }
}

/// 6. The branch carries a ticket key that finds a plan.
pub open spec fn step_ticket(ev: Evidence, branch: Option<Seq<char>>, at: Option<(Seq<char>, Option<Seq<char>>)>) -> MoveV {
    match branch {
        Some(b) => match ticket(b) {
            Some(k) => match ev.ticket_plan {
                None => MoveV::Ask(QueryV::FindTicket(k)),
                Some(Some(p)) => with_slices(ev, p, Rule::BranchTicket, at),
                Some(None) => step_only(ev, at),
            },
            None => step_only(ev, at),
        },
        None => step_only(ev, at),
    }
}

/// 5. Learned from previous confirmed resolutions here.
pub open spec fn step_affinity(ev: Evidence, wt: Seq<char>, branch: Option<Seq<char>>, at: Option<(Seq<char>, Option<Seq<char>>)>) -> MoveV {
    match ev.affinity_plan {
        None => MoveV::Ask(QueryV::Affinity(branch, wt)),
        Some(Some(id)) => fetch_then(ev, id, Rule::Affinity, at),
        Some(None) => step_ticket(ev, branch, at),
    }
}

/// 4. The last handoff written from here.
pub open spec fn step_handoff(ev: Evidence, wt: Seq<char>, branch: Option<Seq<char>>, at: Option<(Seq<char>, Option<Seq<char>>)>) -> MoveV {
    match ev.handoff_plan {
        None => MoveV::Ask(QueryV::LastHandoff(wt)),
        Some(Some(id)) => fetch_then(ev, id, Rule::Handoff, at),
        Some(None) => step_affinity(ev, wt, branch, at),
    }
}

/// 3. Something is claimed here.
pub open spec fn step_claim(ev: Evidence, wt: Seq<char>, branch: Option<Seq<char>>, at: Option<(Seq<char>, Option<Seq<char>>)>) -> MoveV {
    match ev.claimed {
        None => MoveV::Ask(QueryV::ClaimedIn(wt)),
        Some(v) => match claimed_pick(v@) {
            Some(s) => match ev.fetched {
                None => MoveV::Ask(QueryV::GetPlan(s.plan_id)),
                Some(p) => MoveV::Resolved(p, Some(s), Rule::WorktreeClaim),
            },
            None => step_handoff(ev, wt, branch, at),
        },
    }
}

/// 2. A slice names this branch: a finished one still identifies the plan, but the
/// live slice on the branch, or failing that the plan's own pick, is reported.
pub open spec fn step_branch(ev: Evidence, wt: Seq<char>, branch: Option<Seq<char>>, at: Option<(Seq<char>, Option<Seq<char>>)>) -> MoveV {
    match branch {
        Some(b) => match ev.on_branch {
            None => MoveV::Ask(QueryV::SlicesOnBranch(b)),
            Some(v) => if v@.len() > 0 {
                match ev.fetched {
                    None => MoveV::Ask(QueryV::GetPlan(v@[0].plan_id)),
                    Some(p) => match first_live(v@, 0) {
                        Some(s) => MoveV::Resolved(p, Some(s), Rule::SliceBranch),
                        None => with_slices(ev, p, Rule::SliceBranch, at),
                    },
                }
            } else {
                step_claim(ev, wt, branch, at)
            },
        },
        None => step_claim(ev, wt, branch, at),
    }
}

/// The cascade, in order, stopping at the first hit: 1. the name the caller gave;
/// then, inside a registered repo, 2. a slice recording the branch, 3. a claim in this
/// worktree, 4. the last handoff from here, 5. a learned association, 6. a ticket key
/// in the branch, 7. the repo's only unfinished plan.
pub open spec fn decide(named: Option<Seq<char>>, git: Option<GitContext>, repo_id: Option<i64>, ev: Evidence) -> MoveV {
    match named {
        Some(n) => match ev.named_plan {
            None => MoveV::Ask(QueryV::FindNamed(n)),
            Some(p) => with_slices(ev, p, Rule::Explicit, spot(git)),
        },
        None => match git {
            Some(g) => if repo_id is Some {
                step_branch(ev, g.worktree@, opt_view(g.branch), spot(git))
            } else {
                MoveV::Unresolved(g.repo_key@ + " is not registered - run `aip init`"@, Seq::empty())
            },
            None => MoveV::Unresolved("not inside a git repository"@, Seq::empty()),
        },
    }
}

fn copy_plans(v: &Vec<Plan>) -> (r: Vec<Plan>)
    ensures
        r@ == v@,
{
    let mut out: Vec<Plan> = Vec::new();
    let mut i: usize = 0;
    while i < v.len()
        invariant
            i <= v@.len(),
            out@ == v@.take(i as int),
        decreases v.len() - i,
    {
        out.push(v[i].copied());
        assert(out@ =~= v@.take(i + 1));
        i += 1;
    }
    assert(v@.take(v@.len() as int) =~= v@);
    out
}

fn with_slices_of(ev: &Evidence, p: &Plan, rule: Rule, git: &Option<GitContext>) -> (m: Move)
    ensures
        move_view(m) == with_slices(*ev, *p, rule, spot(*git)),
{
    match &ev.plan_slices {
        None => Move::Ask(Query::SlicesOf(p.id)),
        Some(ss) => Move::Resolved(Resolution { plan: p.copied(), slice: slice_for(ss, git), rule }),
    }
}

fn fetch_then_of(ev: &Evidence, id: i64, rule: Rule, git: &Option<GitContext>) -> (m: Move)
    ensures
        move_view(m) == fetch_then(*ev, id, rule, spot(*git)),
{
    match &ev.fetched {
        None => Move::Ask(Query::GetPlan(id)),
        Some(p) => with_slices_of(ev, p, rule, git),
    }
}

fn step_only_of(ev: &Evidence, git: &Option<GitContext>) -> (m: Move)
    ensures
        move_view(m) == step_only(*ev, spot(*git)),
{
    match &ev.unfinished {
        None => Move::Ask(Query::Unfinished),
        Some(v) => {
            if v.len() == 1 {
                with_slices_of(ev, &v[0], Rule::OnlyPlan, git)
            } else {
                let mut reason: Vec<char> = Vec::new();
                if v.len() == 0 {
                    push_str(&mut reason, "no unfinished plan in this repo");
                } else {
                    push_decimal(&mut reason, v.len() as u128);
                    push_str(&mut reason, " unfinished plans here and nothing ties this worktree to one");
                }
                Move::Unresolved(Unresolved { reason: string_of(&reason), candidates: copy_plans(v) })
            }
        },
    }
}

fn step_ticket_of(ev: &Evidence, g: &GitContext, git: &Option<GitContext>) -> (m: Move)
    ensures
        move_view(m) == step_ticket(*ev, opt_view(g.branch), spot(*git)),
{
    match &g.branch {
        Some(b) => match crate::util::ticket_key(b.as_str()) {
            Some(k) => match &ev.ticket_plan {
                None => Move::Ask(Query::FindTicket(k)),
                Some(Some(p)) => with_slices_of(ev, p, Rule::BranchTicket, git),
                Some(None) => step_only_of(ev, git),
            },
            None => step_only_of(ev, git),
        },
        None => step_only_of(ev, git),
    }
}

fn step_affinity_of(ev: &Evidence, g: &GitContext, git: &Option<GitContext>) -> (m: Move)
    ensures
        move_view(m) == step_affinity(*ev, g.worktree@, opt_view(g.branch), spot(*git)),
{
    match &ev.affinity_plan {
        None => Move::Ask(Query::Affinity(crate::model::copy_opt(&g.branch), g.worktree_str())),
        Some(Some(id)) => fetch_then_of(ev, *id, Rule::Affinity, git),
        Some(None) => step_ticket_of(ev, g, git),
    }
}

fn step_handoff_of(ev: &Evidence, g: &GitContext, git: &Option<GitContext>) -> (m: Move)
    ensures
        move_view(m) == step_handoff(*ev, g.worktree@, opt_view(g.branch), spot(*git)),
{
    match &ev.handoff_plan {
        None => Move::Ask(Query::LastHandoff(g.worktree_str())),
        Some(Some(id)) => fetch_then_of(ev, *id, Rule::Handoff, git),
        Some(None) => step_affinity_of(ev, g, git),
    }
}

fn step_claim_of(ev: &Evidence, g: &GitContext, git: &Option<GitContext>) -> (m: Move)
    ensures
        move_view(m) == step_claim(*ev, g.worktree@, opt_view(g.branch), spot(*git)),
{
    match &ev.claimed {
        None => Move::Ask(Query::ClaimedIn(g.worktree_str())),
        Some(v) => match claimed_in(v) {
            Some(s) => match &ev.fetched {
                None => Move::Ask(Query::GetPlan(s.plan_id)),
                Some(p) => Move::Resolved(
                    Resolution { plan: p.copied(), slice: Some(s), rule: Rule::WorktreeClaim },
                ),
            },
            None => step_handoff_of(ev, g, git),
        },
    }
}

fn step_branch_of(ev: &Evidence, g: &GitContext, git: &Option<GitContext>) -> (m: Move)
    ensures
        move_view(m) == step_branch(*ev, g.worktree@, opt_view(g.branch), spot(*git)),
{
    match &g.branch {
        Some(b) => match &ev.on_branch {
            None => Move::Ask(Query::SlicesOnBranch(b.clone())),
            Some(v) => {
                if v.len() > 0 {
                    match &ev.fetched {
                        None => Move::Ask(Query::GetPlan(v[0].plan_id)),
                        Some(p) => match first_live_of(v) {
                            Some(s) => Move::Resolved(
                                Resolution { plan: p.copied(), slice: Some(s), rule: Rule::SliceBranch },
                            ),
                            None => with_slices_of(ev, p, Rule::SliceBranch, git),
                        },
                    }
                } else {
                    step_claim_of(ev, g, git)
                }
            },
        },
        None => step_claim_of(ev, g, git),
    }
}

/// One step of the cascade: the next question to answer, or the answer.
pub fn next_move(named: &Option<String>, git: &Option<GitContext>, repo_id: Option<i64>, ev: &Evidence) -> (m: Move)
    ensures
        move_view(m) == decide(opt_view(*named), *git, repo_id, *ev),
{
    match named {
        Some(n) => match &ev.named_plan {
            None => Move::Ask(Query::FindNamed(n.clone())),
            Some(p) => with_slices_of(ev, p, Rule::Explicit, git),
        },
        None => match git {
            Some(g) => {
                if repo_id.is_some() {
                    step_branch_of(ev, g, git)
                } else {
                    let mut reason = chars_of(g.repo_key.as_str());
                    push_str(&mut reason, " is not registered - run `aip init`");
                    Move::Unresolved(Unresolved { reason: string_of(&reason), candidates: Vec::new() })
                }
            },
            None => Move::Unresolved(
                Unresolved { reason: "not inside a git repository".to_string(), candidates: Vec::new() },
            ),
        },
    }
}


/// The rules in cascade order.
pub open spec fn rule_rank(r: Rule) -> int {
    match r {
        Rule::Explicit => 1,
        Rule::SliceBranch => 2,
        Rule::WorktreeClaim => 3,
        Rule::Handoff => 4,
        Rule::Affinity => 5,
        Rule::BranchTicket => 6,
        Rule::OnlyPlan => 7,
    }
}

/// Two bodies of evidence that agree on every answer up to and including rule `k`,
/// and on the fetched plan and its slices.
pub open spec fn agree_upto(a: Evidence, b: Evidence, k: int) -> bool {
    &&& a.named_plan == b.named_plan
    &&& a.fetched == b.fetched
    &&& a.plan_slices == b.plan_slices
    &&& (k >= 2 ==> a.on_branch == b.on_branch)
    &&& (k >= 3 ==> a.claimed == b.claimed)
    &&& (k >= 4 ==> a.handoff_plan == b.handoff_plan)
    &&& (k >= 5 ==> a.affinity_plan == b.affinity_plan)
    &&& (k >= 6 ==> a.ticket_plan == b.ticket_plan)
    &&& (k >= 7 ==> a.unfinished == b.unfinished)
}

/// The cascade stops at the first hit: once a rule resolves, nothing a later rule
/// would have looked at can change the answer.
pub proof fn law_the_cascade_stops_at_the_first_hit(
    named: Option<Seq<char>>,
    git: Option<GitContext>,
    repo_id: Option<i64>,
    a: Evidence,
    b: Evidence,
)
    requires
        decide(named, git, repo_id, a) matches MoveV::Resolved(_, _, r) && agree_upto(
            a,
            b,
            rule_rank(r),
        ),
    ensures
        decide(named, git, repo_id, b) == decide(named, git, repo_id, a),
{
}

/// A name the caller gives wins over everything the worktree suggests.
pub proof fn law_a_named_plan_wins(
    n: Seq<char>,
    git: Option<GitContext>,
    repo_id: Option<i64>,
    ev: Evidence,
)
    requires
        ev.named_plan is Some,
        ev.plan_slices is Some,
    ensures
        decide(Some(n), git, repo_id, ev) matches MoveV::Resolved(p, _, r) && r == Rule::Explicit
            && p == ev.named_plan->0,
{
}

/// With several unfinished plans and nothing else to go on, the cascade never guesses:
/// it answers with all of them as candidates.
pub proof fn law_ambiguity_returns_candidates(
    git: Option<GitContext>,
    repo_id: Option<i64>,
    ev: Evidence,
)
    requires
        git is Some,
        repo_id is Some,
        git->0.branch is None,
        ev.claimed matches Some(v) && v@.len() == 0,
        ev.handoff_plan == Some(None::<i64>),
        ev.affinity_plan == Some(None::<i64>),
        ev.unfinished matches Some(v) && v@.len() > 1,
    ensures
        decide(None, git, repo_id, ev) == MoveV::Unresolved(
            unresolved_reason(ev.unfinished->0@.len()),
            ev.unfinished->0@,
        ),
{
}

} // verus!
