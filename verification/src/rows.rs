//! What each write does to the row it touches: a slice's status change, a claim and
//! its release, a patch, and a section write with its revision check. The store runs
//! these as single `UPDATE` statements; here they are functions from the row before
//! to the row after, so the rules the statements encode can be stated and proved.
use vstd::prelude::*;

use crate::error::Error;
use crate::model::{
    copy_opt, status_name, Decision, DecisionStatus, LogEntry, LogKind, Plan, Question, Renders,
    Section, Slice, Status,
};
use crate::parse::opt_view;
use crate::store::{NewLog, NewSlice, PlanUpdate, SectionWrite, SliceUpdate};
use crate::text::{chars_of, eq_chars, push_str, string_of, trim, trimmed};

verus! {

/// A slice row as values.
pub struct SliceV {
    pub id: i64,
    pub plan_id: i64,
    pub ord: i64,
    pub key: Seq<char>,
    pub title: Seq<char>,
    pub status: Status,
    pub scope_md: Seq<char>,
    pub demo_md: Option<Seq<char>>,
    pub estimate_files: Option<i64>,
    pub branch: Option<Seq<char>>,
    pub base_branch: Option<Seq<char>>,
    pub pr_url: Option<Seq<char>>,
    pub worktree_path: Option<Seq<char>>,
    pub claimed_by: Option<Seq<char>>,
    pub claimed_at: Option<Seq<char>>,
    pub blocked_reason: Option<Seq<char>>,
    pub started_at: Option<Seq<char>>,
    pub completed_at: Option<Seq<char>>,
    pub rev: int,
    pub updated_at: Seq<char>,
}

pub open spec fn slice_view(s: Slice) -> SliceV {
    SliceV {
        id: s.id,
        plan_id: s.plan_id,
        ord: s.ord,
        key: s.key@,
        title: s.title@,
        status: s.status,
        scope_md: s.scope_md@,
        demo_md: opt_view(s.demo_md),
        estimate_files: s.estimate_files,
        branch: opt_view(s.branch),
        base_branch: opt_view(s.base_branch),
        pr_url: opt_view(s.pr_url),
        worktree_path: opt_view(s.worktree_path),
        claimed_by: opt_view(s.claimed_by),
        claimed_at: opt_view(s.claimed_at),
        blocked_reason: opt_view(s.blocked_reason),
        started_at: opt_view(s.started_at),
        completed_at: opt_view(s.completed_at),
        rev: s.rev as int,
        updated_at: s.updated_at@,
    }
}

pub open spec fn opt_str_view(o: Option<&str>) -> Option<Seq<char>> {
    match o {
        Some(s) => Some(s@),
        None => None,
    }
}

/// `COALESCE(a, b)`.
pub open spec fn coalesce<T>(a: Option<T>, b: Option<T>) -> Option<T> {
    match a {
        Some(x) => Some(x),
        None => b,
    }
}

pub open spec fn not_started(s: Status) -> bool {
    s == Status::Draft || s == Status::Ready
}

pub open spec fn in_flight(s: Status) -> bool {
    s == Status::Active || s == Status::InReview
}

// ---------------------------------------------------------------------------
// Status
// ---------------------------------------------------------------------------

/// A slice moved to `to`. A block keeps the reason given (or the one it had); leaving
/// the block drops it. Work starting stamps the start once. Finishing stamps the
/// completion and gives the claim back while keeping where it was built; deferring
/// keeps an earlier completion stamp; anything else clears it.
pub open spec fn moved(s: SliceV, to: Status, reason: Option<Seq<char>>, now: Seq<char>) -> SliceV {
    SliceV {
        status: to,
        blocked_reason: if to == Status::Blocked {
            coalesce(reason, s.blocked_reason)
        } else {
            None
        },
        started_at: if s.started_at is None && in_flight(to) {
            Some(now)
        } else {
            s.started_at
        },
        completed_at: if to == Status::Done {
            Some(now)
        } else if to == Status::Deferred {
            coalesce(s.completed_at, Some(now))
        } else {
            None
        },
        claimed_by: if to == Status::Done {
            None
        } else {
            s.claimed_by
        },
        claimed_at: if to == Status::Done {
            None
        } else {
            s.claimed_at
        },
        updated_at: now,
        rev: s.rev + 1,
        ..s
    }
}

fn opt_string(o: Option<&str>) -> (r: Option<String>)
    ensures
        opt_view(r) == opt_str_view(o),
{
    match o {
        Some(s) => Some(s.to_string()),
        None => None,
    }
}

pub fn move_slice(s: &Slice, to: Status, reason: Option<&str>, now: &str) -> (r: Slice)
    requires
        s.rev < i64::MAX,
    ensures
        slice_view(r) == moved(slice_view(*s), to, opt_str_view(reason), now@),
{
    let mut t = s.copied();
    t.status = to;
    t.blocked_reason = if to == Status::Blocked {
        match reason {
            Some(x) => Some(x.to_string()),
            None => copy_opt(&s.blocked_reason),
        }
    } else {
        None
    };
    if s.started_at.is_none() && (to == Status::Active || to == Status::InReview) {
        t.started_at = Some(now.to_string());
    }
    t.completed_at = if to == Status::Done {
        Some(now.to_string())
    } else if to == Status::Deferred {
        match &s.completed_at {
            Some(c) => Some(c.clone()),
            None => Some(now.to_string()),
        }
    } else {
        None
    };
    if to == Status::Done {
        t.claimed_by = None;
        t.claimed_at = None;
    }
    t.updated_at = now.to_string();
    t.rev = s.rev + 1;
    assert(slice_view(t) =~= moved(slice_view(*s), to, opt_str_view(reason), now@));
    t
}

/// The plan a slice belongs to is under way once work on any slice starts.
pub open spec fn plan_after_slice_move(plan: Status, to: Status) -> Status {
    if not_started(plan) && in_flight(to) {
        Status::Active
    } else {
        plan
    }
}

pub fn plan_status_after_move(plan: Status, to: Status) -> (r: Status)
    ensures
        r == plan_after_slice_move(plan, to),
{
    if (plan == Status::Draft || plan == Status::Ready) && (to == Status::Active || to == Status::InReview) {
        Status::Active
    } else {
        plan
    }
}

/// A plan starts when its work does: a plan that has started (or finished) is never
/// changed by a slice moving, and a draft or ready plan becomes active exactly when
/// one of its slices goes active or into review.
pub proof fn law_a_plan_starts_when_its_work_does(plan: Status, to: Status)
    ensures
        !(plan == Status::Draft || plan == Status::Ready) ==> plan_after_slice_move(plan, to) == plan,
        (plan == Status::Draft || plan == Status::Ready) ==> (plan_after_slice_move(plan, to) == Status::Active
            <==> (to == Status::Active || to == Status::InReview)),
        plan_after_slice_move(plan, to) == Status::Active || plan_after_slice_move(plan, to) == plan,
{
}

/// The history line a status change writes: `PR1 ready -> active`, with `: reason`
/// when one was given.
pub open spec fn move_note(key: Seq<char>, from: Status, to: Status, reason: Option<Seq<char>>) -> Seq<char> {
    key + " "@ + status_name(from) + " -> "@ + status_name(to) + match reason {
        Some(r) => ": "@ + r,
        None => Seq::empty(),
    }
}

pub fn status_note(key: &str, from: Status, to: Status, reason: Option<&str>) -> (r: String)
    ensures
        r@ == move_note(key@, from, to, opt_str_view(reason)),
{
    let mut out: Vec<char> = Vec::new();
    push_str(&mut out, key);
    push_str(&mut out, " ");
    push_str(&mut out, from.as_str());
    push_str(&mut out, " -> ");
    push_str(&mut out, to.as_str());
    match reason {
        Some(x) => {
            push_str(&mut out, ": ");
            push_str(&mut out, x);
        },
        None => {},
    }
    assert(out@ =~= move_note(key@, from, to, opt_str_view(reason)));
    string_of(&out)
}

// ---------------------------------------------------------------------------
// Claims
// ---------------------------------------------------------------------------

/// Whether `me` in `worktree` may take the slice: nobody holds it, or `me` already
/// does from this very worktree (which makes re-running a claim harmless). The same
/// agent in another worktree is a genuine clash.
pub open spec fn may_claim(s: SliceV, me: Seq<char>, worktree: Seq<char>) -> bool {
    match s.claimed_by {
        None => true,
        Some(c) => c == me && s.worktree_path == Some(worktree),
    }
}

/// The slice once claimed: held by `me` from `worktree`, on the branch it already
/// names (a planned branch is never rewritten) or else the one it was claimed on,
/// started if it had not been, and under way if it was only ready.
pub open spec fn claimed(s: SliceV, me: Seq<char>, worktree: Seq<char>, branch: Option<Seq<char>>, now: Seq<char>) -> SliceV {
    SliceV {
        claimed_by: Some(me),
        claimed_at: Some(now),
        worktree_path: Some(worktree),
        branch: coalesce(s.branch, branch),
        status: if not_started(s.status) {
            Status::Active
        } else {
            s.status
        },
        started_at: coalesce(s.started_at, Some(now)),
        updated_at: now,
        rev: s.rev + 1,
        ..s
    }
}

pub open spec fn claim_result(s: SliceV, me: Seq<char>, worktree: Seq<char>, branch: Option<Seq<char>>, now: Seq<char>) -> Option<SliceV> {
    if may_claim(s, me, worktree) {
        Some(claimed(s, me, worktree, branch, now))
    } else {
        None
    }
}

pub open spec fn claim_view(r: Result<Slice, Error>) -> Option<SliceV> {
    match r {
        Ok(s) => Some(slice_view(s)),
        Err(_) => None,
    }
}

/// Take a slice for `me` in `worktree`. Refused with who holds it and where, when
/// someone else does.
pub fn claim(s: &Slice, me: &str, worktree: &str, branch: Option<&str>, now: &str) -> (r: Result<Slice, Error>)
    requires
        s.rev < i64::MAX,
    ensures
        claim_view(r) == claim_result(slice_view(*s), me@, worktree@, opt_str_view(branch), now@),
        r matches Err(e) ==> e matches Error::AlreadyClaimed(k, by, at) && k@ == s.key@ && Some(by@)
            == slice_view(*s).claimed_by && at@ == match s.worktree_path {
            Some(w) => w@,
            None => Seq::empty(),
        },
{
    let allowed = match &s.claimed_by {
        None => true,
        Some(c) => {
            let cv = chars_of(c.as_str());
            let mv = chars_of(me);
            eq_chars(&cv, &mv) && match &s.worktree_path {
                Some(w) => {
                    let wv = chars_of(w.as_str());
                    let tv = chars_of(worktree);
                    eq_chars(&wv, &tv)
                },
                None => false,
            }
        },
    };
    if !allowed {
        let by = match &s.claimed_by {
            Some(c) => c.clone(),
            None => String::new(),
        };
        let at = match &s.worktree_path {
            Some(w) => w.clone(),
            None => String::new(),
        };
        return Err(Error::AlreadyClaimed(s.key.clone(), by, at));
    }
    let mut t = s.copied();
    t.claimed_by = Some(me.to_string());
    t.claimed_at = Some(now.to_string());
    t.worktree_path = Some(worktree.to_string());
    if s.branch.is_none() {
        t.branch = opt_string(branch);
    }
    if s.status == Status::Draft || s.status == Status::Ready {
        t.status = Status::Active;
    }
    if s.started_at.is_none() {
        t.started_at = Some(now.to_string());
    }
    t.updated_at = now.to_string();
    t.rev = s.rev + 1;
    assert(slice_view(t) =~= claimed(slice_view(*s), me@, worktree@, opt_str_view(branch), now@));
    Ok(t)
}

/// The history line a claim writes.
pub open spec fn claim_note_text(key: Seq<char>, me: Seq<char>, worktree: Seq<char>) -> Seq<char> {
    key + " claimed by "@ + me + " in "@ + worktree
}

pub fn claim_note(key: &str, me: &str, worktree: &str) -> (r: String)
    ensures
        r@ == claim_note_text(key@, me@, worktree@),
{
    let mut out: Vec<char> = Vec::new();
    push_str(&mut out, key);
    push_str(&mut out, " claimed by ");
    push_str(&mut out, me);
    push_str(&mut out, " in ");
    push_str(&mut out, worktree);
    assert(out@ =~= claim_note_text(key@, me@, worktree@));
    string_of(&out)
}

/// The plan a claimed slice belongs to is under way.
pub fn plan_status_after_claim(plan: Status) -> (r: Status)
    ensures
        r == if not_started(plan) {
            Status::Active
        } else {
            plan
        },
{
    if plan == Status::Draft || plan == Status::Ready {
        Status::Active
    } else {
        plan
    }
}

/// A released slice: nobody holds it, but where it was built stays readable.
pub open spec fn released(s: SliceV, now: Seq<char>) -> SliceV {
    SliceV { claimed_by: None, claimed_at: None, updated_at: now, rev: s.rev + 1, ..s }
}

pub fn release(s: &Slice, now: &str) -> (r: Slice)
    requires
        s.rev < i64::MAX,
    ensures
        slice_view(r) == released(slice_view(*s), now@),
{
    let mut t = s.copied();
    t.claimed_by = None;
    t.claimed_at = None;
    t.updated_at = now.to_string();
    t.rev = s.rev + 1;
    assert(slice_view(t) =~= released(slice_view(*s), now@));
    t
}

pub open spec fn release_note_text(key: Seq<char>) -> Seq<char> {
    key + " released"@
}

pub fn release_note(key: &str) -> (r: String)
    ensures
        r@ == release_note_text(key@),
{
    let mut out: Vec<char> = Vec::new();
    push_str(&mut out, key);
    push_str(&mut out, " released");
    string_of(&out)
}

// ---------------------------------------------------------------------------
// Patches
// ---------------------------------------------------------------------------

/// A patch applied: each field it names replaces the row's, every other is left
/// alone.
pub open spec fn patched(s: SliceV, p: SliceUpdate, now: Seq<char>) -> SliceV {
    SliceV {
        title: match p.title {
            Some(t) => t@,
            None => s.title,
        },
        scope_md: match p.scope_md {
            Some(t) => t@,
            None => s.scope_md,
        },
        demo_md: coalesce(opt_view(p.demo_md), s.demo_md),
        estimate_files: coalesce(p.estimate_files, s.estimate_files),
        branch: coalesce(opt_view(p.branch), s.branch),
        base_branch: coalesce(opt_view(p.base_branch), s.base_branch),
        pr_url: coalesce(opt_view(p.pr_url), s.pr_url),
        blocked_reason: coalesce(opt_view(p.blocked_reason), s.blocked_reason),
        updated_at: now,
        rev: s.rev + 1,
        ..s
    }
}

fn pick(p: &Option<String>, old: &Option<String>) -> (r: Option<String>)
    ensures
        opt_view(r) == coalesce(opt_view(*p), opt_view(*old)),
{
    match p {
        Some(x) => Some(x.clone()),
        None => copy_opt(old),
    }
}

pub fn patch_slice(s: &Slice, p: &SliceUpdate, now: &str) -> (r: Slice)
    requires
        s.rev < i64::MAX,
    ensures
        slice_view(r) == patched(slice_view(*s), *p, now@),
{
    let mut t = s.copied();
    match &p.title {
        Some(x) => t.title = x.clone(),
        None => {},
    }
    match &p.scope_md {
        Some(x) => t.scope_md = x.clone(),
        None => {},
    }
    t.demo_md = pick(&p.demo_md, &s.demo_md);
    t.estimate_files = match p.estimate_files {
        Some(n) => Some(n),
        None => s.estimate_files,
    };
    t.branch = pick(&p.branch, &s.branch);
    t.base_branch = pick(&p.base_branch, &s.base_branch);
    t.pr_url = pick(&p.pr_url, &s.pr_url);
    t.blocked_reason = pick(&p.blocked_reason, &s.blocked_reason);
    t.updated_at = now.to_string();
    t.rev = s.rev + 1;
    assert(slice_view(t) =~= patched(slice_view(*s), *p, now@));
    t
}

// ---------------------------------------------------------------------------
// Sections
// ---------------------------------------------------------------------------

/// What a section write stores: where it goes, its title, body, how it renders, and
/// the revision it is stored at.
pub struct SectionPut {
    pub ord: i64,
    pub key: String,
    pub title: String,
    pub body: String,
    pub renders: Renders,
    pub rev: i64,
}

pub open spec fn put_view(p: SectionPut) -> (int, Seq<char>, Seq<char>, Seq<char>, Renders, int) {
    (p.ord as int, p.key@, p.title@, p.body@, p.renders, p.rev as int)
}

/// A write against what is there: refused when the writer read another revision
/// than the current one; otherwise the title, renders and position it names, or the
/// section's own, or (for a new section) its key, `Body`, and the end of the plan. A
/// write to a section that is there stores it at the next revision; a new section
/// starts at the first.
pub open spec fn section_put(existing: Option<Section>, w: SectionWrite, next_ord: i64) -> Result<
    (int, Seq<char>, Seq<char>, Seq<char>, Renders, int),
    (Seq<char>, i64, i64),
> {
    match (existing, w.expect_rev) {
        (Some(cur), Some(expected)) if cur.rev != expected => Err(
            ("section "@ + w.key@, expected, cur.rev),
        ),
        _ => Ok(
            (
                match w.ord {
                    Some(o) => o as int,
                    None => match existing {
                        Some(s) => s.ord as int,
                        None => next_ord as int,
                    },
                },
                w.key@,
                match w.title {
                    Some(t) => t@,
                    None => match existing {
                        Some(s) => s.title@,
                        None => w.key@,
                    },
                },
                w.body@,
                match w.renders {
                    Some(r) => r,
                    None => match existing {
                        Some(s) => s.renders,
                        None => Renders::Body,
                    },
                },
                match existing {
                    Some(s) => s.rev + 1,
                    None => 1,
                },
            ),
        ),
    }
}

pub open spec fn put_result_view(r: Result<SectionPut, Error>) -> Result<
    (int, Seq<char>, Seq<char>, Seq<char>, Renders, int),
    (Seq<char>, i64, i64),
> {
    match r {
        Ok(p) => Ok(put_view(p)),
        Err(Error::Conflict(what, expected, found)) => Err((what@, expected, found)),
        Err(_) => Err((Seq::empty(), 0, 0)),
    }
}

/// `next_ord` is where a new section goes: ten past the last one.
pub fn section_write(existing: &Option<Section>, w: &SectionWrite, next_ord: i64) -> (r: Result<SectionPut, Error>)
    requires
        existing matches Some(s) ==> s.rev < i64::MAX,
    ensures
        put_result_view(r) == section_put(*existing, *w, next_ord),
        r matches Err(e) ==> e is Conflict,
{
    match (existing, w.expect_rev) {
        (Some(cur), Some(expected)) => {
            if cur.rev != expected {
                let mut what: Vec<char> = Vec::new();
                push_str(&mut what, "section ");
                push_str(&mut what, w.key);
                return Err(Error::Conflict(string_of(&what), expected, cur.rev));
            }
        },
        _ => {},
    }
    let ord = match w.ord {
        Some(o) => o,
        None => match existing {
            Some(s) => s.ord,
            None => next_ord,
        },
    };
    let title = match w.title {
        Some(t) => t.to_string(),
        None => match existing {
            Some(s) => s.title.clone(),
            None => w.key.to_string(),
        },
    };
    let renders = match w.renders {
        Some(r) => r,
        None => match existing {
            Some(s) => s.renders,
            None => Renders::Body,
        },
    };
    let rev = match existing {
        Some(s) => s.rev + 1,
        None => 1,
    };
    Ok(SectionPut { ord, key: w.key.to_string(), title, body: w.body.to_string(), renders, rev })
}

// ---------------------------------------------------------------------------
// Plans
// ---------------------------------------------------------------------------

/// A plan row as values.
pub struct PlanRowV {
    pub id: i64,
    pub repo_id: i64,
    pub repo_name: Seq<char>,
    pub slug: Seq<char>,
    pub title: Seq<char>,
    pub status: Status,
    pub summary: Option<Seq<char>>,
    pub ticket_key: Option<Seq<char>>,
    pub ticket_url: Option<Seq<char>>,
    pub base_branch: Option<Seq<char>>,
    pub owner: Option<Seq<char>>,
    pub source_path: Option<Seq<char>>,
    pub rev: int,
    pub created_at: Seq<char>,
    pub updated_at: Seq<char>,
}

pub open spec fn plan_view(p: Plan) -> PlanRowV {
    PlanRowV {
        id: p.id,
        repo_id: p.repo_id,
        repo_name: p.repo_name@,
        slug: p.slug@,
        title: p.title@,
        status: p.status,
        summary: opt_view(p.summary),
        ticket_key: opt_view(p.ticket_key),
        ticket_url: opt_view(p.ticket_url),
        base_branch: opt_view(p.base_branch),
        owner: opt_view(p.owner),
        source_path: opt_view(p.source_path),
        rev: p.rev as int,
        created_at: p.created_at@,
        updated_at: p.updated_at@,
    }
}

/// A plan moved to `to`; moving it to the status it has changes nothing and writes
/// no history.
pub open spec fn plan_moved(p: PlanRowV, to: Status, now: Seq<char>) -> PlanRowV {
    if p.status == to {
        p
    } else {
        PlanRowV { status: to, updated_at: now, rev: p.rev + 1, ..p }
    }
}

pub fn move_plan(p: &Plan, to: Status, now: &str) -> (r: (Plan, Option<String>))
    requires
        p.rev < i64::MAX,
    ensures
        plan_view(r.0) == plan_moved(plan_view(*p), to, now@),
        r.0.created_at == p.created_at && r.0.repo_name == p.repo_name && r.0.source_path == p.source_path,
        p.status == to <==> r.1 is None,
        r.1 matches Some(n) ==> n@ == "plan "@ + status_name(p.status) + " -> "@ + status_name(to),
{
    let mut t = p.copied();
    if p.status == to {
        return (t, None);
    }
    t.status = to;
    t.updated_at = now.to_string();
    t.rev = p.rev + 1;
    let mut note: Vec<char> = Vec::new();
    push_str(&mut note, "plan ");
    push_str(&mut note, p.status.as_str());
    push_str(&mut note, " -> ");
    push_str(&mut note, to.as_str());
    assert(plan_view(t) =~= plan_moved(plan_view(*p), to, now@));
    (t, Some(string_of(&note)))
}

/// A header patch: each field it names replaces the plan's.
pub open spec fn plan_patched(p: PlanRowV, u: PlanUpdate, now: Seq<char>) -> PlanRowV {
    PlanRowV {
        title: match u.title {
            Some(t) => t@,
            None => p.title,
        },
        summary: coalesce(opt_view(u.summary), p.summary),
        ticket_url: coalesce(opt_view(u.ticket_url), p.ticket_url),
        ticket_key: coalesce(opt_view(u.ticket_key), p.ticket_key),
        base_branch: coalesce(opt_view(u.base_branch), p.base_branch),
        owner: coalesce(opt_view(u.owner), p.owner),
        updated_at: now,
        rev: p.rev + 1,
        ..p
    }
}

pub fn patch_plan(p: &Plan, u: &PlanUpdate, now: &str) -> (r: Plan)
    requires
        p.rev < i64::MAX,
    ensures
        plan_view(r) == plan_patched(plan_view(*p), *u, now@),
{
    let mut t = p.copied();
    match &u.title {
        Some(x) => t.title = x.clone(),
        None => {},
    }
    t.summary = pick(&u.summary, &p.summary);
    t.ticket_url = pick(&u.ticket_url, &p.ticket_url);
    t.ticket_key = pick(&u.ticket_key, &p.ticket_key);
    t.base_branch = pick(&u.base_branch, &p.base_branch);
    t.owner = pick(&u.owner, &p.owner);
    t.updated_at = now.to_string();
    t.rev = p.rev + 1;
    assert(plan_view(t) =~= plan_patched(plan_view(*p), *u, now@));
    t
}

// ---------------------------------------------------------------------------
// Notes
// ---------------------------------------------------------------------------

/// A log entry as written: trimmed text (an empty one is refused), progress unless
/// another kind is named, and now unless it is backdated.
pub fn log_entry(new: &NewLog, actor: &str, now: &str) -> (r: Result<LogEntry, Error>)
    ensures
        match r {
            Ok(e) => trim(new.body@).len() > 0 && e.body@ == trim(new.body@) && e.plan_id == new.plan_id
                && e.kind == match new.kind {
                Some(k) => k,
                None => LogKind::Progress,
            } && e.at@ == match new.at {
                Some(a) => a@,
                None => now@,
            } && opt_view(e.actor) == Some(actor@) && opt_view(e.branch) == opt_view(new.branch)
                && opt_view(e.worktree_path) == opt_view(new.worktree_path),
            Err(e) => trim(new.body@).len() == 0 && (e matches Error::Invalid(m) && m@
                == "a log entry needs a body"@),
        },
{
    let bv = chars_of(new.body.as_str());
    let bt = trimmed(&bv);
    if bt.len() == 0 {
        return Err(Error::Invalid("a log entry needs a body".to_string()));
    }
    let kind = match new.kind {
        Some(k) => k,
        None => LogKind::Progress,
    };
    let at = match &new.at {
        Some(a) => a.clone(),
        None => now.to_string(),
    };
    Ok(
        LogEntry {
            id: 0,
            plan_id: new.plan_id,
            slice_key: None,
            at,
            actor: Some(actor.to_string()),
            kind,
            branch: copy_opt(&new.branch),
            worktree_path: copy_opt(&new.worktree_path),
            body: string_of(&bt),
        },
    )
}

/// Text that must be there, trimmed; refused with `message` when there is none.
pub fn required_text(text: &str, message: &str) -> (r: Result<String, Error>)
    ensures
        match r {
            Ok(t) => trim(text@).len() > 0 && t@ == trim(text@),
            Err(e) => trim(text@).len() == 0 && (e matches Error::Invalid(m) && m@ == message@),
        },
{
    let v = chars_of(text);
    let t = trimmed(&v);
    if t.len() == 0 {
        Err(Error::Invalid(message.to_string()))
    } else {
        Ok(string_of(&t))
    }
}

/// Answering a question: only an open one can be answered; it is then answered, with
/// the answer and when.
pub fn answered(q: &Question, answer: &str, now: &str) -> (r: Result<Question, Error>)
    ensures
        match r {
            Ok(a) => q.status@ == "open"@ && a.status@ == "answered"@ && opt_view(a.answer) == Some(answer@)
                && opt_view(a.answered_at) == Some(now@) && a.id == q.id && a.body == q.body,
            Err(e) => q.status@ != "open"@ && (e matches Error::Invalid(m) && m@ == "no open question "@
                + crate::text::dec_int(q.id as int)),
        },
{
    let sv = chars_of(q.status.as_str());
    let open = chars_of("open");
    if !eq_chars(&sv, &open) {
        let mut m: Vec<char> = Vec::new();
        push_str(&mut m, "no open question ");
        crate::text::push_int(&mut m, q.id);
        return Err(Error::Invalid(string_of(&m)));
    }
    Ok(
        Question {
            id: q.id,
            plan_id: q.plan_id,
            slice_key: copy_opt(&q.slice_key),
            body: q.body.clone(),
            status: "answered".to_string(),
            answer: Some(answer.to_string()),
            asked_at: q.asked_at.clone(),
            answered_at: Some(now.to_string()),
        },
    )
}

/// A decision superseded: it keeps its text, and says by what and why.
pub fn superseded(d: &Decision, by: &str, note: Option<&str>, now: &str) -> (r: Decision)
    requires
        d.rev < i64::MAX,
    ensures
        r.status == DecisionStatus::Superseded,
        opt_view(r.superseded_by) == Some(by@),
        opt_view(r.supersede_note) == opt_str_view(note),
        r.key == d.key && r.title == d.title && r.body == d.body && r.ord == d.ord && r.id == d.id,
        r.rev == d.rev + 1,
{
    Decision {
        id: d.id,
        plan_id: d.plan_id,
        ord: d.ord,
        key: d.key.clone(),
        title: d.title.clone(),
        body: d.body.clone(),
        status: DecisionStatus::Superseded,
        superseded_by: Some(by.to_string()),
        supersede_note: opt_string(note),
        rev: d.rev + 1,
        decided_at: d.decided_at.clone(),
    }
}

/// Superseding a decision that is not there.
pub fn no_decision(key: &str) -> (r: Error)
    ensures
        r matches Error::Invalid(m) && m@ == "no decision "@ + key@,
{
    let mut m: Vec<char> = Vec::new();
    push_str(&mut m, "no decision ");
    push_str(&mut m, key);
    Error::Invalid(string_of(&m))
}

// ---------------------------------------------------------------------------
// New slices
// ---------------------------------------------------------------------------

/// A new slice: its key trimmed (an empty key is refused, and so is one the plan
/// already has), its title trimmed, ready unless a status is named, an empty scope
/// when none is given, and after the last slice unless placed.
pub fn new_slice_row(new: &NewSlice, plan_slug: &str, taken: bool, next_ord: i64, now: &str) -> (r: Result<Slice, Error>)
    ensures
        match r {
            Ok(s) => trim(new.key@).len() > 0 && !taken && s.key@ == trim(new.key@) && s.title@ == trim(
                new.title@,
            ) && s.status == match new.status {
                Some(st) => st,
                None => Status::Ready,
            } && s.scope_md@ == match new.scope_md {
                Some(m) => m@,
                None => Seq::empty(),
            } && s.ord == match new.ord {
                Some(o) => o,
                None => next_ord,
            } && s.plan_id == new.plan_id && opt_view(s.branch) == opt_view(new.branch)
                && opt_view(s.demo_md) == opt_view(new.demo_md) && s.estimate_files == new.estimate_files
                && s.claimed_by is None && s.completed_at is None,
            Err(e) => if trim(new.key@).len() == 0 {
                e matches Error::Invalid(m) && m@ == "a slice needs a key, e.g. PR1 or S2 or M4"@
            } else {
                taken && (e matches Error::DuplicateSlice(p, k) && p@ == plan_slug@ && k@ == trim(new.key@))
            },
        },
{
    let kv = chars_of(new.key.as_str());
    let key = trimmed(&kv);
    if key.len() == 0 {
        return Err(Error::Invalid("a slice needs a key, e.g. PR1 or S2 or M4".to_string()));
    }
    if taken {
        return Err(Error::DuplicateSlice(plan_slug.to_string(), string_of(&key)));
    }
    let tv = chars_of(new.title.as_str());
    let title = trimmed(&tv);
    Ok(
        Slice {
            id: 0,
            plan_id: new.plan_id,
            ord: match new.ord {
                Some(o) => o,
                None => next_ord,
            },
            key: string_of(&key),
            title: string_of(&title),
            status: match new.status {
                Some(st) => st,
                None => Status::Ready,
            },
            scope_md: match &new.scope_md {
                Some(m) => m.clone(),
                None => String::new(),
            },
            demo_md: copy_opt(&new.demo_md),
            estimate_files: new.estimate_files,
            branch: copy_opt(&new.branch),
            base_branch: copy_opt(&new.base_branch),
            pr_url: None,
            worktree_path: None,
            claimed_by: None,
            claimed_at: None,
            blocked_reason: None,
            started_at: None,
            completed_at: None,
            rev: 1,
            updated_at: now.to_string(),
        },
    )
}

// ---------------------------------------------------------------------------
// Laws
// ---------------------------------------------------------------------------

/// A claim only starts work that had not started: a draft or ready slice becomes
/// active, and any other status (active, in review, blocked, done, deferred) is kept.
/// A successful claim holds the slice for `me` in `worktree`, stamps its start once,
/// and leaves what the slice is (its key, title, scope, pull request and block reason)
/// as it was; a slice held by someone else, or from another worktree, is refused.
pub proof fn law_a_claim_only_starts_work_not_yet_started(
    s: SliceV,
    me: Seq<char>,
    worktree: Seq<char>,
    branch: Option<Seq<char>>,
    now: Seq<char>,
)
    ensures
        claim_result(s, me, worktree, branch, now) is Some <==> (s.claimed_by is None || (s.claimed_by == Some(me)
            && s.worktree_path == Some(worktree))),
        claim_result(s, me, worktree, branch, now) matches Some(c) ==> {
            &&& (s.status == Status::Draft || s.status == Status::Ready) ==> c.status == Status::Active
            &&& !(s.status == Status::Draft || s.status == Status::Ready) ==> c.status == s.status
            &&& c.claimed_by == Some(me)
            &&& c.worktree_path == Some(worktree)
            &&& c.claimed_at == Some(now)
            &&& c.started_at == if s.started_at is Some { s.started_at } else { Some(now) }
            &&& c.id == s.id && c.plan_id == s.plan_id && c.key == s.key && c.title == s.title
            &&& c.scope_md == s.scope_md && c.pr_url == s.pr_url && c.blocked_reason == s.blocked_reason
            &&& c.completed_at == s.completed_at
            &&& c.rev == s.rev + 1
        },
{
}

/// A claim never rewrites the branch a slice already names; a slice with none takes
/// the branch it was claimed on.
pub proof fn law_a_claim_never_rewrites_a_planned_branch(
    s: SliceV,
    me: Seq<char>,
    worktree: Seq<char>,
    branch: Option<Seq<char>>,
    now: Seq<char>,
)
    requires
        may_claim(s, me, worktree),
    ensures
        s.branch is Some ==> claimed(s, me, worktree, branch, now).branch == s.branch,
        s.branch is None ==> claimed(s, me, worktree, branch, now).branch == branch,
{
}

/// Of two claims on one free slice from two worktrees, only the first wins, even for
/// the same agent: the slice is then held from the first worktree.
pub proof fn law_only_one_of_two_racing_claims_wins(
    s: SliceV,
    me1: Seq<char>,
    wt1: Seq<char>,
    me2: Seq<char>,
    wt2: Seq<char>,
    b1: Option<Seq<char>>,
    b2: Option<Seq<char>>,
    now1: Seq<char>,
    now2: Seq<char>,
)
    requires
        s.claimed_by is None,
        wt1 != wt2,
    ensures
        claim_result(s, me1, wt1, b1, now1) is Some,
        claim_result(claimed(s, me1, wt1, b1, now1), me2, wt2, b2, now2) is None,
{
}

/// Claiming again from the same worktree is harmless: it succeeds and the slice is
/// held by the same agent from the same place, in the same status, on the same branch
/// once it has one.
pub proof fn law_reclaiming_from_the_same_worktree_changes_nothing_that_matters(
    s: SliceV,
    me: Seq<char>,
    worktree: Seq<char>,
    b1: Option<Seq<char>>,
    b2: Option<Seq<char>>,
    now1: Seq<char>,
    now2: Seq<char>,
)
    requires
        may_claim(s, me, worktree),
    ensures
        ({
            let once = claimed(s, me, worktree, b1, now1);
            let twice = claimed(once, me, worktree, b2, now2);
            &&& may_claim(once, me, worktree)
            &&& twice.claimed_by == once.claimed_by
            &&& twice.worktree_path == once.worktree_path
            &&& once.branch is Some ==> twice.branch == once.branch
            &&& twice.status == once.status
            &&& twice.started_at == once.started_at
        }),
{
}

/// Finishing a slice stamps its completion and gives the claim back, keeping where it
/// was built; reopening it clears the stamp.
pub proof fn law_finishing_stamps_and_reopening_clears(
    s: SliceV,
    now: Seq<char>,
    later: Seq<char>,
    to: Status,
    reason: Option<Seq<char>>,
)
    requires
        to != Status::Done,
        to != Status::Deferred,
    ensures
        moved(s, Status::Done, None, now).completed_at == Some(now),
        moved(s, Status::Done, None, now).claimed_by is None,
        moved(s, Status::Done, None, now).worktree_path == s.worktree_path,
        moved(moved(s, Status::Done, None, now), to, reason, later).completed_at is None,
{
}

/// A block keeps the reason it was given; leaving it drops the reason.
pub proof fn law_a_block_keeps_its_reason_until_it_is_lifted(
    s: SliceV,
    reason: Seq<char>,
    now: Seq<char>,
    to: Status,
    later: Seq<char>,
)
    requires
        to != Status::Blocked,
    ensures
        moved(s, Status::Blocked, Some(reason), now).blocked_reason == Some(reason),
        moved(moved(s, Status::Blocked, Some(reason), now), to, None, later).blocked_reason is None,
{
}

/// Releasing gives the slice up without pretending the work never started.
pub proof fn law_a_release_keeps_where_the_work_was_done(s: SliceV, now: Seq<char>)
    ensures
        released(s, now).claimed_by is None,
        released(s, now).worktree_path == s.worktree_path,
        released(s, now).started_at == s.started_at,
        released(s, now).status == s.status,
{
}

/// A patch changes exactly the fields it names.
pub proof fn law_a_patch_leaves_what_it_does_not_mention(s: SliceV, p: SliceUpdate, now: Seq<char>)
    ensures
        p.title is None ==> patched(s, p, now).title == s.title,
        p.branch is None ==> patched(s, p, now).branch == s.branch,
        p.pr_url is None ==> patched(s, p, now).pr_url == s.pr_url,
        p.blocked_reason is None ==> patched(s, p, now).blocked_reason == s.blocked_reason,
        patched(s, p, now).status == s.status,
        patched(s, p, now).claimed_by == s.claimed_by,
        patched(s, p, now).key == s.key,
{
}

/// A write made against a revision that is no longer current is refused, never
/// stored over the other writer's text.
pub proof fn law_a_stale_revision_is_refused(existing: Section, w: SectionWrite, next_ord: i64)
    requires
        w.expect_rev matches Some(e) && e != existing.rev,
    ensures
        section_put(Some(existing), w, next_ord) is Err,
{
}

/// A write made against the revision that is current (or with no check) lands: the
/// section holds the new text and moves on to the next revision.
pub proof fn law_a_current_write_moves_the_revision_on(existing: Section, w: SectionWrite, next_ord: i64)
    requires
        w.expect_rev matches Some(e) ==> e == existing.rev,
    ensures
        section_put(Some(existing), w, next_ord) matches Ok(t) && t.3 == w.body@ && t.5 == existing.rev + 1,
{
}

} // verus!
