//! The planner's vocabulary: statuses, section kinds, log kinds, and the rows a plan is
//! made of.
use vstd::prelude::*;

use crate::error::Error;
use crate::text::{
    all_ascii, chars_of, debug_quoted, debug_str, eq_chars, is_ws, lead_ws, lower_seq, lowercase,
    push_all, push_str, string_of, to_lowercase, trail_ws, trim, trim_end, trim_start, trimmed,
};

verus! {

/// Is `w` exactly the characters of `lit`?
pub fn is_word(w: &[char], lit: &str) -> (r: bool)
    ensures
        r == (w@ == lit@),
{
    let l = chars_of(lit);
    eq_chars(w, &l)
}

/// `-` and ` ` become `_`, so `in-review` and `in progress` read as the stored forms.
pub open spec fn underscored(s: Seq<char>) -> Seq<char> {
    s.map_values(|c: char| if c == '-' || c == ' ' { '_' } else { c })
}

pub fn underscore(v: &[char]) -> (r: Vec<char>)
    ensures
        r@ == underscored(v@),
{
    let mut r: Vec<char> = Vec::new();
    let mut i: usize = 0;
    while i < v.len()
        invariant
            i <= v@.len(),
            r@ == underscored(v@.subrange(0, i as int)),
        decreases v.len() - i,
    {
        let c = v[i];
        r.push(
            if c == '-' || c == ' ' {
                '_'
            } else {
                c
            },
        );
        assert(underscored(v@.subrange(0, i + 1)) =~= underscored(v@.subrange(0, i as int)).push(
            if c == '-' || c == ' ' {
                '_'
            } else {
                c
            },
        ));
        i += 1;
    }
    assert(v@.subrange(0, v@.len() as int) =~= v@);
    r
}

/// `s.trim().to_lowercase()`: how every keyword lookup below reads its input.
pub open spec fn folded(s: Seq<char>) -> Seq<char> {
    lowercase(trim(s))
}

pub fn fold(s: &str) -> (r: Vec<char>)
    ensures
        r@ == folded(s@),
{
    let v = chars_of(s);
    let t = trimmed(&v);
    to_lowercase(&t)
}

/// One vocabulary for plans and slices alike. `incomplete` is not a stored value: it
/// is the filter `ready|active|in_review|blocked`.
#[derive(Debug, Clone, Copy, PartialEq, Eq, Structural)]
pub enum Status {
    Draft,
    Ready,
    Active,
    InReview,
    Blocked,
    Done,
    Deferred,
}

pub open spec fn status_name(s: Status) -> Seq<char> {
    match s {
        Status::Draft => "draft"@,
        Status::Ready => "ready"@,
        Status::Active => "active"@,
        Status::InReview => "in_review"@,
        Status::Blocked => "blocked"@,
        Status::Done => "done"@,
        Status::Deferred => "deferred"@,
    }
}

/// The stored form and every shorthand people and agents type for it.
pub open spec fn status_word(w: Seq<char>) -> Option<Status> {
    if w == "draft"@ {
        Some(Status::Draft)
    } else if w == "ready"@ || w == "todo"@ || w == "planned"@ || w == "open"@ {
        Some(Status::Ready)
    } else if w == "active"@ || w == "in_progress"@ || w == "wip"@ || w == "started"@ || w
        == "doing"@ {
        Some(Status::Active)
    } else if w == "in_review"@ || w == "review"@ || w == "pr"@ {
        Some(Status::InReview)
    } else if w == "blocked"@ {
        Some(Status::Blocked)
    } else if w == "done"@ || w == "complete"@ || w == "completed"@ || w == "delivered"@ || w
        == "shipped"@ {
        Some(Status::Done)
    } else if w == "deferred"@ || w == "dropped"@ || w == "later"@ || w == "optional"@ || w
        == "wontdo"@ {
        Some(Status::Deferred)
    } else {
        None
    }
}

/// What `Status::parse` reads: trimmed, lowercased, dashes and spaces as underscores.
pub open spec fn status_key(s: Seq<char>) -> Seq<char> {
    underscored(folded(s))
}

pub open spec fn unknown_status_message(s: Seq<char>) -> Seq<char> {
    "unknown status "@ + debug_quoted(s)
        + " - use one of: draft, ready, active, in_review, blocked, done, deferred"@
}

pub open spec fn status_marker(s: Status) -> Seq<char> {
    match s {
        Status::Draft => "·"@,
        Status::Ready => "○"@,
        Status::Active => "▶"@,
        Status::InReview => "◐"@,
        Status::Blocked => "⛔"@,
        Status::Done => "✔"@,
        Status::Deferred => "—"@,
    }
}

pub open spec fn status_terminal(s: Status) -> bool {
    s == Status::Done || s == Status::Deferred
}

impl Status {
    pub const ALL: [Status; 7] = [
        Status::Draft,
        Status::Ready,
        Status::Active,
        Status::InReview,
        Status::Blocked,
        Status::Done,
        Status::Deferred,
    ];

    /// Agreed work that is not finished and not consciously dropped; drafts excluded.
    pub const INCOMPLETE: [Status; 4] = [
        Status::Ready,
        Status::Active,
        Status::InReview,
        Status::Blocked,
    ];

    /// Anything not finished or dropped, drafts included.
    pub const UNFINISHED: [Status; 5] = [
        Status::Draft,
        Status::Ready,
        Status::Active,
        Status::InReview,
        Status::Blocked,
    ];

    pub fn as_str(self) -> (r: &'static str)
        ensures
            r@ == status_name(self),
    {
        match self {
            Status::Draft => "draft",
            Status::Ready => "ready",
            Status::Active => "active",
            Status::InReview => "in_review",
            Status::Blocked => "blocked",
            Status::Done => "done",
            Status::Deferred => "deferred",
        }
    }

    /// Accepts the stored form plus the shorthands people and agents actually type.
    pub fn parse(s: &str) -> (r: Result<Status, Error>)
        ensures
            match r {
                Ok(st) => status_word(status_key(s@)) == Some(st),
                Err(e) => status_word(status_key(s@)) is None && (e matches Error::Invalid(m)
                    && m@ == unknown_status_message(s@)),
            },
    {
        let f = fold(s);
        let w = underscore(&f);
        if is_word(&w, "draft") {
            Ok(Status::Draft)
        } else if is_word(&w, "ready") || is_word(&w, "todo") || is_word(&w, "planned")
            || is_word(&w, "open") {
            Ok(Status::Ready)
        } else if is_word(&w, "active") || is_word(&w, "in_progress") || is_word(&w, "wip")
            || is_word(&w, "started") || is_word(&w, "doing") {
            Ok(Status::Active)
        } else if is_word(&w, "in_review") || is_word(&w, "review") || is_word(&w, "pr") {
            Ok(Status::InReview)
        } else if is_word(&w, "blocked") {
            Ok(Status::Blocked)
        } else if is_word(&w, "done") || is_word(&w, "complete") || is_word(&w, "completed")
            || is_word(&w, "delivered") || is_word(&w, "shipped") {
            Ok(Status::Done)
        } else if is_word(&w, "deferred") || is_word(&w, "dropped") || is_word(&w, "later")
            || is_word(&w, "optional") || is_word(&w, "wontdo") {
            Ok(Status::Deferred)
        } else {
            let v = chars_of(s);
            let mut m: Vec<char> = Vec::new();
            push_str(&mut m, "unknown status ");
            let q = debug_str(&v);
            push_all(&mut m, &q);
            push_str(&mut m, " - use one of: draft, ready, active, in_review, blocked, done, deferred");
            Err(Error::invalid(string_of(&m)))
        }
    }

    pub fn is_terminal(self) -> (r: bool)
        ensures
            r == status_terminal(self),
    {
        matches!(self, Status::Done | Status::Deferred)
    }

    /// A short marker for tables, matching how the source plans mark up their slices.
    pub fn marker(self) -> (r: &'static str)
        ensures
            r@ == status_marker(self),
    {
        match self {
            Status::Draft => "·",
            Status::Ready => "○",
            Status::Active => "▶",
            Status::InReview => "◐",
            Status::Blocked => "⛔",
            Status::Done => "✔",
            Status::Deferred => "—",
        }
    }
}


#[derive(Debug, Clone, Copy, PartialEq, Eq, Structural)]
pub enum DecisionStatus {
    Proposed,
    Agreed,
    Superseded,
    Rejected,
}

pub open spec fn decision_status_name(s: DecisionStatus) -> Seq<char> {
    match s {
        DecisionStatus::Proposed => "proposed"@,
        DecisionStatus::Agreed => "agreed"@,
        DecisionStatus::Superseded => "superseded"@,
        DecisionStatus::Rejected => "rejected"@,
    }
}

pub open spec fn decision_status_word(w: Seq<char>) -> Option<DecisionStatus> {
    if w == "proposed"@ {
        Some(DecisionStatus::Proposed)
    } else if w == "agreed"@ || w == "accepted"@ {
        Some(DecisionStatus::Agreed)
    } else if w == "superseded"@ {
        Some(DecisionStatus::Superseded)
    } else if w == "rejected"@ {
        Some(DecisionStatus::Rejected)
    } else {
        None
    }
}

/// `{prefix}{s:?}`: the shape of every "unknown ..." message below.
pub open spec fn unknown_message(prefix: Seq<char>, s: Seq<char>) -> Seq<char> {
    prefix + debug_quoted(s)
}

fn unknown_error(prefix: &str, s: &str) -> (e: Error)
    ensures
        e matches Error::Invalid(m) && m@ == unknown_message(prefix@, s@),
{
    let v = chars_of(s);
    let mut m: Vec<char> = Vec::new();
    push_str(&mut m, prefix);
    let q = debug_str(&v);
    push_all(&mut m, &q);
    Error::invalid(string_of(&m))
}

impl DecisionStatus {
    pub fn as_str(self) -> (r: &'static str)
        ensures
            r@ == decision_status_name(self),
    {
        match self {
            DecisionStatus::Proposed => "proposed",
            DecisionStatus::Agreed => "agreed",
            DecisionStatus::Superseded => "superseded",
            DecisionStatus::Rejected => "rejected",
        }
    }

    pub fn parse(s: &str) -> (r: Result<DecisionStatus, Error>)
        ensures
            match r {
                Ok(st) => decision_status_word(folded(s@)) == Some(st),
                Err(e) => decision_status_word(folded(s@)) is None && (e matches Error::Invalid(m)
                    && m@ == unknown_message("unknown decision status "@, s@)),
            },
    {
        let w = fold(s);
        if is_word(&w, "proposed") {
            Ok(DecisionStatus::Proposed)
        } else if is_word(&w, "agreed") || is_word(&w, "accepted") {
            Ok(DecisionStatus::Agreed)
        } else if is_word(&w, "superseded") {
            Ok(DecisionStatus::Superseded)
        } else if is_word(&w, "rejected") {
            Ok(DecisionStatus::Rejected)
        } else {
            Err(unknown_error("unknown decision status ", s))
        }
    }
}

/// What a section emits after its body. Anything other than `Body` splices in a
/// generated block, which is how a rendered plan keeps the shape of the document it
/// was imported from.
#[derive(Debug, Clone, Copy, PartialEq, Eq, Structural)]
pub enum Renders {
    Body,
    Sources,
    Decisions,
    Slices,
    Questions,
    Gotchas,
    Log,
}

pub open spec fn renders_name(r: Renders) -> Seq<char> {
    match r {
        Renders::Body => "body"@,
        Renders::Sources => "sources"@,
        Renders::Decisions => "decisions"@,
        Renders::Slices => "slices"@,
        Renders::Questions => "questions"@,
        Renders::Gotchas => "gotchas"@,
        Renders::Log => "log"@,
    }
}

pub open spec fn renders_word(w: Seq<char>) -> Option<Renders> {
    if w == "body"@ || w == ""@ {
        Some(Renders::Body)
    } else if w == "sources"@ {
        Some(Renders::Sources)
    } else if w == "decisions"@ {
        Some(Renders::Decisions)
    } else if w == "slices"@ || w == "prs"@ || w == "milestones"@ {
        Some(Renders::Slices)
    } else if w == "questions"@ {
        Some(Renders::Questions)
    } else if w == "gotchas"@ {
        Some(Renders::Gotchas)
    } else if w == "log"@ || w == "progress"@ {
        Some(Renders::Log)
    } else {
        None
    }
}

impl Renders {
    pub fn as_str(self) -> (r: &'static str)
        ensures
            r@ == renders_name(self),
    {
        match self {
            Renders::Body => "body",
            Renders::Sources => "sources",
            Renders::Decisions => "decisions",
            Renders::Slices => "slices",
            Renders::Questions => "questions",
            Renders::Gotchas => "gotchas",
            Renders::Log => "log",
        }
    }

    pub fn parse(s: &str) -> (r: Result<Renders, Error>)
        ensures
            match r {
                Ok(k) => renders_word(folded(s@)) == Some(k),
                Err(e) => renders_word(folded(s@)) is None && (e matches Error::Invalid(m) && m@
                    == unknown_message("unknown section kind "@, s@)),
            },
    {
        let w = fold(s);
        if is_word(&w, "body") || is_word(&w, "") {
            Ok(Renders::Body)
        } else if is_word(&w, "sources") {
            Ok(Renders::Sources)
        } else if is_word(&w, "decisions") {
            Ok(Renders::Decisions)
        } else if is_word(&w, "slices") || is_word(&w, "prs") || is_word(&w, "milestones") {
            Ok(Renders::Slices)
        } else if is_word(&w, "questions") {
            Ok(Renders::Questions)
        } else if is_word(&w, "gotchas") {
            Ok(Renders::Gotchas)
        } else if is_word(&w, "log") || is_word(&w, "progress") {
            Ok(Renders::Log)
        } else {
            Err(unknown_error("unknown section kind ", s))
        }
    }
}

#[derive(Debug, Clone, Copy, PartialEq, Eq, Structural)]
pub enum LogKind {
    Progress,
    Status,
    Decision,
    Gotcha,
    Verification,
    Blocker,
    Handoff,
}

pub open spec fn log_kind_name(k: LogKind) -> Seq<char> {
    match k {
        LogKind::Progress => "progress"@,
        LogKind::Status => "status"@,
        LogKind::Decision => "decision"@,
        LogKind::Gotcha => "gotcha"@,
        LogKind::Verification => "verification"@,
        LogKind::Blocker => "blocker"@,
        LogKind::Handoff => "handoff"@,
    }
}

pub open spec fn log_kind_word(w: Seq<char>) -> Option<LogKind> {
    if w == "progress"@ || w == ""@ {
        Some(LogKind::Progress)
    } else if w == "status"@ {
        Some(LogKind::Status)
    } else if w == "decision"@ {
        Some(LogKind::Decision)
    } else if w == "gotcha"@ {
        Some(LogKind::Gotcha)
    } else if w == "verification"@ || w == "verified"@ {
        Some(LogKind::Verification)
    } else if w == "blocker"@ || w == "blocked"@ {
        Some(LogKind::Blocker)
    } else if w == "handoff"@ {
        Some(LogKind::Handoff)
    } else {
        None
    }
}

impl LogKind {
    pub fn as_str(self) -> (r: &'static str)
        ensures
            r@ == log_kind_name(self),
    {
        match self {
            LogKind::Progress => "progress",
            LogKind::Status => "status",
            LogKind::Decision => "decision",
            LogKind::Gotcha => "gotcha",
            LogKind::Verification => "verification",
            LogKind::Blocker => "blocker",
            LogKind::Handoff => "handoff",
        }
    }

    pub fn parse(s: &str) -> (r: Result<LogKind, Error>)
        ensures
            match r {
                Ok(k) => log_kind_word(folded(s@)) == Some(k),
                Err(e) => log_kind_word(folded(s@)) is None && (e matches Error::Invalid(m) && m@
                    == unknown_message("unknown log kind "@, s@)),
            },
    {
        let w = fold(s);
        if is_word(&w, "progress") || is_word(&w, "") {
            Ok(LogKind::Progress)
        } else if is_word(&w, "status") {
            Ok(LogKind::Status)
        } else if is_word(&w, "decision") {
            Ok(LogKind::Decision)
        } else if is_word(&w, "gotcha") {
            Ok(LogKind::Gotcha)
        } else if is_word(&w, "verification") || is_word(&w, "verified") {
            Ok(LogKind::Verification)
        } else if is_word(&w, "blocker") || is_word(&w, "blocked") {
            Ok(LogKind::Blocker)
        } else if is_word(&w, "handoff") {
            Ok(LogKind::Handoff)
        } else {
            Err(unknown_error("unknown log kind ", s))
        }
    }
}

#[derive(Debug, Clone)]
pub struct Repo {
    pub id: i64,
    pub key: String,
    pub name: String,
    pub remote_url: Option<String>,
    pub main_path: Option<String>,
    pub created_at: String,
}

#[derive(Debug, Clone)]
pub struct Plan {
    pub id: i64,
    pub repo_id: i64,
    pub repo_name: String,
    pub slug: String,
    pub title: String,
    pub status: Status,
    pub summary: Option<String>,
    pub ticket_key: Option<String>,
    pub ticket_url: Option<String>,
    pub base_branch: Option<String>,
    pub owner: Option<String>,
    pub source_path: Option<String>,
    pub rev: i64,
    pub created_at: String,
    pub updated_at: String,
}

#[derive(Debug, Clone)]
pub struct Section {
    pub id: i64,
    pub plan_id: i64,
    pub ord: i64,
    pub key: String,
    pub title: String,
    pub body: String,
    pub renders: Renders,
    pub rev: i64,
}

#[derive(Debug, Clone)]
pub struct Decision {
    pub id: i64,
    pub plan_id: i64,
    pub ord: i64,
    pub key: String,
    pub title: String,
    pub body: String,
    pub status: DecisionStatus,
    pub superseded_by: Option<String>,
    pub supersede_note: Option<String>,
    pub rev: i64,
    pub decided_at: String,
}

#[derive(Debug, Clone)]
pub struct Slice {
    pub id: i64,
    pub plan_id: i64,
    pub ord: i64,
    pub key: String,
    pub title: String,
    pub status: Status,
    pub scope_md: String,
    pub demo_md: Option<String>,
    pub estimate_files: Option<i64>,
    pub branch: Option<String>,
    pub base_branch: Option<String>,
    pub pr_url: Option<String>,
    pub worktree_path: Option<String>,
    pub claimed_by: Option<String>,
    pub claimed_at: Option<String>,
    pub blocked_reason: Option<String>,
    pub started_at: Option<String>,
    pub completed_at: Option<String>,
    pub rev: i64,
    pub updated_at: String,
}

#[derive(Debug, Clone)]
pub struct Question {
    pub id: i64,
    pub plan_id: i64,
    pub slice_key: Option<String>,
    pub body: String,
    pub status: String,
    pub answer: Option<String>,
    pub asked_at: String,
    pub answered_at: Option<String>,
}

#[derive(Debug, Clone)]
pub struct Gotcha {
    pub id: i64,
    pub plan_id: i64,
    pub title: String,
    pub body: String,
    pub created_at: String,
}

#[derive(Debug, Clone)]
pub struct LogEntry {
    pub id: i64,
    pub plan_id: i64,
    pub slice_key: Option<String>,
    pub at: String,
    pub actor: Option<String>,
    pub kind: LogKind,
    pub branch: Option<String>,
    pub worktree_path: Option<String>,
    pub body: String,
}

#[derive(Debug, Clone)]
pub struct PlanSource {
    pub id: i64,
    pub kind: String,
    pub reference: String,
    pub note: Option<String>,
}

/// Everything needed to render a plan document in one shot.
#[derive(Debug, Clone)]
pub struct PlanBundle {
    pub plan: Plan,
    pub sources: Vec<PlanSource>,
    pub sections: Vec<Section>,
    pub decisions: Vec<Decision>,
    pub slices: Vec<Slice>,
    pub questions: Vec<Question>,
    pub gotchas: Vec<Gotcha>,
    pub log: Vec<LogEntry>,
}

/// An optional string, copied.
pub fn copy_opt(o: &Option<String>) -> (r: Option<String>)
    ensures
        r == *o,
{
    match o {
        Some(s) => Some(s.clone()),
        None => None,
    }
}

impl Plan {
    /// A field-for-field copy.
    pub fn copied(&self) -> (r: Plan)
        ensures
            r == *self,
    {
        Plan {
            id: self.id,
            repo_id: self.repo_id,
            repo_name: self.repo_name.clone(),
            slug: self.slug.clone(),
            title: self.title.clone(),
            status: self.status,
            summary: copy_opt(&self.summary),
            ticket_key: copy_opt(&self.ticket_key),
            ticket_url: copy_opt(&self.ticket_url),
            base_branch: copy_opt(&self.base_branch),
            owner: copy_opt(&self.owner),
            source_path: copy_opt(&self.source_path),
            rev: self.rev,
            created_at: self.created_at.clone(),
            updated_at: self.updated_at.clone(),
        }
    }
}

impl Slice {
    /// A field-for-field copy.
    pub fn copied(&self) -> (r: Slice)
        ensures
            r == *self,
    {
        Slice {
            id: self.id,
            plan_id: self.plan_id,
            ord: self.ord,
            key: self.key.clone(),
            title: self.title.clone(),
            status: self.status,
            scope_md: self.scope_md.clone(),
            demo_md: copy_opt(&self.demo_md),
            estimate_files: self.estimate_files,
            branch: copy_opt(&self.branch),
            base_branch: copy_opt(&self.base_branch),
            pr_url: copy_opt(&self.pr_url),
            worktree_path: copy_opt(&self.worktree_path),
            claimed_by: copy_opt(&self.claimed_by),
            claimed_at: copy_opt(&self.claimed_at),
            blocked_reason: copy_opt(&self.blocked_reason),
            started_at: copy_opt(&self.started_at),
            completed_at: copy_opt(&self.completed_at),
            rev: self.rev,
            updated_at: self.updated_at.clone(),
        }
    }
}

// ---------------------------------------------------------------------------
// Laws of the vocabulary
// ---------------------------------------------------------------------------

pub proof fn lemma_lower_ascii_lowercase(s: Seq<char>)
    requires
        forall|i: int| 0 <= i < s.len() ==> ('a' <= #[trigger] s[i] <= 'z' || s[i] == '_'),
    ensures
        lowercase(s) == s,
        trim(s) == s,
        underscored(s) == s,
{
    assert(all_ascii(s));
    assert(lower_seq(s) =~= s);
    assert(underscored(s) =~= s);
    if s.len() > 0 {
        assert(!is_ws(s[0]));
        assert(!is_ws(s[s.len() - 1]));
    }
    assert(lead_ws(s, 0) == 0);
    assert(trim_start(s) =~= s);
    assert(trail_ws(s, s.len() as int) == s.len());
    assert(trim_end(s) =~= s);
}

/// Every status reads back as itself: `Status::parse(s.as_str())` is `Ok(s)`.
pub proof fn law_status_round_trip(st: Status)
    ensures
        status_word(status_key(status_name(st))) == Some(st),
{
    reveal_strlit("draft");
    reveal_strlit("ready");
    reveal_strlit("active");
    reveal_strlit("in_review");
    reveal_strlit("blocked");
    reveal_strlit("done");
    reveal_strlit("deferred");
    reveal_strlit("todo");
    reveal_strlit("planned");
    reveal_strlit("open");
    reveal_strlit("in_progress");
    reveal_strlit("wip");
    reveal_strlit("started");
    reveal_strlit("doing");
    reveal_strlit("review");
    reveal_strlit("pr");
    reveal_strlit("complete");
    reveal_strlit("completed");
    reveal_strlit("delivered");
    reveal_strlit("shipped");
    reveal_strlit("dropped");
    reveal_strlit("later");
    reveal_strlit("optional");
    reveal_strlit("wontdo");
    let n = status_name(st);
    lemma_lower_ascii_lowercase(n);
    assert(folded(n) == n);
    assert(status_key(n) == n);
}


/// `_` written as a space, as people type `in review`.
pub open spec fn spaced(s: Seq<char>) -> Seq<char> {
    s.map_values(|c: char| if c == '_' { ' ' } else { c })
}

/// A stored name written in capitals, with spaces for underscores and padded with
/// spaces, still reads as that name.
proof fn lemma_shouted_name(n: Seq<char>)
    requires
        n.len() > 0,
        forall|i: int| 0 <= i < n.len() ==> ('a' <= #[trigger] n[i] <= 'z' || n[i] == '_'),
        'a' <= n[0] <= 'z',
        'a' <= n[n.len() - 1] <= 'z',
    ensures
        status_key("  "@ + crate::text::upper_seq(spaced(n)) + "  "@) == n,
        folded(crate::text::upper_seq(n)) == n,
{
    reveal_strlit("  ");
    let u = crate::text::upper_seq(spaced(n));
    let w = "  "@ + u + "  "@;
    let k = u.len() as int;
    assert(w[0] == ' ' && w[1] == ' ');
    assert(w[2] == u[0]);
    assert(!is_ws(u[0]));
    assert(lead_ws(w, 2) == 2);
    assert(lead_ws(w, 1) == 2);
    assert(lead_ws(w, 0) == 2);
    let t0 = trim_start(w);
    assert(t0 =~= u + "  "@);
    assert(t0[k + 1] == ' ' && t0[k] == ' ');
    assert(t0[k - 1] == u[k - 1]);
    assert(!is_ws(u[k - 1]));
    assert(trail_ws(t0, k) == k);
    assert(trail_ws(t0, k + 1) == k);
    assert(trail_ws(t0, k + 2) == k);
    assert(trim(w) =~= u);
    assert(all_ascii(u));
    assert(lowercase(u) =~= spaced(n));
    assert(underscored(spaced(n)) =~= n);
    let v = crate::text::upper_seq(n);
    assert(!is_ws(v[0]) && !is_ws(v[k - 1]));
    assert(lead_ws(v, 0) == 0);
    assert(trail_ws(v, k) == k);
    assert(trim(v) =~= v);
    assert(all_ascii(v));
    assert(lowercase(v) =~= n);
}

/// Case, padding and a space for an underscore do not matter: every status, written
/// in capitals with spaces around it and in place of `_`, parses as itself.
pub proof fn law_status_spellings_parse(st: Status)
    ensures
        status_word(status_key("  "@ + crate::text::upper_seq(spaced(status_name(st))) + "  "@)) == Some(st),
        status_word(status_key(crate::text::upper_seq(status_name(st)))) == Some(st),
{
    reveal_strlit("draft");
    reveal_strlit("ready");
    reveal_strlit("active");
    reveal_strlit("in_review");
    reveal_strlit("blocked");
    reveal_strlit("done");
    reveal_strlit("deferred");
    let n = status_name(st);
    lemma_shouted_name(n);
    law_status_round_trip(st);
    lemma_lower_ascii_lowercase(n);
    assert(status_key(n) == n);
    assert(status_key(crate::text::upper_seq(n)) == underscored(n));
}

/// Every decision status parses from its name in capitals, and `accepted`, with any
/// padding, is an agreed decision.
pub proof fn law_decision_status_spellings_parse(st: DecisionStatus)
    ensures
        decision_status_word(folded(crate::text::upper_seq(decision_status_name(st)))) == Some(st),
        decision_status_word(folded(" accepted "@)) == Some(DecisionStatus::Agreed),
        decision_status_word(folded("in_review"@)) is None,
{
    reveal_strlit("in_review");
    lemma_lower_ascii_lowercase("in_review"@);
    reveal_strlit("proposed");
    reveal_strlit("agreed");
    reveal_strlit("accepted");
    reveal_strlit("superseded");
    reveal_strlit("rejected");
    reveal_strlit(" accepted ");
    let n = decision_status_name(st);
    lemma_shouted_name(n);
    law_decision_status_round_trip(st);
    let a = " accepted "@;
    assert(a.len() == 10 && a[0] == ' ' && a[1] == 'a' && a[8] == 'd' && a[9] == ' ');
    assert(!is_ws(a[1]));
    assert(lead_ws(a, 1) == 1);
    assert(lead_ws(a, 0) == 1);
    let b = a.subrange(1, 10);
    assert(trim_start(a) =~= b);
    assert(b[7] == 'd' && b[8] == ' ');
    assert(!is_ws(b[7]));
    assert(trail_ws(b, 8) == 8);
    assert(trail_ws(b, 9) == 8);
    assert(trim(a) =~= b.subrange(0, 8));
    assert(b.subrange(0, 8) =~= "accepted"@);
    assert(trim(a) =~= "accepted"@);
    assert(all_ascii("accepted"@));
    assert(lower_seq("accepted"@) =~= "accepted"@);
}

/// Every decision status reads back as itself.
pub proof fn law_decision_status_round_trip(st: DecisionStatus)
    ensures
        decision_status_word(folded(decision_status_name(st))) == Some(st),
{
    reveal_strlit("proposed");
    reveal_strlit("agreed");
    reveal_strlit("accepted");
    reveal_strlit("superseded");
    reveal_strlit("rejected");
    let n = decision_status_name(st);
    lemma_lower_ascii_lowercase(n);
}

/// Every section kind reads back as itself.
pub proof fn law_renders_round_trip(r: Renders)
    ensures
        renders_word(folded(renders_name(r))) == Some(r),
{
    reveal_strlit("body");
    reveal_strlit("");
    reveal_strlit("sources");
    reveal_strlit("decisions");
    reveal_strlit("slices");
    reveal_strlit("prs");
    reveal_strlit("milestones");
    reveal_strlit("questions");
    reveal_strlit("gotchas");
    reveal_strlit("log");
    reveal_strlit("progress");
    let n = renders_name(r);
    lemma_lower_ascii_lowercase(n);
}

/// Every log kind reads back as itself.
pub proof fn law_log_kind_round_trip(k: LogKind)
    ensures
        log_kind_word(folded(log_kind_name(k))) == Some(k),
{
    reveal_strlit("progress");
    reveal_strlit("");
    reveal_strlit("status");
    reveal_strlit("decision");
    reveal_strlit("gotcha");
    reveal_strlit("verification");
    reveal_strlit("verified");
    reveal_strlit("blocker");
    reveal_strlit("blocked");
    reveal_strlit("handoff");
    let n = log_kind_name(k);
    lemma_lower_ascii_lowercase(n);
}

/// `incomplete` covers what is started and what is not, and nothing finished:
/// no status in `INCOMPLETE` is terminal, and every status outside it is a draft or
/// terminal.
pub proof fn law_incomplete_is_unfinished_work(st: Status)
    ensures
        Status::INCOMPLETE@.contains(st) ==> !status_terminal(st),
        Status::INCOMPLETE@.contains(st) <==> (st != Status::Draft && !status_terminal(st)),
        Status::UNFINISHED@.contains(st) <==> !status_terminal(st),
{
    assert(Status::INCOMPLETE@ =~= seq![Status::Ready, Status::Active, Status::InReview, Status::Blocked]);
    assert(Status::UNFINISHED@ =~= seq![Status::Draft, Status::Ready, Status::Active, Status::InReview, Status::Blocked]);
    match st {
        Status::Ready => assert(Status::INCOMPLETE@[0] == st && Status::UNFINISHED@[1] == st),
        Status::Active => assert(Status::INCOMPLETE@[1] == st && Status::UNFINISHED@[2] == st),
        Status::InReview => assert(Status::INCOMPLETE@[2] == st && Status::UNFINISHED@[3] == st),
        Status::Blocked => assert(Status::INCOMPLETE@[3] == st && Status::UNFINISHED@[4] == st),
        Status::Draft => assert(Status::UNFINISHED@[0] == st),
        _ => {},
    }
}
} // verus!
