//! The board's HTTP API, less the HTTP: what a failure is called on the wire, and the
//! checks a request passes before it reaches the store. The interesting refusals (a
//! claim held by another worktree, a revision that moved under an edit) keep their own
//! status and code so the page can say what happened.
use vstd::prelude::*;

use crate::error::Error;
use crate::model::{log_kind_word, status_name, status_word, status_key, LogKind, Status};
use crate::text::{
    chars_of, debug_quoted, debug_str, dec, dec_int, push_all, push_decimal, push_int, push_str,
    string_of, trim, trimmed,
};

verus! {

// ---------------------------------------------------------------------------
// What an error says
// ---------------------------------------------------------------------------

/// The sentence each failure prints as.
pub open spec fn error_message(e: Error) -> Seq<char> {
    match e {
        Error::NoDatabase(p) => "no database at "@ + p@ + " - run `aip init`"@,
        Error::NotAGitRepo(p) => "not a git repository (looked from "@ + p@ + ")"@,
        Error::Git(m) => "git is not installed or failed to run: "@ + m@,
        Error::UnknownRepo(k) => "no repo registered for "@ + k@ + " - run `aip init`"@,
        Error::NoSuchPlan(r) => "no plan matching "@ + debug_quoted(r@),
        Error::AmbiguousPlan(r, n, names) => debug_quoted(r@) + " matches "@ + dec(n as nat) + " plans: "@
            + names@ + " - pass --plan to disambiguate"@,
        Error::NoSuchSlice(p, k) => "plan "@ + p@ + " has no slice "@ + debug_quoted(k@),
        Error::DuplicateSlice(p, k) => "plan "@ + p@ + " already has a slice "@ + debug_quoted(k@),
        Error::DuplicatePlan(s) => "a plan "@ + debug_quoted(s@) + " already exists in this repo"@,
        Error::Conflict(what, read, now) => what@ + " was changed by another writer since you read it (rev "@
            + dec_int(read as int) + ", now "@ + dec_int(now as int) + ") - re-read and retry"@,
        Error::AlreadyClaimed(k, by, at) => "slice "@ + k@ + " is already claimed by "@ + by@ + " in "@ + at@,
        Error::PlanIsHeld(slug, n, detail) => slug@ + " has "@ + dec(n as nat)
            + " slice(s) claimed in other worktrees: "@ + detail@
            + " - release them or pass --force"@,
        Error::Invalid(m) => m@,
    }
}

fn push_quoted(out: &mut Vec<char>, s: &String)
    ensures
        final(out)@ == old(out)@ + debug_quoted(s@),
{
    let v = chars_of(s.as_str());
    let q = debug_str(&v);
    push_all(out, &q);
}

impl Error {
    /// The error as a person reads it.
    pub fn message(&self) -> (r: String)
        ensures
            r@ == error_message(*self),
    {
        let mut out: Vec<char> = Vec::new();
        match self {
            Error::NoDatabase(p) => {
                push_str(&mut out, "no database at ");
                push_str(&mut out, p.as_str());
                push_str(&mut out, " - run `aip init`");
            },
            Error::NotAGitRepo(p) => {
                push_str(&mut out, "not a git repository (looked from ");
                push_str(&mut out, p.as_str());
                push_str(&mut out, ")");
            },
            Error::Git(m) => {
                push_str(&mut out, "git is not installed or failed to run: ");
                push_str(&mut out, m.as_str());
            },
            Error::UnknownRepo(k) => {
                push_str(&mut out, "no repo registered for ");
                push_str(&mut out, k.as_str());
                push_str(&mut out, " - run `aip init`");
            },
            Error::NoSuchPlan(r) => {
                push_str(&mut out, "no plan matching ");
                push_quoted(&mut out, r);
            },
            Error::AmbiguousPlan(r, n, names) => {
                push_quoted(&mut out, r);
                push_str(&mut out, " matches ");
                push_decimal(&mut out, *n as u128);
                push_str(&mut out, " plans: ");
                push_str(&mut out, names.as_str());
                push_str(&mut out, " - pass --plan to disambiguate");
            },
            Error::NoSuchSlice(p, k) => {
                push_str(&mut out, "plan ");
                push_str(&mut out, p.as_str());
                push_str(&mut out, " has no slice ");
                push_quoted(&mut out, k);
            },
            Error::DuplicateSlice(p, k) => {
                push_str(&mut out, "plan ");
                push_str(&mut out, p.as_str());
                push_str(&mut out, " already has a slice ");
                push_quoted(&mut out, k);
            },
            Error::DuplicatePlan(s) => {
                push_str(&mut out, "a plan ");
                push_quoted(&mut out, s);
                push_str(&mut out, " already exists in this repo");
            },
            Error::Conflict(what, read, now) => {
                push_str(&mut out, what.as_str());
                push_str(&mut out, " was changed by another writer since you read it (rev ");
                push_int(&mut out, *read);
                push_str(&mut out, ", now ");
                push_int(&mut out, *now);
                push_str(&mut out, ") - re-read and retry");
            },
            Error::AlreadyClaimed(k, by, at) => {
                push_str(&mut out, "slice ");
                push_str(&mut out, k.as_str());
                push_str(&mut out, " is already claimed by ");
                push_str(&mut out, by.as_str());
                push_str(&mut out, " in ");
                push_str(&mut out, at.as_str());
            },
            Error::PlanIsHeld(slug, n, detail) => {
                push_str(&mut out, slug.as_str());
                push_str(&mut out, " has ");
                push_decimal(&mut out, *n as u128);
                push_str(&mut out, " slice(s) claimed in other worktrees: ");
                push_str(&mut out, detail.as_str());
                push_str(&mut out, " - release them or pass --force");
            },
            Error::Invalid(m) => push_str(&mut out, m.as_str()),
        }
        assert(out@ =~= error_message(*self));
        string_of(&out)
    }
}

// ---------------------------------------------------------------------------
// The wire's error shape
// ---------------------------------------------------------------------------

/// One error shape for the whole API.
#[derive(Debug, Clone)]
pub enum ApiError {
    NotFound(String),
    BadRequest(String),
    /// Somebody else got there first; the body names them.
    Claimed { message: String, slice: String, holder: String, worktree: String },
    /// The row moved under a read-modify-write.
    Conflict(String),
    Unauthorized,
    /// A failure of the store itself, carried as its message.
    Internal(String),
}

/// What a store failure becomes: missing things are 404s, a malformed or ambiguous
/// request a 400, a claim or revision clash a 409 that keeps its facts, and anything
/// else an internal error.
pub open spec fn api_error_of(e: Error) -> ApiErrorV {
    match e {
        Error::NoSuchPlan(_) | Error::NoSuchSlice(_, _) | Error::UnknownRepo(_) => ApiErrorV::NotFound(
            error_message(e),
        ),
        Error::Invalid(_) | Error::AmbiguousPlan(_, _, _) | Error::DuplicatePlan(_) | Error::DuplicateSlice(
            _,
            _,
        ) => ApiErrorV::BadRequest(error_message(e)),
        Error::Conflict(_, _, _) | Error::PlanIsHeld(_, _, _) => ApiErrorV::Conflict(error_message(e)),
        Error::AlreadyClaimed(k, by, at) => ApiErrorV::Claimed(error_message(e), k@, by@, at@),
        _ => ApiErrorV::Internal(error_message(e)),
    }
}

pub enum ApiErrorV {
    NotFound(Seq<char>),
    BadRequest(Seq<char>),
    Claimed(Seq<char>, Seq<char>, Seq<char>, Seq<char>),
    Conflict(Seq<char>),
    Unauthorized,
    Internal(Seq<char>),
}

impl ApiError {
    pub open spec fn view(self) -> ApiErrorV {
        match self {
            ApiError::NotFound(m) => ApiErrorV::NotFound(m@),
            ApiError::BadRequest(m) => ApiErrorV::BadRequest(m@),
            ApiError::Claimed { message, slice, holder, worktree } => ApiErrorV::Claimed(
                message@,
                slice@,
                holder@,
                worktree@,
            ),
            ApiError::Conflict(m) => ApiErrorV::Conflict(m@),
            ApiError::Unauthorized => ApiErrorV::Unauthorized,
            ApiError::Internal(m) => ApiErrorV::Internal(m@),
        }
    }

    pub fn from_error(e: &Error) -> (r: ApiError)
        ensures
            r.view() == api_error_of(*e),
    {
        let message = e.message();
        match e {
            Error::NoSuchPlan(_) | Error::NoSuchSlice(_, _) | Error::UnknownRepo(_) => ApiError::NotFound(
                message,
            ),
            Error::Invalid(_) | Error::AmbiguousPlan(_, _, _) | Error::DuplicatePlan(_) | Error::DuplicateSlice(
                _,
                _,
            ) => ApiError::BadRequest(message),
            Error::Conflict(_, _, _) | Error::PlanIsHeld(_, _, _) => ApiError::Conflict(message),
            Error::AlreadyClaimed(k, by, at) => ApiError::Claimed {
                message,
                slice: k.clone(),
                holder: by.clone(),
                worktree: at.clone(),
            },
            _ => ApiError::Internal(message),
        }
    }

    /// The HTTP status.
    pub fn status(&self) -> (r: u16)
        ensures
            r == match self.view() {
                ApiErrorV::NotFound(_) => 404u16,
                ApiErrorV::BadRequest(_) => 400,
                ApiErrorV::Claimed(..) | ApiErrorV::Conflict(_) => 409,
                ApiErrorV::Unauthorized => 401,
                ApiErrorV::Internal(_) => 500,
            },
    {
        match self {
            ApiError::NotFound(_) => 404,
            ApiError::BadRequest(_) => 400,
            ApiError::Claimed { .. } | ApiError::Conflict(_) => 409,
            ApiError::Unauthorized => 401,
            ApiError::Internal(_) => 500,
        }
    }

    /// A stable string the client switches on, so the page never parses a message.
    pub fn code(&self) -> (r: &'static str)
        ensures
            r@ == match self.view() {
                ApiErrorV::NotFound(_) => "not_found"@,
                ApiErrorV::BadRequest(_) => "bad_request"@,
                ApiErrorV::Claimed(..) => "already_claimed"@,
                ApiErrorV::Conflict(_) => "conflict"@,
                ApiErrorV::Unauthorized => "unauthorized"@,
                ApiErrorV::Internal(_) => "internal"@,
            },
    {
        match self {
            ApiError::NotFound(_) => "not_found",
            ApiError::BadRequest(_) => "bad_request",
            ApiError::Claimed { .. } => "already_claimed",
            ApiError::Conflict(_) => "conflict",
            ApiError::Unauthorized => "unauthorized",
            ApiError::Internal(_) => "internal",
        }
    }

    /// The message in the body.
    pub fn message(&self) -> (r: String)
        ensures
            r@ == match self.view() {
                ApiErrorV::NotFound(m) => m,
                ApiErrorV::BadRequest(m) => m,
                ApiErrorV::Claimed(m, _, _, _) => m,
                ApiErrorV::Conflict(m) => m,
                ApiErrorV::Unauthorized => "missing or wrong token"@,
                ApiErrorV::Internal(m) => m,
            },
    {
        match self {
            ApiError::NotFound(m) => m.clone(),
            ApiError::BadRequest(m) => m.clone(),
            ApiError::Claimed { message, .. } => message.clone(),
            ApiError::Conflict(m) => m.clone(),
            ApiError::Unauthorized => "missing or wrong token".to_string(),
            ApiError::Internal(m) => m.clone(),
        }
    }
}

// ---------------------------------------------------------------------------
// Requests
// ---------------------------------------------------------------------------

/// Text that is there: not absent, not only whitespace.
pub open spec fn given(o: Option<Seq<char>>) -> Option<Seq<char>> {
    match o {
        Some(s) => if trim(s).len() > 0 {
            Some(s)
        } else {
            None
        },
        None => None,
    }
}

pub open spec fn opt_str_view(o: Option<&str>) -> Option<Seq<char>> {
    match o {
        Some(s) => Some(s@),
        None => None,
    }
}

pub open spec fn opt_string_view(o: Option<String>) -> Option<Seq<char>> {
    match o {
        Some(s) => Some(s@),
        None => None,
    }
}

fn given_text(o: Option<&str>) -> (r: Option<String>)
    ensures
        opt_string_view(r) == given(opt_str_view(o)),
{
    match o {
        Some(s) => {
            let v = chars_of(s);
            if trimmed(&v).len() > 0 {
                Some(s.to_string())
            } else {
                None
            }
        },
        None => None,
    }
}

/// A status change from the board: the status must be one the planner knows, and a
/// block must say why (a blank reason counts as none).
pub open spec fn status_request_of(status: Seq<char>, reason: Option<Seq<char>>) -> Result<
    (Status, Option<Seq<char>>),
    ApiErrorV,
> {
    match status_word(status_key(status)) {
        None => Err(ApiErrorV::BadRequest(crate::model::unknown_status_message(status))),
        Some(s) => if s == Status::Blocked && given(reason) is None {
            Err(ApiErrorV::BadRequest("blocking a slice needs a reason"@))
        } else {
            Ok((s, given(reason)))
        },
    }
}

pub fn status_request(status: &str, reason: Option<&str>) -> (r: Result<(Status, Option<String>), ApiError>)
    ensures
        match r {
            Ok((s, why)) => status_request_of(status@, opt_str_view(reason)) == Ok::<
                (Status, Option<Seq<char>>),
                ApiErrorV,
            >((s, opt_string_view(why))),
            Err(e) => status_request_of(status@, opt_str_view(reason)) == Err::<
                (Status, Option<Seq<char>>),
                ApiErrorV,
            >(e.view()),
        },
{
    let s = match Status::parse(status) {
        Ok(s) => s,
        Err(e) => {
            let a = ApiError::from_error(&e);
            return Err(a);
        },
    };
    let why = given_text(reason);
    if s == Status::Blocked && why.is_none() {
        return Err(ApiError::BadRequest("blocking a slice needs a reason".to_string()));
    }
    Ok((s, why))
}

/// Where a claim from the board is made: the worktree the caller names, or else the
/// repo's main checkout. A claim with no worktree could not be told apart from
/// another, so with neither it is refused.
pub open spec fn claim_worktree_of(asked: Option<Seq<char>>, main_path: Option<Seq<char>>) -> Result<
    Seq<char>,
    Seq<char>,
> {
    match given(asked) {
        Some(w) => Ok(w),
        None => match main_path {
            Some(m) => Ok(m),
            None => Err(
                "this repo has no recorded checkout - claim from a worktree, or pass one"@,
            ),
        },
    }
}

pub fn claim_worktree(asked: Option<&str>, main_path: Option<&str>) -> (r: Result<String, Error>)
    ensures
        match r {
            Ok(w) => claim_worktree_of(opt_str_view(asked), opt_str_view(main_path)) == Ok::<
                Seq<char>,
                Seq<char>,
            >(w@),
            Err(e) => e matches Error::Invalid(m) && claim_worktree_of(
                opt_str_view(asked),
                opt_str_view(main_path),
            ) == Err::<Seq<char>, Seq<char>>(m@),
        },
{
    match given_text(asked) {
        Some(w) => Ok(w),
        None => match main_path {
            Some(m) => Ok(m.to_string()),
            None => Err(
                Error::Invalid(
                    "this repo has no recorded checkout - claim from a worktree, or pass one".to_string(),
                ),
            ),
        },
    }
}

/// A note from the board: it needs a body, which is stored trimmed; its kind is one
/// the planner knows (progress when none is given); a blank slice key means none.
pub open spec fn note_request_of(body: Seq<char>, slice: Option<Seq<char>>, kind: Option<Seq<char>>) -> Result<
    (Seq<char>, Option<Seq<char>>, LogKind),
    ApiErrorV,
> {
    if trim(body).len() == 0 {
        Err(ApiErrorV::BadRequest("a note needs a body"@))
    } else {
        match kind {
            Some(k) => match log_kind_word(crate::model::folded(k)) {
                Some(lk) => Ok((trim(body), given(slice), lk)),
                None => Err(
                    ApiErrorV::BadRequest(crate::model::unknown_message("unknown log kind "@, k)),
                ),
            },
            None => Ok((trim(body), given(slice), LogKind::Progress)),
        }
    }
}

pub fn note_request(body: &str, slice: Option<&str>, kind: Option<&str>) -> (r: Result<
    (String, Option<String>, LogKind),
    ApiError,
>)
    ensures
        match r {
            Ok((b, s, k)) => note_request_of(body@, opt_str_view(slice), opt_str_view(kind)) == Ok::<
                (Seq<char>, Option<Seq<char>>, LogKind),
                ApiErrorV,
            >((b@, opt_string_view(s), k)),
            Err(e) => note_request_of(body@, opt_str_view(slice), opt_str_view(kind)) == Err::<
                (Seq<char>, Option<Seq<char>>, LogKind),
                ApiErrorV,
            >(e.view()),
        },
{
    let bv = chars_of(body);
    let bt = trimmed(&bv);
    if bt.len() == 0 {
        return Err(ApiError::BadRequest("a note needs a body".to_string()));
    }
    let k = match kind {
        Some(k) => match LogKind::parse(k) {
            Ok(lk) => lk,
            Err(e) => {
                let a = ApiError::from_error(&e);
                return Err(a);
            },
        },
        None => LogKind::Progress,
    };
    Ok((string_of(&bt), given_text(slice), k))
}

/// An answer from the board needs text, stored trimmed.
pub fn answer_request(answer: &str) -> (r: Result<String, ApiError>)
    ensures
        match r {
            Ok(a) => trim(answer@).len() > 0 && a@ == trim(answer@),
            Err(e) => trim(answer@).len() == 0 && e.view() == ApiErrorV::BadRequest(
                "an answer needs a body"@,
            ),
        },
{
    let v = chars_of(answer);
    let t = trimmed(&v);
    if t.len() == 0 {
        return Err(ApiError::BadRequest("an answer needs a body".to_string()));
    }
    Ok(string_of(&t))
}

/// How much of a log the board asks for: 200 unless it says, never more than 2000,
/// and a limit that is not positive is refused.
pub fn clamp_limit(limit: Option<i64>) -> (r: Result<Option<i64>, ApiError>)
    ensures
        match limit {
            None => r == Ok::<Option<i64>, ApiError>(Some(200)),
            Some(n) => if n <= 0 {
                r matches Err(e) && e.view() == ApiErrorV::BadRequest("limit must be positive"@)
            } else {
                r == Ok::<Option<i64>, ApiError>(Some(if n < 2000 {
                    n
                } else {
                    2000
                }))
            },
        },
{
    match limit {
        None => Ok(Some(200)),
        Some(n) => {
            if n <= 0 {
                Err(ApiError::BadRequest("limit must be positive".to_string()))
            } else if n < 2000 {
                Ok(Some(n))
            } else {
                Ok(Some(2000))
            }
        },
    }
}

/// `in_review` is a stored value; "In review" is what a person reads: the stored name
/// with spaces for underscores and a capital first letter.
pub open spec fn label_of(s: Status) -> Seq<char> {
    match s {
        Status::Draft => "Draft"@,
        Status::Ready => "Ready"@,
        Status::Active => "Active"@,
        Status::InReview => "In review"@,
        Status::Blocked => "Blocked"@,
        Status::Done => "Done"@,
        Status::Deferred => "Deferred"@,
    }
}

pub fn label(s: Status) -> (r: String)
    ensures
        r@ == label_of(s),
{
    match s {
        Status::Draft => "Draft".to_string(),
        Status::Ready => "Ready".to_string(),
        Status::Active => "Active".to_string(),
        Status::InReview => "In review".to_string(),
        Status::Blocked => "Blocked".to_string(),
        Status::Done => "Done".to_string(),
        Status::Deferred => "Deferred".to_string(),
    }
}

/// A string as an AppleScript literal: quoted, with backslashes and quotes escaped.
pub open spec fn applescript_literal(v: Seq<char>) -> Seq<char> {
    seq!['"'] + crate::text::replace(crate::text::replace(v, "\\"@, "\\\\"@), "\""@, "\\\""@) + seq!['"']
}

pub fn applescript_string(value: &str) -> (r: String)
    ensures
        r@ == applescript_literal(value@),
{
    let v = chars_of(value);
    proof {
        reveal_strlit("\\");
        reveal_strlit("\"");
    }
    let a = crate::text::replaced_str(&v, "\\", "\\\\");
    let b = crate::text::replaced_str(&a, "\"", "\\\"");
    let mut out: Vec<char> = Vec::new();
    out.push('"');
    push_all(&mut out, &b);
    out.push('"');
    assert(out@ =~= applescript_literal(value@));
    string_of(&out)
}

// ---------------------------------------------------------------------------
// Serving
// ---------------------------------------------------------------------------

/// The token that guards the board: the one supplied, unless it is blank, in which
/// case a fresh one is minted (`None` here).
pub fn chosen_token(supplied: Option<&str>) -> (r: Option<String>)
    ensures
        opt_string_view(r) == given(opt_str_view(supplied)),
{
    given_text(supplied)
}

/// What the change watcher keeps between ticks: the last database version it saw and
/// how many changes it has announced.
#[derive(Debug, Clone, Copy, PartialEq, Eq, Structural)]
pub struct Watch {
    pub last: i64,
    pub generation: u64,
}

/// One tick of the watcher. A failed read changes nothing and announces nothing; a
/// version other than the last one is a change: it is remembered, the generation
/// moves on, and the new generation is announced.
pub open spec fn watch_next(w: Watch, read: Option<i64>) -> (Watch, Option<u64>) {
    match read {
        Some(v) => if v != w.last {
            (Watch { last: v, generation: (w.generation + 1) as u64 }, Some((w.generation + 1) as u64))
        } else {
            (w, None)
        },
        None => (w, None),
    }
}

pub fn watch_step(w: Watch, read: Option<i64>) -> (r: (Watch, Option<u64>))
    requires
        w.generation < u64::MAX,
    ensures
        r == watch_next(w, read),
{
    match read {
        Some(v) => {
            if v != w.last {
                let g = w.generation + 1;
                (Watch { last: v, generation: g }, Some(g))
            } else {
                (w, None)
            }
        },
        None => (w, None),
    }
}

/// The watcher announces exactly the ticks that saw another version, each with the
/// next generation; a tick that saw no change, or could not read, announces nothing.
pub proof fn law_the_watcher_announces_exactly_the_changes(w: Watch, read: Option<i64>)
    requires
        w.generation < u64::MAX,
    ensures
        watch_next(w, read).1 is Some <==> (read matches Some(v) && v != w.last),
        watch_next(w, read).1 matches Some(g) ==> g == w.generation + 1 && watch_next(w, read).0.generation == g,
{
}

/// What an event carries: the generation, or `lagged` when this client fell behind
/// (a missed change and a delivered one mean the same to it).
pub fn event_data(message: Option<u64>) -> (r: String)
    ensures
        r@ == match message {
            Some(g) => dec(g as nat),
            None => "lagged"@,
        },
{
    match message {
        Some(g) => {
            let mut out: Vec<char> = Vec::new();
            push_decimal(&mut out, g as u128);
            string_of(&out)
        },
        None => "lagged".to_string(),
    }
}

// ---------------------------------------------------------------------------
// What the board reads before anything else
// ---------------------------------------------------------------------------

/// One status as the board's client learns it: the stored value, the label a person
/// reads, the marker tables use, and whether it ends the work.
pub open spec fn status_meta_v(s: Status) -> crate::json::JsonV {
    crate::json::JsonV::Object(seq![
        ("value"@, crate::json::JsonV::Str(status_name(s))),
        ("label"@, crate::json::JsonV::Str(label_of(s))),
        ("marker"@, crate::json::JsonV::Str(crate::model::status_marker(s))),
        ("terminal"@, crate::json::JsonV::Bool(crate::model::status_terminal(s))),
    ])
}

/// Which database the board is looking at, who is acting, the whole status
/// vocabulary in `Status::ALL` order (so the client hardcodes none of it), and the
/// version.
pub open spec fn meta_members(database: Seq<char>, actor: Seq<char>, version: Seq<char>) -> Seq<(Seq<char>, crate::json::JsonV)> {
    seq![
        ("database"@, crate::json::JsonV::Str(database)),
        ("actor"@, crate::json::JsonV::Str(actor)),
        ("statuses"@, crate::json::JsonV::Array(Status::ALL@.map_values(|s: Status| status_meta_v(s)))),
        ("version"@, crate::json::JsonV::Str(version)),
    ]
}

fn json_member(key: &str, value: crate::json::Json) -> (m: crate::json::Member)
    ensures
        m.key@ == key@,
        crate::json::jv(m.value) == crate::json::jv(value),
{
    crate::json::Member { key: key.to_string(), value }
}

fn status_meta(s: Status) -> (j: crate::json::Json)
    ensures
        crate::json::jv(j) == status_meta_v(s),
{
    let ms: Vec<crate::json::Member> = vec![
        json_member("value", crate::json::Json::Str(s.as_str().to_string())),
        json_member("label", crate::json::Json::Str(label(s))),
        json_member("marker", crate::json::Json::Str(s.marker().to_string())),
        json_member("terminal", crate::json::Json::Bool(s.is_terminal())),
    ];
    proof {
        crate::json::lemma_jv_object(ms);
    }
    assert(crate::json::members_v(ms@) =~= seq![
        ("value"@, crate::json::JsonV::Str(status_name(s))),
        ("label"@, crate::json::JsonV::Str(label_of(s))),
        ("marker"@, crate::json::JsonV::Str(crate::model::status_marker(s))),
        ("terminal"@, crate::json::JsonV::Bool(crate::model::status_terminal(s))),
    ]);
    crate::json::Json::Object(ms)
}

pub fn meta_json(database: &str, actor: &str, version: &str) -> (j: crate::json::Json)
    ensures
        crate::json::jv(j) == crate::json::JsonV::Object(meta_members(database@, actor@, version@)),
{
    let all = Status::ALL;
    let ghost want = Status::ALL@.map_values(|s: Status| status_meta_v(s));
    let mut items: Vec<crate::json::Json> = Vec::new();
    let mut i: usize = 0;
    while i < 7
        invariant
            i <= 7,
            all@ == Status::ALL@,
            want == Status::ALL@.map_values(|s: Status| status_meta_v(s)),
            crate::json::items_v(items@) == want.take(i as int),
        decreases 7 - i,
    {
        let v = status_meta(all[i]);
        let ghost before = crate::json::items_v(items@);
        items.push(v);
        assert(crate::json::items_v(items@) =~= before.push(crate::json::jv(v)));
        assert(want.take(i + 1) =~= want.take(i as int).push(status_meta_v(Status::ALL@[i as int])));
        i += 1;
    }
    assert(want.take(7) =~= want);
    proof {
        crate::json::lemma_jv_array(items);
    }
    let ms: Vec<crate::json::Member> = vec![
        json_member("database", crate::json::Json::Str(database.to_string())),
        json_member("actor", crate::json::Json::Str(actor.to_string())),
        json_member("statuses", crate::json::Json::Array(items)),
        json_member("version", crate::json::Json::Str(version.to_string())),
    ];
    proof {
        crate::json::lemma_jv_object(ms);
    }
    assert(crate::json::members_v(ms@) =~= meta_members(database@, actor@, version@));
    crate::json::Json::Object(ms)
}

// ---------------------------------------------------------------------------
// The board's requests
// ---------------------------------------------------------------------------

/// How the board is served: a port (0 asks the system for a free one) and, to keep a
/// URL stable across restarts, a token.
#[derive(Debug, Clone)]
pub struct ServeOptions {
    pub port: u16,
    pub token: Option<String>,
}

impl Default for ServeOptions {
    fn default() -> (r: ServeOptions)
        ensures
            r.port == 0 && r.token is None,
    {
        ServeOptions { port: 0, token: None }
    }
}

/// `GET /plans`: a repo, the incomplete or the unfinished ones, and a search phrase.
#[derive(Debug, Clone)]
pub struct PlanQuery {
    pub repo: Option<i64>,
    /// Ready, active, in review or blocked: agreed work that is not finished.
    pub incomplete: bool,
    /// Anything not terminal, drafts included.
    pub unfinished: bool,
    pub q: Option<String>,
}

impl Default for PlanQuery {
    fn default() -> (r: PlanQuery)
        ensures
            r.repo is None && !r.incomplete && !r.unfinished && r.q is None,
    {
        PlanQuery { repo: None, incomplete: false, unfinished: false, q: None }
    }
}

fn statuses_of(a: &[Status]) -> (r: Vec<Status>)
    ensures
        r@ == a@,
{
    let mut out: Vec<Status> = Vec::new();
    let mut i: usize = 0;
    while i < a.len()
        invariant
            i <= a@.len(),
            out@ == a@.take(i as int),
        decreases a.len() - i,
    {
        out.push(a[i]);
        assert(out@ =~= a@.take(i + 1));
        i += 1;
    }
    assert(a@.take(a@.len() as int) =~= a@);
    out
}

/// The plans a `GET /plans` lists: `incomplete` wins over `unfinished`, and a blank
/// phrase searches for nothing.
pub fn plan_filter(query: &PlanQuery) -> (r: crate::store::PlanFilter)
    ensures
        r.repo_id == query.repo,
        r.statuses@ == if query.incomplete {
            Status::INCOMPLETE@
        } else if query.unfinished {
            Status::UNFINISHED@
        } else {
            Seq::<Status>::empty()
        },
        opt_string_view(r.query) == given(opt_string_view(query.q)),
{
    let statuses: Vec<Status> = if query.incomplete {
        statuses_of(&Status::INCOMPLETE)
    } else if query.unfinished {
        statuses_of(&Status::UNFINISHED)
    } else {
        Vec::new()
    };
    let q = match &query.q {
        Some(s) => given_text(Some(s.as_str())),
        None => None,
    };
    crate::store::PlanFilter { repo_id: query.repo, statuses, query: q }
}

/// `GET /plans/{id}/log?limit=`.
#[derive(Debug, Clone)]
pub struct LogQuery {
    pub limit: Option<i64>,
}

/// `POST /slices/{id}/status` and `POST /plans/{id}/status`.
#[derive(Debug, Clone)]
pub struct StatusBody {
    pub status: String,
    /// Needed when moving to `blocked`: a board that quietly blocks something with no
    /// reason is worse than the command line.
    pub reason: Option<String>,
}

pub fn status_body(body: &StatusBody) -> (r: Result<(Status, Option<String>), ApiError>)
    ensures
        match r {
            Ok((s, why)) => status_request_of(body.status@, opt_string_view(body.reason)) == Ok::<
                (Status, Option<Seq<char>>),
                ApiErrorV,
            >((s, opt_string_view(why))),
            Err(e) => status_request_of(body.status@, opt_string_view(body.reason)) == Err::<
                (Status, Option<Seq<char>>),
                ApiErrorV,
            >(e.view()),
        },
{
    let reason = match &body.reason {
        Some(r) => Some(r.as_str()),
        None => None,
    };
    status_request(body.status.as_str(), reason)
}

/// `POST /slices/{id}/claim`: where the work will happen, and on which branch.
#[derive(Debug, Clone)]
pub struct ClaimBody {
    pub worktree: Option<String>,
    pub branch: Option<String>,
}

/// `PATCH /slices/{id}`: every absent field is left alone.
#[derive(Debug, Clone)]
pub struct SlicePatch {
    pub title: Option<String>,
    pub scope_md: Option<String>,
    pub demo_md: Option<String>,
    pub estimate_files: Option<i64>,
    pub branch: Option<String>,
    pub base_branch: Option<String>,
    pub pr_url: Option<String>,
}

/// The store's patch for a board edit: the same fields, and never the block reason,
/// which only a status change sets.
pub fn slice_update(p: &SlicePatch) -> (r: crate::store::SliceUpdate)
    ensures
        opt_string_view(r.title) == opt_string_view(p.title),
        opt_string_view(r.scope_md) == opt_string_view(p.scope_md),
        opt_string_view(r.demo_md) == opt_string_view(p.demo_md),
        r.estimate_files == p.estimate_files,
        opt_string_view(r.branch) == opt_string_view(p.branch),
        opt_string_view(r.base_branch) == opt_string_view(p.base_branch),
        opt_string_view(r.pr_url) == opt_string_view(p.pr_url),
        r.blocked_reason is None,
{
    crate::store::SliceUpdate {
        title: crate::model::copy_opt(&p.title),
        scope_md: crate::model::copy_opt(&p.scope_md),
        demo_md: crate::model::copy_opt(&p.demo_md),
        estimate_files: p.estimate_files,
        branch: crate::model::copy_opt(&p.branch),
        base_branch: crate::model::copy_opt(&p.base_branch),
        pr_url: crate::model::copy_opt(&p.pr_url),
        blocked_reason: None,
    }
}

/// `POST /plans/{id}/log`.
#[derive(Debug, Clone)]
pub struct LogBody {
    pub body: String,
    pub slice: Option<String>,
    pub kind: Option<String>,
}

/// `POST /questions/{id}/answer`.
#[derive(Debug, Clone)]
pub struct AnswerBody {
    pub answer: String,
}

} // verus!
