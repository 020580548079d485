//! What callers hand the store and what it hands back, and the decisions the store
//! makes around its queries: how a new plan is keyed, which plan a reference means,
//! what key an unnamed decision gets, and the roll-ups a board reads.
use vstd::prelude::*;

use crate::error::Error;
use crate::model::{status_name, DecisionStatus, LogEntry, LogKind, Plan, Renders, Slice, Status};
use crate::parse::{i64_text, opt_view};
use crate::text::{
    chars_of, contains, dec, eq_chars, to_uppercase, uppercase, join, joined_str, lemma_views_push, push_all, push_decimal, push_str,
    string_of, trim, trimmed, views, views_of_strings,
};
use crate::util::{slug, ticket};

verus! {

// ---------------------------------------------------------------------------
// Inputs
// ---------------------------------------------------------------------------

#[derive(Debug, Clone)]
pub struct NewPlan {
    pub repo_id: i64,
    pub title: String,
    pub slug: Option<String>,
    pub status: Option<Status>,
    pub summary: Option<String>,
    pub ticket_key: Option<String>,
    pub ticket_url: Option<String>,
    pub base_branch: Option<String>,
    pub owner: Option<String>,
    pub raw_md: Option<String>,
    pub source_path: Option<String>,
    /// Skip the starter sections. The importer supplies its own.
    pub bare: bool,
}

impl Default for NewPlan {
    fn default() -> (r: NewPlan)
        ensures
            r.repo_id == 0 && r.title@.len() == 0 && r.slug is None && r.status is None && !r.bare,
    {
        NewPlan {
            repo_id: 0,
            title: String::new(),
            slug: None,
            status: None,
            summary: None,
            ticket_key: None,
            ticket_url: None,
            base_branch: None,
            owner: None,
            raw_md: None,
            source_path: None,
            bare: false,
        }
    }
}

#[derive(Debug, Clone)]
pub struct PlanFilter {
    pub repo_id: Option<i64>,
    pub statuses: Vec<Status>,
    pub query: Option<String>,
}

/// Everything one plan owns, counted: deleting a plan is the one irreversible write,
/// so the caller is handed the size of it.
#[derive(Debug, Clone)]
pub struct PlanRemoval {
    pub plan_id: i64,
    pub slug: String,
    pub title: String,
    pub repo: String,
    pub status: Status,
    pub sections: i64,
    pub slices: i64,
    pub decisions: i64,
    pub questions: i64,
    pub gotchas: i64,
    pub log_entries: i64,
    pub handoffs: i64,
    pub sources: i64,
    pub imports: i64,
    pub embeddings: i64,
    /// Slices somebody is still holding. Live work, and the reason to hesitate.
    pub held: Vec<HeldSlice>,
    /// Files this plan was imported from. The stored copy of them goes too.
    pub imported_from: Vec<String>,
}

#[derive(Debug, Clone)]
pub struct HeldSlice {
    pub key: String,
    pub claimed_by: String,
    pub worktree_path: String,
}

/// A patch over a plan's header. `None` leaves a field alone.
#[derive(Debug, Clone)]
pub struct PlanUpdate {
    pub title: Option<String>,
    pub summary: Option<String>,
    pub ticket_key: Option<String>,
    pub ticket_url: Option<String>,
    pub base_branch: Option<String>,
    pub owner: Option<String>,
}

/// One write to one section. `expect_rev` opts into the conflict check: pass what you
/// read, and a concurrent edit is refused instead of overwritten.
#[derive(Debug, Clone)]
pub struct SectionWrite<'a> {
    pub key: &'a str,
    pub title: Option<&'a str>,
    pub body: &'a str,
    pub renders: Option<Renders>,
    pub ord: Option<i64>,
    pub expect_rev: Option<i64>,
}

#[derive(Debug, Clone)]
pub struct NewSlice {
    pub plan_id: i64,
    pub key: String,
    pub title: String,
    pub status: Option<Status>,
    pub scope_md: Option<String>,
    pub demo_md: Option<String>,
    pub estimate_files: Option<i64>,
    pub branch: Option<String>,
    pub base_branch: Option<String>,
    pub ord: Option<i64>,
}

/// A patch. Every `None` field is left alone, so two agents editing different
/// attributes of one slice do not fight over the columns they are not touching.
#[derive(Debug, Clone)]
pub struct SliceUpdate {
    pub title: Option<String>,
    pub scope_md: Option<String>,
    pub demo_md: Option<String>,
    pub estimate_files: Option<i64>,
    pub branch: Option<String>,
    pub base_branch: Option<String>,
    pub pr_url: Option<String>,
    pub blocked_reason: Option<String>,
}

impl Default for SliceUpdate {
    fn default() -> (r: SliceUpdate)
        ensures
            r.title is None && r.scope_md is None && r.demo_md is None && r.estimate_files is None
                && r.branch is None && r.base_branch is None && r.pr_url is None
                && r.blocked_reason is None,
    {
        SliceUpdate {
            title: None,
            scope_md: None,
            demo_md: None,
            estimate_files: None,
            branch: None,
            base_branch: None,
            pr_url: None,
            blocked_reason: None,
        }
    }
}

#[derive(Debug, Clone)]
pub struct NewDecision {
    pub plan_id: i64,
    pub key: Option<String>,
    pub title: String,
    pub body: String,
    pub status: Option<DecisionStatus>,
    pub ord: Option<i64>,
}

#[derive(Debug, Clone)]
pub struct NewLog {
    pub plan_id: i64,
    pub slice_id: Option<i64>,
    pub kind: Option<LogKind>,
    pub body: String,
    pub branch: Option<String>,
    pub worktree_path: Option<String>,
    /// Backdated entries, used by the importer to preserve a progress log's own dates.
    pub at: Option<String>,
}

impl Default for NewLog {
    fn default() -> (r: NewLog)
        ensures
            r.plan_id == 0 && r.slice_id is None && r.kind is None && r.body@.len() == 0
                && r.branch is None && r.worktree_path is None && r.at is None,
    {
        NewLog {
            plan_id: 0,
            slice_id: None,
            kind: None,
            body: String::new(),
            branch: None,
            worktree_path: None,
            at: None,
        }
    }
}


// ---------------------------------------------------------------------------
// Keying a new plan
// ---------------------------------------------------------------------------

/// The title, ticket and slug a new plan is stored under, or why it cannot be: a
/// ticketed plan is keyed by its ticket, because that is what branches and filenames
/// carry; an explicit slug wins when it slugifies to something.
pub open spec fn plan_keys_of(
    title: Seq<char>,
    slug_in: Option<Seq<char>>,
    ticket_in: Option<Seq<char>>,
) -> Result<(Seq<char>, Option<Seq<char>>, Seq<char>), Seq<char>> {
    let t = trim(title);
    if t.len() == 0 {
        Err("a plan needs a title"@)
    } else {
        let tk = match ticket_in {
            Some(k) => Some(k),
            None => ticket(t),
        };
        let from_slug = match slug_in {
            Some(x) => if slug(x).len() > 0 {
                Some(slug(x))
            } else {
                None
            },
            None => None,
        };
        let sl = match from_slug {
            Some(x) => x,
            None => match tk {
                Some(k) => slug(k),
                None => slug(t),
            },
        };
        if sl.len() == 0 {
            Err("could not derive a slug - pass --slug"@)
        } else {
            Ok((t, tk, sl))
        }
    }
}

pub fn plan_keys(new: &NewPlan) -> (r: Result<(String, Option<String>, String), Error>)
    ensures
        match r {
            Ok((t, k, s)) => plan_keys_of(new.title@, opt_view(new.slug), opt_view(new.ticket_key))
                == Ok::<(Seq<char>, Option<Seq<char>>, Seq<char>), Seq<char>>((t@, opt_view(k), s@)),
            Err(e) => exists|m: Seq<char>|
                plan_keys_of(new.title@, opt_view(new.slug), opt_view(new.ticket_key)) == Err::<
                    (Seq<char>, Option<Seq<char>>, Seq<char>),
                    Seq<char>,
                >(m) && (e matches Error::Invalid(x) && x@ == m),
        },
{
    let tv = chars_of(new.title.as_str());
    let t = trimmed(&tv);
    if t.len() == 0 {
        return Err(Error::invalid("a plan needs a title".to_string()));
    }
    let title = string_of(&t);
    let tk = match &new.ticket_key {
        Some(k) => Some(k.clone()),
        None => crate::util::ticket_key(title.as_str()),
    };
    let from_slug = match &new.slug {
        Some(x) => {
            let sx = crate::util::slugify(x.as_str());
            let sv = chars_of(sx.as_str());
            if sv.len() > 0 {
                Some(sx)
            } else {
                None
            }
        },
        None => None,
    };
    let sl = match from_slug {
        Some(x) => x,
        None => match &tk {
            Some(k) => crate::util::slugify(k.as_str()),
            None => crate::util::slugify(title.as_str()),
        },
    };
    let sv = chars_of(sl.as_str());
    if sv.len() == 0 {
        return Err(Error::invalid("could not derive a slug - pass --slug".to_string()));
    }
    Ok((title, tk, sl))
}

/// The keys a new plan is created under in a repo whose plans already use `slugs`:
/// what `plan_keys` derives, refused as a duplicate when the slug is taken there.
pub fn create_keys(new: &NewPlan, slugs: &Vec<String>) -> (r: Result<(String, Option<String>, String), Error>)
    ensures
        match plan_keys_of(new.title@, opt_view(new.slug), opt_view(new.ticket_key)) {
            Err(m) => r matches Err(Error::Invalid(x)) && x@ == m,
            Ok((t, k, sl)) => if views_of_strings(slugs@).contains(sl) {
                r matches Err(Error::DuplicatePlan(x)) && x@ == sl
            } else {
                r matches Ok((t2, k2, s2)) && t2@ == t && opt_view(k2) == k && s2@ == sl
            },
        },
{
    let keys = plan_keys(new);
    match keys {
        Err(e) => Err(e),
        Ok((t, k, sl)) => {
            let sv = chars_of(sl.as_str());
            if holds_key(slugs, &sv) {
                Err(Error::DuplicatePlan(sl))
            } else {
                Ok((t, k, sl))
            }
        },
    }
}

/// A new plan starts as a draft unless it is given a status.
pub fn initial_status(new: &NewPlan) -> (r: Status)
    ensures
        r == match new.status {
            Some(s) => s,
            None => Status::Draft,
        },
{
    match new.status {
        Some(s) => s,
        None => Status::Draft,
    }
}

/// The skeleton a hand-authored plan starts with: (key, title, what it renders).
pub open spec fn starter_rows() -> Seq<(Seq<char>, Seq<char>, Renders)> {
    seq![
        ("outcome"@, "Outcome"@, Renders::Body),
        ("grounding"@, "Grounding"@, Renders::Body),
        ("sources"@, "Sources"@, Renders::Sources),
        ("decisions"@, "Decisions"@, Renders::Decisions),
        ("slices"@, "Delivery slices"@, Renders::Slices),
        ("questions"@, "Open questions"@, Renders::Questions),
        ("gotchas"@, "Gotchas"@, Renders::Gotchas),
        ("log"@, "Progress log"@, Renders::Log),
    ]
}

pub fn starter_sections() -> (r: Vec<(&'static str, &'static str, Renders)>)
    ensures
        r@.map_values(|x: (&'static str, &'static str, Renders)| (x.0@, x.1@, x.2)) == starter_rows(),
{
    let r = vec![
        ("outcome", "Outcome", Renders::Body),
        ("grounding", "Grounding", Renders::Body),
        ("sources", "Sources", Renders::Sources),
        ("decisions", "Decisions", Renders::Decisions),
        ("slices", "Delivery slices", Renders::Slices),
        ("questions", "Open questions", Renders::Questions),
        ("gotchas", "Gotchas", Renders::Gotchas),
        ("log", "Progress log", Renders::Log),
    ];
    assert(r@.map_values(|x: (&'static str, &'static str, Renders)| (x.0@, x.1@, x.2)) =~= starter_rows());
    r
}

// ---------------------------------------------------------------------------
// Which plan a reference means
// ---------------------------------------------------------------------------

/// A reference with a `/` in it names a plan in any repo.
pub fn exact_is_global(needle: &str) -> (r: bool)
    ensures
        r == contains(needle@, "/"@),
{
    let v = chars_of(needle);
    crate::text::has_str(&v, "/")
}

/// A plan the reference names exactly: its slug is the reference's slug, its ticket is
/// the ticket the reference is (a plan without a ticket never matches this way), or its
/// id is the number the reference is.
pub open spec fn exact_hit(p: Plan, needle: Seq<char>) -> bool {
    ||| p.slug@ == slug(needle)
    ||| (ticket(needle) is Some && opt_view(p.ticket_key) is Some
        && uppercase(opt_view(p.ticket_key)->0) == ticket(needle)->0)
    ||| i64_text(needle) == Some(p.id as int)
}

/// Whether an exact hit counts from where the reference was made.
pub open spec fn hit_here(p: Plan, needle: Seq<char>, repo_id: Option<i64>) -> bool {
    repo_id is None || repo_id == Some(p.repo_id) || contains(needle, "/"@)
}

pub open spec fn exact_hits(cs: Seq<Plan>, needle: Seq<char>) -> Seq<Plan>
    decreases cs.len(),
{
    if cs.len() == 0 {
        Seq::empty()
    } else if exact_hit(cs.last(), needle) {
        exact_hits(cs.drop_last(), needle).push(cs.last())
    } else {
        exact_hits(cs.drop_last(), needle)
    }
}

pub open spec fn hits_here(cs: Seq<Plan>, needle: Seq<char>, repo_id: Option<i64>) -> Seq<Plan>
    decreases cs.len(),
{
    if cs.len() == 0 {
        Seq::empty()
    } else if hit_here(cs.last(), needle, repo_id) {
        hits_here(cs.drop_last(), needle, repo_id).push(cs.last())
    } else {
        hits_here(cs.drop_last(), needle, repo_id)
    }
}

/// What a lookup keeps of the rows that matched it in any way: the exact hits from
/// here, else the exact hits anywhere, else every match, loose ones included.
pub open spec fn narrowed(all: Seq<Plan>, needle: Seq<char>, repo_id: Option<i64>) -> Seq<Plan> {
    let exact = exact_hits(all, needle);
    let here = hits_here(exact, needle, repo_id);
    if here.len() > 0 {
        here
    } else if exact.len() > 0 {
        exact
    } else {
        all
    }
}

fn is_exact_hit(
    p: &Plan,
    needle: &str,
    slug_of_needle: &String,
    ticket_of_needle: &Option<String>,
    number: Option<i64>,
) -> (r: bool)
    requires
        slug_of_needle@ == slug(needle@),
        opt_view(*ticket_of_needle) == ticket(needle@),
        number matches Some(v) ==> i64_text(needle@) == Some(v as int),
        number is None ==> i64_text(needle@) is None,
    ensures
        r == exact_hit(*p, needle@),
{
    let a = chars_of(p.slug.as_str());
    let b = chars_of(slug_of_needle.as_str());
    if eq_chars(&a, &b) {
        return true;
    }
    if let Some(t) = ticket_of_needle {
        if let Some(k) = &p.ticket_key {
            let kv = chars_of(k.as_str());
            let up = to_uppercase(&kv);
            let tv = chars_of(t.as_str());
            if eq_chars(&up, &tv) {
                return true;
            }
        }
    }
    match number {
        Some(n) => n == p.id,
        None => false,
    }
}

/// Narrows what a lookup matched: an exact hit is never ambiguous, whatever else also
/// matched loosely, and this repo's own exact hits come first.
pub fn narrow_matches(needle: &str, repo_id: Option<i64>, all: Vec<Plan>) -> (r: Vec<Plan>)
    ensures
        r@ == narrowed(all@, needle@, repo_id),
{
    let slug_of_needle = crate::util::slugify(needle);
    let ticket_of_needle = crate::util::ticket_key(needle);
    let nv = chars_of(needle);
    let number = crate::parse::parse_i64(&nv);
    let global = exact_is_global(needle);
    let mut exact: Vec<Plan> = Vec::new();
    let mut here: Vec<Plan> = Vec::new();
    let mut i: usize = 0;
    while i < all.len()
        invariant
            i <= all@.len(),
            slug_of_needle@ == slug(needle@),
            opt_view(ticket_of_needle) == ticket(needle@),
            number matches Some(v) ==> i64_text(needle@) == Some(v as int),
            number is None ==> i64_text(needle@) is None,
            global == contains(needle@, "/"@),
            exact@ == exact_hits(all@.take(i as int), needle@),
            here@ == hits_here(exact@, needle@, repo_id),
        decreases all.len() - i,
    {
        assert(all@.take(i + 1).drop_last() =~= all@.take(i as int));
        if is_exact_hit(&all[i], needle, &slug_of_needle, &ticket_of_needle, number) {
            let p = all[i].copied();
            let counts_here = match repo_id {
                None => true,
                Some(r) => r == p.repo_id || global,
            };
            let ghost before = exact@;
            exact.push(all[i].copied());
            assert(exact@.drop_last() =~= before);
            if counts_here {
                here.push(p);
            }
        }
        i += 1;
    }
    assert(all@.take(all@.len() as int) =~= all@);
    if here.len() > 0 {
        here
    } else if exact.len() > 0 {
        exact
    } else {
        all
    }
}

/// An exact hit is never ambiguous: when exactly one of the rows a reference matched
/// names it exactly, the lookup keeps that one plan, and picking from what it kept
/// gives that plan.
pub proof fn law_an_exact_hit_is_never_ambiguous(all: Seq<Plan>, needle: Seq<char>, repo_id: Option<i64>)
    requires
        exact_hits(all, needle).len() == 1,
    ensures
        narrowed(all, needle, repo_id) == seq![exact_hits(all, needle)[0]],
        scoped(narrowed(all, needle, repo_id), repo_id) == seq![exact_hits(all, needle)[0]],
{
    let exact = exact_hits(all, needle);
    let here = hits_here(exact, needle, repo_id);
    assert(exact.drop_last() =~= Seq::<Plan>::empty());
    assert(hits_here(exact.drop_last(), needle, repo_id) =~= Seq::<Plan>::empty());
    assert(exact =~= seq![exact[0]]);
    if here.len() > 0 {
        assert(here =~= seq![exact[0]]);
    }
}

pub open spec fn in_repo(cs: Seq<Plan>, repo: i64) -> Seq<Plan>
    decreases cs.len(),
{
    if cs.len() == 0 {
        Seq::empty()
    } else if cs.last().repo_id == repo {
        in_repo(cs.drop_last(), repo).push(cs.last())
    } else {
        in_repo(cs.drop_last(), repo)
    }
}

/// The candidates that count: a repo-scoped hit beats a global one when there is more
/// than one.
pub open spec fn scoped(cs: Seq<Plan>, repo_id: Option<i64>) -> Seq<Plan> {
    match repo_id {
        Some(r) => if cs.len() > 1 && in_repo(cs, r).len() > 0 {
            in_repo(cs, r)
        } else {
            cs
        },
        None => cs,
    }
}

pub open spec fn plan_names(cs: Seq<Plan>) -> Seq<Seq<char>> {
    cs.map_values(|p: Plan| p.repo_name@ + "/"@ + p.slug@)
}

pub open spec fn first_names(cs: Seq<Plan>) -> Seq<char> {
    join(plan_names(if cs.len() > 5 { cs.take(5) } else { cs }), ", "@)
}

/// One candidate is the plan; none is unknown; several are ambiguous, never a guess.
pub fn pick_plan(needle: &str, repo_id: Option<i64>, candidates: Vec<Plan>) -> (r: Result<Plan, Error>)
    ensures
        ({
            let cs = scoped(candidates@, repo_id);
            let n = trim(needle@);
            &&& (n.len() > 0 && cs.len() == 1) <==> r is Ok
            &&& r matches Ok(p) ==> p == cs[0]
            &&& (n.len() == 0 || cs.len() == 0) ==> (r matches Err(Error::NoSuchPlan(x)) && x@ == n)
            &&& (n.len() > 0 && cs.len() > 1) ==> (r matches Err(Error::AmbiguousPlan(x, k, names))
                && x@ == n && k == cs.len() && names@ == first_names(cs))
        }),
{
    let nv = chars_of(needle);
    let n = trimmed(&nv);
    if n.len() == 0 {
        return Err(Error::NoSuchPlan(string_of(&n)));
    }
    let mut cs = candidates;
    if cs.len() > 1 {
        if let Some(repo) = repo_id {
            let mut kept: Vec<Plan> = Vec::new();
            let mut i: usize = 0;
            while i < cs.len()
                invariant
                    i <= cs@.len(),
                    kept@ == in_repo(cs@.take(i as int), repo),
                decreases cs.len() - i,
            {
                assert(cs@.take(i + 1).drop_last() =~= cs@.take(i as int));
                if cs[i].repo_id == repo {
                    kept.push(cs[i].copied());
                }
                i += 1;
            }
            assert(cs@.take(cs@.len() as int) =~= cs@);
            if kept.len() > 0 {
                cs = kept;
            }
        }
    }
    if cs.len() == 0 {
        return Err(Error::NoSuchPlan(string_of(&n)));
    }
    if cs.len() == 1 {
        let p = cs.remove(0);
        return Ok(p);
    }
    let mut names: Vec<Vec<char>> = Vec::new();
    let mut i: usize = 0;
    while i < cs.len() && i < 5
        invariant
            i <= cs@.len(),
            i <= 5,
            views(names@) == plan_names(cs@).take(i as int),
        decreases cs.len() - i,
    {
        let mut m = chars_of(cs[i].repo_name.as_str());
        push_str(&mut m, "/");
        push_str(&mut m, cs[i].slug.as_str());
        proof {
            lemma_views_push(names@, m);
        }
        names.push(m);
        assert(views(names@) =~= plan_names(cs@).take(i + 1));
        i += 1;
    }
    proof {
        if cs@.len() > 5 {
            assert(plan_names(cs@.take(5)) =~= plan_names(cs@).take(5));
        } else {
            assert(plan_names(cs@).take(cs@.len() as int) =~= plan_names(cs@));
        }
    }
    let joined = joined_str(&names, ", ");
    Err(Error::AmbiguousPlan(string_of(&n), cs.len(), string_of(&joined)))
}

/// The key `D<n>`.
pub open spec fn numbered_key(n: nat) -> Seq<char> {
    "D"@ + dec(n)
}

/// `n` is the next free number: `D<n>` is not among the keys already recorded, and
/// every `D<m>` below it is.
pub open spec fn next_free(keys: Seq<Seq<char>>, n: nat) -> bool {
    &&& n >= 1
    &&& !keys.contains(numbered_key(n))
    &&& forall|m: nat| 1 <= m < n ==> keys.contains(#[trigger] numbered_key(m))
}

/// The key a new decision gets: an explicit key, trimmed, when it has anything in it;
/// otherwise `D<n>` with the next free number among the plan's `existing` keys.
pub open spec fn decision_key_ok(explicit: Option<Seq<char>>, keys: Seq<Seq<char>>, r: Seq<char>) -> bool {
    match explicit {
        Some(k) if trim(k).len() > 0 => r == trim(k),
        _ => exists|n: nat| next_free(keys, n) && r == numbered_key(n),
    }
}

proof fn lemma_dec_nonempty(n: nat)
    ensures
        dec(n).len() >= 1,
        n >= 10 ==> dec(n).len() >= 2,
    decreases n,
{
    if n >= 10 {
        lemma_dec_nonempty(n / 10);
    }
}

proof fn lemma_digit_char_injective(a: nat, b: nat)
    requires
        a < 10,
        b < 10,
        crate::text::digit_char(a) == crate::text::digit_char(b),
    ensures
        a == b,
{
}

/// Different numbers are written differently.
proof fn lemma_dec_injective(a: nat, b: nat)
    requires
        dec(a) == dec(b),
    ensures
        a == b,
    decreases a,
{
    lemma_dec_nonempty(a);
    lemma_dec_nonempty(b);
    if a < 10 && b < 10 {
        assert(dec(a) =~= seq![crate::text::digit_char(a)]);
        assert(dec(b) =~= seq![crate::text::digit_char(b)]);
        assert(dec(a)[0] == dec(b)[0]);
        assert(seq![crate::text::digit_char(a)][0] == crate::text::digit_char(a));
        assert(seq![crate::text::digit_char(b)][0] == crate::text::digit_char(b));
        lemma_digit_char_injective(a, b);
    } else if a >= 10 && b >= 10 {
        let da = dec(a);
        let db = dec(b);
        assert(da.last() == crate::text::digit_char(a % 10));
        assert(db.last() == crate::text::digit_char(b % 10));
        lemma_digit_char_injective(a % 10, b % 10);
        assert(da.drop_last() =~= dec(a / 10));
        assert(db.drop_last() =~= dec(b / 10));
        lemma_dec_injective(a / 10, b / 10);
    } else {
        assert(dec(a).len() != dec(b).len());
    }
}

proof fn lemma_numbered_key_injective(a: nat, b: nat)
    requires
        numbered_key(a) == numbered_key(b),
    ensures
        a == b,
{
    reveal_strlit("D");
    assert(numbered_key(a).skip(1) =~= dec(a));
    assert(numbered_key(b).skip(1) =~= dec(b));
    lemma_dec_injective(a, b);
}

/// When `D1` to `D<n>` are all recorded, there are at least `n` keys.
proof fn lemma_taken_fit(keys: Seq<Seq<char>>, n: nat)
    requires
        forall|m: nat| 1 <= m <= n ==> keys.contains(#[trigger] numbered_key(m)),
    ensures
        n <= keys.len(),
{
    let f = |i: int| numbered_key(i as nat);
    let x = vstd::set_lib::set_int_range(1, (n + 1) as int);
    vstd::set_lib::lemma_int_range(1, (n + 1) as int);
    assert(vstd::relations::injective_on(f, x)) by {
        assert forall|a: int, b: int| x.contains(a) && x.contains(b) && #[trigger] f(a) == #[trigger] f(b) implies a == b by {
            lemma_numbered_key_injective(a as nat, b as nat);
        }
    }
    let y = x.map(f);
    vstd::set_lib::lemma_map_size(x, y, f);
    assert(y.subset_of(keys.to_set())) by {
        assert forall|k: Seq<char>| y.contains(k) implies keys.to_set().contains(k) by {
            let i = choose|i: int| x.contains(i) && f(i) == k;
            assert(keys.contains(numbered_key(i as nat)));
        }
    }
    keys.lemma_cardinality_of_set();
    vstd::set_lib::lemma_len_subset(y, keys.to_set());
}

fn holds_key(keys: &Vec<String>, k: &Vec<char>) -> (r: bool)
    ensures
        r == views_of_strings(keys@).contains(k@),
{
    let mut i: usize = 0;
    while i < keys.len()
        invariant
            i <= keys@.len(),
            forall|j: int| 0 <= j < i ==> keys@[j]@ != k@,
        decreases keys.len() - i,
    {
        let kv = chars_of(keys[i].as_str());
        if eq_chars(&kv, k) {
            assert(views_of_strings(keys@)[i as int] == k@);
            return true;
        }
        i += 1;
    }
    assert forall|j: int| 0 <= j < views_of_strings(keys@).len() implies views_of_strings(keys@)[j] != k@ by {
        assert(views_of_strings(keys@)[j] == keys@[j]@);
    }
    false
}

/// The key of a new decision, given the keys of the plan's decisions so far: an
/// explicit key wins; otherwise the next free `D<n>`, so it never collides.
pub fn decision_key(explicit: &Option<String>, existing: &Vec<String>) -> (r: String)
    ensures
        decision_key_ok(opt_view(*explicit), views_of_strings(existing@), r@),
{
    if let Some(k) = explicit {
        let kv = chars_of(k.as_str());
        let kt = trimmed(&kv);
        if kt.len() > 0 {
            return string_of(&kt);
        }
    }
    let ghost keys = views_of_strings(existing@);
    let len = existing.len();
    let mut n: u128 = 1;
    loop
        invariant
            keys == views_of_strings(existing@),
            len == keys.len(),
            match opt_view(*explicit) {
                Some(k) => trim(k).len() == 0,
                None => true,
            },
            1 <= n <= len as u128 + 1,
            keys.len() == existing@.len(),
            forall|m: nat| 1 <= m < n ==> keys.contains(#[trigger] numbered_key(m)),
        decreases keys.len() + 1 - n,
    {
        let mut cand: Vec<char> = Vec::new();
        push_str(&mut cand, "D");
        push_decimal(&mut cand, n);
        assert(cand@ =~= numbered_key(n as nat));
        if !holds_key(existing, &cand) {
            let r = string_of(&cand);
            proof {
                assert(next_free(keys, n as nat) && r@ == numbered_key(n as nat));
                assert(exists|m: nat| next_free(keys, m) && r@ == numbered_key(m));
                match opt_view(*explicit) {
                    Some(k) => assert(trim(k).len() == 0),
                    None => {},
                }
            }
            return r;
        }
        proof {
            lemma_taken_fit(keys, n as nat);
        }
        n = n + 1;
    }
}

// ---------------------------------------------------------------------------
// Deleting a plan
// ---------------------------------------------------------------------------

/// The held slices whose holder is in another worktree than the caller's.
pub open spec fn held_elsewhere(held: Seq<HeldSlice>, worktree: Option<Seq<char>>) -> Seq<HeldSlice>
    decreases held.len(),
{
    if held.len() == 0 {
        Seq::empty()
    } else if Some(held.last().worktree_path@) != worktree {
        held_elsewhere(held.drop_last(), worktree).push(held.last())
    } else {
        held_elsewhere(held.drop_last(), worktree)
    }
}

pub open spec fn held_names(hs: Seq<HeldSlice>) -> Seq<Seq<char>> {
    hs.map_values(|h: HeldSlice| h.key@ + " by "@ + h.claimed_by@ + " in "@ + h.worktree_path@)
}

/// A slice another worktree holds is live work belonging to somebody else: the delete
/// is refused, naming up to three of them, unless it is forced.
pub open spec fn refusal_of(
    slug: Seq<char>,
    held: Seq<HeldSlice>,
    force: bool,
    worktree: Option<Seq<char>>,
) -> Option<(Seq<char>, nat, Seq<char>)> {
    let hs = held_elsewhere(held, worktree);
    if force || hs.len() == 0 {
        None
    } else {
        Some((slug, hs.len(), join(held_names(if hs.len() > 3 { hs.take(3) } else { hs }), ", "@)))
    }
}

pub fn delete_refusal(
    slug: &str,
    held: &Vec<HeldSlice>,
    force: bool,
    worktree: &Option<String>,
) -> (r: Option<Error>)
    ensures
        match refusal_of(slug@, held@, force, opt_view(*worktree)) {
            None => r is None,
            Some((s, n, d)) => r matches Some(Error::PlanIsHeld(s2, n2, d2)) && s2@ == s && n2
                == n && d2@ == d,
        },
{
    if force {
        return None;
    }
    let ghost wv = opt_view(*worktree);
    let mut hs: Vec<HeldSlice> = Vec::new();
    let mut i: usize = 0;
    while i < held.len()
        invariant
            i <= held@.len(),
            wv == opt_view(*worktree),
            hs@ == held_elsewhere(held@.take(i as int), wv),
        decreases held.len() - i,
    {
        assert(held@.take(i + 1).drop_last() =~= held@.take(i as int));
        let h = &held[i];
        let same = match worktree {
            Some(w) => {
                let a = chars_of(w.as_str());
                let b = chars_of(h.worktree_path.as_str());
                crate::text::eq_chars(&a, &b)
            },
            None => false,
        };
        if !same {
            hs.push(HeldSlice {
                key: h.key.clone(),
                claimed_by: h.claimed_by.clone(),
                worktree_path: h.worktree_path.clone(),
            });
            assert(hs@[hs@.len() - 1] == held@[i as int]);
        }
        i += 1;
    }
    assert(held@.take(held@.len() as int) =~= held@);
    if hs.len() == 0 {
        return None;
    }
    let mut names: Vec<Vec<char>> = Vec::new();
    let mut k: usize = 0;
    while k < hs.len() && k < 3
        invariant
            k <= hs@.len(),
            k <= 3,
            views(names@) == held_names(hs@).take(k as int),
        decreases hs.len() - k,
    {
        let h = &hs[k];
        let mut m = chars_of(h.key.as_str());
        push_str(&mut m, " by ");
        push_str(&mut m, h.claimed_by.as_str());
        push_str(&mut m, " in ");
        push_str(&mut m, h.worktree_path.as_str());
        proof {
            lemma_views_push(names@, m);
        }
        names.push(m);
        assert(views(names@) =~= held_names(hs@).take(k + 1));
        k += 1;
    }
    proof {
        if hs@.len() > 3 {
            assert(held_names(hs@.take(3)) =~= held_names(hs@).take(3));
        } else {
            assert(held_names(hs@).take(hs@.len() as int) =~= held_names(hs@));
        }
    }
    let detail = joined_str(&names, ", ");
    Some(Error::PlanIsHeld(string_of(&chars_of(slug)), hs.len(), string_of(&detail)))
}

/// Deleting never takes live work from another worktree unless forced: whenever some
/// held slice sits in a worktree other than the caller's, an unforced delete is refused
/// and counts it.
pub proof fn law_held_work_refuses_an_unforced_delete(
    slug: Seq<char>,
    held: Seq<HeldSlice>,
    worktree: Option<Seq<char>>,
    i: int,
)
    requires
        0 <= i < held.len(),
        Some(held[i].worktree_path@) != worktree,
    ensures
        refusal_of(slug, held, false, worktree) matches Some((s, n, _)) && s == slug && n >= 1,
    decreases held.len(),
{
    if i < held.len() - 1 {
        law_held_work_refuses_an_unforced_delete(slug, held.drop_last(), worktree, i);
        assert(held.drop_last()[i] == held[i]);
    }
}

} // verus!
