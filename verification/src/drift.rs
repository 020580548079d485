//! Reconciling the plan against what git and GitHub can already see: the
//! mechanical facts about a slice (its branch landed, its PR opened or merged, its
//! claim gone stale) are observable, so the rows need not depend on anyone's memory.
use vstd::prelude::*;
use vstd::string::StringSliceAdditionalSpecFns;

use crate::model::{status_terminal, Slice, Status};
use crate::text::{chars_of, dec_int, join, joined_str, push_all, push_int, push_str, string_of, trim, trimmed, views};

verus! {

#[derive(Debug, Clone)]
pub enum Finding {
    /// The branch has landed on the default branch, so the slice is done.
    Merged { slice: String, branch: String, into: String },
    /// GitHub says the PR merged.
    PrMerged { slice: String, url: String, number: i64 },
    /// A PR is open, so the slice is in review.
    PrOpen { slice: String, url: String, number: i64 },
    /// The slice records no PR link but GitHub has one.
    PrLinkMissing { slice: String, url: String, number: i64 },
    /// The branch is gone from local and remote, but the slice still holds a claim.
    BranchGone { slice: String, branch: String },
    /// Claimed in a worktree that is no longer on disk.
    WorktreeGone { slice: String, worktree: String },
}

pub enum FindingV {
    Merged { slice: Seq<char>, branch: Seq<char>, into: Seq<char> },
    PrMerged { slice: Seq<char>, url: Seq<char>, number: i64 },
    PrOpen { slice: Seq<char>, url: Seq<char>, number: i64 },
    PrLinkMissing { slice: Seq<char>, url: Seq<char>, number: i64 },
    BranchGone { slice: Seq<char>, branch: Seq<char> },
    WorktreeGone { slice: Seq<char>, worktree: Seq<char> },
}

impl View for Finding {
    type V = FindingV;

    open spec fn view(&self) -> FindingV {
        match self {
            Finding::Merged { slice, branch, into } => FindingV::Merged {
                slice: slice@,
                branch: branch@,
                into: into@,
            },
            Finding::PrMerged { slice, url, number } => FindingV::PrMerged {
                slice: slice@,
                url: url@,
                number: *number,
            },
            Finding::PrOpen { slice, url, number } => FindingV::PrOpen {
                slice: slice@,
                url: url@,
                number: *number,
            },
            Finding::PrLinkMissing { slice, url, number } => FindingV::PrLinkMissing {
                slice: slice@,
                url: url@,
                number: *number,
            },
            Finding::BranchGone { slice, branch } => FindingV::BranchGone {
                slice: slice@,
                branch: branch@,
            },
            Finding::WorktreeGone { slice, worktree } => FindingV::WorktreeGone {
                slice: slice@,
                worktree: worktree@,
            },
        }
    }
}

/// The slice a finding is about.
pub open spec fn finding_slice(f: FindingV) -> Seq<char> {
    match f {
        FindingV::Merged { slice, .. } => slice,
        FindingV::PrMerged { slice, .. } => slice,
        FindingV::PrOpen { slice, .. } => slice,
        FindingV::PrLinkMissing { slice, .. } => slice,
        FindingV::BranchGone { slice, .. } => slice,
        FindingV::WorktreeGone { slice, .. } => slice,
    }
}

/// One line, written for an agent to act on.
pub open spec fn finding_text(f: FindingV) -> Seq<char> {
    match f {
        FindingV::Merged { slice, branch, into } => slice + ": `"@ + branch + "` has landed on `"@
            + into + "` - the plan still says otherwise"@,
        FindingV::PrMerged { slice, number, .. } => slice + ": PR #"@ + dec_int(number as int)
            + " is merged - the plan still says otherwise"@,
        FindingV::PrOpen { slice, number, .. } => slice + ": PR #"@ + dec_int(number as int)
            + " is open - the plan does not say it is in review"@,
        FindingV::PrLinkMissing { slice, number, .. } => slice + ": PR #"@ + dec_int(
            number as int,
        ) + " exists but the slice has no PR link"@,
        FindingV::BranchGone { slice, branch } => slice + ": `"@ + branch
            + "` no longer exists but the slice is still claimed"@,
        FindingV::WorktreeGone { slice, worktree } => slice + ": claimed in "@ + worktree
            + ", which is gone"@,
    }
}

/// The command that fixes it.
pub open spec fn remedy_text(f: FindingV) -> Seq<char> {
    match f {
        FindingV::Merged { slice, .. } => "aip slice set "@ + slice + " done"@,
        FindingV::PrMerged { slice, .. } => "aip slice set "@ + slice + " done"@,
        FindingV::PrOpen { slice, .. } => "aip slice set "@ + slice + " in_review"@,
        FindingV::PrLinkMissing { slice, url, .. } => "aip slice edit "@ + slice + " --pr "@ + url,
        FindingV::BranchGone { slice, .. } => "aip slice release "@ + slice,
        FindingV::WorktreeGone { slice, .. } => "aip slice release "@ + slice,
    }
}

impl Finding {
    pub fn slice(&self) -> (r: &str)
        ensures
            r@ == finding_slice(self@),
    {
        match self {
            Finding::Merged { slice, .. } => slice.as_str(),
            Finding::PrMerged { slice, .. } => slice.as_str(),
            Finding::PrOpen { slice, .. } => slice.as_str(),
            Finding::PrLinkMissing { slice, .. } => slice.as_str(),
            Finding::BranchGone { slice, .. } => slice.as_str(),
            Finding::WorktreeGone { slice, .. } => slice.as_str(),
        }
    }

    /// One line, written for an agent to act on.
    pub fn describe(&self) -> (r: String)
        ensures
            r@ == finding_text(self@),
    {
        let mut out: Vec<char> = Vec::new();
        match self {
            Finding::Merged { slice, branch, into } => {
                push_str(&mut out, slice.as_str());
                push_str(&mut out, ": `");
                push_str(&mut out, branch.as_str());
                push_str(&mut out, "` has landed on `");
                push_str(&mut out, into.as_str());
                push_str(&mut out, "` - the plan still says otherwise");
            },
            Finding::PrMerged { slice, number, .. } => {
                push_str(&mut out, slice.as_str());
                push_str(&mut out, ": PR #");
                push_int(&mut out, *number);
                push_str(&mut out, " is merged - the plan still says otherwise");
            },
            Finding::PrOpen { slice, number, .. } => {
                push_str(&mut out, slice.as_str());
                push_str(&mut out, ": PR #");
                push_int(&mut out, *number);
                push_str(&mut out, " is open - the plan does not say it is in review");
            },
            Finding::PrLinkMissing { slice, number, .. } => {
                push_str(&mut out, slice.as_str());
                push_str(&mut out, ": PR #");
                push_int(&mut out, *number);
                push_str(&mut out, " exists but the slice has no PR link");
            },
            Finding::BranchGone { slice, branch } => {
                push_str(&mut out, slice.as_str());
                push_str(&mut out, ": `");
                push_str(&mut out, branch.as_str());
                push_str(&mut out, "` no longer exists but the slice is still claimed");
            },
            Finding::WorktreeGone { slice, worktree } => {
                push_str(&mut out, slice.as_str());
                push_str(&mut out, ": claimed in ");
                push_str(&mut out, worktree.as_str());
                push_str(&mut out, ", which is gone");
            },
        }
        assert(out@ =~= finding_text(self@));
        string_of(&out)
    }

    /// What `aip sync --fix` would do about it.
    pub fn remedy(&self) -> (r: String)
        ensures
            r@ == remedy_text(self@),
    {
        let mut out: Vec<char> = Vec::new();
        match self {
            Finding::Merged { slice, .. } | Finding::PrMerged { slice, .. } => {
                push_str(&mut out, "aip slice set ");
                push_str(&mut out, slice.as_str());
                push_str(&mut out, " done");
            },
            Finding::PrOpen { slice, .. } => {
                push_str(&mut out, "aip slice set ");
                push_str(&mut out, slice.as_str());
                push_str(&mut out, " in_review");
            },
            Finding::PrLinkMissing { slice, url, .. } => {
                push_str(&mut out, "aip slice edit ");
                push_str(&mut out, slice.as_str());
                push_str(&mut out, " --pr ");
                push_str(&mut out, url.as_str());
            },
            Finding::BranchGone { slice, .. } | Finding::WorktreeGone { slice, .. } => {
                push_str(&mut out, "aip slice release ");
                push_str(&mut out, slice.as_str());
            },
        }
        assert(out@ =~= remedy_text(self@));
        string_of(&out)
    }
}

#[derive(Debug, Clone, Copy)]
pub struct FixReport {
    pub applied: usize,
    pub skipped: usize,
}

impl Default for FixReport {
    fn default() -> (r: FixReport)
        ensures
            r.applied == 0 && r.skipped == 0,
    {
        FixReport { applied: 0, skipped: 0 }
    }
}


// ---------------------------------------------------------------------------
// What git and GitHub say about one slice
// ---------------------------------------------------------------------------

/// A pull request as GitHub reports it for a branch.
#[derive(Debug, Clone)]
pub struct PullRequest {
    pub url: String,
    pub number: i64,
    pub merged: bool,
    pub open: bool,
}

/// What was observed for one slice: whether its claimed worktree is still on disk,
/// GitHub's pull request for its branch (when GitHub was asked), whether git can
/// prove the branch landed on the default branch, and whether the branch still
/// exists locally or on the remote.
#[derive(Debug, Clone)]
pub struct Witness {
    pub worktree_exists: bool,
    pub pr: Option<PullRequest>,
    pub landed: bool,
    pub branch_exists: bool,
}

pub open spec fn live_claim(s: Slice) -> bool {
    s.claimed_by is Some && !status_terminal(s.status)
}

/// What the slice's branch, pull request and claim say that the plan does not:
/// GitHub is the better witness (it knows a squash merge landed), git only adds a
/// finding when it can prove the branch landed, and a dead claim is reported last.
pub open spec fn slice_findings(s: Slice, default: Option<Seq<char>>, w: Witness) -> Seq<FindingV> {
    let gone = match s.worktree_path {
        Some(wt) => if live_claim(s) && !w.worktree_exists {
            seq![FindingV::WorktreeGone { slice: s.key@, worktree: wt@ }]
        } else {
            Seq::empty()
        },
        None => Seq::empty(),
    };
    match s.branch {
        None => gone,
        Some(b) => if trim(b@).len() == 0 {
            gone
        } else {
            let branch = b@;
            let (link, stop_pr) = match w.pr {
                Some(pr) => {
                    let link = if crate::parse::opt_view(s.pr_url) != Some(pr.url@) {
                        seq![FindingV::PrLinkMissing { slice: s.key@, url: pr.url@, number: pr.number }]
                    } else {
                        Seq::empty()
                    };
                    if pr.merged && s.status != Status::Done {
                        (link.push(FindingV::PrMerged { slice: s.key@, url: pr.url@, number: pr.number }), true)
                    } else if pr.open && !(s.status == Status::InReview || s.status == Status::Done) {
                        (link.push(FindingV::PrOpen { slice: s.key@, url: pr.url@, number: pr.number }), true)
                    } else {
                        (link, false)
                    }
                },
                None => (Seq::empty(), false),
            };
            if stop_pr {
                gone + link
            } else {
                let merged = match default {
                    Some(into) => branch != into && s.status != Status::Done && w.landed,
                    None => false,
                };
                if merged {
                    gone + link.push(FindingV::Merged { slice: s.key@, branch, into: default->0 })
                } else if live_claim(s) && !w.branch_exists {
                    gone + link.push(FindingV::BranchGone { slice: s.key@, branch })
                } else {
                    gone + link
                }
            }
        },
    }
}

/// What has to have been observed for a finding about slice `s`: each finding names
/// the slice, and stands on its own evidence.
pub open spec fn witnessed(s: Slice, default: Option<Seq<char>>, w: Witness, f: FindingV) -> bool {
    &&& finding_slice(f) == s.key@
    &&& match f {
        FindingV::WorktreeGone { worktree, .. } => s.claimed_by is Some && !status_terminal(s.status)
            && !w.worktree_exists && crate::parse::opt_view(s.worktree_path) == Some(worktree),
        FindingV::PrLinkMissing { url, number, .. } => w.pr matches Some(pr) && pr.url@ == url && pr.number
            == number && crate::parse::opt_view(s.pr_url) != Some(url),
        FindingV::PrMerged { url, number, .. } => w.pr matches Some(pr) && pr.merged && pr.url@ == url
            && pr.number == number && s.status != Status::Done,
        FindingV::PrOpen { url, number, .. } => w.pr matches Some(pr) && pr.open && pr.url@ == url && pr.number
            == number && s.status != Status::InReview && s.status != Status::Done,
        FindingV::Merged { branch, into, .. } => w.landed && default == Some(into) && branch != into
            && crate::parse::opt_view(s.branch) == Some(branch) && s.status != Status::Done,
        FindingV::BranchGone { branch, .. } => s.claimed_by is Some && !status_terminal(s.status)
            && !w.branch_exists && crate::parse::opt_view(s.branch) == Some(branch),
    }
}

/// Nothing is reported without evidence: every finding for a slice names that slice
/// and rests on what was observed. A pull request link is reported missing only when
/// GitHub has a pull request and the slice does not already link to it; a merge or an
/// open pull request only moves a slice that is not already there; a landed branch
/// only when git proved it landed on another branch; a dead claim only for a live
/// claim whose worktree or branch is gone.
pub proof fn law_every_finding_rests_on_evidence(s: Slice, default: Option<Seq<char>>, w: Witness)
    ensures
        forall|i: int|
            0 <= i < slice_findings(s, default, w).len() ==> witnessed(
                s,
                default,
                w,
                #[trigger] slice_findings(s, default, w)[i],
            ),
{
    let gone = match s.worktree_path {
        Some(wt) => if live_claim(s) && !w.worktree_exists {
            seq![FindingV::WorktreeGone { slice: s.key@, worktree: wt@ }]
        } else {
            Seq::empty()
        },
        None => Seq::empty(),
    };
    assert forall|i: int| 0 <= i < gone.len() implies witnessed(s, default, w, #[trigger] gone[i]) by {}
    let fs = slice_findings(s, default, w);
    match s.branch {
        None => {},
        Some(b) => if trim(b@).len() == 0 {
        } else {
            match w.pr {
                Some(pr) => {
                    let link: Seq<FindingV> = if crate::parse::opt_view(s.pr_url) != Some(pr.url@) {
                        seq![FindingV::PrLinkMissing { slice: s.key@, url: pr.url@, number: pr.number }]
                    } else {
                        Seq::empty()
                    };
                    assert forall|i: int| 0 <= i < link.len() implies witnessed(s, default, w, #[trigger] link[i]) by {}
                    lemma_all_witnessed(s, default, w, gone, link);
                    let both = gone + link;
                    let m = FindingV::PrMerged { slice: s.key@, url: pr.url@, number: pr.number };
                    let o = FindingV::PrOpen { slice: s.key@, url: pr.url@, number: pr.number };
                    let g = FindingV::Merged { slice: s.key@, branch: b@, into: default->0 };
                    let bg = FindingV::BranchGone { slice: s.key@, branch: b@ };
                    lemma_all_witnessed(s, default, w, gone, link.push(m));
                    lemma_all_witnessed(s, default, w, gone, link.push(o));
                    lemma_all_witnessed(s, default, w, gone, link.push(g));
                    lemma_all_witnessed(s, default, w, gone, link.push(bg));
                    assert(forall|i: int| 0 <= i < link.len() ==> link.push(m)[i] == link[i]);
                    assert(forall|i: int| 0 <= i < link.len() ==> link.push(o)[i] == link[i]);
                    assert(forall|i: int| 0 <= i < link.len() ==> link.push(g)[i] == link[i]);
                    assert(forall|i: int| 0 <= i < link.len() ==> link.push(bg)[i] == link[i]);
                },
                None => {
                    let link: Seq<FindingV> = Seq::empty();
                    let g = FindingV::Merged { slice: s.key@, branch: b@, into: default->0 };
                    let bg = FindingV::BranchGone { slice: s.key@, branch: b@ };
                    lemma_all_witnessed(s, default, w, gone, link);
                    lemma_all_witnessed(s, default, w, gone, link.push(g));
                    lemma_all_witnessed(s, default, w, gone, link.push(bg));
                },
            }
        },
    }
}

proof fn lemma_all_witnessed(s: Slice, default: Option<Seq<char>>, w: Witness, a: Seq<FindingV>, b: Seq<FindingV>)
    requires
        forall|i: int| 0 <= i < a.len() ==> witnessed(s, default, w, #[trigger] a[i]),
    ensures
        (forall|i: int| 0 <= i < b.len() - 1 ==> witnessed(s, default, w, #[trigger] b[i])) && (b.len() > 0
            ==> witnessed(s, default, w, b.last())) ==> forall|i: int|
            0 <= i < (a + b).len() ==> witnessed(s, default, w, #[trigger] (a + b)[i]),
{
    if (forall|i: int| 0 <= i < b.len() - 1 ==> witnessed(s, default, w, #[trigger] b[i])) && (b.len() > 0
        ==> witnessed(s, default, w, b.last())) {
        assert forall|i: int| 0 <= i < (a + b).len() implies witnessed(s, default, w, #[trigger] (a + b)[i]) by {
            if i < a.len() {
                assert((a + b)[i] == a[i]);
            } else {
                assert((a + b)[i] == b[i - a.len()]);
            }
        }
    }
}

/// Conversely, a pull request the slice does not link to is always reported: with a
/// branch named and GitHub answering for it, a missing or different link gives a
/// finding that names the pull request.
pub proof fn law_a_missing_link_is_always_reported(s: Slice, default: Option<Seq<char>>, w: Witness)
    requires
        s.branch matches Some(b) && trim(b@).len() > 0,
        w.pr matches Some(pr) && crate::parse::opt_view(s.pr_url) != Some(pr.url@),
    ensures
        exists|i: int|
            0 <= i < slice_findings(s, default, w).len() && #[trigger] slice_findings(s, default, w)[i]
                == (FindingV::PrLinkMissing { slice: s.key@, url: w.pr->0.url@, number: w.pr->0.number }),
{
    let fs = slice_findings(s, default, w);
    let pr = w.pr->0;
    let gone = match s.worktree_path {
        Some(wt) => if live_claim(s) && !w.worktree_exists {
            seq![FindingV::WorktreeGone { slice: s.key@, worktree: wt@ }]
        } else {
            Seq::empty()
        },
        None => Seq::empty(),
    };
    let f = FindingV::PrLinkMissing { slice: s.key@, url: pr.url@, number: pr.number };
    assert(fs[gone.len() as int] == f);
}

pub open spec fn finding_views(v: Seq<Finding>) -> Seq<FindingV> {
    v.map_values(|f: Finding| f@)
}

fn push_finding(out: &mut Vec<Finding>, f: Finding)
    ensures
        finding_views(final(out)@) == finding_views(old(out)@).push(f@),
{
    out.push(f);
    assert(finding_views(out@) =~= finding_views(old(out)@).push(f@));
}

/// The findings for one slice, given what was observed for it.
pub fn slice_drift(s: &Slice, default: &Option<String>, w: &Witness) -> (r: Vec<Finding>)
    ensures
        finding_views(r@) == slice_findings(*s, crate::parse::opt_view(*default), *w),
{
    let mut out: Vec<Finding> = Vec::new();
    assert(finding_views(out@) =~= Seq::<FindingV>::empty());
    let live = s.claimed_by.is_some() && !s.status.is_terminal();
    if let Some(wt) = &s.worktree_path {
        if live && !w.worktree_exists {
            push_finding(&mut out, Finding::WorktreeGone { slice: s.key.clone(), worktree: wt.clone() });
        }
    }
    let ghost gone = finding_views(out@);
    let branch = match &s.branch {
        Some(b) => {
            let bv = chars_of(b.as_str());
            let bt = trimmed(&bv);
            if bt.len() == 0 {
                return out;
            }
            b
        },
        None => return out,
    };
    let mut stop_pr = false;
    if let Some(pr) = &w.pr {
        let same = match &s.pr_url {
            Some(u) => {
                let a = chars_of(u.as_str());
                let c = chars_of(pr.url.as_str());
                crate::text::eq_chars(&a, &c)
            },
            None => false,
        };
        if !same {
            push_finding(
                &mut out,
                Finding::PrLinkMissing { slice: s.key.clone(), url: pr.url.clone(), number: pr.number },
            );
        }
        if pr.merged && s.status != Status::Done {
            push_finding(
                &mut out,
                Finding::PrMerged { slice: s.key.clone(), url: pr.url.clone(), number: pr.number },
            );
            stop_pr = true;
        } else if pr.open && !(s.status == Status::InReview || s.status == Status::Done) {
            push_finding(
                &mut out,
                Finding::PrOpen { slice: s.key.clone(), url: pr.url.clone(), number: pr.number },
            );
            stop_pr = true;
        }
    }
    if stop_pr {
        return out;
    }
    let merged = match default {
        Some(into) => {
            let a = chars_of(branch.as_str());
            let c = chars_of(into.as_str());
            !crate::text::eq_chars(&a, &c) && s.status != Status::Done && w.landed
        },
        None => false,
    };
    if merged {
        let into = match default {
            Some(into) => into.clone(),
            None => String::new(),
        };
        push_finding(&mut out, Finding::Merged { slice: s.key.clone(), branch: branch.clone(), into });
    } else if live && !w.branch_exists {
        push_finding(&mut out, Finding::BranchGone { slice: s.key.clone(), branch: branch.clone() });
    }
    out
}

pub open spec fn all_findings(
    slices: Seq<Slice>,
    default: Option<Seq<char>>,
    ws: Seq<Witness>,
) -> Seq<FindingV>
    decreases slices.len(),
{
    if slices.len() == 0 || ws.len() != slices.len() {
        Seq::empty()
    } else {
        all_findings(slices.drop_last(), default, ws.drop_last()) + slice_findings(
            slices.last(),
            default,
            ws.last(),
        )
    }
}

/// Every slice of a plan compared against what was observed for it, in slice order.
pub fn drift(slices: &Vec<Slice>, default: &Option<String>, witnesses: &Vec<Witness>) -> (r: Vec<Finding>)
    requires
        witnesses@.len() == slices@.len(),
    ensures
        finding_views(r@) == all_findings(slices@, crate::parse::opt_view(*default), witnesses@),
{
    let mut out: Vec<Finding> = Vec::new();
    let ghost d = crate::parse::opt_view(*default);
    assert(finding_views(out@) =~= Seq::<FindingV>::empty());
    let mut i: usize = 0;
    while i < slices.len()
        invariant
            i <= slices@.len(),
            witnesses@.len() == slices@.len(),
            d == crate::parse::opt_view(*default),
            finding_views(out@) == all_findings(slices@.take(i as int), d, witnesses@.take(i as int)),
        decreases slices.len() - i,
    {
        assert(slices@.take(i + 1).drop_last() =~= slices@.take(i as int));
        assert(witnesses@.take(i + 1).drop_last() =~= witnesses@.take(i as int));
        let mut more = slice_drift(&slices[i], default, &witnesses[i]);
        let ghost before = out@;
        let ghost mv = more@;
        out.append(&mut more);
        assert(finding_views(out@) =~= finding_views(before) + finding_views(mv));
        i += 1;
    }
    assert(slices@.take(slices@.len() as int) =~= slices@);
    assert(witnesses@.take(witnesses@.len() as int) =~= witnesses@);
    out
}

// ---------------------------------------------------------------------------
// Applying the findings
// ---------------------------------------------------------------------------

/// What applying a finding does to its slice.
#[derive(Debug, Clone)]
pub enum Fix {
    SetStatus(Status),
    LinkPr(String),
    Release,
}

pub open spec fn fix_of(f: FindingV) -> (Option<Status>, Option<Seq<char>>, bool) {
    match f {
        FindingV::Merged { .. } => (Some(Status::Done), None, false),
        FindingV::PrMerged { .. } => (Some(Status::Done), None, false),
        FindingV::PrOpen { .. } => (Some(Status::InReview), None, false),
        FindingV::PrLinkMissing { url, .. } => (None, Some(url), false),
        FindingV::BranchGone { .. } => (None, None, true),
        FindingV::WorktreeGone { .. } => (None, None, true),
    }
}

pub open spec fn fix_view(x: Fix) -> (Option<Status>, Option<Seq<char>>, bool) {
    match x {
        Fix::SetStatus(s) => (Some(s), None, false),
        Fix::LinkPr(u) => (None, Some(u@), false),
        Fix::Release => (None, None, true),
    }
}

/// A landed branch or merged PR marks the slice done, an open PR puts it in review, a
/// missing link is filled in and a dead claim is released.
pub fn fix_for(f: &Finding) -> (x: Fix)
    ensures
        fix_view(x) == fix_of(f@),
{
    match f {
        Finding::Merged { .. } | Finding::PrMerged { .. } => Fix::SetStatus(Status::Done),
        Finding::PrOpen { .. } => Fix::SetStatus(Status::InReview),
        Finding::PrLinkMissing { url, .. } => Fix::LinkPr(url.clone()),
        Finding::BranchGone { .. } | Finding::WorktreeGone { .. } => Fix::Release,
    }
}

/// A status change that only moves work forward: a slice that is done is never
/// touched, and it goes to done, or into review, from somewhere else.
pub open spec fn moves_forward(from: Status, to: Status) -> bool {
    &&& from != Status::Done
    &&& to != from
    &&& (to == Status::Done || to == Status::InReview)
}

/// Reconciling only ever moves a slice forward: whatever git and GitHub report, every
/// status that a finding for a slice would set moves that slice forward from where it
/// is, so a stale remote cannot reopen work that is recorded as done.
pub proof fn law_sync_only_moves_forward(s: Slice, default: Option<Seq<char>>, w: Witness)
    ensures
        forall|i: int|
            0 <= i < slice_findings(s, default, w).len() ==> (fix_of(
                #[trigger] slice_findings(s, default, w)[i],
            ).0 matches Some(t) ==> moves_forward(s.status, t)),
{
    let fs = slice_findings(s, default, w);
    assert forall|i: int| 0 <= i < fs.len() implies (fix_of(#[trigger] fs[i]).0 matches Some(t) ==> moves_forward(
        s.status,
        t,
    )) by {
        let f = fs[i];
        match f {
            FindingV::Merged { .. } => {},
            FindingV::PrMerged { .. } => {},
            FindingV::PrOpen { .. } => {},
            _ => {},
        }
    }
}

/// A slice after the fix a finding calls for: its status set, its PR link filled in,
/// or its claim released.
pub open spec fn fixed(s: crate::rows::SliceV, f: FindingV, now: Seq<char>) -> crate::rows::SliceV {
    match fix_of(f) {
        (Some(t), _, _) => crate::rows::moved(s, t, None, now),
        (None, Some(url), _) => crate::rows::SliceV { pr_url: Some(url), updated_at: now, rev: s.rev + 1, ..s },
        _ => crate::rows::released(s, now),
    }
}

/// Apply one finding to the slice it is about, as a sync with fixes does.
pub fn apply_finding(s: &Slice, f: &Finding, now: &str) -> (r: Slice)
    requires
        s.rev < i64::MAX,
    ensures
        crate::rows::slice_view(r) == fixed(crate::rows::slice_view(*s), f@, now@),
{
    match fix_for(f) {
        Fix::SetStatus(t) => crate::rows::move_slice(s, t, None, now),
        Fix::LinkPr(url) => {
            let mut u = crate::store::SliceUpdate::default();
            u.pr_url = Some(url);
            crate::rows::patch_slice(s, &u, now)
        },
        Fix::Release => crate::rows::release(s, now),
    }
}

/// Applying what a sync finds never reopens a slice: every finding for a slice leaves
/// its status as it was or moves it forward, and a done slice stays done.
pub proof fn law_applying_a_finding_never_reopens(s: Slice, default: Option<Seq<char>>, w: Witness, now: Seq<char>)
    ensures
        forall|i: int|
            0 <= i < slice_findings(s, default, w).len() ==> {
                let after = fixed(crate::rows::slice_view(s), #[trigger] slice_findings(s, default, w)[i], now);
                &&& (after.status == s.status || moves_forward(s.status, after.status))
                &&& (s.status == Status::Done ==> after.status == Status::Done)
            },
{
    law_sync_only_moves_forward(s, default, w);
    let fs = slice_findings(s, default, w);
    assert forall|i: int| 0 <= i < fs.len() implies {
        let after = fixed(crate::rows::slice_view(s), #[trigger] fs[i], now);
        &&& (after.status == s.status || moves_forward(s.status, after.status))
        &&& (s.status == Status::Done ==> after.status == Status::Done)
    } by {
        assert(fix_of(fs[i]).0 matches Some(t) ==> moves_forward(s.status, t));
    }
}

/// What each fix does to its slice: a landed branch or a merged pull request marks it
/// done, an open pull request puts it in review, a missing link is filled in with the
/// pull request's URL and nothing else moves, and a dead claim is released while the
/// status and where the work was done stay. The slice stays the same slice, and its
/// revision moves on by one.
pub proof fn law_what_each_fix_does(s: crate::rows::SliceV, f: FindingV, now: Seq<char>)
    ensures
        (f is Merged || f is PrMerged) ==> fixed(s, f, now).status == Status::Done,
        f is PrOpen ==> fixed(s, f, now).status == Status::InReview,
        f matches FindingV::PrLinkMissing { url, .. } ==> fixed(s, f, now).pr_url == Some(url) && fixed(s, f, now).status
            == s.status && fixed(s, f, now).claimed_by == s.claimed_by && fixed(s, f, now).branch == s.branch,
        (f is BranchGone || f is WorktreeGone) ==> fixed(s, f, now).claimed_by is None && fixed(s, f, now).status
            == s.status && fixed(s, f, now).worktree_path == s.worktree_path && fixed(s, f, now).branch == s.branch,
        fixed(s, f, now).id == s.id && fixed(s, f, now).key == s.key && fixed(s, f, now).title == s.title,
        fixed(s, f, now).rev == s.rev + 1,
{
}

/// A slice this worktree holds, live, with no progress note since it was claimed:
/// the one drift only the agent can fix.
pub open spec fn unlogged(s: Slice, notes_since_claim: i64, worktree: Seq<char>) -> bool {
    &&& live_claim(s)
    &&& crate::parse::opt_view(s.worktree_path) == Some(worktree)
    &&& notes_since_claim == 0
}

pub open spec fn unlogged_of(rows: Seq<(Slice, i64)>, worktree: Seq<char>) -> Seq<Slice>
    decreases rows.len(),
{
    if rows.len() == 0 {
        Seq::empty()
    } else if unlogged(rows.last().0, rows.last().1, worktree) {
        unlogged_of(rows.drop_last(), worktree).push(rows.last().0)
    } else {
        unlogged_of(rows.drop_last(), worktree)
    }
}

/// The slices held here with no note since they were claimed, in order. Each slice
/// comes with the count of progress, verification and blocker notes made on it since
/// its claim.
pub fn unlogged_claims(rows: &Vec<(Slice, i64)>, worktree: &str) -> (r: Vec<Slice>)
    ensures
        r@ == unlogged_of(rows@, worktree@),
{
    let mut out: Vec<Slice> = Vec::new();
    let mut i: usize = 0;
    let wv = chars_of(worktree);
    while i < rows.len()
        invariant
            i <= rows@.len(),
            wv@ == worktree@,
            out@ == unlogged_of(rows@.take(i as int), worktree@),
        decreases rows.len() - i,
    {
        assert(rows@.take(i + 1).drop_last() =~= rows@.take(i as int));
        let (s, n) = (&rows[i].0, rows[i].1);
        let here = match &s.worktree_path {
            Some(w) => {
                let v = chars_of(w.as_str());
                crate::text::eq_chars(&v, &wv)
            },
            None => false,
        };
        if s.claimed_by.is_some() && !s.status.is_terminal() && here && n == 0 {
            out.push(s.copied());
        }
        i += 1;
    }
    assert(rows@.take(rows@.len() as int) =~= rows@);
    out
}

/// A complaint already made: the worktree, the kind of complaint, and the fingerprint
/// of its text.
pub open spec fn nudge_key(worktree: Seq<char>, kind: Seq<char>, body: &str) -> (Seq<char>, Seq<char>, Seq<char>) {
    (worktree, kind, crate::import::hex_of(crate::import::sha256_of(body.spec_bytes())))
}

pub open spec fn nudge_views(seen: Seq<(String, String, String)>) -> Seq<(Seq<char>, Seq<char>, Seq<char>)> {
    seen.map_values(|n: (String, String, String)| (n.0@, n.1@, n.2@))
}

/// Whether a per-turn hook should speak: only when this exact complaint has not been
/// made in this worktree before. Gives the record to keep when it speaks, so it says
/// its piece once and speaks again only when what it complains about changes.
pub fn take_nudge(seen: &Vec<(String, String, String)>, worktree: &str, kind: &str, body: &str) -> (r: (
    bool,
    (String, String, String),
))
    ensures
        (r.1.0@, r.1.1@, r.1.2@) == nudge_key(worktree@, kind@, body),
        r.0 == !nudge_views(seen@).contains(nudge_key(worktree@, kind@, body)),
{
    let fp = crate::import::sha256(body.as_bytes());
    let key = (worktree.to_string(), kind.to_string(), fp);
    let ghost k = (key.0@, key.1@, key.2@);
    let mut i: usize = 0;
    while i < seen.len()
        invariant
            i <= seen@.len(),
            k == (key.0@, key.1@, key.2@),
            k == nudge_key(worktree@, kind@, body),
            forall|j: int| 0 <= j < i ==> nudge_views(seen@)[j] != k,
        decreases seen.len() - i,
    {
        let a = chars_of(seen[i].0.as_str());
        let b = chars_of(seen[i].1.as_str());
        let c = chars_of(seen[i].2.as_str());
        let ka = chars_of(key.0.as_str());
        let kb = chars_of(key.1.as_str());
        let kc = chars_of(key.2.as_str());
        if crate::text::eq_chars(&a, &ka) && crate::text::eq_chars(&b, &kb) && crate::text::eq_chars(&c, &kc) {
            assert(nudge_views(seen@)[i as int] == k);
            return (false, key);
        }
        assert(nudge_views(seen@)[i as int] == (seen@[i as int].0@, seen@[i as int].1@, seen@[i as int].2@));
        i += 1;
    }
    (true, key)
}

/// A nudge, once its record is kept, is not made again: asked about the same complaint
/// in the same worktree, `take_nudge` finds the record and stays quiet.
pub proof fn law_a_nudge_is_made_once_per_state(
    seen: Seq<(Seq<char>, Seq<char>, Seq<char>)>,
    worktree: Seq<char>,
    kind: Seq<char>,
    body: &str,
)
    ensures
        seen.push(nudge_key(worktree, kind, body)).contains(nudge_key(worktree, kind, body)),
{
    assert(seen.push(nudge_key(worktree, kind, body)).last() == nudge_key(worktree, kind, body));
}

pub open spec fn finding_slices(fs: Seq<FindingV>) -> Seq<Seq<char>> {
    fs.map_values(|f: FindingV| finding_slice(f))
}

/// The log line left after applying fixes.
pub open spec fn sync_note_text(applied: nat, fs: Seq<FindingV>) -> Seq<char> {
    "aip sync reconciled "@ + crate::text::dec(applied) + " slice(s) from git: "@ + join(
        finding_slices(fs),
        ", "@,
    )
}

pub fn sync_note(applied: usize, findings: &Vec<Finding>) -> (r: String)
    ensures
        r@ == sync_note_text(applied as nat, finding_views(findings@)),
{
    let mut names: Vec<Vec<char>> = Vec::new();
    let mut i: usize = 0;
    while i < findings.len()
        invariant
            i <= findings@.len(),
            views(names@) == finding_slices(finding_views(findings@)).take(i as int),
        decreases findings.len() - i,
    {
        let n = chars_of(findings[i].slice());
        proof {
            crate::text::lemma_views_push(names@, n);
        }
        names.push(n);
        assert(views(names@) =~= finding_slices(finding_views(findings@)).take(i + 1));
        i += 1;
    }
    assert(finding_slices(finding_views(findings@)).take(findings@.len() as int) =~= finding_slices(
        finding_views(findings@),
    ));
    let mut out: Vec<char> = Vec::new();
    push_str(&mut out, "aip sync reconciled ");
    crate::text::push_decimal(&mut out, applied as u128);
    push_str(&mut out, " slice(s) from git: ");
    let j = joined_str(&names, ", ");
    push_all(&mut out, &j);
    string_of(&out)
}

// ---------------------------------------------------------------------------
// Applying a whole list of findings
// ---------------------------------------------------------------------------

pub open spec fn slice_views(ss: Seq<Slice>) -> Seq<crate::rows::SliceV> {
    ss.map_values(|s: Slice| crate::rows::slice_view(s))
}

/// The first slice at or after position `i` with this key.
pub open spec fn index_from(ss: Seq<crate::rows::SliceV>, key: Seq<char>, i: int) -> Option<int>
    decreases ss.len() - i,
{
    if i < 0 || i >= ss.len() {
        None
    } else if ss[i].key == key {
        Some(i)
    } else {
        index_from(ss, key, i + 1)
    }
}

/// Whether a finding is acted on: a status it calls for must move the slice forward
/// (a done slice is never reopened, and a slice already where the finding would put
/// it is left alone); a missing link or a dead claim is always mended.
pub open spec fn acts(s: crate::rows::SliceV, f: FindingV) -> bool {
    match fix_of(f).0 {
        Some(t) => moves_forward(s.status, t),
        None => true,
    }
}

/// The plan's slices after applying the findings in order, each to the slice its key
/// names as it stands by then, with how many findings were applied and how many were
/// skipped (no such slice, or nothing to move forward).
pub open spec fn drift_applied(ss: Seq<crate::rows::SliceV>, fs: Seq<FindingV>, now: Seq<char>) -> (
    Seq<crate::rows::SliceV>,
    nat,
    nat,
)
    decreases fs.len(),
{
    if fs.len() == 0 {
        (ss, 0, 0)
    } else {
        let (st, a, k) = drift_applied(ss, fs.drop_last(), now);
        let f = fs.last();
        match index_from(st, finding_slice(f), 0) {
            Some(i) => if acts(st[i], f) {
                (st.update(i, fixed(st[i], f, now)), a + 1, k)
            } else {
                (st, a, k + 1)
            },
            None => (st, a, k + 1),
        }
    }
}

/// The log line a sync with fixes leaves, when it applied anything.
pub open spec fn drift_note(applied: nat, fs: Seq<FindingV>) -> Option<Seq<char>> {
    if applied > 0 {
        Some(sync_note_text(applied, fs))
    } else {
        None
    }
}

/// What applying a sync's findings comes to: the plan's slices as they now stand, the
/// counts, and the log line to append.
pub struct DriftOutcome {
    pub slices: Vec<Slice>,
    pub report: FixReport,
    pub note: Option<String>,
}

fn forward(from: Status, to: Status) -> (r: bool)
    ensures
        r == moves_forward(from, to),
{
    from != Status::Done && to != from && (to == Status::Done || to == Status::InReview)
}

fn find_slice(ss: &Vec<Slice>, key: &str) -> (r: Option<usize>)
    ensures
        match r {
            Some(i) => index_from(slice_views(ss@), key@, 0) == Some(i as int) && i < ss@.len(),
            None => index_from(slice_views(ss@), key@, 0) is None,
        },
{
    let ghost v = slice_views(ss@);
    let kv = chars_of(key);
    let mut i: usize = 0;
    while i < ss.len()
        invariant
            i <= ss@.len(),
            v == slice_views(ss@),
            v.len() == ss@.len(),
            kv@ == key@,
            index_from(v, key@, 0) == index_from(v, key@, i as int),
        decreases ss.len() - i,
    {
        let sk = chars_of(ss[i].key.as_str());
        assert(v[i as int] == crate::rows::slice_view(ss@[i as int]));
        if crate::text::eq_chars(&sk, &kv) {
            return Some(i);
        }
        i += 1;
    }
    None
}

/// Apply a sync's findings to the plan's slices, in order. A finding whose slice is
/// gone, or whose status would not move its slice forward, is skipped; the others are
/// applied, and when any was, a log line names the findings' slices.
pub fn apply_drift(slices: &Vec<Slice>, findings: &Vec<Finding>, now: &str) -> (r: DriftOutcome)
    requires
        forall|i: int| 0 <= i < slices@.len() ==> slices@[i].rev + findings@.len() <= i64::MAX,
    ensures
        ({
            let (st, a, k) = drift_applied(slice_views(slices@), finding_views(findings@), now@);
            &&& slice_views(r.slices@) == st
            &&& r.report.applied == a
            &&& r.report.skipped == k
            &&& crate::parse::opt_view(r.note) == drift_note(a, finding_views(findings@))
        }),
{
    let ghost sv = slice_views(slices@);
    let ghost fv = finding_views(findings@);
    let mut st: Vec<Slice> = Vec::new();
    let mut j: usize = 0;
    while j < slices.len()
        invariant
            j <= slices@.len(),
            st@ == slices@.take(j as int),
        decreases slices.len() - j,
    {
        st.push(slices[j].copied());
        assert(st@ =~= slices@.take(j + 1));
        j += 1;
    }
    assert(st@ =~= slices@);
    let mut applied: usize = 0;
    let mut skipped: usize = 0;
    let mut k: usize = 0;
    while k < findings.len()
        invariant
            k <= findings@.len(),
            sv == slice_views(slices@),
            fv == finding_views(findings@),
            fv.len() == findings@.len(),
            st@.len() == slices@.len(),
            applied + skipped == k,
            ({
                let (s2, a, b) = drift_applied(sv, fv.take(k as int), now@);
                &&& slice_views(st@) == s2
                &&& applied == a
                &&& skipped == b
            }),
            forall|i: int| 0 <= i < st@.len() ==> st@[i].rev + (findings@.len() - k) <= i64::MAX,
        decreases findings.len() - k,
    {
        let ghost before = slice_views(st@);
        assert(fv.take(k + 1).drop_last() =~= fv.take(k as int));
        assert(fv.take(k + 1).last() == findings@[k as int]@);
        let f = &findings[k];
        match find_slice(&st, f.slice()) {
            Some(i) => {
                assert(before[i as int] == crate::rows::slice_view(st@[i as int]));
                let act = match fix_for(f) {
                    Fix::SetStatus(t) => forward(st[i].status, t),
                    _ => true,
                };
                if act {
                    let n = apply_finding(&st[i], f, now);
                    st.set(i, n);
                    assert(slice_views(st@) =~= before.update(i as int, fixed(before[i as int], f@, now@)));
                    applied += 1;
                } else {
                    skipped += 1;
                }
            },
            None => {
                skipped += 1;
            },
        }
        k += 1;
    }
    assert(fv.take(findings@.len() as int) =~= fv);
    let note = if applied > 0 {
        Some(sync_note(applied, findings))
    } else {
        None
    };
    DriftOutcome { slices: st, report: FixReport { applied, skipped }, note }
}

/// Applying a sync's findings never reopens a slice: whatever findings come, in
/// whatever order, each slice keeps its status or moves forward from it, and a done
/// slice stays done.
pub proof fn law_applying_drift_never_reopens(ss: Seq<crate::rows::SliceV>, fs: Seq<FindingV>, now: Seq<char>)
    ensures
        drift_applied(ss, fs, now).0.len() == ss.len(),
        forall|i: int|
            0 <= i < ss.len() ==> {
                let after = #[trigger] drift_applied(ss, fs, now).0[i];
                &&& (after.status == ss[i].status || moves_forward(ss[i].status, after.status))
                &&& (ss[i].status == Status::Done ==> after.status == Status::Done)
            },
    decreases fs.len(),
{
    if fs.len() > 0 {
        law_applying_drift_never_reopens(ss, fs.drop_last(), now);
        let (st, a, k) = drift_applied(ss, fs.drop_last(), now);
        let f = fs.last();
        match index_from(st, finding_slice(f), 0) {
            Some(j) => {
                lemma_index_from_bounds(st, finding_slice(f), 0);
                if acts(st[j], f) {
                    let nt = st.update(j, fixed(st[j], f, now));
                    assert(drift_applied(ss, fs, now).0 == nt);
                    assert forall|i: int| 0 <= i < ss.len() implies {
                        let after = #[trigger] nt[i];
                        &&& (after.status == ss[i].status || moves_forward(ss[i].status, after.status))
                        &&& (ss[i].status == Status::Done ==> after.status == Status::Done)
                    } by {
                        if i == j {
                            assert(st[i] == drift_applied(ss, fs.drop_last(), now).0[i]);
                        } else {
                            assert(nt[i] == st[i]);
                            assert(st[i] == drift_applied(ss, fs.drop_last(), now).0[i]);
                        }
                    }
                }
            },
            None => {},
        }
    }
}

proof fn lemma_index_from_bounds(ss: Seq<crate::rows::SliceV>, key: Seq<char>, i: int)
    ensures
        index_from(ss, key, i) matches Some(j) ==> 0 <= j < ss.len() && ss[j].key == key,
    decreases ss.len() - i,
{
    if 0 <= i < ss.len() && ss[i].key != key {
        lemma_index_from_bounds(ss, key, i + 1);
    }
}

} // verus!
