use ai_planner::drift::{apply_finding, drift, fix_for, slice_drift, sync_note, Finding, Fix, FixReport, PullRequest, Witness};
use ai_planner::model::{Slice, Status};
use ai_planner::rows::release;

#[test]
fn a_finding_says_what_is_wrong_and_what_fixes_it() {
    let f = Finding::PrOpen {
        slice: "PR2".into(),
        url: "https://github.com/acme/widget/pull/412".into(),
        number: 412,
    };
    assert!(f.describe().contains("PR #412 is open"));
    assert_eq!(f.remedy(), "aip slice set PR2 in_review");
    assert_eq!(f.slice(), "PR2");
}

fn slice(key: &str, status: Status, branch: Option<&str>) -> Slice {
    Slice {
        id: 1,
        plan_id: 1,
        ord: 10,
        key: key.into(),
        title: "t".into(),
        status,
        scope_md: "".into(),
        demo_md: None,
        estimate_files: None,
        branch: branch.map(|b| b.to_string()),
        base_branch: None,
        pr_url: None,
        worktree_path: None,
        claimed_by: None,
        claimed_at: None,
        blocked_reason: None,
        started_at: None,
        completed_at: None,
        rev: 1,
        updated_at: "x".into(),
    }
}

fn quiet() -> Witness {
    Witness { worktree_exists: true, pr: None, landed: false, branch_exists: true }
}

#[test]
fn a_merged_branch_is_noticed_and_the_slice_is_marked_done() {
    let s = slice("PR1", Status::Active, Some("feat/one"));
    assert!(slice_drift(&s, &Some("main".into()), &quiet()).is_empty());
    let mut w = quiet();
    w.landed = true;
    let f = slice_drift(&s, &Some("main".into()), &w);
    assert_eq!(f.len(), 1);
    assert!(f[0].describe().contains("has landed"));
    assert_eq!(f[0].describe(), "PR1: `feat/one` has landed on `main` - the plan still says otherwise");
    assert_eq!(f[0].remedy(), "aip slice set PR1 done");
    assert!(matches!(fix_for(&f[0]), Fix::SetStatus(Status::Done)));
}

#[test]
fn reconciling_writes_its_own_audit_entry() {
    let s = slice("PR1", Status::Active, Some("feat/one"));
    let mut w = quiet();
    w.landed = true;
    let f = drift(&vec![s], &Some("main".into()), &vec![w]);
    let note = sync_note(1, &f);
    assert!(note.contains("aip sync reconciled"));
    assert_eq!(note, "aip sync reconciled 1 slice(s) from git: PR1");
}

#[test]
fn a_merged_pr_wins_over_git_and_reports_the_missing_link() {
    let s = slice("PR2", Status::InReview, Some("feat/two"));
    let mut w = quiet();
    w.landed = true;
    w.pr = Some(PullRequest { url: "u".into(), number: 7, merged: true, open: false });
    let f = slice_drift(&s, &Some("main".into()), &w);
    assert_eq!(f.len(), 2);
    assert_eq!(f[0].remedy(), "aip slice edit PR2 --pr u");
    assert_eq!(f[1].describe(), "PR2: PR #7 is merged - the plan still says otherwise");
}

#[test]
fn a_deleted_branch_releases_a_claim_rather_than_losing_it() {
    let mut s = slice("PR3", Status::Active, Some("feat/three"));
    s.claimed_by = Some("agent".into());
    s.worktree_path = Some("/wt/9".into());
    let w = Witness { worktree_exists: false, pr: None, landed: false, branch_exists: false };
    let f = slice_drift(&s, &None, &w);
    assert_eq!(f.len(), 2);
    assert_eq!(f[0].describe(), "PR3: claimed in /wt/9, which is gone");
    assert_eq!(f[1].remedy(), "aip slice release PR3");
    assert!(matches!(fix_for(&f[1]), Fix::Release));
    let fresh = release(&s, "2026-08-02T00:00:00Z");
    assert!(fresh.claimed_by.is_none(), "the claim is released");
    assert_eq!(fresh.status, Status::Active);
}

#[test]
fn a_slice_that_is_already_done_is_left_alone() {
    let s = slice("PR4", Status::Ready, None);
    assert!(slice_drift(&s, &Some("main".into()), &quiet()).is_empty());
    let done = slice("PR5", Status::Done, Some("feat/five"));
    let mut w = quiet();
    w.landed = true;
    assert!(slice_drift(&done, &Some("main".into()), &w).is_empty());
}

#[test]
fn fixes_only_move_forward_and_the_note_names_the_slices() {
    let s1 = slice("PR1", Status::Active, Some("feat/one"));
    let s2 = slice("PR2", Status::Ready, Some("feat/two"));
    let mut w1 = quiet();
    w1.landed = true;
    let mut w2 = quiet();
    w2.pr = Some(PullRequest { url: "u2".into(), number: 8, merged: false, open: true });
    let fs = drift(&vec![s1, s2], &Some("main".into()), &vec![w1, w2]);
    assert_eq!(fs.len(), 3);
    assert!(matches!(fix_for(&fs[0]), Fix::SetStatus(Status::Done)));
    assert!(matches!(fix_for(&fs[2]), Fix::SetStatus(Status::InReview)));
    assert_eq!(sync_note(3, &fs), "aip sync reconciled 3 slice(s) from git: PR1, PR2, PR2");
    let r = FixReport::default();
    assert_eq!((r.applied, r.skipped), (0, 0));
}

#[test]
fn applying_findings_marks_done_links_the_pr_and_releases_dead_claims() {
    let mut s = slice("PR1", Status::Active, Some("feat/one"));
    s.claimed_by = Some("agent".into());
    let mut w = quiet();
    w.landed = true;
    w.pr = Some(PullRequest { url: "https://gh/pr/3".into(), number: 3, merged: false, open: false });
    let fs = slice_drift(&s, &Some("main".into()), &w);
    assert_eq!(fs.len(), 2);
    let linked = apply_finding(&s, &fs[0], "2026-08-02T00:00:00Z");
    assert_eq!(linked.pr_url.as_deref(), Some("https://gh/pr/3"));
    assert_eq!(linked.status, Status::Active);
    let done = apply_finding(&linked, &fs[1], "2026-08-02T00:00:00Z");
    assert_eq!(done.status, Status::Done);
    assert_eq!(done.completed_at.as_deref(), Some("2026-08-02T00:00:00Z"));

    let gone = Finding::BranchGone { slice: "PR1".into(), branch: "feat/one".into() };
    let released = apply_finding(&s, &gone, "2026-08-02T00:00:00Z");
    assert!(released.claimed_by.is_none());
    assert_eq!(released.status, Status::Active);
}

#[test]
fn a_claim_with_no_progress_note_is_reported_once_per_state() {
    let mut s = slice("PR1", Status::Active, Some("feat/one"));
    s.claimed_by = Some("agent".into());
    s.worktree_path = Some("/wt/1".into());
    let unlogged = ai_planner::drift::unlogged_claims(&vec![(s.clone(), 0)], "/wt/1");
    assert_eq!(unlogged.len(), 1);
    assert_eq!(unlogged[0].key, "PR1");

    let mut seen: Vec<(String, String, String)> = Vec::new();
    let (speak, record) = ai_planner::drift::take_nudge(&seen, "/wt/1", "stop", "PR1 has no note");
    assert!(speak);
    seen.push(record);
    let (again, _) = ai_planner::drift::take_nudge(&seen, "/wt/1", "stop", "PR1 has no note");
    assert!(!again, "the same complaint is made once");
    let (changed, _) = ai_planner::drift::take_nudge(&seen, "/wt/1", "stop", "PR2 has no note either");
    assert!(changed, "a new state speaks again");
    let (elsewhere, _) = ai_planner::drift::take_nudge(&seen, "/wt/2", "stop", "PR1 has no note");
    assert!(elsewhere);

    // Writing the note clears the condition.
    assert!(ai_planner::drift::unlogged_claims(&vec![(s, 1)], "/wt/1").is_empty());
}

#[test]
fn applying_a_sync_counts_what_it_did_and_never_reopens_a_slice() {
    let mut s1 = slice("PR1", Status::Active, Some("feat/one"));
    s1.claimed_by = Some("agent".into());
    let s2 = slice("PR2", Status::Done, Some("feat/two"));
    let findings = vec![
        Finding::PrOpen { slice: "PR1".into(), url: "u1".into(), number: 1 },
        Finding::Merged { slice: "PR1".into(), branch: "feat/one".into(), into: "main".into() },
        Finding::PrOpen { slice: "PR2".into(), url: "u2".into(), number: 2 },
        Finding::BranchGone { slice: "PR9".into(), branch: "feat/nine".into() },
    ];
    let out = ai_planner::drift::apply_drift(&vec![s1, s2], &findings, "2026-08-02T00:00:00Z");
    assert_eq!((out.report.applied, out.report.skipped), (2, 2));
    assert_eq!(out.slices[0].status, Status::Done);
    assert!(out.slices[0].claimed_by.is_none());
    assert_eq!(out.slices[0].rev, 3);
    assert_eq!(out.slices[1].status, Status::Done, "a stale open PR does not reopen a done slice");
    assert_eq!(out.slices[1].rev, 1);
    assert_eq!(
        out.note.as_deref(),
        Some("aip sync reconciled 2 slice(s) from git: PR1, PR1, PR2, PR9")
    );

    let none = ai_planner::drift::apply_drift(&vec![slice("PR1", Status::Ready, None)], &vec![], "t");
    assert_eq!((none.report.applied, none.report.skipped), (0, 0));
    assert!(none.note.is_none());
}
