use ai_planner::handoff::{Gate, Handoff};
use ai_planner::listing::{
    claim_cell, handoff_row, handoff_text, plan_row, remaining, repo_row, slice_row, slice_text,
    stale_row,
};
use ai_planner::model::{LogEntry, LogKind, Plan, Repo, Slice, Status};

fn plan(status: Status) -> Plan {
    Plan {
        id: 1,
        repo_id: 1,
        repo_name: "widget".into(),
        slug: "picker".into(),
        title: "Colour picker".into(),
        status,
        summary: None,
        ticket_key: None,
        ticket_url: None,
        base_branch: None,
        owner: None,
        source_path: None,
        rev: 1,
        created_at: "x".into(),
        updated_at: "x".into(),
    }
}

fn slice(key: &str, status: Status) -> Slice {
    Slice {
        id: 1,
        plan_id: 1,
        ord: 10,
        key: key.into(),
        title: format!("{key} title"),
        status,
        scope_md: "".into(),
        demo_md: None,
        estimate_files: None,
        branch: None,
        base_branch: None,
        pr_url: None,
        worktree_path: None,
        claimed_by: None,
        claimed_at: None,
        blocked_reason: None,
        started_at: None,
        completed_at: None,
        rev: 1,
        updated_at: "x".into(),
    }
}

#[test]
fn a_plan_row_shows_progress_or_a_dash() {
    let ss = vec![slice("PR1", Status::Done), slice("PR2", Status::Ready)];
    assert_eq!(plan_row(&plan(Status::Active), &ss, false)[3], "1/2");
    let row = plan_row(&plan(Status::Draft), &vec![], false);
    assert_eq!(row[1], "picker");
    assert_eq!(row[2], "draft");
    assert_eq!(row[3], "-");
    assert_eq!(row[4], "widget");
    let repo = Repo {
        id: 1,
        key: "github.com/acme/widget".into(),
        name: "widget".into(),
        remote_url: None,
        main_path: None,
        created_at: "x".into(),
    };
    assert_eq!(repo_row(&repo, 3), vec!["widget", "3", "github.com/acme/widget", ""]);
}

#[test]
fn a_claim_from_this_checkout_is_marked_here() {
    let mut s = slice("PR1", Status::Active);
    s.claimed_by = Some("ben".into());
    s.worktree_path = Some("/home/me/wt/1".into());
    assert_eq!(claim_cell(&s, &Some("/home/me/wt/1".into()), "/home/me"), "ben (here)");
    assert_eq!(claim_cell(&s, &Some("/other".into()), "/home/me"), "ben in ~/wt/1");
    s.worktree_path = None;
    assert_eq!(claim_cell(&s, &None, "/home/me"), "ben");
    assert_eq!(claim_cell(&slice("PR2", Status::Ready), &None, "/home/me"), "");
    s.branch = Some("feat/x".into());
    let row = slice_row(&s, &None, "/home/me", false);
    assert_eq!(row[3], "feat/x");
    assert_eq!(stale_row(&s), vec!["PR1", "active", "ben", ""]);
}

#[test]
fn after_a_change_the_remaining_work_is_named() {
    let ss = vec![slice("PR1", Status::Done), slice("PR2", Status::Blocked), slice("PR3", Status::Ready)];
    assert_eq!(remaining(&ss, false), "  1/3 done · next: PR3 - PR3 title\n");
    assert_eq!(remaining(&vec![slice("PR1", Status::Done)], false), "  every slice is done\n");
    assert_eq!(remaining(&vec![slice("PR1", Status::Blocked)], false), "");
}

#[test]
fn a_slice_page_carries_its_history() {
    let mut s = slice("PR1", Status::Blocked);
    s.scope_md = "Build the core.  \n".into();
    s.blocked_reason = Some("waiting".into());
    let e = LogEntry {
        id: 1,
        plan_id: 1,
        slice_key: Some("PR1".into()),
        at: "2026-03-01T10:00:00Z".into(),
        actor: None,
        kind: LogKind::Status,
        branch: None,
        worktree_path: None,
        body: "PR1 ready ->\nblocked".into(),
    };
    let text = slice_text(&s, &vec![e]);
    assert!(text.starts_with("# PR1 - PR1 title\n\n"));
    assert!(text.contains("\n\nBuild the core.\n\n**Blocked:** waiting\n\n## History\n\n- 2026-03-01 - PR1 ready -> blocked\n"));
}

#[test]
fn handoffs_list_their_gates_and_where_they_came_from() {
    let h = Handoff {
        id: 1,
        plan_id: 1,
        worktree_path: "/home/me/wt/1".into(),
        branch: Some("feat/x".into()),
        head_sha: Some("abc".into()),
        gates: vec![
            Gate { name: "tests".into(), result: "pass".into(), detail: None },
            Gate { name: "lint".into(), result: "fail".into(), detail: Some("2 warnings".into()) },
        ],
        resume_md: "  notes here ".into(),
        next_md: "".into(),
        actor: None,
        at: "2026-03-01T10:00:00Z".into(),
    };
    assert_eq!(
        handoff_row(&h, &Some("/home/me/wt/1".into()), "/home/me"),
        vec!["2026-03-01", "feat/x", "abc", "1 RED", "~/wt/1 (here)"]
    );
    assert_eq!(
        handoff_text(&Some(h), false),
        "2026-03-01T10:00:00Z · feat/x @ abc\n  ✔ tests \n  ✘ lint 2 warnings\n\nNotes\n\nnotes here\n"
    );
    assert_eq!(handoff_text(&None, false), "no handoff from this worktree yet\n");
}
