use ai_planner::handoff::{handoff_note, render_resume, Gate, Handoff};
use ai_planner::model::{Gotcha, LogEntry, LogKind, Plan, Question, Slice, Status};

#[test]
fn gate_specs_parse_the_way_they_are_typed() {
    let g = Gate::parse("typecheck=pass");
    assert_eq!(g.name, "typecheck");
    assert!(g.passed());
    assert_eq!(g.detail, None);

    let g = Gate::parse("test=pass:731 tests in @acme/ui");
    assert!(g.passed());
    assert_eq!(g.detail.as_deref(), Some("731 tests in @acme/ui"));

    let g = Gate::parse("lint=fail");
    assert!(!g.passed());

    assert!(Gate::parse("build").passed());
}

#[test]
fn a_handoff_note_never_reads_green_over_a_failure() {
    assert_eq!(handoff_note(&vec![]), "handoff written (no gates recorded)");
    let green = vec![Gate::parse("typecheck=pass"), Gate::parse("test=OK")];
    assert_eq!(handoff_note(&green), "handoff written, 2 gates green");
    let red = vec![
        Gate::parse("typecheck=pass"),
        Gate::parse("lint=fail"),
        Gate::parse("test=red"),
    ];
    assert_eq!(handoff_note(&red), "handoff written, RED: lint, test");
}

fn plan() -> Plan {
    Plan {
        id: 1,
        repo_id: 1,
        repo_name: "widget".into(),
        slug: "acme-1234".into(),
        title: "Picker".into(),
        status: Status::Active,
        summary: None,
        ticket_key: None,
        ticket_url: None,
        base_branch: None,
        owner: None,
        source_path: None,
        rev: 1,
        created_at: "2026-08-01T00:00:00Z".into(),
        updated_at: "2026-08-01T00:00:00Z".into(),
    }
}

fn slice(key: &str, status: Status) -> Slice {
    Slice {
        id: 1,
        plan_id: 1,
        ord: 10,
        key: key.into(),
        title: "Core".into(),
        status,
        scope_md: "".into(),
        demo_md: None,
        estimate_files: None,
        branch: None,
        base_branch: None,
        pr_url: None,
        worktree_path: None,
        claimed_by: None,
        claimed_at: None,
        blocked_reason: None,
        started_at: None,
        completed_at: None,
        rev: 1,
        updated_at: "2026-08-01T00:00:00Z".into(),
    }
}

#[test]
fn the_resume_document_is_assembled_from_live_state() {
    let mut mine = slice("PR2", Status::Active);
    mine.claimed_by = Some("ben".into());
    mine.worktree_path = Some("/wt/1".into());
    let slices = vec![slice("PR1", Status::Done), mine.clone()];
    let handoff = Handoff {
        id: 1,
        plan_id: 1,
        worktree_path: "/wt/1".into(),
        branch: Some("feat/x".into()),
        head_sha: None,
        gates: vec![Gate::parse("lint=fail")],
        resume_md: "Left off mid-refactor.".into(),
        next_md: "  Rerun the tests.  ".into(),
        actor: Some("ben".into()),
        at: "2026-08-24T03:00:00Z".into(),
    };
    let gotchas = vec![Gotcha {
        id: 1,
        plan_id: 1,
        title: "Symlinks".into(),
        body: "".into(),
        created_at: "x".into(),
    }];
    let questions = vec![Question {
        id: 1,
        plan_id: 1,
        slice_key: None,
        body: "Which one?".into(),
        status: "open".into(),
        answer: None,
        asked_at: "x".into(),
        answered_at: None,
    }];
    let log = vec![LogEntry {
        id: 1,
        plan_id: 1,
        slice_key: Some("PR2".into()),
        at: "2026-08-24T03:00:00Z".into(),
        actor: None,
        kind: LogKind::Progress,
        branch: None,
        worktree_path: None,
        body: "one\ntwo".into(),
    }];
    let doc = render_resume(
        &plan(),
        &slices,
        &Some(handoff),
        &Some(mine),
        &gotchas,
        &questions,
        &log,
        &Some("/wt/1".into()),
    );
    assert!(doc.starts_with("# Resume: Picker\n\n**Plan:** `acme-1234` · **Status:** active · **1/2 slices done**\n"));
    assert!(doc.contains("**Last handoff:** 2026-08-24 by ben · `feat/x` @ `?`\n**Gates: RED** - lint\n"));
    assert!(doc.contains("## Do this first\n\nRerun the tests.\n\n"));
    assert!(doc.contains("## Next slice\n\n**PR2 - Core** (active)\n\n"));
    assert!(doc.contains("| PR2 Core | active |  | ben, here |\n"));
    assert!(doc.contains("## Gotchas\n\n### Symlinks\n\n"));
    assert!(doc.contains("## Open questions\n\n- Which one?\n\n"));
    assert!(doc.contains("## Recent\n\n- 2026-08-24 - **PR2** one two\n\n"));
    assert!(doc.contains("## Notes from the last session\n\nLeft off mid-refactor.\n\n"));
    assert!(doc.ends_with("move slices with `aip slice set <key> <status>`.\n"));
}
