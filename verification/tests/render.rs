use ai_planner::model::{
    Decision, DecisionStatus, Gotcha, LogEntry, LogKind, Plan, PlanBundle, PlanSource, Question,
    Renders, Section, Slice, Status,
};
use ai_planner::render::{capitalise, plan_headline, render_plan, slice_meta_line};

fn plan() -> Plan {
    Plan {
        id: 1,
        repo_id: 1,
        repo_name: "widget".into(),
        slug: "acme-1234".into(),
        title: "ACME-1234 - Reusable Date Range Picker".into(),
        status: Status::Active,
        summary: Some("Living plan.\nOwner: Ben Zotti.".into()),
        ticket_key: Some("ACME-1234".into()),
        ticket_url: Some("https://app.clickup.com/t/1234567/ACME-1234".into()),
        base_branch: Some("master".into()),
        owner: Some("Ben Zotti".into()),
        source_path: None,
        rev: 1,
        created_at: "2026-08-01T00:00:00Z".into(),
        updated_at: "2026-08-01T00:00:00Z".into(),
    }
}

fn slice(key: &str, title: &str, status: Status) -> Slice {
    Slice {
        id: 1,
        plan_id: 1,
        ord: 10,
        key: key.into(),
        title: title.into(),
        status,
        scope_md: "Core and the first variant.".into(),
        demo_md: Some("Main Dashboard, pick \"Last quarter\".".into()),
        estimate_files: Some(40),
        branch: Some("feat/date-range-picker".into()),
        base_branch: None,
        pr_url: Some("https://github.com/acme/widget/pull/412".into()),
        worktree_path: None,
        claimed_by: None,
        claimed_at: None,
        blocked_reason: None,
        started_at: None,
        completed_at: None,
        rev: 1,
        updated_at: "2026-08-01T00:00:00Z".into(),
    }
}

fn bundle(sections: Vec<Section>, slices: Vec<Slice>) -> PlanBundle {
    PlanBundle {
        plan: plan(),
        sources: vec![],
        sections,
        decisions: vec![],
        slices,
        questions: vec![],
        gotchas: vec![],
        log: vec![],
    }
}

fn section(ord: i64, key: &str, title: &str, body: &str, renders: Renders) -> Section {
    Section {
        id: ord,
        plan_id: 1,
        ord,
        key: key.into(),
        title: title.into(),
        body: body.into(),
        renders,
        rev: 1,
    }
}

#[test]
fn a_rendered_plan_reads_like_the_file_it_replaced() {
    let b = bundle(
        vec![
            section(10, "scope", "1. Scope", "A reusable picker.", Renders::Body),
            section(20, "slices", "5. Delivery slices", "Seven PRs.", Renders::Slices),
        ],
        vec![slice("PR1", "Shared core", Status::InReview)],
    );
    let md = render_plan(&b);

    assert!(md.starts_with("# ACME-1234 - Reusable Date Range Picker\n"));
    assert!(md.contains("> Living plan.\n> Owner: Ben Zotti."));
    assert!(md.contains("[ACME-1234](https://app.clickup.com/t/1234567/ACME-1234)"));
    assert!(md.contains("## 1. Scope\n\nA reusable picker."));
    assert!(md.contains("## 5. Delivery slices\n\nSeven PRs."));
    assert!(md.contains("### PR1 - Shared core"));
    assert!(md.contains("**Demo:** Main Dashboard"));
    assert!(md.contains("`feat/date-range-picker`"));
}

#[test]
fn content_with_no_section_to_host_it_is_still_rendered() {
    let b = bundle(
        vec![section(10, "scope", "Scope", "x", Renders::Body)],
        vec![slice("S1", "Blank canvas", Status::Done)],
    );
    let md = render_plan(&b);
    assert!(md.contains("## Delivery slices"));
    assert!(md.contains("### S1 - Blank canvas"));
}

#[test]
fn empty_generated_sections_do_not_leave_hollow_headings() {
    let b = bundle(
        vec![
            section(10, "scope", "Scope", "x", Renders::Body),
            section(20, "log", "Progress log", "", Renders::Log),
        ],
        vec![],
    );
    let md = render_plan(&b);
    assert!(!md.contains("Progress log"));
}

#[test]
fn a_multiline_log_note_stays_inside_its_bullet() {
    let mut b = bundle(vec![], vec![]);
    b.log.push(LogEntry {
        id: 1,
        plan_id: 1,
        slice_key: Some("PR1".into()),
        at: "2026-08-24T03:00:00Z".into(),
        actor: Some("ben".into()),
        kind: LogKind::Progress,
        branch: None,
        worktree_path: None,
        body: "Gates green.\nTypecheck 7/7.".into(),
    });
    let md = render_plan(&b);
    assert!(md.contains("- 2026-08-24 (ben) - **PR1** Gates green.\n  Typecheck 7/7."));
}

#[test]
fn a_minimal_plan_renders_exactly() {
    let mut b = bundle(vec![], vec![]);
    b.plan.summary = None;
    b.plan.ticket_key = None;
    b.plan.ticket_url = None;
    b.plan.base_branch = None;
    b.plan.owner = None;
    b.plan.title = "T".into();
    b.plan.slug = "t".into();
    b.plan.status = Status::Draft;
    assert_eq!(render_plan(&b), "# T\n\n**Status:** draft · **Plan:** `t`\n");
}

#[test]
fn status_flips_stay_out_of_the_rendered_log() {
    let mut b = bundle(vec![], vec![]);
    b.log.push(LogEntry {
        id: 1,
        plan_id: 1,
        slice_key: None,
        at: "2026-08-24T03:00:00Z".into(),
        actor: None,
        kind: LogKind::Status,
        branch: None,
        worktree_path: None,
        body: "PR1 ready -> active".into(),
    });
    let md = render_plan(&b);
    assert!(!md.contains("Progress log"));
    assert!(!md.contains("ready -> active"));
}

#[test]
fn sources_decisions_questions_and_gotchas_render_in_their_blocks() {
    let mut b = bundle(vec![], vec![]);
    b.sources.push(PlanSource {
        id: 1,
        kind: "ticket".into(),
        reference: "ACME-1".into(),
        note: None,
    });
    b.decisions.push(Decision {
        id: 1,
        plan_id: 1,
        ord: 10,
        key: "D1".into(),
        title: "Store it".into(),
        body: "Because.".into(),
        status: DecisionStatus::Superseded,
        superseded_by: Some("D2".into()),
        supersede_note: Some("cheaper".into()),
        rev: 1,
        decided_at: "2026-08-01T00:00:00Z".into(),
    });
    b.questions.push(Question {
        id: 1,
        plan_id: 1,
        slice_key: Some("PR1".into()),
        body: "Which one?".into(),
        status: "answered".into(),
        answer: Some("The first.".into()),
        asked_at: "2026-08-01T00:00:00Z".into(),
        answered_at: None,
    });
    b.gotchas.push(Gotcha {
        id: 1,
        plan_id: 1,
        title: "Symlinks".into(),
        body: "Shared.".into(),
        created_at: "2026-08-01T00:00:00Z".into(),
    });
    let md = render_plan(&b);
    assert!(md.contains("## Sources\n\n| Kind | Reference | Note |\n| --- | --- | --- |\n| ticket | ACME-1 |  |"));
    assert!(md.contains("### D1 - Store it\n\n> **Superseded by D2** - cheaper\n\nBecause."));
    assert!(md.contains("- [x] (PR1) Which one?\n  - **Answer:** The first."));
    assert!(md.contains("## Gotchas\n\n### Symlinks\n\nShared."));
}

#[test]
fn the_meta_line_carries_what_the_slice_has() {
    let mut s = slice("PR1", "Shared core", Status::InReview);
    s.claimed_by = Some("ben".into());
    s.worktree_path = Some("/wt/3".into());
    assert_eq!(
        slice_meta_line(&s),
        "**Status:** ◐ in_review · **~40 files** · **Branch:** `feat/date-range-picker` · **PR:** https://github.com/acme/widget/pull/412 · **Claimed:** ben in `/wt/3`"
    );
}

#[test]
fn the_headline_counts_done_slices() {
    let b = bundle(
        vec![],
        vec![
            slice("PR1", "a", Status::Done),
            slice("PR2", "b", Status::Ready),
        ],
    );
    assert_eq!(
        plan_headline(&b),
        "ACME-1234 - Reusable Date Range Picker (active) [1/2 slices]"
    );
    let empty = bundle(vec![], vec![]);
    assert_eq!(
        plan_headline(&empty),
        "ACME-1234 - Reusable Date Range Picker (active)"
    );
}

#[test]
fn capitalise_raises_only_the_first_letter() {
    assert_eq!(capitalise("superseded"), "Superseded");
    assert_eq!(capitalise(""), "");
}

#[test]
fn a_gotcha_heading_with_trailing_space_stays_when_text_follows_it() {
    let mut b = bundle(vec![], vec![]);
    b.gotchas.push(Gotcha {
        id: 1,
        plan_id: 1,
        title: "Trap ".into(),
        body: "Mind the gap.".into(),
        created_at: "2026-08-01T00:00:00Z".into(),
    });
    let md = render_plan(&b);
    assert!(md.contains("### Trap \n\nMind the gap."));
    assert!(md.starts_with(&format!("# {}\n", b.plan.title)));
    assert!(!md.ends_with("\n\n"));
}
