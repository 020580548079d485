use ai_planner::error::Error;
use ai_planner::model::{Decision, DecisionStatus, Renders, Section, Slice, Status};
use ai_planner::rows::superseded;
use ai_planner::store::decision_key;
use ai_planner::rows::{
    claim, claim_note, move_slice, patch_slice, plan_status_after_claim, plan_status_after_move,
    release, release_note, section_write, status_note,
};
use ai_planner::store::{SectionWrite, SliceUpdate};

const NOW: &str = "2026-03-01T10:00:00Z";
const LATER: &str = "2026-03-02T09:30:00Z";

fn new_slice(key: &str, title: &str, branch: Option<&str>) -> Slice {
    Slice {
        id: 1,
        plan_id: 1,
        ord: 10,
        key: key.into(),
        title: title.into(),
        status: Status::Ready,
        scope_md: "".into(),
        demo_md: None,
        estimate_files: None,
        branch: branch.map(|b| b.to_string()),
        base_branch: None,
        pr_url: None,
        worktree_path: None,
        claimed_by: None,
        claimed_at: None,
        blocked_reason: None,
        started_at: None,
        completed_at: None,
        rev: 1,
        updated_at: "2026-01-01T00:00:00Z".into(),
    }
}

#[test]
fn finishing_a_slice_stamps_it_and_writes_its_own_history() {
    let slice = new_slice("PR1", "Shared core", None);
    assert_eq!(slice.status, Status::Ready);

    let active = move_slice(&slice, Status::Active, None, NOW);
    assert!(active.started_at.is_some());
    assert!(active.completed_at.is_none());

    let done = move_slice(&active, Status::Done, None, LATER);
    assert!(done.completed_at.is_some());
    // Finishing gives the worktree back, so a done slice never looks like work in
    // progress - but where it was built stays readable.
    assert!(done.claimed_by.is_none());
    assert!(done.worktree_path.is_some() || active.worktree_path.is_none());

    let bodies = vec![
        status_note(&slice.key, slice.status, Status::Active, None),
        status_note(&active.key, active.status, Status::Done, None),
    ];
    assert!(bodies.contains(&"PR1 ready -> active".to_string()), "{bodies:?}");
    assert!(bodies.contains(&"PR1 active -> done".to_string()), "{bodies:?}");
}

#[test]
fn reopening_a_done_slice_clears_the_completion_stamp() {
    let slice = new_slice("PR1", "Shared core", None);
    let done = move_slice(&slice, Status::Done, None, NOW);
    let reopened = move_slice(&done, Status::Active, None, LATER);
    assert!(reopened.completed_at.is_none());
}

#[test]
fn blocking_a_slice_keeps_the_reason_and_dropping_the_block_clears_it() {
    let slice = new_slice("S7", "Shared canvas for a group", None);
    let blocked = move_slice(&slice, Status::Blocked, Some("waiting on the upstream project"), NOW);
    assert_eq!(
        blocked.blocked_reason.as_deref(),
        Some("waiting on the upstream project")
    );

    let ready = move_slice(&blocked, Status::Ready, None, LATER);
    assert_eq!(ready.blocked_reason, None);
}

#[test]
fn only_one_of_two_racing_agents_wins_a_claim() {
    let slice = new_slice("PR2", "Button variant", None);
    // Deliberately the *same* actor in two worktrees - the case a naive "is it me?"
    // check would wave through. The store applies claims one at a time; whichever
    // lands first, the other meets the row it left.
    let first = claim(&slice, "ben", "/wt/3", Some("feat/button"), NOW);
    let fresh = first.as_ref().unwrap();
    let second = claim(fresh, "ben", "/wt/4", Some("feat/button-2"), NOW);

    let results = [first.is_ok(), second.is_ok()];
    let wins = results.iter().filter(|r| **r).count();
    assert_eq!(wins, 1, "exactly one claim must win");
    assert!(matches!(second, Err(Error::AlreadyClaimed(..))));

    assert!(fresh.claimed_by.is_some());
    assert!(fresh.worktree_path.is_some());
    // Claiming starts the work, so the slice is no longer merely "ready".
    assert_eq!(fresh.status, Status::Active);
}

#[test]
fn store_claiming_fills_the_branch_in_but_never_overwrites_the_planned_one() {
    // A slice the plan says is built on a particular branch.
    let planned = new_slice("PR1", "Core", Some("feat/picker"));
    // Claimed from somewhere else entirely - which must not rewrite the plan.
    let claimed = claim(&planned, "ben", "/wt/1", Some("main"), NOW).unwrap();
    assert_eq!(claimed.branch.as_deref(), Some("feat/picker"));

    // A slice with no branch yet takes the one it was claimed on.
    let blank = new_slice("PR2", "Variant", None);
    let claimed = claim(&blank, "ben", "/wt/1", Some("feat/variant"), NOW).unwrap();
    assert_eq!(claimed.branch.as_deref(), Some("feat/variant"));

    // Changing it is possible, but only on purpose.
    let patch = SliceUpdate {
        title: None,
        scope_md: None,
        demo_md: None,
        estimate_files: None,
        branch: Some("feat/renamed".into()),
        base_branch: None,
        pr_url: None,
        blocked_reason: None,
    };
    let moved = patch_slice(&claimed, &patch, LATER);
    assert_eq!(moved.branch.as_deref(), Some("feat/renamed"));
}

#[test]
fn reclaiming_your_own_slice_in_the_same_worktree_is_a_no_op() {
    let slice = new_slice("PR1", "Core", None);
    let first = claim(&slice, "agent-a", "/wt/1", None, NOW).unwrap();
    let second = claim(&first, "agent-a", "/wt/1", None, LATER).unwrap();
    assert_eq!(second.claimed_by.as_deref(), Some("agent-a"));

    let released = release(&second, LATER);
    assert!(released.claimed_by.is_none());
    // Releasing gives the slice up without pretending the work never started.
    assert!(released.worktree_path.is_some());
}

fn section(rev: i64, body: &str) -> Section {
    Section {
        id: 3,
        plan_id: 1,
        ord: 20,
        key: "outcome".into(),
        title: "Outcome".into(),
        body: body.into(),
        renders: Renders::Body,
        rev,
    }
}

fn write<'a>(body: &'a str, expect_rev: Option<i64>) -> SectionWrite<'a> {
    SectionWrite { key: "outcome", title: None, body, renders: None, ord: None, expect_rev }
}

#[test]
fn a_stale_rev_is_refused_instead_of_overwriting_another_agents_edit() {
    let read = section(1, "");

    // Agent A writes against what it read; the store bumps the revision.
    let put = section_write(&Some(read.clone()), &write("agent A's text", Some(read.rev)), 90).unwrap();
    assert_eq!(put.rev, read.rev + 1);
    let current = Section { body: put.body.clone(), rev: put.rev, ..read.clone() };

    // Agent B still holds the rev it read before A wrote.
    let err = section_write(&Some(current.clone()), &write("agent B's text", Some(read.rev)), 90);
    assert!(matches!(err, Err(Error::Conflict(_, e, c)) if e == read.rev && c == current.rev));
    assert_eq!(current.body, "agent A's text");

    // Re-reading and retrying succeeds, which is the intended recovery.
    let put = section_write(&Some(current.clone()), &write("agent B's merge", Some(current.rev)), 90).unwrap();
    assert_eq!(put.body, "agent B's merge");
    assert_eq!(put.rev, current.rev + 1);
    assert_eq!(put.title, "Outcome");
    assert_eq!(put.ord, 20);
}

#[test]
fn a_new_section_takes_its_key_as_title_and_goes_last() {
    let put = section_write(&None, &write("text", None), 90).unwrap();
    assert_eq!(put.title, "outcome");
    assert_eq!(put.ord, 90);
    assert_eq!(put.renders, Renders::Body);
    assert_eq!(put.rev, 1);
}

#[test]
fn a_claim_held_elsewhere_names_the_holder() {
    let slice = new_slice("PR1", "Core", None);
    let held = claim(&slice, "agent-a", "/wt/1", None, NOW).unwrap();
    match claim(&held, "agent-b", "/wt/2", None, NOW) {
        Err(Error::AlreadyClaimed(key, by, at)) => {
            assert_eq!(key, "PR1");
            assert_eq!(by, "agent-a");
            assert_eq!(at, "/wt/1");
        }
        other => panic!("expected a refusal, got {other:?}"),
    }
}

#[test]
fn work_starting_puts_the_plan_under_way() {
    assert_eq!(plan_status_after_move(Status::Ready, Status::Active), Status::Active);
    assert_eq!(plan_status_after_move(Status::Draft, Status::InReview), Status::Active);
    assert_eq!(plan_status_after_move(Status::Ready, Status::Blocked), Status::Ready);
    assert_eq!(plan_status_after_move(Status::Done, Status::Active), Status::Done);
    assert_eq!(plan_status_after_claim(Status::Draft), Status::Active);
    assert_eq!(plan_status_after_claim(Status::Blocked), Status::Blocked);
}

#[test]
fn history_lines_say_what_happened() {
    assert_eq!(
        status_note("S7", Status::Ready, Status::Blocked, Some("waiting")),
        "S7 ready -> blocked: waiting"
    );
    assert_eq!(claim_note("PR1", "ben", "/wt/1"), "PR1 claimed by ben in /wt/1");
    assert_eq!(release_note("PR1"), "PR1 released");
}

#[test]
fn deferring_keeps_an_earlier_completion_stamp() {
    let slice = new_slice("PR1", "Core", None);
    let done = move_slice(&slice, Status::Done, None, NOW);
    let deferred = move_slice(&done, Status::Deferred, None, LATER);
    assert_eq!(deferred.completed_at.as_deref(), Some(NOW));
    let fresh = move_slice(&slice, Status::Deferred, None, LATER);
    assert_eq!(fresh.completed_at.as_deref(), Some(LATER));
    assert_eq!(deferred.rev, 3);
}

fn plan_row() -> ai_planner::model::Plan {
    ai_planner::model::Plan {
        id: 1,
        repo_id: 1,
        repo_name: "widget".into(),
        slug: "picker".into(),
        title: "Colour picker".into(),
        status: Status::Draft,
        summary: None,
        ticket_key: None,
        ticket_url: None,
        base_branch: None,
        owner: None,
        source_path: None,
        rev: 4,
        created_at: "2026-01-01T00:00:00Z".into(),
        updated_at: "2026-01-01T00:00:00Z".into(),
    }
}

#[test]
fn moving_a_plan_to_its_own_status_writes_nothing() {
    let p = plan_row();
    let (same, note) = ai_planner::rows::move_plan(&p, Status::Draft, NOW);
    assert!(note.is_none());
    assert_eq!(same.rev, 4);
    let (moved, note) = ai_planner::rows::move_plan(&p, Status::Active, NOW);
    assert_eq!(note.as_deref(), Some("plan draft -> active"));
    assert_eq!(moved.status, Status::Active);
    assert_eq!(moved.rev, 5);
    assert_eq!(moved.updated_at, NOW);
}

#[test]
fn a_plan_patch_moves_only_what_it_names() {
    let p = plan_row();
    let u = ai_planner::store::PlanUpdate {
        title: None,
        summary: Some("A picker".into()),
        ticket_key: None,
        ticket_url: None,
        base_branch: None,
        owner: Some("ben".into()),
    };
    let t = ai_planner::rows::patch_plan(&p, &u, NOW);
    assert_eq!(t.title, "Colour picker");
    assert_eq!(t.summary.as_deref(), Some("A picker"));
    assert_eq!(t.owner.as_deref(), Some("ben"));
    assert_eq!(t.ticket_key, None);
}

#[test]
fn notes_need_text_and_questions_answer_once() {
    let mut new = ai_planner::store::NewLog::default();
    new.plan_id = 1;
    assert!(matches!(ai_planner::rows::log_entry(&new, "ben", NOW), Err(Error::Invalid(_))));
    new.body = "  landed it  ".into();
    let e = ai_planner::rows::log_entry(&new, "ben", NOW).unwrap();
    assert_eq!(e.body, "landed it");
    assert_eq!(e.at, NOW);
    assert_eq!(e.actor.as_deref(), Some("ben"));
    assert_eq!(e.kind, ai_planner::model::LogKind::Progress);

    assert_eq!(ai_planner::rows::required_text(" why? ", "a question needs a body").unwrap(), "why?");
    assert!(matches!(
        ai_planner::rows::required_text("  ", "a gotcha needs a title"),
        Err(Error::Invalid(m)) if m == "a gotcha needs a title"
    ));

    let q = ai_planner::model::Question {
        id: 7,
        plan_id: 1,
        slice_key: None,
        body: "Which palette?".into(),
        status: "open".into(),
        answer: None,
        asked_at: "x".into(),
        answered_at: None,
    };
    let a = ai_planner::rows::answered(&q, "HSL", NOW).unwrap();
    assert_eq!(a.status, "answered");
    assert_eq!(a.answer.as_deref(), Some("HSL"));
    assert!(matches!(
        ai_planner::rows::answered(&a, "again", NOW),
        Err(Error::Invalid(m)) if m == "no open question 7"
    ));
}

#[test]
fn a_new_slice_needs_a_free_key() {
    let new = ai_planner::store::NewSlice {
        plan_id: 1,
        key: " PR3 ".into(),
        title: " Docs ".into(),
        status: None,
        scope_md: None,
        demo_md: None,
        estimate_files: None,
        branch: None,
        base_branch: None,
        ord: None,
    };
    let s = ai_planner::rows::new_slice_row(&new, "picker", false, 40, NOW).unwrap();
    assert_eq!((s.key.as_str(), s.title.as_str(), s.ord, s.status), ("PR3", "Docs", 40, Status::Ready));
    assert!(matches!(
        ai_planner::rows::new_slice_row(&new, "picker", true, 40, NOW),
        Err(Error::DuplicateSlice(p, k)) if p == "picker" && k == "PR3"
    ));
}

fn decision(key: &str, title: &str, body: &str) -> Decision {
    Decision {
        id: 7,
        plan_id: 1,
        ord: 20,
        key: key.into(),
        title: title.into(),
        body: body.into(),
        status: DecisionStatus::Agreed,
        superseded_by: None,
        supersede_note: None,
        rev: 1,
        decided_at: "2026-08-01T00:00:00Z".into(),
    }
}

#[test]
fn decisions_number_themselves_and_supersede_in_place() {
    let k1 = decision_key(&None, &vec![]);
    let d1 = decision(&k1, "The value is a specification", "Not two resolved dates.");
    let k2 = decision_key(&None, &vec![k1.clone()]);
    let d2 = decision(&k2, "Lean on MUI for the calendar", "");
    assert_eq!(d1.key, "D1");
    assert_eq!(d2.key, "D2");

    let s = superseded(&d2, "D3", Some("DateCalendar has no controlled month"), "2026-08-02T00:00:00Z");
    assert_eq!(s.status, DecisionStatus::Superseded);
    assert_eq!(s.superseded_by.as_deref(), Some("D3"));
    assert_eq!(s.supersede_note.as_deref(), Some("DateCalendar has no controlled month"));
    // The original reasoning is annotated, never edited.
    assert_eq!(s.body, d2.body);
}
