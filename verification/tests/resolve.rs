use ai_planner::git::GitContext;
use ai_planner::model::{Plan, Slice, Status};
use ai_planner::resolve::{
    claimed_in, named_plan, next_move, unfinished_plans, next_slice, slice_for, Evidence, Move, Query, Resolution,
    Rule, Unresolved,
};
use ai_planner::store::{plan_keys, NewPlan};
use ai_planner::util::{slugify, ticket_key};

/// An in-memory stand-in for the rows the cascade asks about.
#[derive(Default)]
struct Rows {
    plans: Vec<Plan>,
    slices: Vec<Slice>,
    handoffs: Vec<(String, i64)>,
    affinity: Vec<(i64, Option<String>, String)>,
}

fn ctx(branch: &str, worktree: &str) -> GitContext {
    GitContext {
        repo_key: "github.com/acme/widget".into(),
        repo_name: "widget".into(),
        remote_url: None,
        main_path: "/src/widget".into(),
        worktree: worktree.into(),
        branch: Some(branch.into()),
        head_sha: None,
    }
}

fn plan(rows: &mut Rows, title: &str) -> Plan {
    let mut new = NewPlan::default();
    new.repo_id = 1;
    new.title = title.into();
    let (title, ticket, slug) = plan_keys(&new).unwrap();
    let p = Plan {
        id: rows.plans.len() as i64 + 1,
        repo_id: 1,
        repo_name: "widget".into(),
        slug,
        title,
        status: Status::Active,
        summary: None,
        ticket_key: ticket,
        ticket_url: None,
        base_branch: None,
        owner: None,
        source_path: None,
        rev: 1,
        created_at: "2026-01-01T00:00:00Z".into(),
        updated_at: "2026-01-01T00:00:00Z".into(),
    };
    rows.plans.push(p.clone());
    p
}

fn slice(rows: &mut Rows, plan_id: i64, key: &str, branch: Option<&str>) -> usize {
    rows.slices.push(Slice {
        id: rows.slices.len() as i64 + 1,
        plan_id,
        ord: (rows.slices.len() as i64 + 1) * 10,
        key: key.into(),
        title: key.into(),
        status: Status::Ready,
        scope_md: "".into(),
        demo_md: None,
        estimate_files: None,
        branch: branch.map(|b| b.to_string()),
        base_branch: None,
        pr_url: None,
        worktree_path: None,
        claimed_by: None,
        claimed_at: None,
        blocked_reason: None,
        started_at: None,
        completed_at: None,
        rev: 1,
        updated_at: "x".into(),
    });
    rows.slices.len() - 1
}

fn claim(rows: &mut Rows, i: usize, worktree: &str) {
    let s = &mut rows.slices[i];
    s.claimed_by = Some("agent".into());
    s.worktree_path = Some(worktree.into());
    if matches!(s.status, Status::Draft | Status::Ready) {
        s.status = Status::Active;
    }
}

fn find(rows: &Rows, needle: &str) -> Option<Plan> {
    let slug = slugify(needle);
    let ticket = ticket_key(needle);
    rows.plans
        .iter()
        .find(|p| {
            p.slug == slug
                || (ticket.is_some() && p.ticket_key.as_deref().map(|k| k.to_uppercase()) == ticket)
                || p.title.to_lowercase().contains(&needle.to_lowercase())
        })
        .cloned()
}

fn resolve(rows: &Rows, git: &GitContext, explicit: Option<&str>) -> Result<Resolution, Unresolved> {
    let named = named_plan(explicit.map(|s| s.to_string()), None);
    let git = Some(git.clone());
    let mut ev = Evidence::new();
    loop {
        match next_move(&named, &git, Some(1), &ev) {
            Move::Ask(q) => match q {
                Query::FindNamed(n) => ev.named_plan = Some(find(rows, &n).expect("named plan")),
                Query::SlicesOnBranch(b) => {
                    ev.on_branch = Some(
                        rows.slices
                            .iter()
                            .filter(|s| s.branch.as_deref() == Some(b.as_str()))
                            .cloned()
                            .collect(),
                    )
                }
                Query::ClaimedIn(w) => {
                    ev.claimed = Some(
                        rows.slices
                            .iter()
                            .filter(|s| s.worktree_path.as_deref() == Some(w.as_str()) && s.claimed_by.is_some())
                            .cloned()
                            .collect(),
                    )
                }
                Query::LastHandoff(w) => {
                    ev.handoff_plan = Some(rows.handoffs.iter().rev().find(|h| h.0 == w).map(|h| h.1))
                }
                Query::Affinity(b, w) => {
                    let by_branch = rows.affinity.iter().find(|a| a.1.is_some() && a.1 == b);
                    let by_wt = rows.affinity.iter().find(|a| a.2 == w);
                    ev.affinity_plan = Some(by_branch.or(by_wt).map(|a| a.0));
                }
                Query::FindTicket(k) => ev.ticket_plan = Some(find(rows, &k)),
                Query::Unfinished => {
                    ev.unfinished = Some(
                        unfinished_plans(&rows.plans, 1),
                    )
                }
                Query::GetPlan(id) => ev.fetched = rows.plans.iter().find(|p| p.id == id).cloned(),
                Query::SlicesOf(id) => {
                    ev.plan_slices =
                        Some(rows.slices.iter().filter(|s| s.plan_id == id).cloned().collect())
                }
            },
            Move::Resolved(r) => return Ok(r),
            Move::Unresolved(u) => return Err(u),
        }
    }
}

#[test]
fn a_branch_named_by_a_slice_resolves_to_that_slice() {
    let mut rows = Rows::default();
    let p = plan(&mut rows, "ACME-1234 - Picker");
    plan(&mut rows, "Canvas Editor");
    slice(&mut rows, p.id, "PR1", Some("feat/date-range-picker"));
    let r = resolve(&rows, &ctx("feat/date-range-picker", "/wt/3"), None).expect("resolves");
    assert_eq!(r.rule, Rule::SliceBranch);
    assert_eq!(r.plan.id, p.id);
    assert_eq!(r.slice.unwrap().key, "PR1");
}

#[test]
fn a_finished_slice_still_names_the_plan_but_is_not_reported_as_current() {
    let mut rows = Rows::default();
    let p = plan(&mut rows, "ACME-1234 - Picker");
    plan(&mut rows, "Canvas Editor");
    let pr1 = slice(&mut rows, p.id, "PR1", Some("feat/date-range-picker"));
    rows.slices[pr1].status = Status::Done;
    let r = resolve(&rows, &ctx("feat/date-range-picker", "/wt/3"), None).expect("resolves");
    assert_eq!(r.rule, Rule::SliceBranch);
    assert_eq!(r.plan.id, p.id);
    assert!(r.slice.is_none(), "a done slice is not what you are on");
}

#[test]
fn a_ticket_key_in_the_branch_resolves_without_any_slice() {
    let mut rows = Rows::default();
    let p = plan(&mut rows, "ACME-1234 - Picker");
    plan(&mut rows, "Canvas Editor");
    let r = resolve(&rows, &ctx("feature/acme-1234-csv-export", "/wt/4"), None).expect("resolves");
    assert_eq!(r.rule, Rule::BranchTicket);
    assert_eq!(r.plan.id, p.id);
}

#[test]
fn a_claim_wins_over_a_ticket_key_in_the_branch() {
    let mut rows = Rows::default();
    let picker = plan(&mut rows, "ACME-1234 - Picker");
    let canvas = plan(&mut rows, "Canvas Editor");
    let s = slice(&mut rows, canvas.id, "S2", None);
    claim(&mut rows, s, "/wt/4");
    let r = resolve(&rows, &ctx("feature/acme-1234-csv-export", "/wt/4"), None).expect("resolves");
    assert_eq!(r.rule, Rule::WorktreeClaim);
    assert_eq!(r.plan.id, canvas.id);
    assert_ne!(r.plan.id, picker.id);
}

#[test]
fn a_lone_unfinished_plan_resolves_with_nothing_else_to_go_on() {
    let mut rows = Rows::default();
    let p = plan(&mut rows, "Accounts V2");
    let r = resolve(&rows, &ctx("some/unrelated-branch", "/wt/1"), None).expect("resolves");
    assert_eq!(r.rule, Rule::OnlyPlan);
    assert_eq!(r.plan.id, p.id);
}

#[test]
fn ambiguity_returns_candidates_instead_of_guessing() {
    let mut rows = Rows::default();
    plan(&mut rows, "Accounts V2");
    plan(&mut rows, "Canvas Editor");
    let unresolved = resolve(&rows, &ctx("some/unrelated-branch", "/wt/1"), None)
        .expect_err("must not guess");
    assert_eq!(unresolved.candidates.len(), 2);
    assert!(unresolved.reason.contains("2 unfinished plans"));
}

#[test]
fn affinity_remembers_a_branch_that_was_resolved_by_hand() {
    let mut rows = Rows::default();
    plan(&mut rows, "Accounts V2");
    let canvas = plan(&mut rows, "Canvas Editor");
    assert!(resolve(&rows, &ctx("feat/canvas", "/wt/2"), None).is_err());
    let named = resolve(&rows, &ctx("feat/canvas", "/wt/2"), Some("canvas-editor")).expect("resolves");
    assert_eq!(named.rule, Rule::Explicit);
    rows.affinity.push((canvas.id, Some("feat/canvas".into()), "/wt/2".into()));
    let learned = resolve(&rows, &ctx("feat/canvas", "/wt/2"), None).expect("resolves");
    assert_eq!(learned.rule, Rule::Affinity);
    assert_eq!(learned.plan.id, canvas.id);
}

#[test]
fn the_last_handoff_from_a_worktree_resolves_it() {
    let mut rows = Rows::default();
    plan(&mut rows, "Accounts V2");
    let canvas = plan(&mut rows, "Canvas Editor");
    rows.handoffs.push(("/wt/5".into(), canvas.id));
    let r = resolve(&rows, &ctx("feat/other", "/wt/5"), None).expect("resolves");
    assert_eq!(r.rule, Rule::Handoff);
    assert_eq!(r.plan.id, canvas.id);
    assert_eq!(r.rule.why(), "the last handoff from this worktree");
}

#[test]
fn the_next_slice_skips_what_another_worktree_holds() {
    let mut rows = Rows::default();
    let p = plan(&mut rows, "Picker");
    for key in ["PR1", "PR2", "PR3"] {
        slice(&mut rows, p.id, key, None);
    }
    rows.slices[0].status = Status::Done;
    claim(&mut rows, 1, "/wt/9");
    let next = next_slice(&rows.slices, &Some("/wt/3".into())).unwrap();
    assert_eq!(next.key, "PR3");
    let mine = next_slice(&rows.slices, &Some("/wt/9".into())).unwrap();
    assert_eq!(mine.key, "PR2");
}

#[test]
fn a_worktree_claim_is_the_slice_it_is_on() {
    let mut rows = Rows::default();
    let p = plan(&mut rows, "Picker");
    slice(&mut rows, p.id, "PR1", Some("feat/a"));
    slice(&mut rows, p.id, "PR2", None);
    claim(&mut rows, 1, "/wt/7");
    let here = slice_for(&rows.slices, &Some(ctx("feat/a", "/wt/7"))).unwrap();
    assert_eq!(here.key, "PR2");
    let on_branch = slice_for(&rows.slices, &Some(ctx("feat/a", "/wt/8"))).unwrap();
    assert_eq!(on_branch.key, "PR1");
    rows.slices[1].status = Status::Done;
    let newest = claimed_in(&vec![rows.slices[1].clone()]).unwrap();
    assert_eq!(newest.key, "PR2");
}

#[test]
fn outside_a_registered_repo_nothing_resolves() {
    let ev = Evidence::new();
    match next_move(&None, &None, None, &ev) {
        Move::Unresolved(u) => assert_eq!(u.reason, "not inside a git repository"),
        _ => panic!("expected unresolved"),
    }
    match next_move(&None, &Some(ctx("main", "/wt")), None, &ev) {
        Move::Unresolved(u) => {
            assert_eq!(u.reason, "github.com/acme/widget is not registered - run `aip init`")
        }
        _ => panic!("expected unresolved"),
    }
    assert_eq!(named_plan(Some("  ".into()), Some("env-plan".into())), None);
    assert_eq!(named_plan(None, Some("env-plan".into())).as_deref(), Some("env-plan"));
}

#[test]
fn a_draft_counts_as_unfinished_and_a_finished_plan_does_not() {
    let mut rows = Rows::default();
    let mut draft = plan(&mut rows, "Canvas Editor");
    draft.status = Status::Draft;
    rows.plans[0].status = Status::Draft;
    let done = plan(&mut rows, "Old Picker");
    rows.plans[1].status = Status::Done;
    let mut elsewhere = done.clone();
    elsewhere.id = 9;
    elsewhere.repo_id = 2;
    elsewhere.status = Status::Active;
    rows.plans.push(elsewhere);

    let only = unfinished_plans(&rows.plans, 1);
    assert_eq!(only.len(), 1);
    assert_eq!(only[0].id, draft.id);
    let r = resolve(&rows, &ctx("main", "/src/widget"), None).unwrap();
    assert_eq!(r.plan.id, draft.id);
    assert_eq!(r.rule, Rule::OnlyPlan);
}
