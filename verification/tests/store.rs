use ai_planner::board::{columns, status_list, Board, BoardColumn};
use ai_planner::embed::{available, resolve, DEFAULT_MODEL};
use ai_planner::error::Error;
use ai_planner::model::{Plan, Renders, Slice, Status};
use ai_planner::store::{
    create_keys, decision_key, delete_refusal, exact_is_global, initial_status, narrow_matches, pick_plan, plan_keys, starter_sections,
    HeldSlice, NewLog, NewPlan, SliceUpdate,
};

fn plan(id: i64, repo_id: i64, slug: &str) -> Plan {
    Plan {
        id,
        repo_id,
        repo_name: format!("repo{repo_id}"),
        slug: slug.into(),
        title: slug.into(),
        status: Status::Active,
        summary: None,
        ticket_key: None,
        ticket_url: None,
        base_branch: None,
        owner: None,
        source_path: None,
        rev: 1,
        created_at: "x".into(),
        updated_at: "x".into(),
    }
}

#[test]
fn a_ticketed_plan_is_keyed_by_its_ticket() {
    let mut new = NewPlan::default();
    new.title = "  ACME-1234 - Reusable Date Range Picker ".into();
    let (title, ticket, slug) = plan_keys(&new).unwrap();
    assert_eq!(title, "ACME-1234 - Reusable Date Range Picker");
    assert_eq!(ticket.as_deref(), Some("ACME-1234"));
    assert_eq!(slug, "acme-1234");
    new.slug = Some("Custom Slug".into());
    assert_eq!(plan_keys(&new).unwrap().2, "custom-slug");
    new.slug = Some("...".into());
    assert_eq!(plan_keys(&new).unwrap().2, "acme-1234");
}

#[test]
fn a_plan_needs_a_title_and_a_slug() {
    let mut new = NewPlan::default();
    new.title = "   ".into();
    assert!(matches!(plan_keys(&new), Err(Error::Invalid(m)) if m == "a plan needs a title"));
    new.title = "!!!".into();
    assert!(matches!(plan_keys(&new), Err(Error::Invalid(m)) if m == "could not derive a slug - pass --slug"));
}

#[test]
fn a_reference_picks_one_plan_or_says_why_not() {
    assert_eq!(pick_plan(" x ", Some(1), vec![plan(3, 1, "x")]).unwrap().id, 3);
    let scoped = pick_plan("x", Some(2), vec![plan(3, 1, "x"), plan(4, 2, "x")]).unwrap();
    assert_eq!(scoped.id, 4);
    match pick_plan("x", None, vec![plan(3, 1, "a"), plan(4, 2, "b")]) {
        Err(Error::AmbiguousPlan(n, k, names)) => {
            assert_eq!(n, "x");
            assert_eq!(k, 2);
            assert_eq!(names, "repo1/a, repo2/b");
        }
        other => panic!("expected ambiguity, got {other:?}"),
    }
    assert!(matches!(pick_plan("  ", None, vec![plan(1, 1, "a")]), Err(Error::NoSuchPlan(_))));
    assert!(matches!(pick_plan("nope", None, vec![]), Err(Error::NoSuchPlan(n)) if n == "nope"));
    assert!(exact_is_global("widget/acme-1234"));
    assert!(!exact_is_global("acme-1234"));
}

#[test]
fn unnamed_decisions_are_numbered() {
    let keys = |ks: &[&str]| ks.iter().map(|k| k.to_string()).collect::<Vec<String>>();
    assert_eq!(decision_key(&None, &keys(&["D1", "D2", "D3"])), "D4");
    assert_eq!(decision_key(&Some("  AD-2 ".into()), &keys(&["D1"])), "AD-2");
    assert_eq!(decision_key(&Some("  ".into()), &keys(&[])), "D1");
    // The next free number: never one that is already taken.
    assert_eq!(decision_key(&None, &keys(&["D1", "D3"])), "D2");
    assert_eq!(decision_key(&None, &keys(&["D2", "AD-1"])), "D1");
    assert_eq!(decision_key(&None, &keys(&["D1", "D2", "AD-1"])), "D3");
}

#[test]
fn a_plan_held_elsewhere_refuses_an_unforced_delete() {
    let held = vec![
        HeldSlice { key: "PR1".into(), claimed_by: "a".into(), worktree_path: "/wt/1".into() },
        HeldSlice { key: "PR2".into(), claimed_by: "b".into(), worktree_path: "/wt/2".into() },
    ];
    match delete_refusal("acme-1234", &held, false, &Some("/wt/1".into())) {
        Some(Error::PlanIsHeld(slug, n, detail)) => {
            assert_eq!(slug, "acme-1234");
            assert_eq!(n, 1);
            assert_eq!(detail, "PR2 by b in /wt/2");
        }
        other => panic!("expected a refusal, got {other:?}"),
    }
    assert!(delete_refusal("acme-1234", &held, true, &None).is_none());
    assert!(delete_refusal("acme-1234", &held[..1].to_vec(), false, &Some("/wt/1".into())).is_none());
}

#[test]
fn a_new_plan_starts_with_the_usual_spine() {
    let s = starter_sections();
    assert_eq!(s.len(), 8);
    assert_eq!(s[4], ("slices", "Delivery slices", Renders::Slices));
    let patch = SliceUpdate::default();
    assert!(patch.title.is_none() && patch.pr_url.is_none());
    let log = NewLog::default();
    assert!(log.kind.is_none() && log.body.is_empty());
}

fn slice(key: &str, status: Status) -> Slice {
    Slice {
        id: 1,
        plan_id: 1,
        ord: 10,
        key: key.into(),
        title: key.into(),
        status,
        scope_md: "".into(),
        demo_md: None,
        estimate_files: None,
        branch: None,
        base_branch: None,
        pr_url: None,
        worktree_path: None,
        claimed_by: None,
        claimed_at: None,
        blocked_reason: None,
        started_at: None,
        completed_at: None,
        rev: 1,
        updated_at: "x".into(),
    }
}

#[test]
fn every_status_gets_a_column_even_when_empty() {
    let cols: Vec<BoardColumn> = columns(vec![
        slice("PR1", Status::Done),
        slice("PR2", Status::Active),
        slice("PR3", Status::Done),
    ]);
    assert_eq!(cols.len(), 7);
    assert_eq!(cols[0].status, Status::Draft);
    assert!(cols[0].slices.is_empty());
    let done: Vec<&str> = cols[5].slices.iter().map(|s| s.key.as_str()).collect();
    assert_eq!(done, vec!["PR1", "PR3"]);
    assert_eq!(cols[2].slices.len(), 1);
    let b = Board { plan: plan(1, 1, "p"), columns: cols };
    assert_eq!(b.columns.len(), 7);
}

#[test]
fn statuses_become_an_sql_list() {
    assert_eq!(status_list(&Status::INCOMPLETE), "'ready','active','in_review','blocked'");
    assert_eq!(status_list(&[]), "");
}

#[test]
fn this_build_has_no_embedding_model_and_names_resolve_to_known_ones() {
    assert!(!available());
    assert_eq!(DEFAULT_MODEL, "bge-small-en-v1.5");
    assert_eq!(resolve("all-MiniLM-L6"), ("Xenova/all-MiniLM-L6-v2", 384, "all-minilm-l6-v2"));
    assert_eq!(resolve("BGE-Large"), ("Xenova/bge-large-en-v1.5", 1024, "bge-large-en-v1.5"));
    assert_eq!(resolve("anything"), ("Xenova/bge-small-en-v1.5", 384, "bge-small-en-v1.5"));
}

fn lookup(needle: &str, repo_id: Option<i64>, matched: Vec<Plan>) -> Result<Plan, Error> {
    let needle = needle.trim();
    pick_plan(needle, repo_id, narrow_matches(needle, repo_id, matched))
}

#[test]
fn a_plans_exact_name_finds_it_even_when_another_plans_name_contains_it() {
    let shout = plan(1, 1, "shout");
    let greetings = plan(2, 1, "shout-greetings");
    for repo in [Some(1), None] {
        let found = lookup("shout", repo, vec![shout.clone(), greetings.clone()]).unwrap();
        assert_eq!(found.id, 1);
    }
    // Nobody's exact name is still a question, not a guess.
    let err = lookup("sho", Some(1), vec![shout.clone(), greetings.clone()]);
    assert!(matches!(err, Err(Error::AmbiguousPlan(_, 2, _))));
    // From a repo with no plan of that name, the one plan that has it is meant...
    let found = lookup("shout", Some(2), vec![shout.clone(), greetings.clone()]).unwrap();
    assert_eq!(found.id, 1);
    // ...until that repo has its own.
    let theirs = plan(3, 2, "shout");
    let found = lookup("shout", Some(2), vec![shout, greetings, theirs]).unwrap();
    assert_eq!(found.id, 3);
}

#[test]
fn a_plan_is_findable_by_slug_ticket_id_and_title() {
    let mut picker = plan(7, 1, "acme-1234");
    picker.ticket_key = Some("acme-1234".into());
    picker.title = "ACME-1234 - Reusable Date Range Picker".into();
    let canvas = plan(8, 1, "canvas-editor");
    for needle in ["acme-1234", "ACME-1234", "ACME-1234 - Reusable Date Range Picker", "7", "+7"] {
        let found = lookup(needle, Some(1), vec![picker.clone(), canvas.clone()]).unwrap();
        assert_eq!(found.id, 7, "looking up {needle:?}");
    }
    // A loose match that only one plan answers is that plan.
    let found = lookup("date range", Some(1), vec![picker.clone()]).unwrap();
    assert_eq!(found.id, 7);
    // A number that is nobody's id, matched loosely by both, is ambiguous.
    let err = lookup("99999999999999999999", Some(1), vec![picker, canvas]);
    assert!(matches!(err, Err(Error::AmbiguousPlan(_, 2, _))));
}

#[test]
fn an_ambiguous_reference_is_an_error_rather_than_a_guess() {
    // Both titles contain the phrase, so both rows come back; neither is its exact name.
    let dashboard = plan(1, 1, "accounts-v2-dashboard");
    let exports = plan(2, 1, "accounts-v2-exports");
    let err = lookup("accounts v2", Some(1), vec![dashboard, exports]);
    assert!(matches!(err, Err(Error::AmbiguousPlan(_, 2, _))), "{err:?}");
}

#[test]
fn a_new_plan_is_keyed_by_its_ticket_and_starts_with_the_usual_spine() {
    let mut new = NewPlan::default();
    new.repo_id = 1;
    new.title = "ACME-1234 - Reusable Date Range Picker".into();
    let (_, ticket, slug) = plan_keys(&new).unwrap();
    assert_eq!(slug, "acme-1234");
    assert_eq!(ticket.as_deref(), Some("ACME-1234"));
    assert_eq!(initial_status(&new), Status::Draft);

    let sections = starter_sections();
    let keys: Vec<&str> = sections.iter().map(|s| s.0).collect();
    assert_eq!(
        keys,
        vec!["outcome", "grounding", "sources", "decisions", "slices", "questions", "gotchas", "log"]
    );
    assert_eq!(sections[4].2, Renders::Slices);
}

#[test]
fn the_board_returns_every_column_even_the_empty_ones() {
    let columns = columns(vec![
        slice("PR1", Status::Done),
        slice("PR2", Status::Active),
        slice("PR3", Status::Ready),
    ]);
    assert_eq!(columns.len(), Status::ALL.len());
    let by_status = |status: Status| -> Vec<String> {
        columns
            .iter()
            .find(|c| c.status == status)
            .map(|c| c.slices.iter().map(|s| s.key.clone()).collect())
            .unwrap()
    };
    assert_eq!(by_status(Status::Done), ["PR1"]);
    assert_eq!(by_status(Status::Active), ["PR2"]);
    assert_eq!(by_status(Status::Ready), ["PR3"]);
    assert!(by_status(Status::Blocked).is_empty());
}

#[test]
fn two_plans_cannot_share_a_slug_in_one_repo() {
    let mut first = NewPlan::default();
    first.repo_id = 1;
    first.title = "ACME-1234 - Picker".into();
    let (_, _, slug) = create_keys(&first, &vec![]).unwrap();
    assert_eq!(slug, "acme-1234");

    let mut again = NewPlan::default();
    again.repo_id = 1;
    again.title = "ACME-1234 - Picker again".into();
    let err = create_keys(&again, &vec![slug.clone()]);
    assert!(matches!(err, Err(Error::DuplicatePlan(ref s)) if s == "acme-1234"), "{err:?}");
    // Another repo's slugs are not this one's.
    assert!(create_keys(&again, &vec!["canvas-editor".to_string()]).is_ok());
}
