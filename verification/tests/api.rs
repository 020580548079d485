use ai_planner::api::{chosen_token, event_data, watch_step, Watch};
use ai_planner::report::{outcome_json, section_body, unresolved_message};
use ai_planner::json::Json;
use ai_planner::import::Outcome;
use ai_planner::api::{
    answer_request, applescript_string, clamp_limit, claim_worktree, label, note_request,
    status_request, ApiError,
};
use ai_planner::error::Error;
use ai_planner::api::{meta_json, plan_filter, slice_update, status_body, PlanQuery, ServeOptions, SlicePatch, StatusBody};
use ai_planner::model::{LogKind, Plan, Slice, Status};
use ai_planner::report::{located_json, rule_name, unresolved_json};
use ai_planner::resolve::{Resolution, Rule, Unresolved};

#[test]
fn blocking_without_a_reason_is_refused_rather_than_recorded_blank() {
    let err = status_request("blocked", Some("   ")).unwrap_err();
    assert_eq!(err.status(), 400);
    assert_eq!(err.code(), "bad_request");
    assert_eq!(err.message(), "blocking a slice needs a reason");
    let (s, why) = status_request("blocked", Some("waiting on design")).unwrap();
    assert_eq!(s, Status::Blocked);
    assert_eq!(why.as_deref(), Some("waiting on design"));
}

#[test]
fn an_unknown_status_is_a_bad_request_not_a_corrupt_row() {
    let err = status_request("finished-ish", None).unwrap_err();
    assert_eq!(err.status(), 400);
    assert!(err.message().starts_with("unknown status \"finished-ish\""));
    let (s, why) = status_request("wip", Some("")).unwrap();
    assert_eq!(s, Status::Active);
    assert_eq!(why, None);
}

#[test]
fn a_note_lands_against_its_slice_and_an_empty_one_is_refused() {
    let err = note_request("  ", Some("PR1"), None).unwrap_err();
    assert_eq!(err.message(), "a note needs a body");
    let (body, slice, kind) = note_request("  landed it \n", Some("PR1"), None).unwrap();
    assert_eq!(body, "landed it");
    assert_eq!(slice.as_deref(), Some("PR1"));
    assert_eq!(kind, LogKind::Progress);
    let (_, slice, kind) = note_request("x", Some(" "), Some("gotcha")).unwrap();
    assert_eq!(slice, None);
    assert_eq!(kind, LogKind::Gotcha);
    assert_eq!(note_request("x", None, Some("nonsense")).unwrap_err().status(), 400);
}

#[test]
fn a_claim_another_worktree_holds_is_refused_and_names_the_holder() {
    let err = ApiError::from_error(&Error::AlreadyClaimed("PR1".into(), "ben".into(), "/wt/3".into()));
    assert_eq!(err.status(), 409);
    assert_eq!(err.code(), "already_claimed");
    assert_eq!(err.message(), "slice PR1 is already claimed by ben in /wt/3");
    match err {
        ApiError::Claimed { slice, holder, worktree, .. } => {
            assert_eq!((slice.as_str(), holder.as_str(), worktree.as_str()), ("PR1", "ben", "/wt/3"));
        }
        other => panic!("{other:?}"),
    }
}

#[test]
fn a_missing_plan_is_a_404_not_a_500() {
    let err = ApiError::from_error(&Error::NoSuchPlan("picker".into()));
    assert_eq!(err.status(), 404);
    assert_eq!(err.code(), "not_found");
    assert_eq!(err.message(), "no plan matching \"picker\"");
    let moved = ApiError::from_error(&Error::Conflict("section outcome".into(), 1, 2));
    assert_eq!(moved.status(), 409);
    assert_eq!(
        moved.message(),
        "section outcome was changed by another writer since you read it (rev 1, now 2) - re-read and retry"
    );
    assert_eq!(ApiError::from_error(&Error::Git("boom".into())).status(), 500);
    assert_eq!(ApiError::Unauthorized.message(), "missing or wrong token");
}

#[test]
fn a_board_claim_falls_back_to_the_main_checkout() {
    assert_eq!(claim_worktree(Some("/wt/2"), Some("/src/widget")).unwrap(), "/wt/2");
    assert_eq!(claim_worktree(Some("  "), Some("/src/widget")).unwrap(), "/src/widget");
    match claim_worktree(None, None) {
        Err(Error::Invalid(m)) => {
            assert_eq!(m, "this repo has no recorded checkout - claim from a worktree, or pass one")
        }
        other => panic!("{other:?}"),
    }
}

#[test]
fn answers_and_limits_are_checked() {
    assert_eq!(answer_request("  yes \n").unwrap(), "yes");
    assert_eq!(answer_request(" ").unwrap_err().message(), "an answer needs a body");
    assert_eq!(clamp_limit(None).unwrap(), Some(200));
    assert_eq!(clamp_limit(Some(5)).unwrap(), Some(5));
    assert_eq!(clamp_limit(Some(9000)).unwrap(), Some(2000));
    assert_eq!(clamp_limit(Some(0)).unwrap_err().message(), "limit must be positive");
}

#[test]
fn status_labels_read_as_words() {
    let labels: Vec<String> = Status::ALL.iter().map(|s| label(*s)).collect();
    assert_eq!(
        labels,
        vec!["Draft", "Ready", "Active", "In review", "Blocked", "Done", "Deferred"]
    );
}

#[test]
fn applescript_literals_escape_quotes_and_backslashes() {
    assert_eq!(applescript_string("a \"b\" \\c"), "\"a \\\"b\\\" \\\\c\"");
}

#[test]
fn the_watcher_announces_each_change_once() {
    let w = Watch { last: 3, generation: 0 };
    let (w, sent) = watch_step(w, Some(3));
    assert_eq!(sent, None);
    let (w, sent) = watch_step(w, None);
    assert_eq!(sent, None);
    let (w, sent) = watch_step(w, Some(4));
    assert_eq!(sent, Some(1));
    assert_eq!(w, Watch { last: 4, generation: 1 });
    let (_, sent) = watch_step(w, Some(4));
    assert_eq!(sent, None);
    assert_eq!(event_data(Some(7)), "7");
    assert_eq!(event_data(None), "lagged");
    assert_eq!(chosen_token(Some("  ")), None);
    assert_eq!(chosen_token(Some("abc")).as_deref(), Some("abc"));
}

#[test]
fn an_appended_section_keeps_what_was_there() {
    assert_eq!(section_body(Some("First.\n\n"), "  Second. ", true), "First.\n\nSecond.");
    assert_eq!(section_body(Some("   "), " Second ", true), " Second ");
    assert_eq!(section_body(Some("First."), "new", false), "new");
}

#[test]
fn an_agent_is_told_which_plans_it_can_name() {
    assert_eq!(unresolved_message("nothing resolves here", &vec![]), "nothing resolves here - call create_plan first");
}

#[test]
fn an_import_report_names_the_outcome_for_an_agent() {
    let j = outcome_json("/x/BUILD_PLAN.md", &Outcome::Skipped { reason: "no title heading".into() });
    match j {
        Json::Object(ms) => {
            let keys: Vec<&str> = ms.iter().map(|m| m.key.as_str()).collect();
            assert_eq!(keys, vec!["file", "outcome", "detail"]);
            assert!(matches!(&ms[1].value, Json::Str(s) if s == "skipped"));
        }
        _ => panic!("an object"),
    }
}

#[test]
fn the_board_defaults_to_a_free_port_and_no_fixed_token() {
    let o = ServeOptions::default();
    assert_eq!(o.port, 0);
    assert!(o.token.is_none());
    let q = PlanQuery::default();
    assert!(q.repo.is_none() && !q.incomplete && !q.unfinished && q.q.is_none());
}

#[test]
fn incomplete_wins_over_unfinished_and_a_blank_phrase_searches_nothing() {
    let q = PlanQuery { repo: Some(3), incomplete: true, unfinished: true, q: Some("  ".to_string()) };
    let f = plan_filter(&q);
    assert_eq!(f.repo_id, Some(3));
    assert_eq!(f.statuses, vec![Status::Ready, Status::Active, Status::InReview, Status::Blocked]);
    assert_eq!(f.query, None);

    let q = PlanQuery { repo: None, incomplete: false, unfinished: true, q: Some("auth".to_string()) };
    let f = plan_filter(&q);
    assert_eq!(f.repo_id, None);
    assert_eq!(
        f.statuses,
        vec![Status::Draft, Status::Ready, Status::Active, Status::InReview, Status::Blocked]
    );
    assert_eq!(f.query.as_deref(), Some("auth"));

    let f = plan_filter(&PlanQuery::default());
    assert!(f.statuses.is_empty());
    assert_eq!(f.query, None);
}

#[test]
fn a_status_body_is_read_as_a_status_request() {
    let b = StatusBody { status: "blocked".to_string(), reason: None };
    let err = status_body(&b).unwrap_err();
    assert_eq!(err.status(), 400);
    let b = StatusBody { status: "done".to_string(), reason: Some("shipped".to_string()) };
    let (s, _) = status_body(&b).unwrap();
    assert_eq!(s, Status::Done);
}

#[test]
fn a_board_edit_never_touches_the_block_reason() {
    let p = SlicePatch {
        title: Some("New title".to_string()),
        scope_md: None,
        demo_md: Some("run it".to_string()),
        estimate_files: Some(4),
        branch: None,
        base_branch: Some("main".to_string()),
        pr_url: None,
    };
    let u = slice_update(&p);
    assert_eq!(u.title.as_deref(), Some("New title"));
    assert_eq!(u.scope_md, None);
    assert_eq!(u.demo_md.as_deref(), Some("run it"));
    assert_eq!(u.estimate_files, Some(4));
    assert_eq!(u.branch, None);
    assert_eq!(u.base_branch.as_deref(), Some("main"));
    assert_eq!(u.pr_url, None);
    assert_eq!(u.blocked_reason, None);
}

fn render(j: &Json) -> String {
    match j {
        Json::Null => "null".to_string(),
        Json::Bool(b) => b.to_string(),
        Json::Number(n) => n.clone(),
        Json::Str(s) => format!("{s:?}"),
        Json::Array(items) => format!("[{}]", items.iter().map(render).collect::<Vec<_>>().join(",")),
        Json::Object(ms) => format!(
            "{{{}}}",
            ms.iter().map(|m| format!("{:?}:{}", m.key, render(&m.value))).collect::<Vec<_>>().join(",")
        ),
    }
}

fn a_plan(slug: &str, title: &str) -> Plan {
    Plan {
        id: 1,
        repo_id: 1,
        repo_name: "widget".into(),
        slug: slug.into(),
        title: title.into(),
        status: Status::InReview,
        summary: None,
        ticket_key: None,
        ticket_url: None,
        base_branch: None,
        owner: None,
        source_path: None,
        rev: 1,
        created_at: "2026-08-01T00:00:00Z".into(),
        updated_at: "2026-08-01T00:00:00Z".into(),
    }
}

fn a_slice(key: &str, title: &str, status: Status) -> Slice {
    Slice {
        id: 1,
        plan_id: 1,
        ord: 10,
        key: key.into(),
        title: title.into(),
        status,
        scope_md: "".into(),
        demo_md: None,
        estimate_files: None,
        branch: None,
        base_branch: None,
        pr_url: None,
        worktree_path: None,
        claimed_by: None,
        claimed_at: None,
        blocked_reason: None,
        started_at: None,
        completed_at: None,
        rev: 1,
        updated_at: "2026-08-01T00:00:00Z".into(),
    }
}

#[test]
fn locating_reports_the_plan_the_slice_the_next_one_and_why() {
    let r = Resolution {
        plan: a_plan("acme-1234", "Picker"),
        slice: Some(a_slice("PR2", "Core", Status::Active)),
        rule: Rule::SliceBranch,
    };
    let slices = vec![
        a_slice("PR1", "Spine", Status::Done),
        a_slice("PR2", "Core", Status::Active),
        a_slice("PR3", "Polish", Status::Ready),
    ];
    let next = Some(a_slice("PR3", "Polish", Status::Ready));
    let j = located_json(&r, &slices, &next, 2, Some("feat/acme-1234"), "/wt/1", true);
    assert_eq!(
        render(&j),
        r#"{"plan":"acme-1234","title":"Picker","status":"in_review","slice":"PR2","slice_status":"active","next_slice":"PR3","next_title":"Polish","done":1,"total":3,"open_questions":2,"rule":"slice_branch","why":"a slice records this branch","branch":"feat/acme-1234","worktree":"/wt/1","has_handoff":true}"#
    );
    let r = Resolution { plan: a_plan("p", "P"), slice: None, rule: Rule::OnlyPlan };
    let j = located_json(&r, &vec![], &None, 0, None, "/wt", false);
    assert_eq!(
        render(&j),
        r#"{"plan":"p","title":"P","status":"in_review","slice":null,"slice_status":null,"next_slice":null,"next_title":null,"done":0,"total":0,"open_questions":0,"rule":"only_plan","why":"the only unfinished plan in this repo","branch":null,"worktree":"/wt","has_handoff":false}"#
    );
    assert_eq!(rule_name(Rule::BranchTicket), "branch_ticket");
    assert_eq!(rule_name(Rule::WorktreeClaim), "worktree_claim");
}

#[test]
fn an_unresolved_locate_offers_the_candidates() {
    let u = Unresolved {
        reason: "2 unfinished plans in this repo".into(),
        candidates: vec![a_plan("a", "Alpha"), a_plan("b", "Beta")],
    };
    assert_eq!(
        render(&unresolved_json(&u)),
        r#"{"resolved":false,"reason":"2 unfinished plans in this repo","candidates":[{"plan":"a","title":"Alpha"},{"plan":"b","title":"Beta"}]}"#
    );
}

fn member<'a>(j: &'a Json, key: &str) -> &'a Json {
    match j {
        Json::Object(ms) => &ms.iter().find(|m| m.key == key).unwrap().value,
        _ => panic!("an object"),
    }
}

#[test]
fn meta_publishes_the_status_vocabulary_so_the_client_does_not_hardcode_it() {
    let meta = meta_json("/tmp/board/planner.db", "ben", "0.1.0");
    let statuses = match member(&meta, "statuses") {
        Json::Array(items) => items,
        _ => panic!("an array"),
    };
    assert_eq!(statuses.len(), Status::ALL.len());
    assert!(matches!(member(&statuses[0], "value"), Json::Str(v) if v == "draft"));

    let in_review = statuses
        .iter()
        .find(|s| matches!(member(s, "value"), Json::Str(v) if v == "in_review"))
        .unwrap();
    assert!(matches!(member(in_review, "label"), Json::Str(l) if l == "In review"));
    assert!(matches!(member(in_review, "terminal"), Json::Bool(false)));
    assert!(matches!(member(&meta, "database"), Json::Str(d) if d.ends_with("planner.db")));
    assert_eq!(
        render(&statuses[5]),
        r#"{"value":"done","label":"Done","marker":"✔","terminal":true}"#
    );
}
