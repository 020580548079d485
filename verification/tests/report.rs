use ai_planner::report::{gotchas_text, hit_where, hook_line, hook_output, logs_text, no_hits, questions_text};
use ai_planner::json::Json;
use ai_planner::model::Gotcha;
use ai_planner::handoff::Gate;
use ai_planner::report::{handoff_next, handoff_refusal, handoff_written};
use ai_planner::drift::{Finding, FixReport};
use ai_planner::report::{applied_text, sync_text};
use ai_planner::git::GitContext;
use ai_planner::import::Outcome;
use ai_planner::model::{LogEntry, LogKind, Plan, Question, Slice, Status};
use ai_planner::report::{
    candidates_text, conflicts_note, current_text, doctor_checks, doctor_text, import_report,
    is_importable_name, is_leftover_name, oneline, outside_repo_report, short_path, skips_dir,
    status_text, Check, DoctorFacts, Leftover, PlanSlices, SliceRef, StatusView,
};

fn plan(slug: &str, title: &str, status: Status) -> Plan {
    Plan {
        id: 1,
        repo_id: 1,
        repo_name: "widget".into(),
        slug: slug.into(),
        title: title.into(),
        status,
        summary: None,
        ticket_key: None,
        ticket_url: None,
        base_branch: None,
        owner: None,
        source_path: None,
        rev: 1,
        created_at: "2026-01-01T00:00:00Z".into(),
        updated_at: "2026-01-01T00:00:00Z".into(),
    }
}

fn slice(key: &str, title: &str, status: Status) -> Slice {
    Slice {
        id: 1,
        plan_id: 1,
        ord: 10,
        key: key.into(),
        title: title.into(),
        status,
        scope_md: "".into(),
        demo_md: None,
        estimate_files: None,
        branch: None,
        base_branch: None,
        pr_url: None,
        worktree_path: None,
        claimed_by: None,
        claimed_at: None,
        blocked_reason: None,
        started_at: None,
        completed_at: None,
        rev: 1,
        updated_at: "x".into(),
    }
}

fn git(worktree: &str, main: &str) -> GitContext {
    GitContext {
        repo_key: "github.com/acme/widget".into(),
        repo_name: "widget".into(),
        remote_url: None,
        main_path: main.into(),
        worktree: worktree.into(),
        branch: Some("feat/picker".into()),
        head_sha: Some("abc1234".into()),
    }
}

fn view() -> StatusView {
    let mut on = slice("PR2", "Button variant", Status::Active);
    on.worktree_path = Some("/home/me/src/widget-2".into());
    on.claimed_by = Some("ben".into());
    StatusView {
        slug: "picker".into(),
        title: "Colour picker".into(),
        status: Status::Active,
        why: "this worktree holds a claim on PR2".into(),
        git: Some(git("/home/me/src/widget-2", "/home/me/src/widget")),
        slices: vec![
            slice("PR1", "Shared core", Status::Done),
            on.clone(),
            slice("PR3", "Docs", Status::Ready),
        ],
        on: Some(on),
        next: Some(slice("PR3", "Docs", Status::Ready)),
        questions: vec![Question {
            id: 1,
            plan_id: 1,
            slice_key: Some("PR3".into()),
            body: "Which palette?".into(),
            status: "open".into(),
            answer: None,
            asked_at: "x".into(),
            answered_at: None,
        }],
        log: vec![LogEntry {
            id: 1,
            plan_id: 1,
            slice_key: None,
            at: "2026-03-01T10:00:00Z".into(),
            actor: None,
            kind: LogKind::Progress,
            branch: None,
            worktree_path: None,
            body: "Landed the core\nwith tests".into(),
        }],
    }
}

#[test]
fn the_status_page_reads_top_to_bottom() {
    let text = status_text(&view(), "/home/me", false);
    assert_eq!(
        text,
        "picker active  Colour picker\n  this worktree holds a claim on PR2\n\n  worktree  ~/src/widget-2  (feat/picker @ abc1234)\n  progress  1/3 slices done\n\n  on        PR2  active  Button variant  (claimed here)\n  next    PR3  ready      Docs\n\n  open questions (1)\n    - (PR3) Which palette?\n\n  recent\n    2026-03-01 Landed the core\n"
    );
}

#[test]
fn the_oneline_status_fits_a_prompt() {
    assert_eq!(
        oneline(&view()),
        "picker - Colour picker (active) · PR2 active · 1/3 slices\n"
    );
}

#[test]
fn every_slice_done_is_said_instead_of_a_next_one() {
    let mut v = view();
    v.slices = vec![slice("PR1", "Shared core", Status::Done)];
    v.on = None;
    v.next = None;
    v.questions = vec![];
    v.log = vec![];
    v.git = None;
    let text = status_text(&v, "/home/me", false);
    assert!(text.ends_with("  progress  1/1 slices done\n\n  next    every slice is done\n"), "{text}");
}

#[test]
fn colour_only_wraps_the_words_it_is_meant_for() {
    let text = current_text("picker", Some("PR2"), Some("a claim"), true);
    assert_eq!(text, "\x1b[1mpicker\x1b[0m · PR2\n\x1b[2m  a claim\x1b[0m\n");
    assert_eq!(current_text("picker", None, None, false), "picker\n");
}

#[test]
fn a_path_under_home_is_shown_with_a_tilde() {
    assert_eq!(short_path("/home/me/src/x", "/home/me"), "~/src/x");
    assert_eq!(short_path("/srv/x", "/home/me"), "/srv/x");
}

#[test]
fn candidates_or_how_to_start_one() {
    assert_eq!(candidates_text(&vec![], false), "`aip new \"<title>\"` starts one\n");
    let ps = vec![plan("picker", "Colour picker", Status::Active)];
    assert_eq!(candidates_text(&ps, false), "pick one with -p:\n  picker  Colour picker\n");
}

fn facts() -> DoctorFacts {
    let mut blocked = slice("S7", "Canvas", Status::Blocked);
    blocked.blocked_reason = Some("   ".into());
    DoctorFacts {
        db_path: "/home/me/.ai-planner/planner.db".into(),
        pending: 0,
        schema_version: 4,
        repo_name: Some("widget".into()),
        git: Some(git("/home/me/src/widget-2", "/home/me/src/widget")),
        stale: vec![SliceRef { plan: "picker".into(), key: "PR2".into() }],
        plans: vec![PlanSlices {
            slug: "canvas".into(),
            slices: vec![blocked, slice("S8", "Other", Status::Ready)],
        }],
        leftovers: vec![
            Leftover { shown: "~/src/widget/BUILD_PLAN.md".into(), imported: true },
            Leftover { shown: "~/src/widget/HANDOFF.md".into(), imported: false },
        ],
        rules_installed: true,
        stale_skills: vec![],
        search_rows: 12,
    }
}

#[test]
fn the_doctor_lists_what_it_checked_and_what_to_fix() {
    let checks = doctor_checks(&facts(), "/home/me");
    let text = doctor_text(&checks, false);
    assert_eq!(
        text,
        "ok   database /home/me/.ai-planner/planner.db\n\
         ok   schema v4, up to date\n\
         ok   repo widget registered\n\
         ok   worktree ~/src/widget-2 shares the database with the main checkout\n\
         !    picker · PR2 is claimed in a worktree that no longer exists\n  aip -p picker slice release PR2\n\
         !    canvas · S7 is blocked with no reason recorded\n  aip -p canvas slice set S7 blocked --reason \"...\"\n\
         !    1 plan/handoff file(s) are not in the database\n  aip import ~/src/widget/HANDOFF.md\n\
         !    1 plan/handoff file(s) are imported and can be deleted\n  rm ~/src/widget/BUILD_PLAN.md\n\
         ok   the always-on rules are in the global charter\n\
         ok   the installed skill matches this binary\n\
         ok   search index holds 12 rows\n\
         \n4 thing(s) to look at\n"
    );
}

#[test]
fn a_clean_install_is_all_good() {
    let mut f = facts();
    f.stale = vec![];
    f.plans = vec![];
    f.leftovers = vec![];
    f.git = Some(git("/home/me/src/widget", "/home/me/src/widget"));
    let checks = doctor_checks(&f, "/home/me");
    assert!(checks.iter().all(|c| matches!(c, Check::Passed(_))));
    let text = doctor_text(&checks, false);
    assert!(text.contains("ok   no stale claims\n"));
    assert!(text.contains("ok   no plan or handoff markdown left on disk\n"));
    assert!(text.ends_with("\nall good\n"));
}

#[test]
fn outside_a_repo_the_doctor_says_so() {
    let mut f = facts();
    f.repo_name = None;
    f.git = None;
    f.pending = 2;
    f.search_rows = 0;
    f.rules_installed = false;
    f.stale_skills = vec!["~/.agents/skills/ai-planner/SKILL.md".into()];
    let checks = doctor_checks(&f, "/home/me");
    let text = doctor_text(&checks, false);
    assert!(text.contains("!    2 migration(s) pending\n  run any aip command to apply them\n"));
    assert!(text.contains("!    not inside a git repository\n  most commands need one\n"));
    assert!(text.contains("!    the always-on rules are not in any global charter\n  aip rules install\n"));
    assert!(text.contains("!    the skill is missing or out of date in ~/.agents/skills/ai-planner/SKILL.md\n  aip setup\n"));
    assert!(text.contains("!    search index is empty\n  aip find --reindex <query>\n"));
}

#[test]
fn an_import_reports_each_file() {
    let created = Outcome::Created {
        plan: plan("picker", "Colour picker", Status::Active),
        slices: 3,
        decisions: 2,
        log: 5,
    };
    assert_eq!(
        import_report("BUILD_PLAN.md", &created, "/home/me", false),
        "ok  picker <- BUILD_PLAN.md\n       3 slices · 2 decisions · 5 log entries · active\n"
    );
    let conflict = Outcome::Conflict {
        plan: plan("picker", "Colour picker", Status::Active),
        existing_sources: vec!["/home/me/a/BUILD_PLAN.md".into(), "/srv/b.md".into()],
    };
    assert_eq!(
        import_report("BUILD_PLAN.md", &conflict, "/home/me", false),
        "  !    BUILD_PLAN.md\n       picker already exists, imported from ~/a/BUILD_PLAN.md, /srv/b.md\n"
    );
    let planned = Outcome::Planned {
        title: "Colour picker".into(),
        slug: "picker".into(),
        slices: 1,
        decisions: 0,
        log: 2,
    };
    assert_eq!(
        import_report("BUILD_PLAN.md", &planned, "/home/me", false),
        "  would BUILD_PLAN.md\n       picker - Colour picker (1 slices, 0 decisions, 2 log entries)\n"
    );
    assert_eq!(
        outside_repo_report("~/x/HANDOFF.md", false),
        "  skip ~/x/HANDOFF.md\n       not inside a git repository\n"
    );
    assert_eq!(conflicts_note(0, false), "");
    assert!(conflicts_note(2, false).starts_with("\n2 conflict(s): two copies"));
}

#[test]
fn plan_documents_are_recognised_by_name() {
    assert!(is_leftover_name("BUILD_PLAN.md"));
    assert!(is_leftover_name("picker-build-plan.MD"));
    assert!(is_leftover_name("handoff-2026.md"));
    assert!(!is_leftover_name("README.md"));
    assert!(!is_leftover_name("BUILD_PLAN.txt"));
    assert!(is_importable_name("Build_Plan.md"));
    assert!(!is_importable_name("notes.md"));
    assert!(skips_dir(".git"));
    assert!(skips_dir("node_modules"));
    assert!(!skips_dir("src"));
}

#[test]
fn a_handoff_says_whether_its_gates_are_green() {
    let gates = vec![
        Gate { name: "tests".into(), result: "pass".into(), detail: None },
        Gate { name: "lint".into(), result: "fail".into(), detail: None },
    ];
    assert_eq!(
        handoff_written("picker", "/home/me/src/w", &gates, "/home/me", false),
        "ok  handoff for picker in ~/src/w\n  RED: lint - not a green baseline\n\nResume in a fresh session with: aip resume\n"
    );
    let text = handoff_written("picker", "/srv/w", &vec![], "/home/me", false);
    assert!(text.contains("  no gates recorded - the next context has nothing to trust\n"));
    assert_eq!(handoff_next(&vec!["push".into(), "open PR".into()], &None), "- push\n- open PR");
    assert_eq!(handoff_next(&vec![], &Some(slice("PR3", "Docs", Status::Ready))), "PR3 - Docs");
    assert!(handoff_refusal(true, false).is_some());
    assert!(handoff_refusal(true, true).is_none());
}

#[test]
fn sync_reports_findings_and_their_fixes() {
    assert_eq!(
        sync_text("picker", &vec![], false, false, false),
        "ok  picker matches git\n  gh is unavailable, so PR state was not checked - only branch history\n"
    );
    let fs = vec![Finding::BranchGone { slice: "PR2".into(), branch: "feat/x".into() }];
    let text = sync_text("picker", &fs, true, false, false);
    assert!(text.starts_with("picker 1 thing(s) out of sync\n  "));
    assert!(text.ends_with("\nre-run with --fix to apply these\n"));
    assert_eq!(applied_text(&FixReport { applied: 2, skipped: 1 }, false), "\nok  applied 2\n  skipped 1\n");
}

#[test]
fn the_session_hook_says_where_the_work_is() {
    let v = view();
    let line = hook_line(&v.slug, &v.title, v.status, &v.slices, &v.on, &v.next, 1, true);
    assert_eq!(
        line,
        "Build plan: picker - Colour picker (active), 1/3 slices done. On PR2 (active). Next: PR3 - Docs. 1 open question(s). A handoff exists for this worktree - run `aip resume` before starting. Use `aip status`, `aip show`, `aip log`, `aip slice set`."
    );
    match hook_output("x") {
        Json::Object(ms) => {
            assert_eq!(ms[0].key, "hookSpecificOutput");
            match &ms[0].value {
                Json::Object(inner) => {
                    assert_eq!(inner[0].key, "hookEventName");
                    assert!(matches!(&inner[1].value, Json::Str(t) if t == "x"));
                }
                _ => panic!("inner is an object"),
            }
        }
        _ => panic!("an object"),
    }
}

#[test]
fn hits_and_listings_read_as_the_terminal_shows_them() {
    assert_eq!(hit_where("plan", "picker"), "title");
    assert_eq!(hit_where("log", "2026-03-01"), "log 2026-03-01");
    assert_eq!(hit_where("slice", "PR2"), "slice PR2");
    assert_eq!(no_hits("pick er", false, false), "nothing matches \"pick er\"\ntry --all to search every repo\n");

    let mut e = view().log[0].clone();
    e.actor = Some("ben".into());
    e.slice_key = Some("PR1".into());
    assert_eq!(
        logs_text(&vec![e], false),
        "2026-03-01 ben        progress     PR1 Landed the core\n  with tests\n"
    );
    assert_eq!(logs_text(&vec![], false), "nothing logged yet\n");

    let mut q = view().questions[0].clone();
    q.answer = Some("HSL".into());
    q.status = "answered".into();
    assert_eq!(questions_text(&vec![q], false), "[x] 1    (PR3) Which palette?\n       answer: HSL\n");
    assert_eq!(questions_text(&vec![], false), "no open questions\n");

    let g = Gotcha { id: 1, plan_id: 1, title: "Fences".into(), body: "Mind them.  \n".into(), created_at: "x".into() };
    assert_eq!(gotchas_text(&vec![g], false), "## Fences\n\nMind them.\n\n");
}
