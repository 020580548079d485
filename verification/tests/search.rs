use ai_planner::model::{LogEntry, LogKind, Plan, Question, Section, Renders};
use ai_planner::search::index_units;
use ai_planner::import::sha256;
use ai_planner::model::Status;
use ai_planner::search::{hit_parts, semantic_leg, 
    first_per_plan_kind, fuse, hit_reference, matched_by, orphans, passes_filters, plan_embedding,
    recency, result_limit, status_nudge, tidy, to_match_query, EmbedStats, IndexUnit, Row,
    SearchOptions, Stored, UnitKey,
};

#[test]
fn a_query_becomes_a_prefix_or_query() {
    assert_eq!(to_match_query("date range"), "\"date\"* OR \"range\"*");
    assert_eq!(to_match_query("canvas-editor!"), "\"canvas\"* OR \"editor\"*");
    assert_eq!(to_match_query("a"), "");
    assert_eq!(to_match_query(""), "");
}

#[test]
fn a_unit_leads_with_its_title_because_a_heading_is_the_best_sentence() {
    let unit = IndexUnit {
        plan_id: 1,
        kind: "slice",
        reference: "PR1".into(),
        title: "Shared core".into(),
        body: "The core and the first variant.".into(),
    };
    assert_eq!(unit.embed_text(), "Shared core. The core and the first variant.");
}

#[test]
fn query_terms_keep_underscores_and_unicode_letters() {
    assert_eq!(to_match_query("snake_case Größe"), "\"snake_case\"* OR \"größe\"*");
    assert_eq!(to_match_query("é"), "\"é\"*");
}

#[test]
fn a_long_body_is_cut_at_220_words_and_an_untitled_unit_is_just_its_body() {
    let body = vec!["w"; 300].join(" ");
    let unit = IndexUnit {
        plan_id: 1,
        kind: "log",
        reference: "1".into(),
        title: "  ".into(),
        body,
    };
    let text = unit.embed_text();
    assert_eq!(text.split(' ').count(), 220);
    assert!(!text.starts_with('.'));
}

#[test]
fn tidying_collapses_whitespace() {
    assert_eq!(tidy("  a \n\t b  c "), "a b c");
    let s = SearchOptions::default();
    assert_eq!(s.limit, 0);
    assert!(!s.lexical_only);
    let e = EmbedStats::default();
    assert_eq!(e.embedded + e.unchanged + e.removed, 0);
}

fn unit(plan_id: i64, kind: &'static str, reference: &str, title: &str, body: &str) -> IndexUnit {
    IndexUnit {
        plan_id,
        kind,
        reference: reference.into(),
        title: title.into(),
        body: body.into(),
    }
}

#[test]
fn only_changed_text_is_embedded_again_and_gone_text_is_dropped() {
    let units = vec![
        unit(1, "section", "outcome", "Outcome", "A picker."),
        unit(1, "slice", "PR1", "Core", "The core."),
        unit(1, "slice", "PR2", "", "   "),
    ];
    let current = sha256(units[0].embed_text().as_bytes());
    let existing = vec![
        Stored {
            id: 7,
            key: UnitKey { plan_id: 1, kind: "section".into(), reference: "outcome".into() },
            sha: current,
        },
        Stored {
            id: 8,
            key: UnitKey { plan_id: 1, kind: "slice".into(), reference: "PR1".into() },
            sha: "stale".into(),
        },
        Stored {
            id: 9,
            key: UnitKey { plan_id: 1, kind: "slice".into(), reference: "PR9".into() },
            sha: "x".into(),
        },
    ];
    let work = plan_embedding(&units, &existing);
    assert_eq!(work.unchanged, 1);
    assert_eq!(work.stale.len(), 1);
    assert_eq!(work.stale[0].unit, 1);
    assert_eq!(work.stale[0].text, "Core. The core.");
    assert_eq!(work.stale[0].sha.len(), 64);
    assert_eq!(work.stale[0].snippet, "Core. The core.");
    assert_eq!(work.live.len(), 2);
    assert_eq!(orphans(&existing, &work.live), vec![9]);
}

fn row(plan_id: i64, kind: &str, reference: &str, label: &str) -> Row {
    Row {
        plan_id,
        kind: kind.into(),
        reference: reference.into(),
        label: label.into(),
        snippet: format!("{kind} {reference}"),
    }
}

#[test]
fn both_legs_fuse_into_one_candidate_per_unit() {
    let lexical = vec![row(1, "slice", "PR1", "Core"), row(2, "log", "17", "2026-03-01")];
    let semantic = vec![row(3, "section", "outcome", "Outcome"), row(1, "slice", "PR1", "Core")];
    let cs = fuse(&lexical, &semantic);
    assert_eq!(cs.len(), 3);
    let pr1 = cs.iter().find(|c| c.row.plan_id == 1).unwrap();
    assert_eq!(pr1.lexical_rank, Some(0));
    assert_eq!(pr1.semantic_rank, Some(1));
    assert_eq!(matched_by(pr1), "both");
    let log = cs.iter().find(|c| c.row.plan_id == 2).unwrap();
    assert_eq!(matched_by(log), "lexical");
    assert_eq!(hit_reference(&log.row), "2026-03-01");
    let section = cs.iter().find(|c| c.row.plan_id == 3).unwrap();
    assert_eq!(matched_by(section), "semantic");
    assert_eq!(hit_reference(&section.row), "outcome");
}

#[test]
fn hits_are_filtered_ranked_and_thinned() {
    let mut opts = SearchOptions::default();
    assert!(passes_filters(5, Status::Done, &opts));
    opts.only_repo = Some(4);
    assert!(!passes_filters(5, Status::Active, &opts));
    opts.only_repo = None;
    opts.statuses = vec![Status::Active];
    assert!(!passes_filters(5, Status::Done, &opts));
    assert!(passes_filters(5, Status::Active, &opts));

    assert_eq!(result_limit(0), 20);
    assert_eq!(result_limit(3), 3);
    assert_eq!(status_nudge(Status::InReview), 1);
    assert_eq!(status_nudge(Status::Deferred), -1);
    assert_eq!(status_nudge(Status::Ready), 0);
    assert_eq!(recency("2026-03-01T10:00:00Z", "2026-03-01T23:00:00Z"), 2);
    assert_eq!(recency("2026-03-20T10:00:00Z", "2026-03-01T23:00:00Z"), 1);
    assert_eq!(recency("2025-03-01T10:00:00Z", "2026-03-01T23:00:00Z"), 0);
    // Short stamps are compared on what they have; text past the cut may be anything.
    assert_eq!(recency("2026-03", "2026-03-01T23:00:00Z"), 1);
    assert_eq!(recency("", "2026-03-01T23:00:00Z"), 0);
    assert_eq!(recency("2026-03-01Tété", "2026-03-01Tnuit"), 2);

    let keys = vec![
        (1, "slice".to_string()),
        (1, "slice".to_string()),
        (2, "log".to_string()),
        (1, "log".to_string()),
    ];
    assert_eq!(first_per_plan_kind(&keys, 20), vec![0, 2, 3]);
    assert_eq!(first_per_plan_kind(&keys, 2), vec![0, 2]);
}

#[test]
fn every_table_contributes_its_units() {
    let plan = Plan {
        id: 1,
        repo_id: 1,
        repo_name: "w".into(),
        slug: "picker".into(),
        title: "Colour picker".into(),
        status: Status::Active,
        summary: Some("A picker".into()),
        ticket_key: None,
        ticket_url: None,
        base_branch: None,
        owner: None,
        source_path: None,
        rev: 1,
        created_at: "x".into(),
        updated_at: "x".into(),
    };
    let section = |title: &str, body: &str| Section {
        id: 1,
        plan_id: 1,
        ord: 10,
        key: title.to_lowercase(),
        title: title.into(),
        body: body.into(),
        renders: Renders::Body,
        rev: 1,
    };
    let q = Question {
        id: 12,
        plan_id: 1,
        slice_key: None,
        body: "Which palette?".into(),
        status: "open".into(),
        answer: None,
        asked_at: "x".into(),
        answered_at: None,
    };
    let note = |id: i64, kind: LogKind| LogEntry {
        id,
        plan_id: 1,
        slice_key: None,
        at: "2026-03-01T10:00:00Z".into(),
        actor: None,
        kind,
        branch: None,
        worktree_path: None,
        body: "did things".into(),
    };
    let units = index_units(
        &vec![plan],
        &vec![section("Outcome", "A picker."), section("Empty", "   ")],
        &vec![],
        &vec![],
        &vec![],
        &vec![q],
        &vec![note(5, LogKind::Progress), note(6, LogKind::Status)],
    );
    let shown: Vec<(&str, &str, &str, &str)> =
        units.iter().map(|u| (u.kind, u.reference.as_str(), u.title.as_str(), u.body.as_str())).collect();
    assert_eq!(
        shown,
        vec![
            ("plan", "picker", "Colour picker", "A picker picker "),
            ("section", "Outcome", "Outcome", "A picker."),
            ("question", "12", "", "Which palette?"),
            ("log", "5", "2026-03-01", "did things"),
        ]
    );
}

#[test]
fn the_semantic_leg_only_runs_against_vectors_from_its_own_model() {
    let state = Some(("bge-small".to_string(), 12i64));
    assert!(semantic_leg(false, Some("bge-small"), &state));
    assert!(!semantic_leg(false, Some("minilm"), &state));
    assert!(!semantic_leg(true, Some("bge-small"), &state));
    assert!(!semantic_leg(false, None, &state));
    assert!(!semantic_leg(false, Some("bge-small"), &None));
    assert!(!semantic_leg(false, Some("bge-small"), &Some(("bge-small".to_string(), 0))));
}

#[test]
fn two_notes_on_one_day_are_indexed_separately() {
    let note = |id: i64, body: &str| LogEntry {
        id,
        plan_id: 1,
        slice_key: None,
        at: "2026-07-20T00:00:00Z".into(),
        actor: None,
        kind: LogKind::Progress,
        branch: None,
        worktree_path: None,
        body: body.into(),
    };
    let units = index_units(
        &vec![],
        &vec![],
        &vec![],
        &vec![],
        &vec![],
        &vec![],
        &vec![note(1, "first note of the day"), note(2, "second note of the day")],
    );
    let logs: Vec<&IndexUnit> = units.iter().filter(|u| u.kind == "log").collect();
    assert_eq!(logs.len(), 2);
    assert_ne!(logs[0].reference, logs[1].reference);

    // The first pass embeds both; with their vectors stored, a second pass embeds nothing.
    let first = plan_embedding(&units, &vec![]);
    assert_eq!(first.stale.len(), 2);
    let stored: Vec<Stored> = first
        .stale
        .iter()
        .enumerate()
        .map(|(i, s)| Stored {
            id: i as i64 + 1,
            key: UnitKey {
                plan_id: units[s.unit].plan_id,
                kind: units[s.unit].kind.into(),
                reference: units[s.unit].reference.clone(),
            },
            sha: s.sha.clone(),
        })
        .collect();
    let second = plan_embedding(&units, &stored);
    assert_eq!(second.stale.len(), 0, "a second pass must re-embed nothing");
    assert_eq!(second.unchanged, 2);
    assert!(orphans(&stored, &second.live).is_empty());
}

#[test]
fn a_deleted_slice_leaves_no_vector_answering_for_it() {
    let before = vec![
        unit(2, "plan", "canvas-editor", "Canvas Editor", "Canvas Editor"),
        unit(2, "slice", "S5", "PDF renderer", "Gotenberg prints the diagram onto an A4 page."),
    ];
    let first = plan_embedding(&before, &vec![]);
    let stored: Vec<Stored> = first
        .stale
        .iter()
        .enumerate()
        .map(|(i, s)| Stored {
            id: i as i64 + 10,
            key: UnitKey {
                plan_id: before[s.unit].plan_id,
                kind: before[s.unit].kind.into(),
                reference: before[s.unit].reference.clone(),
            },
            sha: s.sha.clone(),
        })
        .collect();
    // The slice is gone: its vector is the one orphan, and nothing is embedded again.
    let after = vec![unit(2, "plan", "canvas-editor", "Canvas Editor", "Canvas Editor")];
    let work = plan_embedding(&after, &stored);
    assert_eq!(work.stale.len(), 0);
    assert_eq!(orphans(&stored, &work.live), vec![11]);
}

#[test]
fn hits_join_their_plan_pass_the_filters_and_name_themselves() {
    let plan = |id: i64, status: Status| Plan {
        id,
        repo_id: 1,
        repo_name: "w".into(),
        slug: format!("p{id}"),
        title: "T".into(),
        status,
        summary: None,
        ticket_key: None,
        ticket_url: None,
        base_branch: None,
        owner: None,
        source_path: None,
        rev: 1,
        created_at: "x".into(),
        updated_at: "x".into(),
    };
    let lexical = vec![row(1, "slice", "PR1", "Core"), row(2, "log", "17", "2026-03-01"), row(9, "plan", "gone", "")];
    let semantic = vec![row(1, "slice", "PR1", "Core"), row(1, "log", "5", "2026-03-02")];
    let cs = fuse(&lexical, &semantic);
    let plans = vec![plan(1, Status::Active), plan(2, Status::Done)];

    let all = hit_parts(&cs, &plans, &SearchOptions::default());
    let shown: Vec<(i64, &str, &str, &str)> =
        all.iter().map(|h| (h.plan.id, h.kind.as_str(), h.reference.as_str(), h.matched)).collect();
    // Plan 9 is gone, so its hit is dropped; a log hit is named by its date.
    assert_eq!(
        shown,
        vec![(1, "slice", "PR1", "both"), (2, "log", "2026-03-01", "lexical"), (1, "log", "2026-03-02", "semantic")]
    );

    let mut opts = SearchOptions::default();
    opts.statuses = vec![Status::Active];
    let live = hit_parts(&cs, &plans, &opts);
    assert_eq!(live.len(), 2);
    assert!(live.iter().all(|h| h.plan.id == 1));

    // In ranked order, one hit per plan and kind survives, up to the limit.
    let picked = ai_planner::search::pick_hits(&all, 0);
    let kept: Vec<(i64, &str, &str)> = picked.iter().map(|h| (h.plan.id, h.kind.as_str(), h.reference.as_str())).collect();
    assert_eq!(kept, vec![(1, "slice", "PR1"), (2, "log", "2026-03-01"), (1, "log", "2026-03-02")]);
    let mut twice = all.clone();
    twice.extend(all.iter().cloned());
    assert_eq!(ai_planner::search::pick_hits(&twice, 0).len(), 3);
    let top = ai_planner::search::pick_hits(&twice, 2);
    assert_eq!(top.len(), 2);
    assert_eq!((top[0].plan.id, top[0].kind.as_str()), (1, "slice"));
    assert_eq!((top[1].plan.id, top[1].kind.as_str()), (2, "log"));
}
