use ai_planner::model::{Renders, Status};
use ai_planner::parse::{parse_plan, slice_status};

#[test]
fn the_header_yields_the_ticket_owner_and_base_branch() {
    let md = "# ACME-1234 - Reusable Date Range Picker\n\n\
              **Ticket:** https://app.clickup.com/t/1234567/ACME-1234\n\n\
              ## 1. Scope\n\nA reusable picker.\n";
    let p = parse_plan(md);
    assert_eq!(p.title, "ACME-1234 - Reusable Date Range Picker");
    assert_eq!(p.ticket_key.as_deref(), Some("ACME-1234"));
    assert_eq!(
        p.ticket_url.as_deref(),
        Some("https://app.clickup.com/t/1234567/ACME-1234")
    );
    assert_eq!(p.sections.len(), 1);
    assert_eq!(p.sections[0].title, "1. Scope");
    assert_eq!(p.sections[0].key, "scope");
}

#[test]
fn a_blockquote_header_yields_the_summary_owner_and_base_branch() {
    let md = "# Accounts V2 - Build Plan\n\n\
              > Living progress doc. Base branch: `feature/accounts-v2`.\n\
              > Owner: Ben Zotti. Methodology: dual-track Agile.\n\n\
              ## Baseline\n\nx\n";
    let p = parse_plan(md);
    assert_eq!(p.owner.as_deref(), Some("Ben Zotti"));
    assert_eq!(p.base_branch.as_deref(), Some("feature/accounts-v2"));
    assert!(p.summary.unwrap().contains("dual-track Agile"));
}

#[test]
fn slices_are_recognised_at_either_heading_level_in_every_dialect() {
    let md = "# P\n\n## 5. Delivery slices\n\nSeven PRs.\n\n\
              ### PR1 - Shared core (~40 files)\n\nCore work.\n\n\
              **Demo:** Main Dashboard, pick \"Last quarter\".\n\n\
              ### S2 - Add entities to the canvas (ACME-1153) - DELIVERED 2026-07-29\n\nDone work.\n\n\
              ### M2 - Membership foundation  ✅ IN REVIEW\n\nReview work.\n\n\
              ### Phase 0 - Rebase, re-green, measure\n\nFirst.\n\n\
              ### PR8 (optional) - Exclude panels\n\nMaybe.\n";
    let p = parse_plan(md);
    let keys: Vec<&str> = p.slices.iter().map(|s| s.key.as_str()).collect();
    assert_eq!(keys, vec!["PR1", "S2", "M2", "Phase 0", "PR8"]);

    assert_eq!(p.slices[0].estimate_files, Some(40));
    assert_eq!(
        p.slices[0].demo.as_deref(),
        Some("Main Dashboard, pick \"Last quarter\".")
    );
    assert!(!p.slices[0].scope.contains("Demo"));
    assert_eq!(p.slices[0].title, "Shared core");

    assert_eq!(p.slices[1].status, Status::Done);
    assert_eq!(p.slices[2].status, Status::InReview);
    assert_eq!(p.slices[2].title, "Membership foundation");
    assert_eq!(p.slices[3].status, Status::Ready);
    assert_eq!(p.slices[4].status, Status::Deferred);
    assert_eq!(
        slice_status("PR9 - Make the stack complete and honest", "PR9", ""),
        Status::Ready
    );
    assert_eq!(
        slice_status("M0 - Grounding & Plan  ✅ (this session)", "M0", ""),
        Status::Done
    );

    assert_eq!(p.sections[0].renders, Renders::Slices);
    assert_eq!(p.sections[0].body, "Seven PRs.");
}

#[test]
fn level_two_slices_attach_to_the_section_above_them() {
    let md = "# P\n\n## 4. Delivery approach\n\nStacked.\n\n\
              ## Slice 0 - Extract a shared AssignToField (enabler)\n\nEnabler.\n\n\
              ## Slice 1 - Commercial: assign to individuals\n\nWork.\n";
    let p = parse_plan(md);
    let keys: Vec<&str> = p.slices.iter().map(|s| s.key.as_str()).collect();
    assert_eq!(keys, vec!["S0", "S1"]);
    assert_eq!(p.slices[0].section.as_deref(), Some("delivery-approach"));
    assert_eq!(p.sections.len(), 1);
}

#[test]
fn decisions_keep_their_own_numbering_scheme() {
    let md = "# P\n\n## 3. Architecture decisions\n\n\
              ### AD-1 - Storage: a dedicated table, not a Calculator\n\nBecause.\n\n\
              ### AD-2 - Content: store the export verbatim\n\nBecause.\n\n\
              ## 3b. Decisions\n\n### D1 - The value is a specification\n\nBecause.\n";
    let p = parse_plan(md);
    let keys: Vec<&str> = p.decisions.iter().map(|d| d.key.as_str()).collect();
    assert_eq!(keys, vec!["AD-1", "AD-2", "D1"]);
    assert!(p.decisions[0].title.starts_with("Storage"));
}

#[test]
fn prose_subheadings_stay_inside_their_section() {
    let md = "# P\n\n## 2. What already exists\n\nIntro.\n\n\
              ### Backend bridge\n\nDetail.\n\n\
              ### Frontend package\n\nMore detail.\n\n\
              ## 3. Next\n\nx\n";
    let p = parse_plan(md);
    assert_eq!(p.sections.len(), 2);
    assert!(p.sections[0].body.contains("### Backend bridge"));
    assert!(p.sections[0].body.contains("More detail."));
}

#[test]
fn headings_inside_code_fences_are_not_headings() {
    let md = "# P\n\n## 1. Scope\n\n```sh\n# not a heading\n## also not\n```\n\nReal text.\n\n## 2. Next\n\nx\n";
    let p = parse_plan(md);
    assert_eq!(p.sections.len(), 2);
    assert!(p.sections[0].body.contains("# not a heading"));
}

#[test]
fn a_dated_progress_log_keeps_its_own_dates_newest_first() {
    let md = "# P\n\n## Progress log\n\n\
              - 2026-07-20 - M3 bulk-archive slice completed.\n\
              - 2026-07-17 - M4 completed. Facility Limits added.\n\
              - M0 complete: grounded on ClickUp.\n";
    let p = parse_plan(md);
    assert_eq!(p.log.len(), 3);
    assert_eq!(p.log[0].at.as_deref(), Some("2026-07-20T00:00:00Z"));
    assert_eq!(p.log[0].body, "M3 bulk-archive slice completed.");
    assert_eq!(p.log[2].at, None);
    assert_eq!(p.sections[0].renders, Renders::Log);
}

#[test]
fn open_questions_become_rows() {
    let md = "# P\n\n## 6. Open questions\n\nThings needing a call.\n\n\
              - **Which variant on which surface.** Recommendation: button for page-level filters.\n\
              - **Exclude...** build it or drop it.\n";
    let p = parse_plan(md);
    assert_eq!(p.questions.len(), 2);
    assert!(p.questions[0].contains("Which variant"));
    assert_eq!(p.sections[0].body, "Things needing a call.");
}

#[test]
fn a_prose_heading_after_a_slice_folds_into_that_slice() {
    let md = "# P\n\n## 4. Build plan\n\n\
              ### Phase 0 - Rebase, re-green, measure\n\nFirst.\n\n\
              ### Phase 0 outcome (2026-07-29) - DONE\n\nWhat happened.\n";
    let p = parse_plan(md);
    assert_eq!(p.slices.len(), 1);
    assert_eq!(p.slices[0].key, "Phase 0");
    assert!(p.slices[0].scope.contains("Phase 0 outcome"));
    assert!(p.slices[0].scope.contains("What happened."));
    assert_eq!(p.slices[0].status, Status::Done);
}

#[test]
fn a_duplicate_decision_key_folds_back_into_its_section() {
    let md = "# P\n\n## Decisions\n\n### D1 - First\n\nA.\n\n### D1 - Again\n\nB.\n";
    let p = parse_plan(md);
    assert_eq!(p.decisions.len(), 1);
    assert_eq!(p.sections[0].body, "### D1 - Again\n\nB.");
    assert_eq!(p.sections[0].renders, Renders::Decisions);
}

#[test]
fn a_plan_without_a_title_keeps_an_empty_one() {
    let p = parse_plan("## Scope\n\nx\n");
    assert_eq!(p.title, "");
    assert_eq!(p.sections.len(), 1);
    assert_eq!(p.sections[0].key, "scope");
    assert!(p.gotchas.is_empty());
}

#[test]
fn two_sections_with_one_title_get_distinct_keys() {
    let p = parse_plan("# P\n\n## Notes\n\na\n\n## Notes\n\nb\n");
    let keys: Vec<&str> = p.sections.iter().map(|s| s.key.as_str()).collect();
    assert_eq!(keys, vec!["notes", "notes-2"]);
}

#[test]
fn an_ordinary_plan_reads() {
    let p = parse_plan("# P\n\n## Scope\n\nx\n");
    assert_eq!(p.title, "P");
    assert_eq!(p.sections[0].body, "x");
}

#[test]
fn a_bullet_whose_date_would_cut_a_character_is_kept_undated() {
    let p = parse_plan("# P\n\n## Progress log\n\n- ✅✅✅✅ shipped\n");
    assert_eq!(p.log.len(), 1);
    assert_eq!(p.log[0].at, None);
    assert_eq!(p.log[0].body, "✅✅✅✅ shipped");
    assert_eq!(p.sections[0].renders, Renders::Log);
}

#[test]
fn a_label_the_lowercasing_moved_is_left_unread_not_refused() {
    // 'İ' lowercases to two characters, so the label's offset in the lowered text is
    // not a boundary in the text as written.
    let p = parse_plan("# P\n\n> İİİ owner: ada\n\n## Scope\n\nx\n");
    assert_eq!(p.title, "P");
    assert_eq!(p.sections[0].body, "x");
}
