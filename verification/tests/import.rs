
use ai_planner::import::{
    build_plan_files_named_in, derive_slug, derive_status, field_after,
    handoff_by_name, handoff_gotchas, handoff_subject, hex, looks_like_handoff, sha256,
    ImportOptions,
};
use ai_planner::model::Status;
use ai_planner::parse::parse_plan;

#[test]
fn gotchas_are_lifted_out_of_a_handoff_and_nothing_else_is() {
    let md = "# HANDOFF - ACME-1234\n\n\
              ## RESUME HERE\n\nStuff.\n\n\
              ## Gotchas\n\n\
              ### Verifying in the browser costs you the shared Herd symlink\n\n\
              `app.test` is one symlink shared by every worktree.\n\n\
              ### Test queries\n\n\
              Use `getByLabelText`.\n\n\
              ## Open questions for Ben\n\nNone.\n";
    let gotchas = handoff_gotchas(md);
    assert_eq!(gotchas.len(), 2);
    assert!(gotchas[0].0.starts_with("Verifying in the browser"));
    assert!(gotchas[0].1.contains("one symlink shared"));
    assert_eq!(gotchas[1].0, "Test queries");
    assert!(!gotchas[1].1.contains("Open questions"));
}

#[test]
fn a_handoff_is_told_apart_from_a_plan() {
    assert!(looks_like_handoff(
        "HANDOFF-ACME-1234.md",
        "# Something\n"
    ));
    assert!(looks_like_handoff(
        "notes.md",
        "# HANDOFF - ACME-1234 Reusable Date Range Picker\n"
    ));
    assert!(!looks_like_handoff(
        "ACME-1234_BUILD_PLAN.md",
        "# ACME-1234 - Reusable Date Range Picker\n"
    ));
}

#[test]
fn the_name_alone_can_mark_a_handoff() {
    assert!(handoff_by_name(Some("handoff.md"), ""));
    assert!(!handoff_by_name(None, "## HANDOFF\n"));
}

#[test]
fn only_the_last_component_of_the_path_names_a_handoff() {
    assert!(looks_like_handoff("/work/plans/handoff-pr2.md", "# Notes\n"));
    assert!(!looks_like_handoff("/work/HANDOFF/notes.md", "# Notes\n"));
    assert!(!looks_like_handoff("/work/HANDOFF/..", "# Notes\n"));
}

#[test]
fn a_gotcha_inside_a_fence_is_not_a_heading() {
    let md = "## Gotchas\n\n### One\n\n```\n### not a gotcha\n```\n";
    let g = handoff_gotchas(md);
    assert_eq!(g.len(), 1);
    assert_eq!(g[0].0, "One");
    assert_eq!(g[0].1, "```\n### not a gotcha\n```");
}

#[test]
fn sha256_matches_the_known_digest() {
    assert_eq!(
        sha256(b"hello world"),
        "b94d27b9934d3e08a52e52d7da7dabfac484efe37a5380ee9088f7ace2efcde9"
    );
    assert_eq!(
        sha256(b""),
        "e3b0c44298fc1c149afbf4c8996fb92427ae41e4649b934ca495991b7852b855"
    );
    assert_eq!(hex(&[0x00, 0xab, 0x7f]), "00ab7f");
}

#[test]
fn slugs_come_from_the_ticket_or_the_subject() {
    let p = parse_plan("# ACME-1234 - Reusable Date Range Picker\n\n## Scope\n\nx\n");
    assert_eq!(derive_slug(&p), "acme-1234");
    let p = parse_plan("# Canvas Editor - Build Plan\n\n## Scope\n\nx\n");
    assert_eq!(derive_slug(&p), "canvas-editor");
    let p = parse_plan("# Accounts V2 Build Plan\n\n## Scope\n\nx\n");
    assert_eq!(derive_slug(&p), "accounts-v2");
}

#[test]
fn an_imported_plan_starts_in_the_status_its_slices_say() {
    let none = parse_plan("# P\n\n## Scope\n\nx\n");
    assert_eq!(derive_status(&none), Status::Draft);
    let going = parse_plan("# P\n\n## Slices\n\n### PR1 - A - DONE\n\nx\n\n### PR2 - B\n\ny\n");
    assert_eq!(derive_status(&going), Status::Active);
    let all = parse_plan("# P\n\n## Slices\n\n### PR1 - A - DONE\n\nx\n");
    assert_eq!(derive_status(&all), Status::Done);
    let fresh = parse_plan("# P\n\n## Slices\n\n### PR1 - A\n\nx\n");
    assert_eq!(derive_status(&fresh), Status::Ready);
}

#[test]
fn a_handoff_title_names_its_subject() {
    assert_eq!(
        handoff_subject("HANDOFF - Canvas Editor (ACME-1151..39909)").as_deref(),
        Some("Canvas Editor")
    );
    assert_eq!(handoff_subject("Handoff: Accounts project").as_deref(), Some("Accounts"));
    assert_eq!(handoff_subject("HANDOFF"), None);
    assert_eq!(handoff_subject("Notes"), None);
}

#[test]
fn quoted_build_plan_files_are_found_once() {
    let md = "See `ACME-1234_BUILD_PLAN.md` and (acme-1234_build_plan.md), \
              again ACME-1234_BUILD_PLAN.md, not notes.md.";
    assert_eq!(
        build_plan_files_named_in(md),
        vec!["ACME-1234_BUILD_PLAN.md", "acme-1234_build_plan.md"]
    );
}

#[test]
fn header_fields_are_read_from_list_lines() {
    let md = "# Handoff\n\n- **Branch:** `feat/x`\n- Head: abc123\n";
    assert_eq!(field_after(md, "branch"), None);
    assert_eq!(field_after(md, "head").as_deref(), Some("abc123"));
    assert_eq!(field_after("Branch: `main`\n", "branch").as_deref(), Some("main"));
    // The Kelvin sign lowercases to 'k' but is three bytes long, so the value's start
    // falls inside it: that line is passed over, not refused.
    assert_eq!(field_after("o\u{212A}: x\nok: y\n", "ok").as_deref(), Some("y"));
    assert_eq!(field_after("nothing here", "branch"), None);
}

#[test]
fn import_options_default_to_a_careful_write() {
    let o = ImportOptions::default();
    assert!(!o.replace && !o.dry_run);
}

#[test]
fn plans_are_imported_before_handoffs_each_in_the_order_found() {
    let order = ai_planner::import::import_order(&vec![true, false, true, false, false]);
    assert_eq!(order, vec![1, 3, 4, 0, 2]);
    assert!(ai_planner::import::import_order(&vec![]).is_empty());
}
