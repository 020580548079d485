use ai_planner::import::{derive_slug, import_step, ImportOptions, ImportStep};
use ai_planner::import::{handoff_lookups, handoff_title, HandoffLookup};
use ai_planner::ingest::rows_of;
use ai_planner::model::{DecisionStatus, LogKind, Status};
use ai_planner::parse::parse_plan;

const DOC: &str = "# Colour picker\n\n## Outcome\n\nA picker.\n\n## Decisions\n\n### D1 - Use HSL\n\nBecause.\n\n## Slices\n\n### PR1 - Shared core ✅\n\nThe core.\n\n### PR2 - Button variant\n\nThe button.\n\n## Progress log\n\n- 2026-03-01: started\n- 2026-03-02: core landed\n";

#[test]
fn a_parsed_plan_becomes_rows_in_document_order() {
    let parsed = parse_plan(DOC);
    let rows = rows_of(&parsed, "2026-03-05T00:00:00Z", "ben");
    assert_eq!(rows.sections.len(), parsed.sections.len());
    for (i, s) in rows.sections.iter().enumerate() {
        assert_eq!(s.ord, (i as i64 + 1) * 10);
        assert_eq!(s.key, parsed.sections[i].key);
    }
    assert_eq!(rows.decisions.len(), parsed.decisions.len());
    assert!(rows.decisions.iter().all(|d| d.status == DecisionStatus::Agreed));
    assert_eq!(rows.slices.len(), 2);
    assert_eq!(rows.slices[0].key, "PR1");
    assert_eq!(rows.slices[0].status, Status::Done);
    assert_eq!(rows.slices[0].completed_at.as_deref(), Some("2026-03-05T00:00:00Z"));
    assert_eq!(rows.slices[1].completed_at, None);
    assert_eq!(rows.slices[1].ord, 20);
}

#[test]
fn the_log_is_written_oldest_first_by_the_importer() {
    let parsed = parse_plan(DOC);
    let rows = rows_of(&parsed, "2026-03-05T00:00:00Z", "ben");
    assert_eq!(rows.log.len(), parsed.log.len());
    let n = parsed.log.len();
    for (i, row) in rows.log.iter().enumerate() {
        let entry = &parsed.log[n - 1 - i];
        assert_eq!(row.body, entry.body);
        assert_eq!(row.actor, "ben");
        assert_eq!(row.kind, LogKind::Progress);
        match &entry.at {
            Some(at) => assert_eq!(&row.at, at),
            None => assert_eq!(row.at, "2026-03-05T00:00:00Z"),
        }
    }
}

#[test]
fn an_import_decides_before_it_writes() {
    let parsed = parse_plan(DOC);
    let slug = derive_slug(&parsed);
    let dry = ImportOptions { replace: false, dry_run: true };
    match import_step(&parsed, &slug, dry, Some((3, "/a")), Some(3)) {
        ImportStep::Plan { slices, .. } => assert_eq!(slices, 2),
        _ => panic!("a dry run only plans"),
    }
    let opts = ImportOptions::default();
    assert!(matches!(import_step(&parsed, &slug, opts, Some((3, "/a")), None), ImportStep::Seen { plan_id: 3, .. }));
    assert!(matches!(import_step(&parsed, &slug, opts, None, Some(4)), ImportStep::Conflict { plan_id: 4 }));
    let replace = ImportOptions { replace: true, dry_run: false };
    assert!(matches!(import_step(&parsed, &slug, replace, None, Some(4)), ImportStep::Replace { plan_id: 4 }));
    assert!(matches!(import_step(&parsed, &slug, opts, None, None), ImportStep::Create { .. }));
}

#[test]
fn a_handoff_is_matched_by_ticket_then_subject_then_quoted_file() {
    let md = "# HANDOFF - Colour picker\n\nSee PICKER_BUILD_PLAN.md for the plan.\n";
    assert_eq!(handoff_title(md), "HANDOFF - Colour picker");
    let ls = handoff_lookups(&handoff_title(md), "HANDOFF", md);
    let shown: Vec<String> = ls
        .iter()
        .map(|l| match l {
            HandoffLookup::Reference(r) => format!("ref {r}"),
            HandoffLookup::ImportedFrom(f) => format!("file {f}"),
        })
        .collect();
    assert_eq!(shown, vec!["ref Colour picker", "file PICKER_BUILD_PLAN.md"]);
    let ls = handoff_lookups("HANDOFF ACME-12", "x", "");
    assert!(matches!(&ls[0], HandoffLookup::Reference(r) if r == "ACME-12"));
}
