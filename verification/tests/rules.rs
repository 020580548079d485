use ai_planner::rules::{apply, remove, Outcome, MARKER, RULES};

#[test]
fn the_block_is_appended_once_and_then_left_alone() {
    let charter = "<!-- ai-toolbox:base-charter -->\n# Base charter\n\nBe good.\n";

    let (once, outcome) = apply(charter, false);
    assert_eq!(outcome, Outcome::Added);
    assert!(once.contains("# Base charter"), "the existing charter survives");
    assert!(once.contains("aip slice claim <key>"));
    assert_eq!(once.matches(MARKER).count(), 2);

    let (twice, outcome) = apply(&once, false);
    assert_eq!(outcome, Outcome::AlreadyCurrent);
    assert_eq!(twice, once, "a second run changes nothing");
}

#[test]
fn an_outdated_block_is_replaced_in_place_without_disturbing_the_rest() {
    let stale = format!(
        "# Base charter\n\nBe good.\n\n{MARKER}\nold text\n{MARKER}\n\n## Something after\n"
    );
    let (updated, outcome) = apply(&stale, true);
    assert_eq!(outcome, Outcome::Replaced);
    assert!(!updated.contains("old text"));
    assert!(updated.contains("# Base charter"));
    assert!(updated.contains("## Something after"), "trailing content survives");
    assert_eq!(updated.matches(MARKER).count(), 2);
}

#[test]
fn removing_it_leaves_the_surrounding_charter_intact() {
    let (with, _) = apply("# Base charter\n\nBe good.\n", false);
    let (without, outcome) = remove(&with);
    assert_eq!(outcome, Outcome::Removed);
    assert!(!without.contains(MARKER));
    assert!(without.contains("Be good."));

    let (again, outcome) = remove(&without);
    assert_eq!(outcome, Outcome::NotPresent);
    assert_eq!(again, without);
}

#[test]
fn it_is_short_enough_to_live_in_an_always_on_charter() {
    // The charter competes with the whole prompt; a long block gets skimmed.
    let lines = RULES.lines().count();
    assert!(lines < 45, "the rules block has grown to {lines} lines");
}

#[test]
fn an_empty_charter_gets_just_the_block() {
    let (out, outcome) = apply("", false);
    assert_eq!(outcome, Outcome::Added);
    assert!(out.starts_with(MARKER));
    assert_eq!(out.matches(MARKER).count(), 2);
}

#[test]
fn a_current_block_is_left_alone_even_when_forced_only_if_it_matches() {
    let (once, _) = apply("# Charter\n", false);
    let (forced, outcome) = apply(&once, true);
    assert_eq!(outcome, Outcome::AlreadyCurrent);
    assert_eq!(forced, once);
}

#[test]
fn a_charter_comes_back_as_it_was_once_the_block_is_removed() {
    for base in ["# Base charter\n\nBe good.\n", "Be good.   \n\n\n", ""] {
        for force in [false, true] {
            let (with, _) = apply(base, force);
            let (without, outcome) = remove(&with);
            assert_eq!(outcome, Outcome::Removed);
            assert_eq!(without, format!("{}\n", base.trim_end()));
            let (again, outcome) = remove(&without);
            assert_eq!(outcome, Outcome::NotPresent);
            assert_eq!(again, without);
        }
    }
}

#[test]
fn forcing_a_current_block_changes_nothing() {
    let (with, _) = apply("# Charter\n", false);
    let (again, outcome) = apply(&with, true);
    assert_eq!(outcome, Outcome::AlreadyCurrent);
    assert_eq!(again, with);
}
