use ai_planner::util::{first_line, normalise_remote, slugify, ticket_key, truncate};

#[test]
fn slugs_are_kebab_ascii() {
    assert_eq!(
        slugify("ACME-1234 - Reusable Date Range Picker"),
        "acme-1234-reusable-date-range-picker"
    );
    assert_eq!(slugify("Canvas Editor - Build Plan"), "canvas-editor-build-plan");
    assert_eq!(slugify("  ...  "), "");
}

#[test]
fn ticket_keys_come_out_of_titles_branches_and_filenames() {
    assert_eq!(ticket_key("ACME-1234 - Picker").as_deref(), Some("ACME-1234"));
    assert_eq!(
        ticket_key("feature/acme-1234-csv-export").as_deref(),
        Some("ACME-1234")
    );
    assert_eq!(ticket_key("ACME-980-FINDINGS.md").as_deref(), Some("ACME-980"));
    assert_eq!(ticket_key("feat/date-range-picker"), None);
}

#[test]
fn every_remote_transport_normalises_to_one_key() {
    let expected = "github.com/acme/widget";
    for url in [
        "git@github.com:acme/widget.git",
        "https://github.com/acme/widget.git",
        "https://github.com/acme/widget",
        "ssh://git@github.com/acme/widget.git",
        "ssh://git@github.com:22/acme/widget.git",
        "git://github.com/Acme/widget.git/",
    ] {
        assert_eq!(normalise_remote(url), expected, "for {url}");
    }
}

#[test]
fn slugifying_twice_changes_nothing() {
    let once = slugify("Canvas Editor -- Build Plan!");
    assert_eq!(slugify(&once), once);
}

#[test]
fn truncation_and_first_lines() {
    assert_eq!(truncate("abcdef", 4), "abc…");
    assert_eq!(truncate("abc", 4), "abc");
    assert_eq!(truncate("abc", 0), "");
    assert_eq!(truncate("abc", 1), "…");
    assert_eq!(truncate("", 0), "");
    assert_eq!(first_line("\n  first \nsecond"), "first");
}
