use ai_planner::model::Status;
use ai_planner::out::{bold, dim, pad, status_colour, truncate, visible_len, Table};

#[test]
fn colour_escapes_do_not_count_towards_column_width() {
    assert_eq!(visible_len("done"), 4);
    assert_eq!(visible_len("\x1b[32mdone\x1b[0m"), 4);
    assert_eq!(visible_len(""), 0);
}

#[test]
fn padding_measures_the_visible_text() {
    assert_eq!(pad("ab", 4), "ab  ");
    assert_eq!(pad("\x1b[32mab\x1b[0m", 4), "\x1b[32mab\x1b[0m  ");
    assert_eq!(pad("abcdef", 4), "abcdef");
}

#[test]
fn colour_is_only_painted_when_asked_for() {
    assert_eq!(dim("x", false), "x");
    assert_eq!(dim("x", true), "\x1b[2mx\x1b[0m");
    assert_eq!(bold("x", true), "\x1b[1mx\x1b[0m");
    assert_eq!(status_colour(Status::Done, "done", false), "done");
    assert_eq!(visible_len(&status_colour(Status::Blocked, "blocked", true)), 7);
}

#[test]
fn truncation_keeps_short_text_and_marks_a_cut() {
    assert_eq!(truncate("short", 10), "short");
    assert_eq!(truncate("short", 0), "");
    let cut = truncate("a rather long line of text", 10);
    assert_eq!(cut.chars().count(), 10);
    assert!(cut.ends_with('…'));
}

#[test]
fn a_table_pads_every_column_to_its_widest_cell() {
    let mut t = Table::new(&["KEY", "STATUS"]);
    t.row(vec!["s1".to_string(), "done".to_string()]);
    t.row(vec!["slice-two".to_string(), "todo".to_string()]);
    let lines = t.lines(false);
    assert_eq!(
        lines,
        vec![
            "KEY        STATUS".to_string(),
            "s1         done".to_string(),
            "slice-two  todo".to_string(),
        ]
    );
}
