use ai_planner::md::{decide, Mode};

#[test]
fn a_terminal_gets_rendering_and_a_pipe_does_not() {
    assert_eq!(decide(false, false, true, false, None), Mode::Pretty);
    assert_eq!(decide(false, false, false, false, None), Mode::Plain);
}

#[test]
fn machine_readable_output_is_never_rendered() {
    // An agent parsing this must get the document, whatever the environment says.
    assert_eq!(decide(false, true, true, false, Some("always")), Mode::Plain);
    assert_eq!(decide(true, false, true, false, Some("always")), Mode::Plain);
}

#[test]
fn the_setting_overrides_what_the_terminal_says() {
    assert_eq!(decide(false, false, false, false, Some("always")), Mode::Pretty);
    assert_eq!(decide(false, false, true, true, Some("pretty")), Mode::Pretty);
    assert_eq!(decide(false, false, true, false, Some("never")), Mode::Plain);
}

#[test]
fn no_color_turns_rendering_off() {
    assert_eq!(decide(false, false, true, true, None), Mode::Plain);
}

#[test]
fn an_unknown_setting_falls_back_to_looking_at_the_terminal() {
    assert_eq!(decide(false, false, true, false, Some("yes please")), Mode::Pretty);
    assert_eq!(decide(false, false, false, false, Some("yes please")), Mode::Plain);
}

#[test]
fn a_setting_is_read_with_its_whitespace_trimmed() {
    assert_eq!(decide(false, false, false, false, Some("  on \n")), Mode::Pretty);
    assert_eq!(decide(false, false, true, false, Some(" 0 ")), Mode::Plain);
}
