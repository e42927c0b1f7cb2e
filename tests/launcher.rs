use sway_launcher::launcher::{scratchpad_criteria, scratchpad_show_args, selection};

#[test]
fn selection_drops_trailing_newlines() {
    assert_eq!(selection("firefox\n"), "firefox");
    assert_eq!(selection("firefox\n\n"), "firefox");
    assert_eq!(selection("a\nb\n"), "a\nb");
    assert_eq!(selection(""), "");
    assert_eq!(selection("\n"), "");
    assert_eq!(selection("x"), "x");
}

#[test]
fn criteria_name_the_app_id() {
    assert_eq!(scratchpad_criteria("foot"), "[app_id=\"foot\"]");
    assert_eq!(scratchpad_criteria(""), "[app_id=\"\"]");
}

#[test]
fn show_args_are_criteria_then_command() {
    assert_eq!(
        scratchpad_show_args("mpv"),
        vec!["[app_id=\"mpv\"]".to_string(), "scratchpad".to_string(), "show".to_string()]
    );
}
