use git_subdir::message::{highlight_message, make_error_message, make_warning_message};

#[test]
fn error_message_has_a_red_label() {
    assert_eq!(make_error_message(String::from("boom")), "\x1b[91mError:\x1b[0m boom");
    assert_eq!(make_error_message(String::new()), "\x1b[91mError:\x1b[0m ");
}

#[test]
fn warning_message_is_yellow() {
    assert_eq!(make_warning_message(String::from("careful")), "\x1b[93mcareful\x1b[0m");
}

#[test]
fn highlighted_message_is_blue() {
    assert_eq!(highlight_message(String::from("git clone x")), "\x1b[94mgit clone x\x1b[0m");
}
