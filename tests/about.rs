use recall::about::{author, description, inline_code, name, version, RecallError};

#[test]
fn inline_code_sets_the_command_in_backticks() {
    assert_eq!(inline_code("recall list"), "`recall list`");
    assert_eq!(inline_code(""), "``");
}

#[test]
fn package_metadata() {
    assert_eq!(name(), "recall");
    assert_eq!(version(), "0.1.0");
    assert_eq!(author(), "");
    assert_eq!(description(), "");
    assert_eq!(RecallError::new("List already exists.").message, "List already exists.");
}
