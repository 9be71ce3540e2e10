use easy_error::{err_msg, Error, ResultExt, Terminator};

#[test]
fn single_message_renders_one_line() {
    let t = Terminator::from(err_msg("Value cannot be zero"));
    let out = t.render();
    assert_eq!(out, "Value cannot be zero\n");
    assert_eq!(out.lines().count(), 1);
    assert!(!out.contains("Caused by"));
}

#[test]
fn three_level_chain_renders_three_lines() {
    let root: Result<(), Error> = Err(err_msg("permission denied"));
    let parsed = root.context("Could not parse file");
    let validated = parsed.context("Value is not acceptable");
    let t = Terminator::from(validated.unwrap_err());
    let out = t.render();
    assert_eq!(
        out,
        "Value is not acceptable\nCaused by: Could not parse file\nCaused by: permission denied\n"
    );
    assert_eq!(out.lines().count(), 3);
}

#[test]
fn render_of_two_levels() {
    let t: Terminator = Error::new("top", err_msg("bottom")).into();
    assert_eq!(t.render(), "top\nCaused by: bottom\n");
}
