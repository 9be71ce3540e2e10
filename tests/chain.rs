use easy_error::{err_msg, Error, ErrorExt, Location};

fn three_level() -> Error {
    let root = err_msg("disk unreadable");
    let parse = Error::new("Could not parse file", root);
    Error::new("Value is not acceptable", parse)
}

#[test]
fn new_displays_context_and_keeps_cause() {
    let e = Error::new("Could not open file", err_msg("No such file or directory"));
    assert_eq!(e.display(), "Could not open file");
    assert_eq!(e.description(), "Could not open file");
    let source = e.source().expect("a cause was given");
    assert_eq!(source.display(), "No such file or directory");
    assert!(source.source().is_none());
}

#[test]
fn err_msg_has_no_source() {
    let e = err_msg("Value cannot be zero");
    assert_eq!(e.display(), "Value cannot be zero");
    assert!(e.source().is_none());
    assert!(e.cause.is_none());
    assert!(e.location.is_none());
}

#[test]
fn chain_of_depth_three_walks_in_order() {
    let e = three_level();
    assert_eq!(
        e.iter_chain().display_all(),
        vec!["Value is not acceptable", "Could not parse file", "disk unreadable"]
    );
    assert_eq!(e.iter_causes().display_all(), vec!["Could not parse file", "disk unreadable"]);
}

#[test]
fn chain_of_depth_n_has_n_items() {
    let mut e = err_msg("level 0");
    for i in 1..10 {
        e = Error::new(&format!("level {}", i), e);
    }
    let all = e.iter_chain().display_all();
    assert_eq!(all.len(), 10);
    assert_eq!(e.iter_causes().display_all().len(), 9);
    for (k, text) in all.iter().enumerate() {
        assert_eq!(text, &format!("level {}", 9 - k));
    }
}

#[test]
fn walk_stays_exhausted() {
    let e = Error::new("top", err_msg("root"));
    let mut walk = e.iter_causes();
    assert_eq!(walk.next().map(|c| c.display()), Some("root".to_string()));
    assert!(walk.next().is_none());
    assert!(walk.next().is_none());
    assert!(walk.next().is_none());
}

#[test]
fn causes_of_single_error_are_empty() {
    let e = err_msg("alone");
    let mut walk = e.iter_causes();
    assert!(walk.next().is_none());
    assert!(walk.next().is_none());
    assert_eq!(e.iter_chain().display_all(), vec!["alone"]);
}

#[test]
fn root_cause_is_last_of_chain() {
    let e = three_level();
    assert_eq!(e.find_root_cause().display(), "disk unreadable");
    let single = err_msg("only");
    assert_eq!(single.find_root_cause().display(), "only");
}

#[test]
fn location_is_shown_after_context() {
    let e = err_msg("Unable to read file").with_location(Location::new("src/main.rs", 12, 5));
    assert_eq!(e.display(), "Unable to read file (src/main.rs:12:5)");
    assert_eq!(e.description(), "Unable to read file");
}

#[test]
fn location_numbers_at_the_edges() {
    let zero = Location::new("a.rs", 0, 0);
    assert_eq!(zero.to_text(), "a.rs:0:0");
    let big = Location::new("b.rs", 4294967295, 10);
    assert_eq!(big.to_text(), "b.rs:4294967295:10");
    let e = Error::new("ctx", err_msg("cause")).with_location(Location::new("c.rs", 907, 19));
    assert_eq!(e.display(), "ctx (c.rs:907:19)");
    assert_eq!(e.source().map(|c| c.display()), Some("cause".to_string()));
}

#[test]
fn from_messages_builds_chain() {
    let msgs = vec!["top".to_string(), "middle".to_string(), "root".to_string()];
    let e = Error::from_messages(msgs).expect("messages were given");
    assert_eq!(e.iter_chain().display_all(), vec!["top", "middle", "root"]);
    assert!(e.find_root_cause().source().is_none());
}

#[test]
fn from_messages_of_nothing_is_none() {
    assert!(Error::from_messages(Vec::new()).is_none());
}
