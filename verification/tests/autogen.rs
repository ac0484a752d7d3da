use zamm_yang::autogen::{plan_line_addition, track_autogen, LineAddition, AUTOGEN_TRACKER};

fn text_of(a: &LineAddition) -> Option<&str> {
    match a {
        LineAddition::Create(s) => Some(s.as_str()),
        LineAddition::Append(s) => Some(s.as_str()),
        LineAddition::Keep => None,
    }
}

#[test]
fn tracker_file_name() {
    assert_eq!(AUTOGEN_TRACKER, ".autogen.txt");
}

#[test]
fn tracking_keeps_order() {
    let mut files = vec![];
    track_autogen(&mut files, "src/a.rs".to_owned());
    track_autogen(&mut files, "src/b.rs".to_owned());
    assert_eq!(files, vec!["src/a.rs".to_owned(), "src/b.rs".to_owned()]);
}

#[test]
fn missing_file_is_created_with_the_line() {
    let a = plan_line_addition(None, "src/a.rs");
    assert!(matches!(a, LineAddition::Create(_)));
    assert_eq!(text_of(&a), Some("src/a.rs\n"));
}

#[test]
fn line_already_present_is_kept() {
    let a = plan_line_addition(Some("src/b.rs\nsrc/a.rs\n"), "src/a.rs");
    assert!(matches!(a, LineAddition::Keep));
}

#[test]
fn last_line_without_newline_counts() {
    let a = plan_line_addition(Some("src/b.rs\nsrc/a.rs"), "src/a.rs");
    assert!(matches!(a, LineAddition::Keep));
}

#[test]
fn carriage_returns_before_newlines_are_ignored() {
    let a = plan_line_addition(Some("src/a.rs\r\nsrc/b.rs\r\n"), "src/a.rs");
    assert!(matches!(a, LineAddition::Keep));
}

#[test]
fn partial_match_is_not_the_line() {
    let a = plan_line_addition(Some("src/a.rs.bak\n"), "src/a.rs");
    assert!(matches!(a, LineAddition::Append(_)));
    assert_eq!(text_of(&a), Some("src/a.rs\n"));
}

#[test]
fn empty_file_gets_the_line_appended() {
    let a = plan_line_addition(Some(""), "x");
    assert!(matches!(a, LineAddition::Append(_)));
}

#[test]
fn adding_twice_changes_nothing_the_second_time() {
    let existing = "one\ntwo\n".to_owned();
    let first = plan_line_addition(Some(&existing), "three");
    let after = format!("{}{}", existing, text_of(&first).unwrap());
    assert_eq!(after, "one\ntwo\nthree\n");
    assert!(matches!(plan_line_addition(Some(&after), "three"), LineAddition::Keep));
}
