use cinderbox::steps::{Focus, CURSOR_BLANK, CURSOR_MARKER};

#[test]
fn focus_default_is_choice() {
    assert_eq!(Focus::default(), Focus::Choice);
}

#[test]
fn focus_variants_are_distinct() {
    assert_ne!(Focus::Choice, Focus::SubField(0));
    assert_ne!(Focus::SubField(0), Focus::SubField(1));
    assert_ne!(Focus::Choice, Focus::Browsing);
    assert_ne!(Focus::SubField(0), Focus::Browsing);
}

#[test]
fn focus_copy_and_clone() {
    let f = Focus::SubField(2);
    let f2 = f;
    assert_eq!(f, f2);
}

#[test]
fn cursor_constants_have_same_width() {
    assert_eq!(CURSOR_MARKER.chars().count(), CURSOR_BLANK.chars().count());
}

#[test]
fn cursor_blank_is_spaces() {
    assert!(CURSOR_BLANK.chars().all(|c| c == ' '));
}
