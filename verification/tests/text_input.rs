use cinderbox::steps::Key;
use cinderbox::widgets::text_input::TextInput;

#[test]
fn new_creates_empty_input_with_label() {
    let input = TextInput::new("Name");
    assert_eq!(input.label(), "Name");
    assert_eq!(input.value(), "");
    assert_eq!(input.cursor(), 0);
}

#[test]
fn with_value_sets_cursor_to_end() {
    let input = TextInput::new("Name").with_value("hello");
    assert_eq!(input.value(), "hello");
    assert_eq!(input.cursor(), 5);
}

#[test]
fn set_value_clamps_cursor() {
    let mut input = TextInput::new("Name").with_value("hello");
    assert_eq!(input.cursor(), 5);
    input.set_value("hi");
    assert_eq!(input.value(), "hi");
    assert_eq!(input.cursor(), 2);
}

#[test]
fn set_value_preserves_cursor_when_within_bounds() {
    let mut input = TextInput::new("Name").with_value("hello");
    input.handle_input(Key::Home);
    input.handle_input(Key::Right);
    assert_eq!(input.cursor(), 1);
    input.set_value("world");
    assert_eq!(input.cursor(), 1);
}

#[test]
fn char_insertion_at_end() {
    let mut input = TextInput::new("X");
    input.handle_input(Key::Char('a'));
    input.handle_input(Key::Char('b'));
    assert_eq!(input.value(), "ab");
    assert_eq!(input.cursor(), 2);
}

#[test]
fn char_insertion_in_middle() {
    let mut input = TextInput::new("X").with_value("ac");
    input.handle_input(Key::Home);
    input.handle_input(Key::Right);
    input.handle_input(Key::Char('b'));
    assert_eq!(input.value(), "abc");
    assert_eq!(input.cursor(), 2);
}

#[test]
fn backspace_deletes_before_cursor() {
    let mut input = TextInput::new("X").with_value("abc");
    input.handle_input(Key::Backspace);
    assert_eq!(input.value(), "ab");
    assert_eq!(input.cursor(), 2);
}

#[test]
fn backspace_at_start_is_noop() {
    let mut input = TextInput::new("X").with_value("abc");
    input.handle_input(Key::Home);
    input.handle_input(Key::Backspace);
    assert_eq!(input.value(), "abc");
    assert_eq!(input.cursor(), 0);
}

#[test]
fn delete_removes_char_at_cursor() {
    let mut input = TextInput::new("X").with_value("abc");
    input.handle_input(Key::Home);
    input.handle_input(Key::Delete);
    assert_eq!(input.value(), "bc");
    assert_eq!(input.cursor(), 0);
}

#[test]
fn delete_at_end_is_noop() {
    let mut input = TextInput::new("X").with_value("abc");
    input.handle_input(Key::Delete);
    assert_eq!(input.value(), "abc");
    assert_eq!(input.cursor(), 3);
}

#[test]
fn left_movement() {
    let mut input = TextInput::new("X").with_value("abc");
    assert_eq!(input.cursor(), 3);
    input.handle_input(Key::Left);
    assert_eq!(input.cursor(), 2);
    input.handle_input(Key::Left);
    assert_eq!(input.cursor(), 1);
}

#[test]
fn left_at_zero_stays() {
    let mut input = TextInput::new("X");
    input.handle_input(Key::Left);
    assert_eq!(input.cursor(), 0);
}

#[test]
fn right_movement() {
    let mut input = TextInput::new("X").with_value("abc");
    input.handle_input(Key::Home);
    input.handle_input(Key::Right);
    assert_eq!(input.cursor(), 1);
}

#[test]
fn right_at_end_stays() {
    let mut input = TextInput::new("X").with_value("ab");
    input.handle_input(Key::Right);
    assert_eq!(input.cursor(), 2);
}

#[test]
fn home_and_end() {
    let mut input = TextInput::new("X").with_value("hello");
    input.handle_input(Key::Home);
    assert_eq!(input.cursor(), 0);
    input.handle_input(Key::End);
    assert_eq!(input.cursor(), 5);
}

#[test]
fn unknown_key_is_noop() {
    let mut input = TextInput::new("X").with_value("abc");
    input.handle_input(Key::Other);
    assert_eq!(input.value(), "abc");
    assert_eq!(input.cursor(), 3);
}

#[test]
fn default_is_empty() {
    let input = TextInput::default();
    assert_eq!(input.value(), "");
    assert_eq!(input.label(), "");
    assert_eq!(input.cursor(), 0);
}

#[test]
fn cursor_counts_characters_not_bytes() {
    let mut input = TextInput::new("X").with_value("héllo");
    assert_eq!(input.cursor(), 5);
    input.handle_input(Key::Home);
    input.handle_input(Key::Right);
    input.handle_input(Key::Right);
    input.handle_input(Key::Backspace);
    assert_eq!(input.value(), "hllo");
    assert_eq!(input.cursor(), 1);
}

#[test]
fn set_value_on_empty_keeps_cursor_at_zero() {
    let mut input = TextInput::new("Port");
    input.set_value("5432");
    assert_eq!(input.value(), "5432");
    assert_eq!(input.cursor(), 0);
}
