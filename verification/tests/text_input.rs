use rustical::input::{KeyCode, KeyModifiers, KeyResult};
use rustical::text_input::{InputNode, TextInput, TextInputBuilder};
use rustical::validators::min_length;

fn typed(text: &str) -> TextInput {
    let mut input = TextInput::new("u", "Username");
    for c in text.chars() {
        input.handle_key(KeyCode::Char(c), KeyModifiers::none());
    }
    input
}

#[test]
fn text_input_happy_path() {
    let mut input = TextInput::new("u", "Username").with_validator(min_length(3));
    assert_eq!(input.handle_key(KeyCode::Char('a'), KeyModifiers::none()), KeyResult::Handled);
    assert_eq!(input.handle_key(KeyCode::Char('b'), KeyModifiers::none()), KeyResult::Handled);
    assert_eq!(input.handle_key(KeyCode::Backspace, KeyModifiers::none()), KeyResult::Handled);
    assert_eq!(input.value(), "a");
    assert_eq!(input.cursor_pos(), 1);
    assert_eq!(input.validate(), Err("Minimum 3 characters required".to_string()));
}

#[test]
fn characters_go_in_at_the_cursor() {
    let mut input = typed("ac");
    input.handle_key(KeyCode::Left, KeyModifiers::none());
    input.handle_key(KeyCode::Char('b'), KeyModifiers::none());
    assert_eq!(input.value(), "abc");
    assert_eq!(input.cursor_pos(), 2);
}

#[test]
fn backspace_at_the_start_changes_nothing() {
    let mut input = typed("ab");
    input.handle_key(KeyCode::Home, KeyModifiers::none());
    assert_eq!(input.handle_key(KeyCode::Backspace, KeyModifiers::none()), KeyResult::Handled);
    assert_eq!(input.value(), "ab");
    assert_eq!(input.cursor_pos(), 0);
}

#[test]
fn delete_removes_the_character_at_the_cursor() {
    let mut input = typed("abc");
    input.handle_key(KeyCode::Home, KeyModifiers::none());
    input.handle_key(KeyCode::Delete, KeyModifiers::none());
    assert_eq!(input.value(), "bc");
    assert_eq!(input.cursor_pos(), 0);
    input.handle_key(KeyCode::End, KeyModifiers::none());
    input.handle_key(KeyCode::Delete, KeyModifiers::none());
    assert_eq!(input.value(), "bc");
    assert_eq!(input.cursor_pos(), 2);
}

#[test]
fn arrows_stay_within_the_value() {
    let mut input = typed("ab");
    input.handle_key(KeyCode::Right, KeyModifiers::none());
    assert_eq!(input.cursor_pos(), 2);
    input.handle_key(KeyCode::Left, KeyModifiers::none());
    input.handle_key(KeyCode::Left, KeyModifiers::none());
    input.handle_key(KeyCode::Left, KeyModifiers::none());
    assert_eq!(input.cursor_pos(), 0);
}

#[test]
fn control_characters_and_unknown_keys_are_not_handled() {
    let mut input = typed("ab");
    assert_eq!(input.handle_key(KeyCode::Char('w'), KeyModifiers::control()), KeyResult::NotHandled);
    assert_eq!(input.handle_key(KeyCode::Tab, KeyModifiers::none()), KeyResult::NotHandled);
    assert_eq!(input.handle_key(KeyCode::Enter, KeyModifiers::none()), KeyResult::Submit);
    assert_eq!(input.value(), "ab");
}

#[test]
fn delete_word_takes_white_space_and_the_word_before_it() {
    let mut input = typed("hello brave  world  ");
    input.delete_word();
    assert_eq!(input.value(), "hello brave  ");
    assert_eq!(input.cursor_pos(), 13);
    input.delete_word();
    assert_eq!(input.value(), "hello ");
    input.delete_word();
    assert_eq!(input.value(), "");
    input.delete_word();
    assert_eq!(input.value(), "");
    assert_eq!(input.cursor_pos(), 0);
}

#[test]
fn delete_word_forward_takes_white_space_and_the_word_behind_it() {
    let mut input = typed("hello  brave world");
    input.handle_key(KeyCode::Home, KeyModifiers::none());
    for _ in 0..5 {
        input.handle_key(KeyCode::Right, KeyModifiers::none());
    }
    input.delete_word_forward();
    assert_eq!(input.value(), "hello world");
    assert_eq!(input.cursor_pos(), 5);
    input.delete_word_forward();
    assert_eq!(input.value(), "hello");
    input.delete_word_forward();
    assert_eq!(input.value(), "hello");
}

#[test]
fn content_is_padded_to_the_least_width() {
    let mut input = typed("ab").with_min_width(5);
    let spans = input.render_content();
    assert_eq!(spans.len(), 1);
    assert_eq!(spans[0].text(), "ab   ");
    assert_eq!(input.cursor_offset_in_content(), 2);
    input.set_value("日本語".to_string());
    assert_eq!(input.render_content()[0].text(), "日本語");
    assert_eq!(input.cursor_pos(), 3);
    assert_eq!(input.cursor_offset_in_content(), 6);
    input.handle_key(KeyCode::Left, KeyModifiers::none());
    assert_eq!(input.cursor_offset_in_content(), 4);
}

#[test]
fn input_node_edits_at_a_clamped_cursor() {
    let mut node = InputNode::new("id", "Label");
    assert_eq!(node.min_width, 10);
    node.insert_text("héllo");
    assert_eq!(node.cursor_pos, 5);
    node.cursor_pos = 99;
    node.insert_text("!");
    assert_eq!(node.value, "héllo!");
    assert_eq!(node.cursor_pos, 6);
    assert!(node.delete_char());
    assert_eq!(node.value, "héllo");
    assert!(node.move_cursor_home());
    assert!(!node.move_cursor_home());
    assert!(!node.delete_char());
    assert!(node.delete_char_forward());
    assert_eq!(node.value, "éllo");
    assert!(node.move_cursor_end());
    assert!(!node.move_cursor_right());
    assert!(!node.delete_char_forward());
    assert!(node.move_cursor_left());
    assert_eq!(node.cursor_pos, 3);
    assert!(node.delete_word());
    assert_eq!(node.value, "o");
    node.clear();
    assert_eq!(node.value, "");
    assert_eq!(node.cursor_pos, 0);
    assert!(!node.delete_word());
    assert_eq!(node.validate(), Ok(()));
}

#[test]
fn builder_collects_validators_and_options() {
    let input = TextInputBuilder::new("name".to_string(), "Name".to_string())
        .required()
        .min_length(2)
        .max_length(4)
        .min_width(7)
        .bold()
        .build();
    assert_eq!(input.id(), "name");
    assert_eq!(input.label(), "Name");
    assert_eq!(input.min_width(), 7);
    assert_eq!(input.validators().len(), 3);
    assert!(input.opts.bold);
    assert!(!input.is_focused());
    assert_eq!(input.validate(), Err("This field is required".to_string()));
}
