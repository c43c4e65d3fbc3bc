use rustical::input::{KeyCode, KeyModifiers, KeyResult};
use rustical::ip_input::{ip_input, IpInputContent};
use rustical::style::Attribute;

fn press(content: &mut IpInputContent, keys: &str) {
    for c in keys.chars() {
        content.handle_key(KeyCode::Char(c), KeyModifiers::none());
    }
}

#[test]
fn new_address_is_all_zero() {
    let content = IpInputContent::new();
    assert_eq!(content.to_array(), [0, 0, 0, 0]);
    assert_eq!(content.to_ip_string(), "0.0.0.0");
    assert_eq!(content.editing_buffer, "0");
    assert_eq!(content.current_octet, 0);
    let content = IpInputContent::with_value([192, 168, 1, 1]);
    assert_eq!(content.to_ip_string(), "192.168.1.1");
    assert_eq!(content.editing_buffer, "192");
}

#[test]
fn typing_an_address() {
    let mut content = IpInputContent::new();
    press(&mut content, "192");
    assert_eq!(content.current_octet, 1);
    assert_eq!(content.to_array(), [192, 0, 0, 0]);
    press(&mut content, "1681.1");
    assert_eq!(content.current_octet, 3);
    assert_eq!(content.editing_buffer, "1");
    assert_eq!(content.to_array(), [192, 168, 1, 0]);
    assert_eq!(content.render_value(), "192.168.1.1");
    content.commit_buffer();
    assert_eq!(content.to_ip_string(), "192.168.1.1");
}

#[test]
fn digit_that_passes_255_is_ignored() {
    let mut content = IpInputContent::new();
    press(&mut content, "25");
    assert_eq!(content.editing_buffer, "25");
    press(&mut content, "6");
    assert_eq!(content.editing_buffer, "25");
    assert_eq!(content.current_octet, 0);
    press(&mut content, "5");
    assert_eq!(content.to_array(), [255, 0, 0, 0]);
    assert_eq!(content.current_octet, 1);
}

#[test]
fn last_octet_does_not_advance() {
    let mut content = IpInputContent::with_value([1, 2, 3, 4]);
    content.handle_key(KeyCode::End, KeyModifiers::none());
    assert_eq!(content.current_octet, 3);
    assert_eq!(content.editing_buffer, "4");
    press(&mut content, "44");
    assert_eq!(content.editing_buffer, "44");
    content.handle_key(KeyCode::Backspace, KeyModifiers::none());
    assert_eq!(content.editing_buffer, "4");
    content.handle_key(KeyCode::Backspace, KeyModifiers::none());
    assert_eq!(content.editing_buffer, "0");
    press(&mut content, "123");
    assert_eq!(content.editing_buffer, "123");
    assert_eq!(content.current_octet, 3);
    content.handle_key(KeyCode::Right, KeyModifiers::none());
    assert_eq!(content.to_array(), [1, 2, 3, 123]);
}

#[test]
fn arrows_step_with_saturation_and_move_with_commit() {
    let mut content = IpInputContent::with_value([255, 0, 7, 9]);
    content.handle_key(KeyCode::Up, KeyModifiers::none());
    assert_eq!(content.to_array(), [255, 0, 7, 9]);
    content.handle_key(KeyCode::Right, KeyModifiers::none());
    content.handle_key(KeyCode::Down, KeyModifiers::none());
    assert_eq!(content.to_array(), [255, 0, 7, 9]);
    content.handle_key(KeyCode::Up, KeyModifiers::none());
    assert_eq!(content.to_array(), [255, 1, 7, 9]);
    assert_eq!(content.editing_buffer, "1");
    press(&mut content, "2");
    content.handle_key(KeyCode::Left, KeyModifiers::none());
    assert_eq!(content.to_array(), [255, 12, 7, 9]);
    assert_eq!(content.current_octet, 0);
    content.handle_key(KeyCode::Left, KeyModifiers::none());
    assert_eq!(content.current_octet, 0);
    content.handle_key(KeyCode::Home, KeyModifiers::none());
    assert_eq!(content.editing_buffer, "255");
}

#[test]
fn backspace_and_delete() {
    let mut content = IpInputContent::with_value([10, 20, 30, 40]);
    content.handle_key(KeyCode::Right, KeyModifiers::none());
    content.handle_key(KeyCode::Backspace, KeyModifiers::none());
    assert_eq!(content.editing_buffer, "2");
    content.handle_key(KeyCode::Backspace, KeyModifiers::none());
    assert_eq!(content.editing_buffer, "0");
    content.handle_key(KeyCode::Backspace, KeyModifiers::none());
    assert_eq!(content.current_octet, 0);
    assert_eq!(content.to_array(), [10, 0, 30, 40]);
    content.handle_key(KeyCode::Delete, KeyModifiers::none());
    assert_eq!(content.to_array(), [0, 0, 30, 40]);
    content.delete_word_forward();
    assert_eq!(content.to_array(), [0, 0, 0, 0]);
    assert!(!content.handle_key(KeyCode::Char('1'), KeyModifiers::control()));
    assert!(!content.handle_key(KeyCode::Tab, KeyModifiers::none()));
    assert!(content.handle_key(KeyCode::Char('x'), KeyModifiers::none()));
    assert_eq!(content.to_array(), [0, 0, 0, 0]);
}

#[test]
fn set_value_reads_dotted_notation() {
    let mut content = IpInputContent::new();
    content.set_value("192.168.1.77".to_string());
    assert_eq!(content.to_array(), [192, 168, 1, 77]);
    assert_eq!(content.editing_buffer, "192");
    content.set_value("10.x.300.+4".to_string());
    assert_eq!(content.to_array(), [10, 168, 1, 4]);
    content.set_value("1.2.3".to_string());
    assert_eq!(content.to_array(), [10, 168, 1, 4]);
    content.set_value("1.2.3.4.5".to_string());
    assert_eq!(content.to_array(), [10, 168, 1, 4]);
    assert_eq!(content.value(), "");
}

#[test]
fn spans_and_cursor_of_an_address() {
    let mut content = IpInputContent::with_value([10, 20, 30, 40]);
    content.handle_key(KeyCode::Right, KeyModifiers::none());
    press(&mut content, "5");
    let spans = content.render_spans();
    let texts: Vec<String> = spans.iter().map(|s| s.text().to_string()).collect();
    assert_eq!(texts, vec!["10", ".", "205", ".", "30", ".", "40"]);
    let mut content = IpInputContent::with_value([10, 20, 30, 40]);
    content.handle_key(KeyCode::Right, KeyModifiers::none());
    let spans = content.render_spans();
    assert_eq!(spans[2].style().attributes().to_vec(), vec![Attribute::Bold]);
    assert!(spans[0].style().attributes().is_empty());
    assert_eq!(content.cursor_position(), 5);
}

#[test]
fn address_widget() {
    let mut input = ip_input("Server").with_default([127, 0, 0, 1]);
    assert_eq!(input.id(), "Server");
    assert_eq!(input.label(), "Server");
    assert_eq!(input.ip_value(), [127, 0, 0, 1]);
    assert_eq!(input.ip_string(), "127.0.0.1");
    assert_eq!(input.handle_key(KeyCode::Enter, KeyModifiers::none()), KeyResult::Submit);
    assert_eq!(input.handle_key(KeyCode::Right, KeyModifiers::none()), KeyResult::Handled);
    assert_eq!(input.handle_key(KeyCode::Tab, KeyModifiers::none()), KeyResult::NotHandled);
    assert_eq!(input.handle_key(KeyCode::Char('9'), KeyModifiers::none()), KeyResult::Handled);
    assert_eq!(input.value(), "127.9.0.1");
    assert_eq!(input.validate(), Ok(()));
    input.delete_word();
    assert_eq!(input.value(), "127.0.0.1");
}
