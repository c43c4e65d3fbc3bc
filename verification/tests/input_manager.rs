use rustical::event::Action;
use rustical::input::{KeyCode, KeyEvent, KeyModifiers};
use rustical::input_manager::{InputManager, KeyBinding};

#[test]
fn test_key_binding() {
    let manager = InputManager::new();

    let up_binding = KeyBinding::new(KeyCode::Up, KeyModifiers::none());
    assert!(manager.bindings.contains_key(&up_binding));
}

#[test]
fn test_custom_binding() {
    let mut manager = InputManager::new();

    let custom_binding = KeyBinding::new(KeyCode::Char('q'), KeyModifiers::none());
    manager.bind(custom_binding.clone(), Action::Exit);

    assert_eq!(manager.bindings.get(&custom_binding), Some(&Action::Exit));
}

#[test]
fn default_bindings_of_the_form() {
    let manager = InputManager::new();
    let press = |code, modifiers| manager.handle_key(&KeyEvent::new(code, modifiers));
    assert_eq!(press(KeyCode::Tab, KeyModifiers::none()), Some(Action::NextInput));
    assert_eq!(press(KeyCode::BackTab, KeyModifiers::shift()), Some(Action::PrevInput));
    assert_eq!(press(KeyCode::BackTab, KeyModifiers::none()), Some(Action::PrevInput));
    assert_eq!(press(KeyCode::Enter, KeyModifiers::none()), Some(Action::Submit));
    assert_eq!(press(KeyCode::Char('c'), KeyModifiers::control()), Some(Action::Exit));
    assert_eq!(press(KeyCode::Backspace, KeyModifiers::control()), Some(Action::DeleteWord));
    assert_eq!(press(KeyCode::Char('w'), KeyModifiers::control()), Some(Action::DeleteWord));
    assert_eq!(press(KeyCode::Delete, KeyModifiers::control()), Some(Action::DeleteWordForward));
    assert_eq!(press(KeyCode::Esc, KeyModifiers::none()), Some(Action::Cancel));
    assert_eq!(press(KeyCode::Char('c'), KeyModifiers::none()), None);
    assert_eq!(press(KeyCode::Backspace, KeyModifiers::none()), None);
}

#[test]
fn bindings_can_be_replaced_and_removed() {
    let mut manager = InputManager::new();
    let tab = KeyBinding::key(KeyCode::Tab);
    manager.bind(tab, Action::Submit);
    assert_eq!(manager.bindings.get(&tab), Some(&Action::Submit));
    manager.unbind(&tab);
    assert_eq!(manager.bindings.get(&tab), None);
    assert!(!manager.bindings.contains_key(&tab));
    manager.unbind(&tab);
    assert!(manager.bindings.contains_key(&KeyBinding::ctrl(KeyCode::Char('c'))));
    let event = KeyEvent::new(KeyCode::Char('c'), KeyModifiers::control());
    assert_eq!(KeyBinding::from_key_event(&event), KeyBinding::ctrl(KeyCode::Char('c')));
}
