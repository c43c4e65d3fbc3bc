use rustical::event::{Action, AppEvent, AppEventType, EventType, TerminalEvent};
use rustical::event_emitter::EventEmitter;
use rustical::input::{KeyCode, KeyEvent, KeyModifiers};

fn clear(id: &str) -> AppEvent {
    AppEvent::ClearErrorMessage { id: id.to_string() }
}

#[test]
fn handlers_are_numbered_in_subscription_order() {
    let mut emitter = EventEmitter::new();
    assert_eq!(emitter.on(AppEventType::Submitted), 0);
    assert_eq!(emitter.on(AppEventType::InputChanged), 1);
    assert_eq!(emitter.on(AppEventType::Submitted), 2);
    assert_eq!(emitter.handlers_for(AppEventType::Submitted), vec![0, 2]);
    assert_eq!(emitter.handlers_for(AppEventType::InputChanged), vec![1]);
    assert!(emitter.handlers_for(AppEventType::Action).is_empty());
}

#[test]
fn emitted_events_come_out_oldest_first() {
    let mut emitter = EventEmitter::new();
    emitter.emit(&AppEvent::Action(Action::Submit));
    emitter.emit(&AppEvent::Submitted);
    assert_eq!(emitter.take_emitted(), vec![AppEvent::Action(Action::Submit), AppEvent::Submitted]);
    assert!(emitter.take_emitted().is_empty());
}

#[test]
fn due_events_are_drained_in_order() {
    let mut emitter = EventEmitter::new();
    emitter.emit_after(clear("a"), 2000, 100);
    emitter.emit_after(AppEvent::Submitted, 50, 100);
    emitter.emit_after(clear("b"), 2000, 0);
    assert_eq!(emitter.pending(), 3);
    assert!(emitter.drain_due(149).is_empty());
    assert_eq!(emitter.drain_due(150), vec![AppEvent::Submitted]);
    assert_eq!(emitter.drain_due(2099), vec![clear("b")]);
    assert_eq!(emitter.drain_due(2100), vec![clear("a")]);
    assert_eq!(emitter.pending(), 0);
    assert!(emitter.drain_due(u64::MAX).is_empty());
}

#[test]
fn due_time_is_held_at_the_greatest_time() {
    let mut emitter = EventEmitter::new();
    emitter.emit_after(AppEvent::Submitted, u64::MAX, 5);
    assert!(emitter.drain_due(u64::MAX - 1).is_empty());
    assert_eq!(emitter.drain_due(u64::MAX), vec![AppEvent::Submitted]);
}

#[test]
fn cancel_removes_the_clearing_of_one_input() {
    let mut emitter = EventEmitter::new();
    emitter.emit_after(clear("a"), 10, 0);
    emitter.emit_after(clear("b"), 10, 0);
    emitter.emit_after(AppEvent::InputChanged { id: "a".to_string(), value: "x".to_string() }, 10, 0);
    emitter.emit_after(clear("a"), 20, 0);
    emitter.cancel_clear_error_message("a");
    assert_eq!(emitter.pending(), 2);
    assert_eq!(
        emitter.drain_due(100),
        vec![clear("b"), AppEvent::InputChanged { id: "a".to_string(), value: "x".to_string() }]
    );
}

#[test]
fn events_have_kinds() {
    assert_eq!(AppEvent::Submitted.event_type(), AppEventType::Submitted);
    assert_eq!(clear("a").event_type(), AppEventType::ClearErrorMessage);
    assert_eq!(AppEvent::Action(Action::Exit).event_type(), AppEventType::Action);
    assert_eq!(
        AppEvent::FocusChanged { from: None, to: Some("a".to_string()) }.event_type(),
        AppEventType::FocusChanged
    );
    assert_eq!(
        AppEvent::ValidationFailed { id: "a".to_string(), error: "e".to_string() }.event_type(),
        AppEventType::ValidationFailed
    );
    let key = TerminalEvent::Key(KeyEvent::new(KeyCode::Up, KeyModifiers::none()));
    assert_eq!(key.event_type(), EventType::KeyPressed);
    assert_eq!(TerminalEvent::Resize { width: 80, height: 24 }.event_type(), EventType::Resize);
}
