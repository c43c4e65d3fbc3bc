use rustical::event::AppEvent;
use rustical::event_emitter::EventEmitter;
use rustical::field::Field;
use rustical::form_controller::{shift, FormController};
use rustical::form_step::FormStep;
use rustical::input::{KeyCode, KeyEvent, KeyModifiers};
use rustical::node::Node;
use rustical::text_input::TextInput;
use rustical::validators::{min_length, required};
use rustical::view_state::{ErrorDisplay, ViewState};

fn step() -> FormStep {
    FormStep::new(
        "Please fill the form:",
        vec![
            Node::text("intro"),
            Node::input(Field::Text(TextInput::new("a", "A").with_validator(required()))),
            Node::input(Field::Text(TextInput::new("b", "B").with_validator(min_length(2)))),
            Node::text("between"),
            Node::input(Field::Text(TextInput::new("c", "C"))),
        ],
    )
}

fn focused_ids(controller: &FormController) -> Vec<String> {
    controller
        .step()
        .nodes
        .iter()
        .filter_map(|node| node.as_input())
        .filter(|input| input.is_focused())
        .map(|input| input.id().to_string())
        .collect()
}

fn error_of(controller: &FormController, id: &str) -> Option<String> {
    controller.step().find_input(id).unwrap().error().map(|e| e.to_string())
}

fn key(code: KeyCode) -> KeyEvent {
    KeyEvent::new(code, KeyModifiers::none())
}

fn type_text(
    controller: &mut FormController,
    text: &str,
    view_state: &mut ViewState,
    emitter: &mut EventEmitter,
) {
    for c in text.chars() {
        controller.handle_input_key(key(KeyCode::Char(c)), view_state, emitter);
    }
}

#[test]
fn first_input_has_the_focus() {
    let controller = FormController::new(step());
    assert_eq!(controller.input_count(), 3);
    assert_eq!(controller.focused_pos(), Some(0));
    assert_eq!(controller.focused_input_id(), Some("a".to_string()));
    assert_eq!(focused_ids(&controller), vec!["a"]);
    let empty = FormController::new(FormStep::new("p", vec![Node::text("t")]));
    assert_eq!(empty.focused_pos(), None);
    assert_eq!(empty.focused_input_id(), None);
}

#[test]
fn controller_takes_stray_focus_flags_away() {
    let mut first = TextInput::new("a", "A");
    let mut second = TextInput::new("b", "B");
    first.set_focused(false);
    second.set_focused(true);
    let controller = FormController::new(FormStep::new(
        "p",
        vec![Node::input(Field::Text(first)), Node::input(Field::Text(second))],
    ));
    assert_eq!(focused_ids(&controller), vec!["a"]);
}

#[test]
fn exactly_one_input_is_focused_in_every_state() {
    let mut controller = FormController::new(step());
    let mut view_state = ViewState::new();
    let mut emitter = EventEmitter::new();
    let mut now = 0;
    for round in 0..40 {
        match round % 5 {
            0 => controller.move_focus(1, &mut view_state, &mut emitter),
            1 => {
                controller.handle_submit(&mut view_state, &mut emitter, 2000, now);
            }
            2 => type_text(&mut controller, "x", &mut view_state, &mut emitter),
            3 => controller.move_focus(-1, &mut view_state, &mut emitter),
            _ => controller.handle_delete_word(false, &mut view_state, &mut emitter),
        }
        now += 10;
        let focused = focused_ids(&controller);
        assert_eq!(focused.len(), 1);
        assert_eq!(Some(focused[0].clone()), controller.focused_input_id());
    }
}

#[test]
fn cyclic_navigation() {
    let mut controller = FormController::new(step());
    let mut view_state = ViewState::new();
    let mut emitter = EventEmitter::new();
    let mut seen = Vec::new();
    for _ in 0..3 {
        controller.move_focus(1, &mut view_state, &mut emitter);
        seen.push(controller.focused_input_id().unwrap());
    }
    assert_eq!(seen, vec!["b", "c", "a"]);
    controller.move_focus(1, &mut view_state, &mut emitter);
    controller.move_focus(-1, &mut view_state, &mut emitter);
    assert_eq!(controller.focused_input_id(), Some("a".to_string()));
    controller.move_focus(-1, &mut view_state, &mut emitter);
    assert_eq!(controller.focused_input_id(), Some("c".to_string()));
}

#[test]
fn shift_goes_around_the_ends() {
    assert_eq!(shift(0, 1, 3), 1);
    assert_eq!(shift(2, 1, 3), 0);
    assert_eq!(shift(0, -1, 3), 2);
    assert_eq!(shift(1, -1, 3), 0);
    assert_eq!(shift(1, 7, 3), 2);
    assert_eq!(shift(1, -7, 3), 0);
    assert_eq!(shift(0, 0, 1), 0);
    assert_eq!(shift(0, isize::MIN, 1), 0);
    assert_eq!(shift(2, isize::MAX, 7), (2 + (isize::MAX as usize) % 7) % 7);
    assert_eq!(shift(3, isize::MIN, 5), 0);
}

#[test]
fn moving_away_validates_but_does_not_hold_the_move_up() {
    let mut controller = FormController::new(step());
    let mut view_state = ViewState::new();
    let mut emitter = EventEmitter::new();
    controller.move_focus(1, &mut view_state, &mut emitter);
    assert_eq!(controller.focused_input_id(), Some("b".to_string()));
    assert_eq!(error_of(&controller, "a"), Some("This field is required".to_string()));
    assert_eq!(view_state.error_display("a"), None);
    assert_eq!(
        emitter.take_emitted(),
        vec![
            AppEvent::ValidationFailed {
                id: "a".to_string(),
                error: "This field is required".to_string()
            },
            AppEvent::FocusChanged { from: Some("a".to_string()), to: Some("b".to_string()) },
        ]
    );
}

#[test]
fn submit_with_validation_error_then_auto_clear() {
    let mut controller = FormController::new(step());
    let mut view_state = ViewState::new();
    let mut emitter = EventEmitter::new();
    assert!(!controller.handle_submit(&mut view_state, &mut emitter, 2000, 1000));
    assert_eq!(error_of(&controller, "a"), Some("This field is required".to_string()));
    assert_eq!(view_state.error_display("a"), Some(ErrorDisplay::InlineMessage));
    assert!(view_state.shows_inline("a"));
    assert_eq!(controller.focused_input_id(), Some("a".to_string()));
    assert_eq!(
        emitter.take_emitted(),
        vec![AppEvent::ValidationFailed {
            id: "a".to_string(),
            error: "This field is required".to_string()
        }]
    );
    assert!(emitter.drain_due(2999).is_empty());
    let due = emitter.drain_due(3000);
    assert_eq!(due, vec![AppEvent::ClearErrorMessage { id: "a".to_string() }]);
    controller.handle_clear_error_message("a", &mut view_state);
    assert!(!view_state.shows_inline("a"));
    assert_eq!(error_of(&controller, "a"), Some("This field is required".to_string()));
    controller.handle_clear_error_message("nobody", &mut view_state);
}

#[test]
fn repeated_failing_submit_keeps_one_clearing_scheduled() {
    let mut controller = FormController::new(step());
    let mut view_state = ViewState::new();
    let mut emitter = EventEmitter::new();
    controller.handle_submit(&mut view_state, &mut emitter, 2000, 0);
    controller.handle_submit(&mut view_state, &mut emitter, 2000, 500);
    assert_eq!(emitter.pending(), 1);
    assert!(emitter.drain_due(2000).is_empty());
    assert_eq!(emitter.drain_due(2500).len(), 1);
}

#[test]
fn editing_dismisses_the_error_message_and_validates() {
    let mut controller = FormController::new(step());
    let mut view_state = ViewState::new();
    let mut emitter = EventEmitter::new();
    controller.handle_submit(&mut view_state, &mut emitter, 2000, 0);
    emitter.take_emitted();
    type_text(&mut controller, "x", &mut view_state, &mut emitter);
    assert!(!view_state.shows_inline("a"));
    assert_eq!(emitter.pending(), 0);
    assert_eq!(error_of(&controller, "a"), None);
    assert_eq!(
        emitter.take_emitted(),
        vec![AppEvent::InputChanged { id: "a".to_string(), value: "x".to_string() }]
    );
    controller.handle_input_key(key(KeyCode::Backspace), &mut view_state, &mut emitter);
    assert_eq!(error_of(&controller, "a"), Some("This field is required".to_string()));
    assert_eq!(
        emitter.take_emitted(),
        vec![
            AppEvent::InputChanged { id: "a".to_string(), value: "".to_string() },
            AppEvent::ValidationFailed {
                id: "a".to_string(),
                error: "This field is required".to_string()
            },
        ]
    );
    controller.handle_input_key(key(KeyCode::Left), &mut view_state, &mut emitter);
    assert_eq!(emitter.take_emitted().len(), 1);
}

#[test]
fn submit_moves_on_and_submits_behind_the_last_input() {
    let mut controller = FormController::new(step());
    let mut view_state = ViewState::new();
    let mut emitter = EventEmitter::new();
    type_text(&mut controller, "ann", &mut view_state, &mut emitter);
    assert!(!controller.handle_submit(&mut view_state, &mut emitter, 2000, 0));
    assert_eq!(controller.focused_input_id(), Some("b".to_string()));
    type_text(&mut controller, "bo", &mut view_state, &mut emitter);
    assert!(!controller.handle_submit(&mut view_state, &mut emitter, 2000, 0));
    assert_eq!(controller.focused_input_id(), Some("c".to_string()));
    emitter.take_emitted();
    assert!(controller.handle_submit(&mut view_state, &mut emitter, 2000, 0));
    assert_eq!(emitter.take_emitted(), vec![AppEvent::Submitted]);
    let values = controller.step().values();
    assert_eq!(
        values,
        vec![
            ("a".to_string(), "ann".to_string()),
            ("b".to_string(), "bo".to_string()),
            ("c".to_string(), "".to_string())
        ]
    );
}

#[test]
fn submit_behind_the_last_input_returns_to_the_first_failure() {
    let mut controller = FormController::new(step());
    let mut view_state = ViewState::new();
    let mut emitter = EventEmitter::new();
    type_text(&mut controller, "ann", &mut view_state, &mut emitter);
    controller.move_focus(1, &mut view_state, &mut emitter);
    type_text(&mut controller, "b", &mut view_state, &mut emitter);
    controller.move_focus(1, &mut view_state, &mut emitter);
    emitter.take_emitted();
    assert!(!controller.handle_submit(&mut view_state, &mut emitter, 2000, 100));
    assert_eq!(controller.focused_input_id(), Some("b".to_string()));
    assert_eq!(error_of(&controller, "a"), None);
    assert_eq!(error_of(&controller, "b"), Some("Minimum 2 characters required".to_string()));
    assert!(view_state.shows_inline("b"));
    assert!(!view_state.shows_inline("a"));
    assert_eq!(
        emitter.take_emitted(),
        vec![
            AppEvent::ValidationFailed {
                id: "b".to_string(),
                error: "Minimum 2 characters required".to_string()
            },
            AppEvent::FocusChanged { from: Some("c".to_string()), to: Some("b".to_string()) },
        ]
    );
    assert_eq!(emitter.drain_due(2100), vec![AppEvent::ClearErrorMessage { id: "b".to_string() }]);
}

#[test]
fn apply_validation_errors_sets_and_clears() {
    let mut controller = FormController::new(step());
    let mut view_state = ViewState::new();
    let mut emitter = EventEmitter::new();
    controller.handle_submit(&mut view_state, &mut emitter, 2000, 0);
    let errors = vec![
        ("c".to_string(), "first".to_string()),
        ("c".to_string(), "second".to_string()),
        ("zzz".to_string(), "nobody".to_string()),
    ];
    controller.apply_validation_errors(&errors, &mut view_state, &mut emitter, 1000, 50);
    assert_eq!(error_of(&controller, "a"), None);
    assert_eq!(error_of(&controller, "b"), None);
    assert_eq!(error_of(&controller, "c"), Some("first".to_string()));
    assert!(!view_state.shows_inline("a"));
    assert!(view_state.shows_inline("c"));
    assert_eq!(emitter.drain_due(1050), vec![AppEvent::ClearErrorMessage { id: "c".to_string() }]);
    assert_eq!(emitter.pending(), 0);
}

#[test]
fn delete_word_of_the_focused_input() {
    let mut controller = FormController::new(step());
    let mut view_state = ViewState::new();
    let mut emitter = EventEmitter::new();
    type_text(&mut controller, "one two", &mut view_state, &mut emitter);
    emitter.take_emitted();
    controller.handle_delete_word(false, &mut view_state, &mut emitter);
    assert_eq!(controller.step().find_input("a").unwrap().value(), "one ");
    assert_eq!(
        emitter.take_emitted(),
        vec![AppEvent::InputChanged { id: "a".to_string(), value: "one ".to_string() }]
    );
    controller.handle_delete_word(true, &mut view_state, &mut emitter);
    assert!(emitter.take_emitted().is_empty());
}

#[test]
fn step_finds_validates_and_collects() {
    let step = step();
    assert_eq!(step.find_input_index("b"), Some(2));
    assert_eq!(step.find_input_index("nobody"), None);
    assert!(step.find_input("intro").is_none());
    assert_eq!(
        step.validate_all(),
        vec![
            ("a".to_string(), "This field is required".to_string()),
            ("b".to_string(), "Minimum 2 characters required".to_string())
        ]
    );
    assert_eq!(step.values().len(), 3);
}
