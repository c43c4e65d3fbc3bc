use rustical::date_input::DateInput;
use rustical::field::Field;
use rustical::frame::Frame;
use rustical::node::Node;
use rustical::span::Span;
use rustical::step::{Step, StepExt, ValidationError};
use rustical::text_input::TextInput;
use rustical::validators::required;

fn screen() -> Step {
    vec![
        Node::text("intro"),
        Node::input(Field::Text(TextInput::new("name", "Name").with_validator(required()))),
        Node::input(Field::Date(DateInput::new("day", "Day", "DD/MM"))),
    ]
}

#[test]
fn step_finds_inputs_by_identity() {
    let mut step = screen();
    assert!(step.find_by_id("name").unwrap().is_input());
    assert!(step.find_by_id("intro").is_none());
    assert!(step.find_by_id("nobody").is_none());
    assert_eq!(step.get_value("name"), Some("".to_string()));
    assert_eq!(step.get_value("day"), Some("/".to_string()));
    assert_eq!(step.get_value("nobody"), None);
    let node = step.find_by_id_mut("name").unwrap();
    node.as_input_mut().unwrap().set_focused(true);
    assert!(step[1].as_input().unwrap().is_focused());
    assert!(step.find_by_id_mut("nobody").is_none());
    assert!(step[0].as_input_mut().is_none());
}

#[test]
fn step_edits_text_inputs_by_identity() {
    let mut step = screen();
    assert!(step.insert_text("name", "ann"));
    assert!(step.insert_text("name", "a"));
    assert_eq!(step.get_value("name"), Some("anna".to_string()));
    assert!(step.set_value("name", "bob"));
    assert_eq!(step.get_value("name"), Some("bob".to_string()));
    assert!(step.insert_text("name", "!"));
    assert_eq!(step.get_value("name"), Some("bob!".to_string()));
    assert!(step.clear_input("name"));
    assert_eq!(step.get_value("name"), Some("".to_string()));
    assert!(!step.insert_text("day", "1"));
    assert!(!step.set_value("day", "1"));
    assert!(!step.clear_input("nobody"));
    assert_eq!(step.get_value("day"), Some("/".to_string()));
}

#[test]
fn step_validates_by_identity() {
    let mut step = screen();
    assert_eq!(
        step.validate_all(),
        vec![
            ValidationError { id: "name".to_string(), message: "This field is required".to_string() },
            ValidationError {
                id: "day".to_string(),
                message: "All fields must be filled".to_string()
            },
        ]
    );
    assert_eq!(step.validate_input("name"), Err("This field is required".to_string()));
    assert_eq!(step.validate_input("nobody"), Err("Input not found".to_string()));
    step.insert_text("name", "x");
    assert_eq!(step.validate_input("name"), Ok(()));
    assert_eq!(step.validate_all().len(), 1);
}

#[test]
fn step_sets_and_clears_errors() {
    let mut step = screen();
    assert!(step.set_error("day", "bad day".to_string()));
    assert_eq!(step[2].as_input().unwrap().error(), Some("bad day"));
    assert!(step.clear_error("day"));
    assert_eq!(step[2].as_input().unwrap().error(), None);
    assert!(!step.set_error("nobody", "x".to_string()));
    assert!(!step.clear_error("nobody"));
    assert_eq!(
        step.values(),
        vec![("name".to_string(), "".to_string()), ("day".to_string(), "/".to_string())]
    );
}

#[test]
fn form_step_hands_out_an_input_for_changing() {
    let mut step = rustical::form_step::FormStep::new("p", screen());
    step.find_input_mut("name").unwrap().set_error(Some("no".to_string()));
    assert_eq!(step.find_input("name").unwrap().error(), Some("no"));
    assert!(step.find_input_mut("intro").is_none());
}

#[test]
fn frame_hands_out_its_lines_for_changing() {
    let mut frame = Frame::new();
    frame.current_line_mut().push(Span::new("a"));
    assert_eq!(frame.len(), 1);
    frame.current_line_mut().push(Span::new("b"));
    assert_eq!(frame.to_string(), "ab");
    frame.new_line();
    frame.current_line_mut().push(Span::new("c"));
    assert_eq!(frame.to_string(), "ab\nc");
    frame.lines_mut().pop();
    assert_eq!(frame.to_string(), "ab");
}
