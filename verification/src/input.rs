//! What all input widgets share: keys, the answer to a key, and the base
//! record of identity, focus, error and validators.

use crate::validators::Validator;
use vstd::prelude::*;

verus! {

/// A key of the keyboard.
#[derive(Clone, Copy, Debug, PartialEq, Eq, Hash, Structural)]
pub enum KeyCode {
    Backspace,
    Enter,
    Left,
    Right,
    Up,
    Down,
    Home,
    End,
    PageUp,
    PageDown,
    Tab,
    BackTab,
    Delete,
    Insert,
    F(u8),
    Char(char),
    Null,
    Esc,
    /// Any key that no widget and no binding knows.
    Other,
}

/// The modifier keys held down with a key.
#[derive(Clone, Copy, Debug, PartialEq, Eq, Hash, Structural)]
pub struct KeyModifiers {
    pub shift: bool,
    pub control: bool,
    pub alt: bool,
}

impl KeyModifiers {
    /// No modifier.
    pub fn none() -> (r: Self)
        ensures
            r == (KeyModifiers { shift: false, control: false, alt: false }),
    {
        KeyModifiers { shift: false, control: false, alt: false }
    }

    /// Control alone.
    pub fn control() -> (r: Self)
        ensures
            r == (KeyModifiers { shift: false, control: true, alt: false }),
    {
        KeyModifiers { shift: false, control: true, alt: false }
    }

    /// Shift alone.
    pub fn shift() -> (r: Self)
        ensures
            r == (KeyModifiers { shift: true, control: false, alt: false }),
    {
        KeyModifiers { shift: true, control: false, alt: false }
    }
}

/// A key press: the key and the modifiers held with it.
#[derive(Clone, Copy, Debug, PartialEq, Eq, Hash, Structural)]
pub struct KeyEvent {
    pub code: KeyCode,
    pub modifiers: KeyModifiers,
}

impl KeyEvent {
    /// A key press.
    pub fn new(code: KeyCode, modifiers: KeyModifiers) -> (r: Self)
        ensures
            r == (KeyEvent { code, modifiers }),
    {
        KeyEvent { code, modifiers }
    }
}

/// What a widget answers to a key.
#[derive(Clone, Copy, Debug, PartialEq, Eq, Structural)]
pub enum KeyResult {
    Handled,
    NotHandled,
    Submit,
}

/// What every input has: a stable identity, a label, the focus flag, the
/// error that validation found, its validators in order, and the least
/// width of its content.
#[derive(Debug)]
pub struct InputBase {
    pub id: String,
    pub label: String,
    pub focused: bool,
    pub error: Option<String>,
    pub validators: Vec<Validator>,
    pub min_width: usize,
}

impl InputBase {
    /// An unfocused input without error and validators, one column wide.
    pub fn new(id: &str, label: &str) -> (r: Self)
        ensures
            r.id@ == id@,
            r.label@ == label@,
            !r.focused,
            r.error is None,
            r.validators@ == Seq::<Validator>::empty(),
            r.min_width == 1,
    {
        InputBase {
            id: String::from_str(id),
            label: String::from_str(label),
            focused: false,
            error: None,
            validators: Vec::new(),
            min_width: 1,
        }
    }

    /// Sets the least width of the content.
    pub fn with_min_width(self, width: usize) -> (r: Self)
        ensures
            r == (InputBase { min_width: width, ..self }),
    {
        InputBase {
            id: self.id,
            label: self.label,
            focused: self.focused,
            error: self.error,
            validators: self.validators,
            min_width: width,
        }
    }

    /// Adds a validator behind those already there.
    pub fn with_validator(self, validator: Validator) -> (r: Self)
        ensures
            r.validators@ == self.validators@.push(validator),
            r.id == self.id,
            r.label == self.label,
            r.focused == self.focused,
            r.error == self.error,
            r.min_width == self.min_width,
    {
        let mut validators = self.validators;
        validators.push(validator);
        InputBase {
            id: self.id,
            label: self.label,
            focused: self.focused,
            error: self.error,
            validators,
            min_width: self.min_width,
        }
    }
}

/// The message of an error slot.
pub open spec fn error_text(error: Option<String>) -> Option<Seq<char>> {
    match error {
        Some(message) => Some(message@),
        None => None,
    }
}

/// What validation leaves in the error slot: the message of the first rule
/// that failed, or nothing.
pub open spec fn outcome_text(outcome: Result<(), String>) -> Option<Seq<char>> {
    match outcome {
        Ok(_) => None,
        Err(message) => Some(message@),
    }
}

} // verus!
