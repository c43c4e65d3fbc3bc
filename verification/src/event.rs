//! The events of the application and the actions that keys are bound to.

use crate::input::KeyEvent;
use vstd::prelude::*;

verus! {

/// What a key binding asks for.
#[derive(Debug, Clone, Copy, PartialEq, Eq, Hash, Structural)]
pub enum Action {
    Exit,
    Submit,
    NextInput,
    PrevInput,
    DeleteWord,
    DeleteWordForward,
    MoveUp,
    MoveDown,
    MoveLeft,
    MoveRight,
    Cancel,
}

/// The kinds of terminal events that a subscription can ask for.
#[derive(Debug, Clone, Copy, PartialEq, Eq, Hash, Structural)]
pub enum EventType {
    KeyPressed,
    Action,
    Resize,
    Tick,
    All,
}

/// What the terminal reports.
#[derive(Debug, Clone, Copy, PartialEq, Eq, Structural)]
pub enum TerminalEvent {
    Key(KeyEvent),
    Resize { width: u16, height: u16 },
}

impl TerminalEvent {
    /// The kind of the event.
    pub fn event_type(&self) -> (r: EventType)
        ensures
            r == match self {
                TerminalEvent::Key(_) => EventType::KeyPressed,
                TerminalEvent::Resize { .. } => EventType::Resize,
            },
    {
        match self {
            TerminalEvent::Key(_) => EventType::KeyPressed,
            TerminalEvent::Resize { .. } => EventType::Resize,
        }
    }
}

/// The kinds of application events.
#[derive(Debug, Clone, Copy, PartialEq, Eq, Hash, Structural)]
pub enum AppEventType {
    Action,
    InputChanged,
    FocusChanged,
    ValidationFailed,
    Submitted,
    ClearErrorMessage,
}

/// What happens in the application.
#[derive(Debug, PartialEq, Eq)]
pub enum AppEvent {
    Action(Action),
    InputChanged { id: String, value: String },
    FocusChanged { from: Option<String>, to: Option<String> },
    ValidationFailed { id: String, error: String },
    Submitted,
    ClearErrorMessage { id: String },
}

/// What an application event holds.
pub enum AppEventView {
    Action(Action),
    InputChanged { id: Seq<char>, value: Seq<char> },
    FocusChanged { from: Option<Seq<char>>, to: Option<Seq<char>> },
    ValidationFailed { id: Seq<char>, error: Seq<char> },
    Submitted,
    ClearErrorMessage { id: Seq<char> },
}

/// The text of an optional string.
pub open spec fn optional_text(s: Option<String>) -> Option<Seq<char>> {
    match s {
        Some(text) => Some(text@),
        None => None,
    }
}

impl View for AppEvent {
    type V = AppEventView;

    open spec fn view(&self) -> AppEventView {
        match self {
            AppEvent::Action(action) => AppEventView::Action(*action),
            AppEvent::InputChanged { id, value } => AppEventView::InputChanged {
                id: id@,
                value: value@,
            },
            AppEvent::FocusChanged { from, to } => AppEventView::FocusChanged {
                from: optional_text(*from),
                to: optional_text(*to),
            },
            AppEvent::ValidationFailed { id, error } => AppEventView::ValidationFailed {
                id: id@,
                error: error@,
            },
            AppEvent::Submitted => AppEventView::Submitted,
            AppEvent::ClearErrorMessage { id } => AppEventView::ClearErrorMessage { id: id@ },
        }
    }
}

impl AppEventView {
    /// The kind of the event.
    pub open spec fn kind(&self) -> AppEventType {
        match self {
            AppEventView::Action(_) => AppEventType::Action,
            AppEventView::InputChanged { .. } => AppEventType::InputChanged,
            AppEventView::FocusChanged { .. } => AppEventType::FocusChanged,
            AppEventView::ValidationFailed { .. } => AppEventType::ValidationFailed,
            AppEventView::Submitted => AppEventType::Submitted,
            AppEventView::ClearErrorMessage { .. } => AppEventType::ClearErrorMessage,
        }
    }
}

/// A copy of an optional string.
pub fn copy_optional(s: &Option<String>) -> (r: Option<String>)
    ensures
        optional_text(r) == optional_text(*s),
{
    match s {
        Some(text) => Some(text.clone()),
        None => None,
    }
}

impl AppEvent {
    /// The kind of the event.
    pub fn event_type(&self) -> (r: AppEventType)
        ensures
            r == self@.kind(),
    {
        match self {
            AppEvent::Action(_) => AppEventType::Action,
            AppEvent::InputChanged { .. } => AppEventType::InputChanged,
            AppEvent::FocusChanged { .. } => AppEventType::FocusChanged,
            AppEvent::ValidationFailed { .. } => AppEventType::ValidationFailed,
            AppEvent::Submitted => AppEventType::Submitted,
            AppEvent::ClearErrorMessage { .. } => AppEventType::ClearErrorMessage,
        }
    }
}

impl Clone for AppEvent {
    fn clone(&self) -> (r: Self)
        ensures
            r@ == self@,
    {
        match self {
            AppEvent::Action(action) => AppEvent::Action(*action),
            AppEvent::InputChanged { id, value } => AppEvent::InputChanged {
                id: id.clone(),
                value: value.clone(),
            },
            AppEvent::FocusChanged { from, to } => AppEvent::FocusChanged {
                from: copy_optional(from),
                to: copy_optional(to),
            },
            AppEvent::ValidationFailed { id, error } => AppEvent::ValidationFailed {
                id: id.clone(),
                error: error.clone(),
            },
            AppEvent::Submitted => AppEvent::Submitted,
            AppEvent::ClearErrorMessage { id } => AppEvent::ClearErrorMessage { id: id.clone() },
        }
    }
}

} // verus!
