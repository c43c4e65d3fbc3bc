//! A toolkit of terminal form widgets: styled spans, a wrapping layout
//! engine, editable input fields, a focus and validation controller, a
//! deferred-event scheduler and an incremental renderer that plans the
//! terminal commands of each paint.

pub mod app;
pub mod app_state;
pub mod chars;
pub mod date_input;
pub mod drawable;
pub mod event;
pub mod event_emitter;
pub mod field;
pub mod form_controller;
pub mod form_step;
pub mod frame;
pub mod input;
pub mod input_manager;
pub mod ip_input;
pub mod layout;
pub mod node;
pub mod position;
pub mod render_context;
pub mod renderer;
pub mod span;
pub mod step;
pub mod style;
pub mod terminal_context;
pub mod terminal_state;
pub mod text;
pub mod text_input;
pub mod theme;
pub mod validators;
pub mod view_state;
pub mod width;
