use rustical::app::App;
use rustical::app_state::AppState;
use rustical::date_input::DateInput;
use rustical::drawable::{Display, DrawableOptions, Options, Wrap};
use rustical::event::{Action, AppEvent, AppEventType};
use rustical::field::Field;
use rustical::form_step::FormStep;
use rustical::input::{InputBase, KeyCode, KeyEvent, KeyModifiers};
use rustical::ip_input::ip_input;
use rustical::node::Node;
use rustical::position::Position;
use rustical::renderer::TermOp;
use rustical::style::{Attribute, Color, Style};
use rustical::terminal_context::TerminalContext;
use rustical::terminal_state::TerminalState;
use rustical::text::Text;
use rustical::text_input::TextInput;
use rustical::theme::{error_style, focused_style, hint_style, placeholder_style, prompt_style, Theme};
use rustical::validators::{min_length, required};
use rustical::view_state::ViewState;

fn texts(node: &Node, inline: bool) -> Vec<String> {
    node.render(inline, &Theme::default_theme()).iter().map(|s| s.text().to_string()).collect()
}

fn form() -> FormStep {
    let mut step = FormStep::new(
        "Please fill the form:",
        vec![
            Node::input(Field::Text(
                TextInput::new("username", "Username")
                    .with_min_width(8)
                    .with_validator(required())
                    .with_validator(min_length(3)),
            )),
            Node::input(Field::Date(DateInput::new("birth", "Birth", "DD/MM/YYYY"))),
            Node::input(Field::Ip(ip_input("Server"))),
        ],
    );
    step.hint = Some("Tab moves, Enter submits".to_string());
    step
}

fn key(code: KeyCode) -> KeyEvent {
    KeyEvent::new(code, KeyModifiers::none())
}

#[test]
fn text_node_renders_its_text() {
    let node = Node::text("hello");
    assert_eq!(texts(&node, false), vec!["hello"]);
    assert_eq!(node.cursor_offset(), None);
    assert!(!node.is_input());
    assert!(node.as_input().is_none());
}

#[test]
fn unfocused_input_renders_label_and_content() {
    let node = Node::input(Field::Text(TextInput::new("u", "Name").with_min_width(4)));
    assert_eq!(texts(&node, false), vec!["Name", ": ", "    "]);
    assert_eq!(node.cursor_offset(), None);
    assert!(node.is_input());
}

#[test]
fn focused_input_renders_between_brackets() {
    let mut input = TextInput::new("u", "Name").with_min_width(4);
    input.set_focused(true);
    input.handle_key(KeyCode::Char('日'), KeyModifiers::none());
    let node = Node::input(Field::Text(input));
    assert_eq!(texts(&node, false), vec!["Name", ": ", "[", "日  ", "]"]);
    assert_eq!(node.cursor_offset(), Some(4 + 3 + 2));
    assert_eq!(node.cursor_offset_in_field(), Some(3));
    let field: Vec<String> = node
        .render_field(false, &Theme::default_theme())
        .iter()
        .map(|s| s.text().to_string())
        .collect();
    assert_eq!(field, vec!["[", "日  ", "]"]);
}

#[test]
fn error_takes_the_place_of_the_content_when_inline() {
    let mut input = TextInput::new("u", "Name").with_min_width(12);
    input.set_focused(true);
    input.set_error(Some("bad".to_string()));
    let node = Node::input(Field::Text(input));
    assert_eq!(texts(&node, true), vec!["Name", ": ", "[", "✗ ", "bad", "       ", "]"]);
    let spans = node.render(true, &Theme::default_theme());
    assert_eq!(spans[3].style().fg(), Some(Color::Red));
    assert_eq!(spans[4].style().attributes().to_vec(), vec![Attribute::Bold]);
    let spans = node.render(false, &Theme::default_theme());
    assert_eq!(spans[3].text(), "            ");
    assert_eq!(spans[3].style().fg(), Some(Color::Red));
    assert_eq!(spans[0].style().fg(), None);
}

#[test]
fn theme_styles() {
    assert_eq!(prompt_style().attributes().to_vec(), vec![Attribute::Bold]);
    assert_eq!(hint_style().fg(), Some(Color::DarkGrey));
    assert_eq!(error_style().fg(), Some(Color::Red));
    assert_eq!(error_style().attributes().to_vec(), vec![Attribute::Bold]);
    assert_eq!(placeholder_style().fg(), Some(Color::DarkGrey));
    assert_eq!(focused_style().attributes().to_vec(), vec![Attribute::Bold]);
}

#[test]
fn options_give_a_style() {
    let mut options = Options::new();
    assert_eq!(options.to_style(), Style::new());
    options.color = Some(Color::Green);
    options.background = Some(Color::Black);
    options.bold = true;
    options.underline = true;
    let style = options.to_style();
    assert_eq!(style.fg(), Some(Color::Green));
    assert_eq!(style.bg(), Some(Color::Black));
    assert_eq!(style.attributes().to_vec(), vec![Attribute::Bold, Attribute::Underlined]);
    let options = DrawableOptions::new().with_wrap(Wrap::No).with_style(style.clone());
    assert_eq!(options.wrap(), Wrap::No);
    assert_eq!(options.style(), &style);
}

#[test]
fn text_is_one_span() {
    let mut text = Text::new("hello")
        .with_display(Display::Block)
        .with_wrap(Wrap::No)
        .with_style(Style::new().with_fg(Color::Cyan));
    assert_eq!(text.text(), "hello");
    assert_eq!(text.display(), Display::Block);
    text.set_text("bye");
    let spans = text.spans();
    assert_eq!(spans.len(), 1);
    assert_eq!(spans[0].text(), "bye");
    assert_eq!(spans[0].wrap(), Wrap::No);
    assert_eq!(spans[0].style().fg(), Some(Color::Cyan));
}

#[test]
fn input_base_defaults() {
    let base = InputBase::new("id", "Label").with_min_width(9).with_validator(required());
    assert_eq!(base.id, "id");
    assert_eq!(base.label, "Label");
    assert!(!base.focused);
    assert_eq!(base.error, None);
    assert_eq!(base.min_width, 9);
    assert_eq!(base.validators, vec![required()]);
    assert_eq!(InputBase::new("a", "b").min_width, 1);
}

#[test]
fn positions_and_terminal_state() {
    let mut position = Position::new(3, 4);
    assert_eq!((position.x(), position.y()), (3, 4));
    position.set(5, 6);
    assert_eq!(position, Position::new(5, 6));
    let mut state = TerminalState::with_size(80, 24);
    assert!(!state.update_size(80, 24));
    assert!(state.update_size(100, 24));
    assert_eq!((state.width(), state.height()), (100, 24));
    state.set_cursor(7, 8);
    assert_eq!(state.cursor(), Position::new(7, 8));
    let mut context = TerminalContext::with_size(80, 24);
    assert!(context.supports_colors());
    assert!(context.can_fit(24));
    assert!(!context.can_fit(25));
    context.set_cursor_pos(1, 2);
    assert_eq!(context.cursor_pos(), (1, 2));
    context.set_size(10, 5);
    assert_eq!((context.width(), context.height()), (10, 5));
}

#[test]
fn app_state_moves_focus_by_identity() {
    let step = form();
    let mut state = AppState::from_step(&step.nodes);
    assert_eq!(state.input_ids(), &["username", "birth", "Server"]);
    assert_eq!(state.focused(), Some(&"username".to_string()));
    assert_eq!(state.focused_index(), Some(0));
    assert_eq!(state.index_of("Server"), Some(2));
    assert_eq!(state.index_of("nobody"), None);
    state.focus_next();
    assert!(state.is_focused("birth"));
    state.focus_next();
    state.focus_next();
    assert!(state.is_focused("username"));
    state.focus_prev();
    assert!(state.is_focused("Server"));
    state.focus("birth");
    assert!(state.is_focused("birth"));
    state.focus("nobody");
    assert!(state.is_focused("birth"));
    let mut empty = AppState::new();
    empty.focus_next();
    assert_eq!(empty.focused(), None);
    empty.focus_prev();
    assert_eq!(empty.focused_index(), None);
}

#[test]
fn screen_units_and_layout() {
    let mut app = App::new(form());
    let ctx = app.compose(80);
    let lines: Vec<String> = ctx.frame.lines().iter().map(|l| l.to_string()).collect();
    assert_eq!(
        lines,
        vec![
            "Please fill the form:",
            "Username: [        ]",
            "Birth: DD/MM/YYYY",
            "Server: 0.0.0.0",
            "Tab moves, Enter submits",
        ]
    );
    assert_eq!(ctx.cursor_position, Some((11, 1)));
    app.handle_key(key(KeyCode::Char('a')), 0);
    app.handle_key(key(KeyCode::Char('b')), 0);
    let ctx = app.compose(80);
    assert_eq!(ctx.cursor_position, Some((13, 1)));
    assert_eq!(ctx.frame.lines()[1].to_string(), "Username: [ab      ]");
    let units = app.form.step().units(&ViewState::new(), &Theme::default_theme());
    assert_eq!(units.len(), 5);
    assert_eq!(units[1].cursor_offset, Some(13));
    assert_eq!(units[2].cursor_offset, None);
}

#[test]
fn app_routes_keys() {
    let mut app = App::new(form());
    let subscriber = app.on(AppEventType::FocusChanged);
    assert_eq!(app.handlers_for(AppEventType::FocusChanged), vec![subscriber]);
    app.handle_key(key(KeyCode::Char('a')), 0);
    app.handle_key(key(KeyCode::Left), 0);
    app.handle_key(key(KeyCode::Char('b')), 0);
    assert_eq!(app.form.step().find_input("username").unwrap().value(), "ba");
    app.take_events();
    app.handle_key(key(KeyCode::Tab), 0);
    assert_eq!(app.form.focused_input_id(), Some("birth".to_string()));
    let events = app.take_events();
    assert_eq!(events[0], AppEvent::Action(Action::NextInput));
    assert_eq!(events.len(), 3);
    app.handle_key(KeyEvent::new(KeyCode::BackTab, KeyModifiers::shift()), 0);
    assert_eq!(app.form.focused_input_id(), Some("username".to_string()));
    app.handle_key(KeyEvent::new(KeyCode::Char('w'), KeyModifiers::control()), 0);
    assert_eq!(app.form.step().find_input("username").unwrap().value(), "a");
    assert!(!app.should_exit);
    app.handle_key(KeyEvent::new(KeyCode::Char('c'), KeyModifiers::control()), 0);
    assert!(app.should_exit);
}

#[test]
fn app_shows_an_error_and_clears_it_on_a_later_tick() {
    let mut app = App::new(form());
    app.handle_key(key(KeyCode::Enter), 1000);
    assert!(!app.should_exit);
    let ctx = app.compose(80);
    assert_eq!(ctx.frame.lines()[1].to_string(), "Username: [✗ This field is required]");
    assert!(!app.tick(2999));
    assert!(app.tick(3000));
    assert!(!app.tick(3001));
    let ctx = app.compose(80);
    assert_eq!(ctx.frame.lines()[1].to_string(), "Username: [        ]");
    let events = app.take_events();
    assert_eq!(events.last(), Some(&AppEvent::ClearErrorMessage { id: "username".to_string() }));
}

#[test]
fn app_submits_a_valid_form() {
    let mut app = App::new(form());
    for c in "ann".chars() {
        app.handle_key(key(KeyCode::Char(c)), 0);
    }
    app.handle_key(key(KeyCode::Enter), 0);
    for c in "24121999".chars() {
        app.handle_key(key(KeyCode::Char(c)), 0);
    }
    app.handle_key(key(KeyCode::Enter), 0);
    assert_eq!(app.form.focused_input_id(), Some("Server".to_string()));
    for c in "10.0.0.7".chars() {
        app.handle_key(key(KeyCode::Char(c)), 0);
    }
    assert!(!app.should_exit);
    app.handle_key(key(KeyCode::Enter), 0);
    assert!(app.should_exit);
    assert_eq!(app.take_events().last(), Some(&AppEvent::Submitted));
    assert_eq!(
        app.form.step().values(),
        vec![
            ("username".to_string(), "ann".to_string()),
            ("birth".to_string(), "24/12/1999".to_string()),
            ("Server".to_string(), "10.0.0.7".to_string()),
        ]
    );
}

#[test]
fn app_renders_into_the_anchored_block() {
    let mut app = App::new(form());
    let (ctx, ops) = app.render(40);
    assert!(ops.is_empty());
    let lines = ctx.frame.len();
    let reserve = app.renderer.reserve(3, lines);
    assert_eq!(reserve.len(), lines + 3);
    app.renderer.anchor(3 + lines as u16, lines);
    let (ctx, ops) = app.render(40);
    assert_eq!(ops.len(), 3 * ctx.frame.len() + 4);
    assert_eq!(ops[ops.len() - 3], TermOp::MoveTo(11, 4));
    assert_eq!(app.renderer.num_lines(), 5);
    let (_, ops) = app.render(14);
    assert!(ops.len() > 3 * 5 + 4);
}

#[test]
fn screen_knows_whether_its_inputs_are_in_order() {
    let mut step = form();
    assert!(step.is_well_formed());
    if let Node::Input(Field::Ip(input)) = &mut step.nodes[2] {
        input.content.current_octet = 4;
    }
    assert!(!step.is_well_formed());
    assert!(FormStep::new("empty", vec![Node::text("t")]).is_well_formed());
}
