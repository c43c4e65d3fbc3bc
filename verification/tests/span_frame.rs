use rustical::drawable::Wrap;
use rustical::frame::{Frame, Line};
use rustical::span::Span;
use rustical::style::{Attribute, Color, Style};
use rustical::width::{char_columns, str_width};

#[test]
fn width_counts_columns_not_characters() {
    assert_eq!(Span::new("abc").width(), 3);
    assert_eq!(Span::new("日本").width(), 4);
    assert_eq!(Span::new("").width(), 0);
    assert_eq!(char_columns('a'), 1);
    assert_eq!(char_columns('日'), 2);
    assert_eq!(char_columns('\u{301}'), 0);
    assert_eq!(char_columns('\n'), 0);
    assert_eq!(str_width("e\u{301}"), 1);
}

#[test]
fn split_at_zero_gives_empty_head_and_whole_tail() {
    let span = Span::new("hello").with_wrap(Wrap::No);
    let (head, tail) = span.split_at_width(0);
    assert_eq!(head.text(), "");
    assert_eq!(head.wrap(), Wrap::No);
    assert_eq!(tail, Some(span));
}

#[test]
fn split_of_fitting_span_has_no_tail() {
    let span = Span::new("hello");
    let (head, tail) = span.split_at_width(5);
    assert_eq!(head, span);
    assert_eq!(tail, None);
    let (head, tail) = span.split_at_width(80);
    assert_eq!(head.text(), "hello");
    assert!(tail.is_none());
}

#[test]
fn split_keeps_style_and_wrap_and_loses_nothing() {
    let style = Style::new().with_fg(Color::Red).with_attribute(Attribute::Bold);
    let span = Span::new("hello world").with_style(style.clone()).with_wrap(Wrap::No);
    let (head, tail) = span.split_at_width(4);
    let tail = tail.unwrap();
    assert_eq!(head.text(), "hell");
    assert_eq!(tail.text(), "o world");
    assert_eq!(head.style(), &style);
    assert_eq!(tail.style(), &style);
    assert_eq!(head.wrap(), Wrap::No);
    assert_eq!(tail.wrap(), Wrap::No);
    assert_eq!(format!("{}{}", head.text(), tail.text()), "hello world");
    assert!(head.width() <= 4);
}

#[test]
fn split_does_not_cut_a_wide_character() {
    let span = Span::new("日本語");
    let (head, tail) = span.split_at_width(3);
    assert_eq!(head.text(), "日");
    assert_eq!(head.width(), 2);
    assert_eq!(tail.unwrap().text(), "本語");
    let (head, tail) = span.split_at_width(1);
    assert_eq!(head.text(), "");
    assert_eq!(tail.unwrap().text(), "日本語");
}

#[test]
fn split_takes_the_widest_prefix() {
    let span = Span::new("ae\u{301}b");
    let (head, tail) = span.split_at_width(2);
    assert_eq!(head.text(), "ae\u{301}");
    assert_eq!(tail.unwrap().text(), "b");
}

#[test]
fn style_merge_lays_the_other_over() {
    let base = Style::new().with_fg(Color::Blue).with_attribute(Attribute::Italic);
    let other = Style::new().with_bg(Color::Black).with_attribute(Attribute::Bold);
    let merged = base.merge(&other);
    assert_eq!(merged.fg(), Some(Color::Blue));
    assert_eq!(merged.bg(), Some(Color::Black));
    assert_eq!(merged.attributes().to_vec(), vec![Attribute::Italic, Attribute::Bold]);
    let over = Style::new().with_colors(Color::Red, Color::White);
    let merged = merged.merge(&over);
    assert_eq!(merged.fg(), Some(Color::Red));
    assert_eq!(merged.bg(), Some(Color::White));
}

#[test]
fn line_drops_empty_spans() {
    let mut line = Line::new();
    assert!(line.is_empty());
    line.push(Span::new(""));
    assert!(line.is_empty());
    line.push(Span::new("ab"));
    line.push(Span::new(""));
    line.push(Span::new("日"));
    assert_eq!(line.spans().len(), 2);
    assert_eq!(line.width(), 4);
    assert_eq!(line.to_string(), "ab日");
}

#[test]
fn frame_is_never_empty_after_trimming() {
    let mut frame = Frame::new();
    frame.trim_trailing_empty();
    assert_eq!(frame.len(), 1);
    assert!(frame.lines()[0].is_empty());

    let mut frame = Frame::new();
    frame.new_line();
    frame.new_line();
    frame.new_line();
    frame.trim_trailing_empty();
    assert_eq!(frame.len(), 1);
}

#[test]
fn frame_trims_trailing_empty_lines_only() {
    let mut frame = Frame::new();
    frame.push_span(Span::new("a"));
    frame.new_line();
    frame.new_line();
    frame.push_span(Span::new("b"));
    frame.new_line();
    frame.new_line();
    frame.trim_trailing_empty();
    assert_eq!(frame.len(), 3);
    assert_eq!(frame.to_string(), "a\n\nb");
    let before = frame.clone();
    frame.trim_trailing_empty();
    assert_eq!(frame, before);
}

#[test]
fn frame_ensure_line_adds_one_line_once() {
    let mut frame = Frame::new();
    assert_eq!(frame.len(), 0);
    frame.ensure_line();
    assert_eq!(frame.len(), 1);
    frame.ensure_line();
    assert_eq!(frame.len(), 1);
}
