use rustical::date_input::{
    parse_format, DateInput, DateInputBuilder, DateInputNode, DateSegment, SegmentType,
};
use rustical::input::{KeyCode, KeyModifiers, KeyResult};

const KINDS: [SegmentType; 6] = [
    SegmentType::Year,
    SegmentType::Month,
    SegmentType::Day,
    SegmentType::Hour,
    SegmentType::Minute,
    SegmentType::Second,
];

fn type_digits(input: &mut DateInput, digits: &str) {
    for c in digits.chars() {
        input.handle_key(KeyCode::Char(c), KeyModifiers::none());
    }
}

#[test]
fn date_input_auto_advance() {
    let mut input = DateInput::new("d", "Date", "DD/MM/YYYY");
    assert_eq!(input.cursor_pos(), 0);
    assert_eq!(input.handle_key(KeyCode::Char('3'), KeyModifiers::none()), KeyResult::Handled);
    assert_eq!(input.node.segments[0].value, "3");
    assert_eq!(input.cursor_pos(), 0);
    assert_eq!(input.handle_key(KeyCode::Char('1'), KeyModifiers::none()), KeyResult::Handled);
    assert_eq!(input.node.segments[0].value, "31");
    assert_eq!(input.cursor_pos(), 1);
}

#[test]
fn segment_bounds_of_each_kind() {
    let expected = [(1900, 2100, 4), (1, 12, 2), (1, 31, 2), (0, 23, 2), (0, 59, 2), (0, 59, 2)];
    for (kind, (min, max, length)) in KINDS.iter().zip(expected.iter()) {
        assert_eq!(kind.min_value(), *min);
        assert_eq!(kind.max_value(), *max);
        assert_eq!(kind.length(), *length);
    }
}

#[test]
fn increment_cycles_once_through_all_values() {
    for kind in KINDS.iter() {
        let mut segment = DateSegment::new(*kind);
        segment.increment();
        assert_eq!(segment.numeric_value(), kind.min_value());
        let steps = kind.max_value() - kind.min_value() + 1;
        for step in 1..steps {
            segment.increment();
            assert_eq!(segment.numeric_value(), kind.min_value() + step);
        }
        segment.increment();
        assert_eq!(segment.numeric_value(), kind.min_value());
    }
}

#[test]
fn decrement_wraps_from_the_least_to_the_greatest_value() {
    let mut segment = DateSegment::new(SegmentType::Month);
    segment.decrement();
    assert_eq!(segment.value, "12");
    segment.decrement();
    assert_eq!(segment.value, "11");
    let mut segment = DateSegment::new(SegmentType::Hour);
    segment.increment();
    assert_eq!(segment.value, "00");
    segment.decrement();
    assert_eq!(segment.value, "23");
    let mut segment = DateSegment::new(SegmentType::Year);
    segment.increment();
    assert_eq!(segment.value, "1900");
    segment.decrement();
    assert_eq!(segment.value, "2100");
}

#[test]
fn insert_digit_never_passes_the_greatest_value() {
    for kind in KINDS.iter() {
        for first in "0123456789".chars() {
            for second in "0123456789".chars() {
                for third in "0123456789".chars() {
                    let mut segment = DateSegment::new(*kind);
                    for c in [first, second, third] {
                        assert!(segment.insert_digit(c));
                        assert!(segment.numeric_value() <= kind.max_value());
                        assert!(segment.value.len() <= kind.length());
                    }
                }
            }
        }
    }
}

#[test]
fn insert_digit_starts_afresh_on_overflow() {
    let mut segment = DateSegment::new(SegmentType::Month);
    assert!(segment.insert_digit('1'));
    assert!(segment.insert_digit('3'));
    assert_eq!(segment.value, "3");
    assert!(segment.insert_digit('0'));
    assert_eq!(segment.value, "0");
    assert!(segment.insert_digit('9'));
    assert_eq!(segment.value, "09");
    assert!(segment.insert_digit('1'));
    assert_eq!(segment.value, "1");
    assert!(!segment.insert_digit('x'));
    assert_eq!(segment.value, "1");
    assert!(segment.delete_digit());
    assert!(!segment.delete_digit());
    assert_eq!(segment.value, "");
}

#[test]
fn segment_shows_token_underscores_or_digits() {
    let mut segment = DateSegment::new(SegmentType::Year);
    assert_eq!(segment.display_string(), "YYYY");
    segment.insert_digit('2');
    assert_eq!(segment.display_string(), "2___");
    segment.insert_digit('0');
    segment.insert_digit('2');
    segment.insert_digit('4');
    assert_eq!(segment.display_string(), "2024");
    assert_eq!(DateSegment::new(SegmentType::Minute).display_string(), "mm");
}

#[test]
fn format_is_read_into_segments_and_separators() {
    let (segments, separators) = parse_format("DD/MM/YYYY HH:mm:ss");
    let kinds: Vec<SegmentType> = segments.iter().map(|s| s.segment_type).collect();
    assert_eq!(
        kinds,
        vec![
            SegmentType::Day,
            SegmentType::Month,
            SegmentType::Year,
            SegmentType::Hour,
            SegmentType::Minute,
            SegmentType::Second
        ]
    );
    assert_eq!(separators, vec!["", "/", "/", " ", ":", ":", ""]);
}

#[test]
fn unknown_tokens_are_separator_text() {
    let (segments, separators) = parse_format("on DD of MMM, YYYY!");
    let kinds: Vec<SegmentType> = segments.iter().map(|s| s.segment_type).collect();
    assert_eq!(kinds, vec![SegmentType::Day, SegmentType::Year]);
    assert_eq!(separators, vec!["on ", " of MMM, ", "!"]);
    let (segments, separators) = parse_format("");
    assert!(segments.is_empty());
    assert_eq!(separators, vec![""]);
    assert_eq!(SegmentType::from_token("YYYY"), Some(SegmentType::Year));
    assert_eq!(SegmentType::from_token("mm"), Some(SegmentType::Minute));
    assert_eq!(SegmentType::from_token("MM"), Some(SegmentType::Month));
    assert_eq!(SegmentType::from_token("YY"), None);
    assert_eq!(SegmentType::from_token("xx"), None);
}

#[test]
fn fresh_date_input_shows_its_format() {
    for format in ["DD/MM/YYYY", "HH:mm", "YYYY-MM-DD HH:mm:ss", "at HH o'clock"] {
        let node = DateInputNode::new("d", "Date", format);
        assert_eq!(node.display_string(), format);
    }
}

#[test]
fn date_value_and_display() {
    let mut input = DateInput::new("d", "Date", "DD/MM/YYYY");
    type_digits(&mut input, "0512");
    assert_eq!(input.value(), "05/12/");
    assert_eq!(input.display_string(), "05/12/YYYY");
    type_digits(&mut input, "20");
    assert_eq!(input.display_string(), "05/12/20__");
    assert_eq!(input.cursor_offset_in_content(), 6);
}

#[test]
fn date_validation_names_what_is_wrong() {
    let mut input = DateInput::new("d", "Date", "DD/MM/YYYY");
    assert_eq!(input.validate(), Err("All fields must be filled".to_string()));
    type_digits(&mut input, "0012");
    assert_eq!(input.validate(), Err("Invalid value for Day".to_string()));
    let mut input = DateInput::new("d", "Date", "DD/MM/YYYY");
    type_digits(&mut input, "311219");
    assert_eq!(input.validate(), Err("Invalid value for Year".to_string()));
    type_digits(&mut input, "99");
    assert_eq!(input.value(), "31/12/1999");
    assert_eq!(input.validate(), Ok(()));
    let mut input = DateInput::new("d", "Date", "DD/MM/YYYY");
    type_digits(&mut input, "30022024");
    assert_eq!(input.validate(), Ok(()));
}

#[test]
fn segment_navigation_is_clamped_at_the_ends() {
    let mut node = DateInputNode::new("t", "Time", "HH:mm");
    assert!(!node.move_prev());
    assert!(node.move_next());
    assert!(!node.move_next());
    assert_eq!(node.focused_segment, 1);
    assert!(node.move_prev());
    assert_eq!(node.focused_segment, 0);
    let mut input = DateInput::new("t", "Time", "HH:mm");
    assert_eq!(input.handle_key(KeyCode::Left, KeyModifiers::none()), KeyResult::NotHandled);
    assert_eq!(input.handle_key(KeyCode::Char(':'), KeyModifiers::none()), KeyResult::Handled);
    assert_eq!(input.handle_key(KeyCode::Right, KeyModifiers::none()), KeyResult::NotHandled);
    assert_eq!(input.handle_key(KeyCode::Enter, KeyModifiers::none()), KeyResult::Submit);
    assert_eq!(input.handle_key(KeyCode::Char('x'), KeyModifiers::none()), KeyResult::NotHandled);
}

#[test]
fn date_keys_step_and_delete() {
    let mut input = DateInput::new("t", "Time", "HH:mm");
    assert_eq!(input.handle_key(KeyCode::Up, KeyModifiers::none()), KeyResult::Handled);
    assert_eq!(input.node.segments[0].value, "00");
    input.handle_key(KeyCode::Down, KeyModifiers::none());
    assert_eq!(input.node.segments[0].value, "23");
    input.handle_key(KeyCode::Backspace, KeyModifiers::none());
    assert_eq!(input.node.segments[0].value, "2");
    let mut node = DateInputNode::new("t", "Time", "HH:mm");
    assert!(node.insert_digit('1'));
    assert!(node.increment());
    assert_eq!(node.segments[0].value, "02");
    assert!(node.decrement());
    assert!(node.delete_digit());
    assert_eq!(node.value(), "0:");
    node.clear();
    assert_eq!(node.value(), ":");
    assert_eq!(node.focused_segment, 0);
    let mut empty = DateInputNode::new("e", "Empty", "--");
    assert!(!empty.insert_digit('1'));
    assert!(!empty.increment());
    assert!(!empty.decrement());
    assert!(!empty.delete_digit());
}

#[test]
fn date_content_spans() {
    let mut input = DateInput::new("d", "Date", "DD/MM").with_min_width(8);
    input.set_focused(true);
    let texts: Vec<String> = input.render_content().iter().map(|s| s.text().to_string()).collect();
    assert_eq!(texts, vec!["DD", "/", "MM", "   "]);
    let spans = input.render_content();
    assert_eq!(spans[0].style().fg(), Some(rustical::style::Color::Yellow));
    assert_eq!(spans[2].style().fg(), None);
}

#[test]
fn date_builder_builds_the_input() {
    let input = DateInputBuilder::new("d".to_string(), "Date".to_string(), "HH:mm".to_string())
        .min_width(12)
        .italic()
        .underline()
        .build();
    assert_eq!(input.id(), "d");
    assert_eq!(input.min_width(), 12);
    assert_eq!(input.display_string(), "HH:mm");
    assert!(input.opts.italic && input.opts.underline && !input.opts.bold);
}

#[test]
fn segments_know_whether_they_are_in_order() {
    let mut segment = DateSegment::new(SegmentType::Day);
    assert!(segment.is_well_formed());
    segment.value = "31".to_string();
    assert!(segment.is_well_formed());
    segment.value = "32".to_string();
    assert!(!segment.is_well_formed());
    segment.value = "123".to_string();
    assert!(!segment.is_well_formed());
    segment.value = "1x".to_string();
    assert!(!segment.is_well_formed());
    segment.value = "+1".to_string();
    assert!(!segment.is_well_formed());
    let mut node = DateInputNode::new("d", "Date", "DD/MM");
    assert!(node.is_well_formed());
    node.focused_segment = 2;
    assert!(!node.is_well_formed());
    node.focused_segment = 1;
    node.segments[0].value = "99".to_string();
    assert!(!node.is_well_formed());
}
