use rustical::drawable::{Display, Wrap};
use rustical::layout::{Layout, Placed, RenderUnit};
use rustical::span::Span;

fn unit(texts: &[&str], display: Display, wrap: Wrap) -> RenderUnit {
    let spans = texts.iter().map(|t| Span::new(t).with_wrap(wrap)).collect();
    RenderUnit::new(spans, display)
}

fn lines(units: &[RenderUnit], width: u16) -> Vec<String> {
    let (ctx, _) = Layout::new().with_margin(0).layout(units, width);
    ctx.frame.lines().iter().map(|l| l.to_string()).collect()
}

#[test]
fn layout_of_nothing_is_one_empty_line() {
    let (ctx, placed) = Layout::new().layout(&[], 80);
    assert_eq!(ctx.frame.len(), 1);
    assert!(ctx.frame.lines()[0].is_empty());
    assert_eq!(ctx.cursor_position, None);
    assert!(placed.is_empty());
}

#[test]
fn inline_units_share_a_line_and_block_units_do_not() {
    let units = vec![
        unit(&["ab"], Display::Inline, Wrap::Yes),
        unit(&["cd"], Display::Inline, Wrap::Yes),
        unit(&["ef"], Display::Block, Wrap::Yes),
        unit(&["gh"], Display::Inline, Wrap::Yes),
    ];
    assert_eq!(lines(&units, 80), vec!["abcd", "efgh"]);
}

#[test]
fn block_unit_at_the_start_adds_no_line() {
    let units = vec![unit(&["ab"], Display::Block, Wrap::Yes)];
    assert_eq!(lines(&units, 80), vec!["ab"]);
}

#[test]
fn wrapping_span_fills_each_line() {
    let units = vec![unit(&["abcdefghij"], Display::Inline, Wrap::Yes)];
    assert_eq!(lines(&units, 4), vec!["abcd", "efgh", "ij"]);
}

#[test]
fn wrapping_span_continues_the_current_line() {
    let units = vec![
        unit(&["ab"], Display::Inline, Wrap::Yes),
        unit(&["cdefgh"], Display::Inline, Wrap::Yes),
    ];
    assert_eq!(lines(&units, 4), vec!["abcd", "efgh"]);
}

#[test]
fn no_wrap_span_moves_to_a_new_line_whole() {
    let units = vec![
        unit(&["ab"], Display::Inline, Wrap::Yes),
        unit(&["cdef"], Display::Inline, Wrap::No),
    ];
    assert_eq!(lines(&units, 5), vec!["ab", "cdef"]);
}

#[test]
fn no_wrap_span_wider_than_the_frame_is_split_at_the_boundary() {
    let units = vec![unit(&["abcdefg"], Display::Inline, Wrap::No)];
    assert_eq!(lines(&units, 3), vec!["abc", "def", "g"]);
}

#[test]
fn character_wider_than_the_frame_overflows_one_line() {
    let units = vec![unit(&["日本"], Display::Inline, Wrap::Yes)];
    assert_eq!(lines(&units, 1), vec!["日本"]);
}

#[test]
fn zero_width_frame_drops_spans_without_width() {
    let units = vec![
        unit(&["\u{301}"], Display::Inline, Wrap::Yes),
        unit(&["ab"], Display::Inline, Wrap::Yes),
        unit(&["cd"], Display::Inline, Wrap::Yes),
    ];
    assert_eq!(lines(&units, 0), vec!["ab", "cd"]);
}

#[test]
fn margin_is_taken_from_the_width() {
    let units = vec![unit(&["abcdef"], Display::Inline, Wrap::Yes)];
    let (ctx, _) = Layout::new().layout(&units, 6);
    let texts: Vec<String> = ctx.frame.lines().iter().map(|l| l.to_string()).collect();
    assert_eq!(texts, vec!["abcd", "ef"]);
    assert_eq!(Layout::new().margin(), 2);
    assert_eq!(Layout::new().with_margin(5).margin(), 5);
}

#[test]
fn cursor_is_the_start_of_the_unit_plus_its_offset() {
    let units = vec![
        unit(&["title"], Display::Block, Wrap::Yes),
        unit(&["ab"], Display::Block, Wrap::Yes),
        unit(&["name: [x]"], Display::Inline, Wrap::Yes).with_cursor(7),
    ];
    let (ctx, placed) = Layout::new().with_margin(0).layout(&units, 80);
    assert_eq!(ctx.cursor_position, Some((9, 1)));
    assert_eq!(
        placed,
        vec![
            Placed { index: 0, x: 0, y: 0 },
            Placed { index: 1, x: 0, y: 1 },
            Placed { index: 2, x: 2, y: 1 },
        ]
    );
}

#[test]
fn layout_twice_gives_the_same_frame() {
    let units = vec![
        unit(&["Please fill the form:"], Display::Block, Wrap::Yes),
        unit(&["Username", ": ", "[", "abc       ", "]"], Display::Block, Wrap::No).with_cursor(14),
        unit(&["a long hint that has to wrap over lines"], Display::Block, Wrap::Yes),
    ];
    let layout = Layout::new();
    let (first, first_placed) = layout.layout(&units, 20);
    let (second, second_placed) = layout.layout(&units, 20);
    assert_eq!(first.frame, second.frame);
    assert_eq!(first.cursor_position, second.cursor_position);
    assert_eq!(first_placed, second_placed);
    assert!(first.frame.len() >= 1);
}

#[test]
fn trailing_empty_lines_are_trimmed() {
    let units = vec![
        unit(&["abcd"], Display::Inline, Wrap::Yes),
        unit(&[""], Display::Block, Wrap::Yes),
    ];
    assert_eq!(lines(&units, 4), vec!["abcd"]);
}
