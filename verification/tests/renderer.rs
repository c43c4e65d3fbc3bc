use rustical::frame::Frame;
use rustical::render_context::RenderContext;
use rustical::renderer::{Renderer, TermOp};
use rustical::span::Span;

fn frame_of(lines: usize) -> Frame {
    let mut frame = Frame::new();
    for i in 0..lines {
        if i > 0 {
            frame.new_line();
        }
        frame.push_span(Span::new("x"));
    }
    frame
}

#[test]
fn renderer_without_anchor_paints_nothing() {
    let mut renderer = Renderer::new();
    assert_eq!(renderer.start_row(), None);
    assert_eq!(renderer.num_lines(), 0);
    let ops = renderer.render(&RenderContext::new(frame_of(2)));
    assert!(ops.is_empty());
    assert!(renderer.move_to_end().is_empty());
}

#[test]
fn first_render_reserves_room_then_paints() {
    let mut renderer = Renderer::new();
    let ops = renderer.reserve(10, 3);
    assert_eq!(
        ops,
        vec![
            TermOp::HideCursor,
            TermOp::MoveTo(0, 10),
            TermOp::NewLine,
            TermOp::NewLine,
            TermOp::NewLine,
            TermOp::Flush
        ]
    );
    renderer.anchor(13, 3);
    assert_eq!(renderer.start_row(), Some(10));
    assert_eq!(renderer.num_lines(), 3);
    let ops = renderer.render(&RenderContext::new(frame_of(3)).with_cursor(4, 1));
    assert_eq!(
        ops,
        vec![
            TermOp::HideCursor,
            TermOp::MoveTo(0, 10),
            TermOp::ClearLine,
            TermOp::WriteLine(0),
            TermOp::MoveTo(0, 11),
            TermOp::ClearLine,
            TermOp::WriteLine(1),
            TermOp::MoveTo(0, 12),
            TermOp::ClearLine,
            TermOp::WriteLine(2),
            TermOp::MoveTo(4, 11),
            TermOp::ShowCursor,
            TermOp::Flush
        ]
    );
}

#[test]
fn anchor_at_the_bottom_after_scrolling() {
    let mut renderer = Renderer::new();
    renderer.anchor(23, 5);
    assert_eq!(renderer.start_row(), Some(18));
    renderer.anchor(2, 5);
    assert_eq!(renderer.start_row(), Some(0));
    renderer.set_start_row(7);
    assert_eq!(renderer.start_row(), Some(7));
    assert_eq!(renderer.num_lines(), 5);
}

#[test]
fn incremental_render_clears_shrink() {
    let mut renderer = Renderer::new();
    renderer.anchor(8, 3);
    renderer.render(&RenderContext::new(frame_of(3)));
    assert_eq!(renderer.num_lines(), 3);
    let ops = renderer.render(&RenderContext::new(frame_of(1)));
    assert_eq!(
        ops,
        vec![
            TermOp::HideCursor,
            TermOp::MoveTo(0, 5),
            TermOp::ClearLine,
            TermOp::WriteLine(0),
            TermOp::MoveTo(0, 6),
            TermOp::ClearLine,
            TermOp::MoveTo(0, 7),
            TermOp::ClearLine,
            TermOp::MoveTo(0, 5),
            TermOp::ShowCursor,
            TermOp::Flush
        ]
    );
    assert_eq!(renderer.num_lines(), 1);
    let clears = ops.iter().filter(|op| **op == TermOp::ClearLine).count();
    assert_eq!(clears, 3);
    let ops = renderer.render(&RenderContext::new(frame_of(1)));
    assert_eq!(ops.iter().filter(|op| **op == TermOp::ClearLine).count(), 1);
}

#[test]
fn rows_are_held_at_the_last_row() {
    let mut renderer = Renderer::new();
    renderer.set_start_row(u16::MAX - 1);
    let ops = renderer.render(&RenderContext::new(frame_of(3)).with_cursor(0, 2));
    assert_eq!(ops[1], TermOp::MoveTo(0, u16::MAX - 1));
    assert_eq!(ops[4], TermOp::MoveTo(0, u16::MAX));
    assert_eq!(ops[7], TermOp::MoveTo(0, u16::MAX));
    assert_eq!(ops[10], TermOp::MoveTo(0, u16::MAX));
}

#[test]
fn move_to_end_goes_below_the_block() {
    let mut renderer = Renderer::new();
    renderer.anchor(6, 2);
    assert_eq!(renderer.move_to_end(), vec![TermOp::MoveTo(0, 6), TermOp::Flush]);
}

#[test]
fn render_context_holds_frame_and_cursor() {
    let mut ctx = RenderContext::new(frame_of(1));
    assert_eq!(ctx.cursor_position, None);
    ctx.set_cursor(3, 0);
    assert_eq!(ctx.cursor_position, Some((3, 0)));
    let ctx = ctx.with_cursor(1, 2);
    assert_eq!(ctx.cursor_position, Some((1, 2)));
    assert_eq!(ctx.frame.len(), 1);
}
