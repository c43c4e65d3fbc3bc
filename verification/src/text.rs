//! Static text as a piece of content.

use crate::drawable::{Display, DrawableOptions, Wrap};
use crate::span::{Span, SpanView};
use crate::style::Style;
use vstd::prelude::*;

verus! {

/// A static text with its display hint and options.
#[derive(Debug, PartialEq, Eq)]
pub struct Text {
    text: String,
    display: Display,
    options: DrawableOptions,
}

impl Text {
    /// The text.
    pub closed spec fn spec_text(&self) -> Seq<char> {
        self.text@
    }

    /// The display hint.
    pub closed spec fn spec_display(&self) -> Display {
        self.display
    }

    /// The options.
    pub closed spec fn spec_options(&self) -> DrawableOptions {
        self.options
    }

    /// An inline text of plain style that may wrap.
    pub fn new(text: &str) -> (r: Self)
        ensures
            r.spec_text() == text@,
            r.spec_display() == Display::Inline,
            r.spec_options().spec_style()@ == Style::plain(),
            r.spec_options().spec_wrap() == Wrap::Yes,
    {
        Text { text: String::from_str(text), display: Display::Inline, options: DrawableOptions::new() }
    }

    /// Sets the display hint.
    pub fn with_display(self, display: Display) -> (r: Self)
        ensures
            r.spec_text() == self.spec_text(),
            r.spec_display() == display,
            r.spec_options() == self.spec_options(),
    {
        Text { text: self.text, display, options: self.options }
    }

    /// Sets the options.
    pub fn with_options(self, options: DrawableOptions) -> (r: Self)
        ensures
            r.spec_text() == self.spec_text(),
            r.spec_display() == self.spec_display(),
            r.spec_options() == options,
    {
        Text { text: self.text, display: self.display, options }
    }

    /// Sets the style.
    pub fn with_style(self, style: Style) -> (r: Self)
        ensures
            r.spec_text() == self.spec_text(),
            r.spec_display() == self.spec_display(),
            r.spec_options().spec_style() == style,
            r.spec_options().spec_wrap() == self.spec_options().spec_wrap(),
    {
        Text { text: self.text, display: self.display, options: self.options.with_style(style) }
    }

    /// Sets the wrap policy.
    pub fn with_wrap(self, wrap: Wrap) -> (r: Self)
        ensures
            r.spec_text() == self.spec_text(),
            r.spec_display() == self.spec_display(),
            r.spec_options().spec_style() == self.spec_options().spec_style(),
            r.spec_options().spec_wrap() == wrap,
    {
        Text { text: self.text, display: self.display, options: self.options.with_wrap(wrap) }
    }

    /// The text.
    pub fn text(&self) -> (r: &str)
        ensures
            r@ == self.spec_text(),
    {
        self.text.as_str()
    }

    /// Replaces the text.
    pub fn set_text(&mut self, text: &str)
        ensures
            final(self).spec_text() == text@,
            final(self).spec_display() == old(self).spec_display(),
            final(self).spec_options() == old(self).spec_options(),
    {
        self.text = String::from_str(text);
    }

    /// How the text takes part in the layout.
    pub fn display(&self) -> (r: Display)
        ensures
            r == self.spec_display(),
    {
        self.display
    }

    /// The options.
    pub fn options(&self) -> (r: &DrawableOptions)
        ensures
            *r == self.spec_options(),
    {
        &self.options
    }

    /// The text as one span with the style and the wrap policy of its
    /// options.
    pub fn spans(&self) -> (r: Vec<Span>)
        ensures
            r@.len() == 1,
            r@[0]@ == (SpanView {
                text: self.spec_text(),
                style: self.spec_options().spec_style()@,
                wrap: self.spec_options().spec_wrap(),
            }),
    {
        let mut spans: Vec<Span> = Vec::new();
        spans.push(
            Span::new(self.text.as_str()).with_style(self.options.style().clone()).with_wrap(
                self.options.wrap(),
            ),
        );
        spans
    }
}

} // verus!
