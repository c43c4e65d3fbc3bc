//! How a piece of content takes part in the layout.

use crate::style::{Attribute, Color, Style, StyleView};
use vstd::prelude::*;

verus! {

/// Whether content continues the current line or starts a line of its own.
#[derive(Clone, Copy, Debug, PartialEq, Eq, Structural)]
pub enum Display {
    Inline,
    Block,
    Sticky,
}

/// Whether a span may be broken anywhere to fill the current line.
#[derive(Clone, Copy, Debug, PartialEq, Eq, Structural)]
pub enum Wrap {
    Yes,
    No,
}

/// The style and the wrap policy of a piece of content.
#[derive(Debug, PartialEq, Eq)]
pub struct DrawableOptions {
    style: Style,
    wrap: Wrap,
}

impl DrawableOptions {
    /// The style.
    pub closed spec fn spec_style(&self) -> Style {
        self.style
    }

    /// The wrap policy.
    pub closed spec fn spec_wrap(&self) -> Wrap {
        self.wrap
    }

    /// Plain style, wrapping allowed.
    pub fn new() -> (r: Self)
        ensures
            r.spec_style()@ == Style::plain(),
            r.spec_wrap() == Wrap::Yes,
    {
        DrawableOptions { style: Style::new(), wrap: Wrap::Yes }
    }

    /// The style.
    pub fn style(&self) -> (r: &Style)
        ensures
            *r == self.spec_style(),
    {
        &self.style
    }

    /// The wrap policy.
    pub fn wrap(&self) -> (r: Wrap)
        ensures
            r == self.spec_wrap(),
    {
        self.wrap
    }

    /// Sets the style.
    pub fn with_style(self, style: Style) -> (r: Self)
        ensures
            r.spec_style() == style,
            r.spec_wrap() == self.spec_wrap(),
    {
        DrawableOptions { style, wrap: self.wrap }
    }

    /// Sets the wrap policy.
    pub fn with_wrap(self, wrap: Wrap) -> (r: Self)
        ensures
            r.spec_style() == self.spec_style(),
            r.spec_wrap() == wrap,
    {
        DrawableOptions { style: self.style, wrap }
    }
}

impl Default for DrawableOptions {
    fn default() -> (r: Self)
        ensures
            r.spec_style()@ == Style::plain(),
            r.spec_wrap() == Wrap::Yes,
    {
        DrawableOptions::new()
    }
}

impl Clone for DrawableOptions {
    fn clone(&self) -> (r: Self)
        ensures
            r.spec_style()@ == self.spec_style()@,
            r.spec_wrap() == self.spec_wrap(),
    {
        DrawableOptions { style: self.style.clone(), wrap: self.wrap }
    }
}

/// The display options of a node: how it takes part in the layout, and the
/// colours and attributes of its text.
#[derive(Clone, Copy, Debug, PartialEq, Eq, Structural)]
pub struct Options {
    pub display: Display,
    pub wrap: Wrap,
    pub color: Option<Color>,
    pub background: Option<Color>,
    pub bold: bool,
    pub italic: bool,
    pub underline: bool,
}

impl Options {
    /// The style that the options ask for: the two colours, and of the
    /// attributes bold, italic and underlined those that are set, in this
    /// order.
    pub open spec fn style_view(&self) -> StyleView {
        StyleView {
            fg: self.color,
            bg: self.background,
            attributes: (if self.bold {
                seq![Attribute::Bold]
            } else {
                Seq::empty()
            }) + (if self.italic {
                seq![Attribute::Italic]
            } else {
                Seq::empty()
            }) + (if self.underline {
                seq![Attribute::Underlined]
            } else {
                Seq::empty()
            }),
        }
    }

    /// Inline, wrapping, no colours, no attributes.
    pub open spec fn plain() -> Options {
        Options {
            display: Display::Inline,
            wrap: Wrap::Yes,
            color: None,
            background: None,
            bold: false,
            italic: false,
            underline: false,
        }
    }

    /// Inline, wrapping, no colours, no attributes.
    pub fn new() -> (r: Self)
        ensures
            r == Options::plain(),
    {
        Options {
            display: Display::Inline,
            wrap: Wrap::Yes,
            color: None,
            background: None,
            bold: false,
            italic: false,
            underline: false,
        }
    }

    /// The style that the options ask for.
    pub fn to_style(&self) -> (r: Style)
        ensures
            r@ == self.style_view(),
    {
        let mut attributes: Vec<Attribute> = Vec::new();
        if self.bold {
            attributes.push(Attribute::Bold);
        }
        if self.italic {
            attributes.push(Attribute::Italic);
        }
        if self.underline {
            attributes.push(Attribute::Underlined);
        }
        assert(attributes@ =~= self.style_view().attributes);
        let style = Style::new().with_attributes(attributes);
        let style = match self.color {
            Some(c) => style.with_fg(c),
            None => style,
        };
        match self.background {
            Some(c) => style.with_bg(c),
            None => style,
        }
    }
}

impl Default for Options {
    fn default() -> (r: Self)
        ensures
            r == Options::plain(),
    {
        Options::new()
    }
}

} // verus!
