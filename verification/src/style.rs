//! Colours and text attributes of a span.

use vstd::prelude::*;

verus! {

/// A terminal colour.
#[derive(Clone, Copy, Debug, PartialEq, Eq, Hash, Structural)]
pub enum Color {
    Reset,
    Black,
    DarkGrey,
    Red,
    DarkRed,
    Green,
    DarkGreen,
    Yellow,
    DarkYellow,
    Blue,
    DarkBlue,
    Magenta,
    DarkMagenta,
    Cyan,
    DarkCyan,
    White,
    Grey,
    Rgb { r: u8, g: u8, b: u8 },
    AnsiValue(u8),
}

/// A terminal text attribute.
#[derive(Clone, Copy, Debug, PartialEq, Eq, Hash, Structural)]
pub enum Attribute {
    Reset,
    Bold,
    Dim,
    Italic,
    Underlined,
    DoubleUnderlined,
    Undercurled,
    Underdotted,
    Underdashed,
    SlowBlink,
    RapidBlink,
    Reverse,
    Hidden,
    CrossedOut,
    Fraktur,
    NoBold,
    NormalIntensity,
    NoItalic,
    NoUnderline,
    NoBlink,
    NoReverse,
    NoHidden,
    NotCrossedOut,
    Framed,
    Encircled,
    OverLined,
    NotFramedOrEncircled,
    NotOverLined,
}

/// What a style holds: the two colours, where set, and the attributes in the
/// order in which they were added.
pub struct StyleView {
    pub fg: Option<Color>,
    pub bg: Option<Color>,
    pub attributes: Seq<Attribute>,
}

/// Foreground, background and attributes of a span.
#[derive(Debug, PartialEq, Eq)]
pub struct Style {
    fg: Option<Color>,
    bg: Option<Color>,
    attributes: Vec<Attribute>,
}

impl View for Style {
    type V = StyleView;

    closed spec fn view(&self) -> StyleView {
        StyleView { fg: self.fg, bg: self.bg, attributes: self.attributes@ }
    }
}

/// What merging `other` into `base` gives: the colours of `other` where it
/// sets them, and the attributes of both, those of `base` first.
pub open spec fn merged(base: StyleView, other: StyleView) -> StyleView {
    StyleView {
        fg: if other.fg is Some { other.fg } else { base.fg },
        bg: if other.bg is Some { other.bg } else { base.bg },
        attributes: base.attributes + other.attributes,
    }
}

impl Style {
    /// The style that sets nothing.
    pub open spec fn plain() -> StyleView {
        StyleView { fg: None, bg: None, attributes: Seq::empty() }
    }

    /// The style that sets nothing.
    pub fn new() -> (r: Self)
        ensures
            r@ == Style::plain(),
    {
        Style { fg: None, bg: None, attributes: Vec::new() }
    }

    /// The colour of the text, where it is set.
    pub fn fg(&self) -> (r: Option<Color>)
        ensures
            r == self@.fg,
    {
        self.fg
    }

    /// The colour of the background, where it is set.
    pub fn bg(&self) -> (r: Option<Color>)
        ensures
            r == self@.bg,
    {
        self.bg
    }

    /// The attributes, in the order in which they were added.
    pub fn attributes(&self) -> (r: &[Attribute])
        ensures
            r@ == self@.attributes,
    {
        self.attributes.as_slice()
    }

    /// Sets the colour of the text.
    pub fn with_fg(self, color: Color) -> (r: Self)
        ensures
            r@ == (StyleView { fg: Some(color), ..self@ }),
    {
        Style { fg: Some(color), bg: self.bg, attributes: self.attributes }
    }

    /// Sets the colour of the background.
    pub fn with_bg(self, color: Color) -> (r: Self)
        ensures
            r@ == (StyleView { bg: Some(color), ..self@ }),
    {
        Style { fg: self.fg, bg: Some(color), attributes: self.attributes }
    }

    /// Sets the colours of text and background.
    pub fn with_colors(self, fg: Color, bg: Color) -> (r: Self)
        ensures
            r@ == (StyleView { fg: Some(fg), bg: Some(bg), ..self@ }),
    {
        Style { fg: Some(fg), bg: Some(bg), attributes: self.attributes }
    }

    /// Adds one attribute behind those already there.
    pub fn with_attribute(self, attribute: Attribute) -> (r: Self)
        ensures
            r@ == (StyleView { attributes: self@.attributes.push(attribute), ..self@ }),
    {
        let mut attributes = self.attributes;
        attributes.push(attribute);
        Style { fg: self.fg, bg: self.bg, attributes }
    }

    /// Replaces the attributes.
    pub fn with_attributes(self, attributes: Vec<Attribute>) -> (r: Self)
        ensures
            r@ == (StyleView { attributes: attributes@, ..self@ }),
    {
        Style { fg: self.fg, bg: self.bg, attributes }
    }

    /// Lays `other` over this style.
    pub fn merge(self, other: &Style) -> (r: Self)
        ensures
            r@ == merged(self@, other@),
    {
        let fg = if other.fg.is_some() { other.fg } else { self.fg };
        let bg = if other.bg.is_some() { other.bg } else { self.bg };
        let mut attributes = self.attributes;
        let mut i: usize = 0;
        while i < other.attributes.len()
            invariant
                i <= other.attributes.len(),
                attributes@ == self.attributes@ + other.attributes@.take(i as int),
            decreases other.attributes.len() - i,
        {
            attributes.push(other.attributes[i]);
            i += 1;
            assert(attributes@ =~= self.attributes@ + other.attributes@.take(i as int));
        }
        assert(other.attributes@.take(i as int) =~= other.attributes@);
        Style { fg, bg, attributes }
    }
}

impl Default for Style {
    fn default() -> (r: Self)
        ensures
            r@ == Style::plain(),
    {
        Style::new()
    }
}

impl Clone for Style {
    fn clone(&self) -> (r: Self)
        ensures
            r@ == self@,
    {
        let mut attributes: Vec<Attribute> = Vec::new();
        let mut i: usize = 0;
        while i < self.attributes.len()
            invariant
                i <= self.attributes.len(),
                attributes@ == self.attributes@.take(i as int),
            decreases self.attributes.len() - i,
        {
            attributes.push(self.attributes[i]);
            i += 1;
            assert(attributes@ =~= self.attributes@.take(i as int));
        }
        assert(self.attributes@.take(i as int) =~= self.attributes@);
        Style { fg: self.fg, bg: self.bg, attributes }
    }
}

} // verus!
