//! The styles of the parts of a screen.

use crate::style::{Attribute, Color, Style, StyleView};
use vstd::prelude::*;

verus! {

/// The styles of prompt, hint, error, placeholder and focused content.
#[derive(Debug)]
pub struct Theme {
    pub prompt: Style,
    pub hint: Style,
    pub error: Style,
    pub placeholder: Style,
    pub focused: Style,
}

/// Bold, no colours.
pub open spec fn bold_view() -> StyleView {
    StyleView { fg: None, bg: None, attributes: seq![Attribute::Bold] }
}

/// Dark grey, no attributes.
pub open spec fn dim_view() -> StyleView {
    StyleView { fg: Some(Color::DarkGrey), bg: None, attributes: Seq::empty() }
}

/// Red and bold.
pub open spec fn alarm_view() -> StyleView {
    StyleView { fg: Some(Color::Red), bg: None, attributes: seq![Attribute::Bold] }
}

impl Theme {
    /// The default theme: prompt and focused content bold, hint and
    /// placeholder dark grey, errors red and bold.
    pub fn default_theme() -> (r: Self)
        ensures
            r.prompt@ == bold_view(),
            r.hint@ == dim_view(),
            r.error@ == alarm_view(),
            r.placeholder@ == dim_view(),
            r.focused@ == bold_view(),
    {
        let r = Theme {
            prompt: Style::new().with_attribute(Attribute::Bold),
            hint: Style::new().with_fg(Color::DarkGrey),
            error: Style::new().with_fg(Color::Red).with_attribute(Attribute::Bold),
            placeholder: Style::new().with_fg(Color::DarkGrey),
            focused: Style::new().with_attribute(Attribute::Bold),
        };
        proof {
            assert(r.prompt@.attributes =~= seq![Attribute::Bold]);
            assert(r.error@.attributes =~= seq![Attribute::Bold]);
            assert(r.focused@.attributes =~= seq![Attribute::Bold]);
        }
        r
    }
}

/// The style of the prompt in the default theme.
pub fn prompt_style() -> (r: Style)
    ensures
        r@ == bold_view(),
{
    Theme::default_theme().prompt
}

/// The style of the hint in the default theme.
pub fn hint_style() -> (r: Style)
    ensures
        r@ == dim_view(),
{
    Theme::default_theme().hint
}

/// The style of an error in the default theme.
pub fn error_style() -> (r: Style)
    ensures
        r@ == alarm_view(),
{
    Theme::default_theme().error
}

/// The style of a placeholder in the default theme.
pub fn placeholder_style() -> (r: Style)
    ensures
        r@ == dim_view(),
{
    Theme::default_theme().placeholder
}

/// The style of focused content in the default theme.
pub fn focused_style() -> (r: Style)
    ensures
        r@ == bold_view(),
{
    Theme::default_theme().focused
}

} // verus!
