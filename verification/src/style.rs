//! Colours and text attributes of a terminal cell.

use vstd::prelude::*;

verus! {

/// A terminal colour. `Reset` stands for the terminal's own default.
#[derive(Debug, Clone, Copy, PartialEq, Eq, Structural)]
pub enum Color {
    Reset,
    Black,
    Red,
    Green,
    Yellow,
    Blue,
    Magenta,
    Cyan,
    Gray,
    DarkGray,
    LightRed,
    LightGreen,
    LightYellow,
    LightBlue,
    LightMagenta,
    LightCyan,
    White,
    Rgb(u8, u8, u8),
}

/// A text attribute. A cell carries exactly one.
#[derive(Debug, Clone, Copy, PartialEq, Eq, Structural)]
pub enum Modifier {
    Blink,
    Bold,
    CrossedOut,
    Faint,
    Framed,
    Invert,
    Italic,
    NoBlink,
    NoBold,
    NoCrossedOut,
    NoFaint,
    NoInvert,
    NoItalic,
    NoUnderline,
    Reset,
    Underline,
}

/// Foreground, background and attribute of a cell.
#[derive(Debug, Clone, Copy, PartialEq, Eq, Structural)]
pub struct Style {
    pub fg: Color,
    pub bg: Color,
    pub modifier: Modifier,
}

impl Style {
    /// The style that changes nothing: both colours and the attribute reset.
    pub open spec fn plain() -> Style {
        Style { fg: Color::Reset, bg: Color::Reset, modifier: Modifier::Reset }
    }

    /// This style with another foreground colour.
    pub fn fg(self, color: Color) -> (styled: Style)
        ensures
            styled == (Style { fg: color, ..self }),
    {
        Style { fg: color, bg: self.bg, modifier: self.modifier }
    }

    /// This style with another background colour.
    pub fn bg(self, color: Color) -> (styled: Style)
        ensures
            styled == (Style { bg: color, ..self }),
    {
        Style { fg: self.fg, bg: color, modifier: self.modifier }
    }

    /// This style with another attribute.
    pub fn modifier(self, modifier: Modifier) -> (styled: Style)
        ensures
            styled == (Style { modifier: modifier, ..self }),
    {
        Style { fg: self.fg, bg: self.bg, modifier }
    }
}

impl Default for Style {
    fn default() -> (style: Style)
        ensures
            style == Style::plain(),
    {
        Style { fg: Color::Reset, bg: Color::Reset, modifier: Modifier::Reset }
    }
}

} // verus!
