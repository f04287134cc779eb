//! Colours and text styles, and their encoding as ANSI escape sequences.
use vstd::prelude::*;

verus! {

/// A foreground colour.
#[derive(Clone, Copy, Debug, PartialEq, Eq, Structural)]
pub enum Colour {
    Green,
    Yellow,
    Blue,
    /// A 24-bit colour, as red, green and blue.
    RGB(u8, u8, u8),
}

/// How a run of text looks: its colour and its font attributes.
#[derive(Clone, Copy, Debug, PartialEq, Eq, Structural)]
pub struct Style {
    pub foreground: Option<Colour>,
    pub is_bold: bool,
    pub is_italic: bool,
    pub is_underline: bool,
    pub is_strikethrough: bool,
}

impl Style {
    /// The style that changes nothing.
    pub open spec fn plain() -> Style {
        Style {
            foreground: None,
            is_bold: false,
            is_italic: false,
            is_underline: false,
            is_strikethrough: false,
        }
    }

    pub open spec fn with_fg(self, colour: Colour) -> Style {
        Style { foreground: Some(colour), ..self }
    }

    pub open spec fn with_bold(self) -> Style {
        Style { is_bold: true, ..self }
    }

    pub open spec fn with_italic(self, on: bool) -> Style {
        Style { is_italic: on, ..self }
    }

    pub open spec fn with_underline(self) -> Style {
        Style { is_underline: true, ..self }
    }

    pub open spec fn with_strikethrough(self) -> Style {
        Style { is_strikethrough: true, ..self }
    }

    /// A style with no colour and no attribute.
    pub fn new() -> (style: Style)
        ensures
            style == Style::plain(),
    {
        Style {
            foreground: None,
            is_bold: false,
            is_italic: false,
            is_underline: false,
            is_strikethrough: false,
        }
    }

    /// This style with the foreground colour replaced.
    pub fn fg(self, colour: Colour) -> (style: Style)
        ensures
            style == self.with_fg(colour),
    {
        Style { foreground: Some(colour), ..self }
    }

    /// This style, bold.
    pub fn bold(self) -> (style: Style)
        ensures
            style == self.with_bold(),
    {
        Style { is_bold: true, ..self }
    }

    /// This style, italic.
    pub fn italic(self) -> (style: Style)
        ensures
            style == self.with_italic(true),
    {
        Style { is_italic: true, ..self }
    }

    /// This style, underlined.
    pub fn underline(self) -> (style: Style)
        ensures
            style == self.with_underline(),
    {
        Style { is_underline: true, ..self }
    }

    /// This style, struck through.
    pub fn strikethrough(self) -> (style: Style)
        ensures
            style == self.with_strikethrough(),
    {
        Style { is_strikethrough: true, ..self }
    }
}

/// The text that `ansi_term` produces when it paints `text` in `style`.
pub uninterp spec fn ansi_painted(style: Style, text: Seq<char>) -> Seq<char>;

/// Paints `text` with `ansi_term::Style::paint` and formats the painted
/// string. The style handed over has the same foreground colour and the same
/// bold, italic, underline and strikethrough flags; it has no background and
/// none of the other attributes. The contract only names the result.
#[verifier::external_body]
pub(crate) fn paint(style: &Style, text: &str) -> (painted: String)
    ensures
        painted@ == ansi_painted(*style, text@),
{
    let foreground = match style.foreground {
        None => None,
        Some(Colour::Green) => Some(ansi_term::Colour::Green),
        Some(Colour::Yellow) => Some(ansi_term::Colour::Yellow),
        Some(Colour::Blue) => Some(ansi_term::Colour::Blue),
        Some(Colour::RGB(r, g, b)) => Some(ansi_term::Colour::RGB(r, g, b)),
    };
    let mut ansi = ansi_term::Style::new();
    ansi.foreground = foreground;
    ansi.is_bold = style.is_bold;
    ansi.is_italic = style.is_italic;
    ansi.is_underline = style.is_underline;
    ansi.is_strikethrough = style.is_strikethrough;
    ansi.paint(text).to_string()
}

} // verus!
