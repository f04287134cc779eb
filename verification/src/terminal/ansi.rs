//! Standard ANSI styling.
use crate::highlighting::{Color, HighlightStyle};
use crate::style::{ansi_painted, paint, Colour, Style};
use vstd::prelude::*;

verus! {

/// The ANSI style that shows a highlighting style.
///
/// The style keeps the foreground colour and the bold, italic and underline
/// attributes. It never has a background: a background would have to fill
/// whole lines to look well.
pub open spec fn ansi_style_of(style: HighlightStyle) -> Style {
    Style {
        foreground: Some(Colour::RGB(style.foreground.r, style.foreground.g, style.foreground.b)),
        is_bold: style.bold,
        is_italic: style.italic,
        is_underline: style.underline,
        is_strikethrough: false,
    }
}

/// The colour of a theme as a colour of the terminal.
fn to_colour(color: &Color) -> (colour: Colour)
    ensures
        colour == Colour::RGB(color.r, color.g, color.b),
{
    Colour::RGB(color.r, color.g, color.b)
}

/// Convert a highlighting style to an ANSI style for printing.
pub fn to_ansi(style: &HighlightStyle) -> (ansi_style: Style)
    ensures
        ansi_style == ansi_style_of(*style),
{
    let mut ansi_style = Style::new();
    ansi_style.foreground = Some(to_colour(&style.foreground));
    ansi_style.is_bold = style.bold;
    ansi_style.is_italic = style.italic;
    ansi_style.is_underline = style.underline;
    ansi_style
}

/// Access to a terminal's basic ANSI styling functionality.
#[derive(Clone, Copy, Debug, PartialEq, Eq, Structural)]
pub struct AnsiStyle;

impl AnsiStyle {
    /// Write styled text to the given buffer.
    pub fn write_styled(&self, out: &mut String, style: &Style, text: &str)
        ensures
            final(out)@ == old(out)@ + ansi_painted(*style, text@),
    {
        let painted = paint(style, text);
        out.append(painted.as_str());
    }
}

} // verus!
