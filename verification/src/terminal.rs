//! What a terminal can do, and the escape sequences that make it do so.
use crate::terminal::ansi::AnsiStyle;
use vstd::prelude::*;

pub mod ansi;

verus! {

/// The escape sequence that carries an operating system command.
pub open spec fn osc_sequence(command: Seq<char>) -> Seq<char> {
    seq!['\x1b', ']'] + command + seq!['\x07']
}

/// The escape sequence that makes the text after it a link to `url`.
pub open spec fn link_start(url: Seq<char>) -> Seq<char> {
    osc_sequence(seq!['8', ';', ';'] + url)
}

/// The escape sequence that ends a link.
pub open spec fn link_end() -> Seq<char> {
    osc_sequence(seq!['8', ';', ';'])
}

/// The escape sequence that sets a mark at the cursor.
pub open spec fn mark_sequence() -> Seq<char> {
    osc_sequence(seq!['1', '3', '3', '7', ';', 'S', 'e', 't', 'M', 'a', 'r', 'k'])
}

/// Write an operating system command to the buffer.
pub fn write_osc(out: &mut String, command: &str)
    ensures
        final(out)@ == old(out)@ + osc_sequence(command@),
{
    proof {
        reveal_strlit("\x1b]");
        reveal_strlit("\x07");
    }
    out.append("\x1b]");
    out.append(command);
    out.append("\x07");
    assert(out@ =~= old(out)@ + osc_sequence(command@));
}

/// Inline links with the OSC 8 escape sequence.
#[derive(Clone, Copy, Debug, PartialEq, Eq, Structural)]
pub struct OSC8Links;

impl OSC8Links {
    /// Start a link to `url`: the terminal links the text after it.
    pub fn set_link_url(&self, out: &mut String, url: &str)
        ensures
            final(out)@ == old(out)@ + link_start(url@),
    {
        proof {
            reveal_strlit("8;;");
        }
        let mut command = String::new();
        command.append("8;;");
        command.append(url);
        assert(command@ =~= seq!['8', ';', ';'] + url@);
        write_osc(out, command.as_str());
    }

    /// End the current link.
    pub fn clear_link(&self, out: &mut String)
        ensures
            final(out)@ == old(out)@ + link_end(),
    {
        proof {
            reveal_strlit("8;;");
        }
        assert("8;;"@ =~= seq!['8', ';', ';']);
        write_osc(out, "8;;");
    }
}

/// Marks as iTerm2 knows them.
#[derive(Clone, Copy, Debug, PartialEq, Eq, Structural)]
pub struct ITerm2Marks;

impl ITerm2Marks {
    /// Set a mark at the cursor.
    pub fn set_mark(&self, out: &mut String)
        ensures
            final(out)@ == old(out)@ + mark_sequence(),
    {
        proof {
            reveal_strlit("1337;SetMark");
        }
        assert("1337;SetMark"@ =~= seq!['1', '3', '3', '7', ';', 'S', 'e', 't', 'M', 'a', 'r', 'k']);
        write_osc(out, "1337;SetMark");
    }
}

/// Whether and how the terminal shows styled text.
#[derive(Clone, Copy, Debug, PartialEq, Eq, Structural)]
pub enum StyleCapability {
    /// The terminal shows plain text only.
    NoStyle,
    /// The terminal understands ANSI styles.
    Ansi(AnsiStyle),
}

/// Whether and how the terminal shows inline links.
#[derive(Clone, Copy, Debug, PartialEq, Eq, Structural)]
pub enum LinkCapability {
    /// The terminal shows no inline links.
    NoLinks,
    /// The terminal understands OSC 8 links.
    OSC8(OSC8Links),
}

/// Whether and how the terminal sets marks.
#[derive(Clone, Copy, Debug, PartialEq, Eq, Structural)]
pub enum MarkCapability {
    /// The terminal sets no marks.
    NoMarks,
    /// The terminal sets marks as iTerm2 does.
    ITerm2(ITerm2Marks),
}

/// The capabilities of a terminal, each of them there or not.
#[derive(Clone, Copy, Debug, PartialEq, Eq, Structural)]
pub struct TerminalCapabilities {
    pub style: StyleCapability,
    pub links: LinkCapability,
    pub marks: MarkCapability,
}

impl TerminalCapabilities {
    /// A terminal that can do nothing but show text.
    pub fn none() -> (capabilities: TerminalCapabilities)
        ensures
            capabilities.style == StyleCapability::NoStyle,
            capabilities.links == LinkCapability::NoLinks,
            capabilities.marks == MarkCapability::NoMarks,
    {
        TerminalCapabilities {
            style: StyleCapability::NoStyle,
            links: LinkCapability::NoLinks,
            marks: MarkCapability::NoMarks,
        }
    }

    /// A terminal with ANSI styles, and nothing else.
    pub fn ansi() -> (capabilities: TerminalCapabilities)
        ensures
            capabilities.style == StyleCapability::Ansi(AnsiStyle),
            capabilities.links == LinkCapability::NoLinks,
            capabilities.marks == MarkCapability::NoMarks,
    {
        TerminalCapabilities {
            style: StyleCapability::Ansi(AnsiStyle),
            links: LinkCapability::NoLinks,
            marks: MarkCapability::NoMarks,
        }
    }

    /// A terminal with ANSI styles, OSC 8 links and iTerm2 marks.
    pub fn iterm2() -> (capabilities: TerminalCapabilities)
        ensures
            capabilities.style == StyleCapability::Ansi(AnsiStyle),
            capabilities.links == LinkCapability::OSC8(OSC8Links),
            capabilities.marks == MarkCapability::ITerm2(ITerm2Marks),
    {
        TerminalCapabilities {
            style: StyleCapability::Ansi(AnsiStyle),
            links: LinkCapability::OSC8(OSC8Links),
            marks: MarkCapability::ITerm2(ITerm2Marks),
        }
    }
}

/// The size of a terminal, in cells.
#[derive(Clone, Copy, Debug, PartialEq, Eq, Structural)]
pub struct TerminalSize {
    /// The number of columns.
    pub width: usize,
    /// The number of rows.
    pub height: usize,
}

impl Default for TerminalSize {
    /// A terminal of 80 columns and 24 rows.
    fn default() -> (size: TerminalSize)
        ensures
            size.width == 80,
            size.height == 24,
    {
        TerminalSize { width: 80, height: 24 }
    }
}

/// What the renderer may reach for resources that a document refers to.
#[derive(Clone, Copy, Debug, PartialEq, Eq, Structural)]
pub enum ResourceAccess {
    /// Only local resources.
    LocalOnly,
    /// Local and remote resources.
    RemoteAllowed,
}

} // verus!
