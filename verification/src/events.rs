//! The structural events of a markdown document.
use vstd::prelude::*;

verus! {

/// The alignment of the text in a table column.
#[derive(Clone, Copy, Debug, PartialEq, Eq, Structural)]
pub enum Alignment {
    /// No alignment was given.
    Unaligned,
    Left,
    Center,
    Right,
}

/// How a link was written in the document.
#[derive(Clone, Copy, Debug, PartialEq, Eq, Structural)]
pub enum LinkType {
    /// Inline link like `[foo](bar)`
    Inline,
    /// Reference link like `[foo][bar]`
    Reference,
    /// Reference without destination in the document
    ReferenceUnknown,
    /// Collapsed link like `[foo][]`
    Collapsed,
    /// Collapsed link without destination in the document
    CollapsedUnknown,
    /// Shortcut link like `[foo]`
    Shortcut,
    /// Shortcut without destination in the document
    ShortcutUnknown,
    /// Autolink like `<http://foo.bar/baz>`
    Autolink,
    /// Email address in autolink like `<john@example.org>`
    Email,
}

/// How a code block was written in the document.
#[derive(Clone, Debug, PartialEq, Eq)]
pub enum CodeBlockKind {
    /// Indented by four spaces.
    Indented,
    /// Fenced; the value is the info string of the fence, which may be empty.
    Fenced(String),
}

/// An element of a document that has a start and an end.
#[derive(Clone, Debug, PartialEq, Eq)]
pub enum Tag {
    /// A paragraph of text and other inline elements.
    Paragraph,
    /// A heading, with its level.
    Heading(u32),
    BlockQuote,
    /// A code block.
    CodeBlock(CodeBlockKind),
    /// A list. If the list is ordered the field is the number of its first
    /// item.
    List(Option<u64>),
    /// A list item.
    Item,
    /// A footnote definition, with the label of the footnote.
    FootnoteDefinition(String),
    /// A table, with the alignment of each of its columns.
    Table(Vec<Alignment>),
    TableHead,
    TableRow,
    TableCell,
    Emphasis,
    Strong,
    Strikethrough,
    /// A link, with its type, its destination and its title.
    Link(LinkType, String, String),
    /// An image, with its type, its destination and its title.
    Image(LinkType, String, String),
}

/// One event of a document. Between the start and the end of an element come
/// the events of what the element holds.
#[derive(Clone, Debug, PartialEq, Eq)]
pub enum Event {
    /// Start of a tagged element.
    Start(Tag),
    /// End of a tagged element.
    End(Tag),
    /// A text node.
    Text(String),
    /// An inline code node.
    Code(String),
    /// An HTML node.
    Html(String),
    /// A reference to a footnote with the given label.
    FootnoteReference(String),
    /// A soft line break.
    SoftBreak,
    /// A hard line break.
    HardBreak,
    /// A horizontal ruler.
    Rule,
    /// A task list marker; `true` when it is checked.
    TaskListMarker(bool),
}

impl Event {
    /// By how much the event changes the number of open elements.
    pub open spec fn nesting_change(self) -> int {
        match self {
            Event::Start(_) => 1,
            Event::End(_) => -1,
            _ => 0,
        }
    }
}

/// The number of elements that `events` leave open: the starts less the
/// ends.
pub open spec fn open_elements(events: Seq<Event>) -> int
    decreases events.len(),
{
    if events.len() == 0 {
        0
    } else {
        events[0].nesting_change() + open_elements(events.skip(1))
    }
}

} // verus!
