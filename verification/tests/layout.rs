use mdcat::events::{Alignment, CodeBlockKind, Event, LinkType, Tag};
use mdcat::terminal::{ResourceAccess, TerminalCapabilities, TerminalSize};
use mdcat::{push_tty, Settings};
use pulldown_cmark::Parser;
use syntect::highlighting::{Theme, ThemeSet};
use syntect::parsing::SyntaxSet;

fn link_type(link_type: pulldown_cmark::LinkType) -> LinkType {
    match link_type {
        pulldown_cmark::LinkType::Inline => LinkType::Inline,
        pulldown_cmark::LinkType::Reference => LinkType::Reference,
        pulldown_cmark::LinkType::ReferenceUnknown => LinkType::ReferenceUnknown,
        pulldown_cmark::LinkType::Collapsed => LinkType::Collapsed,
        pulldown_cmark::LinkType::CollapsedUnknown => LinkType::CollapsedUnknown,
        pulldown_cmark::LinkType::Shortcut => LinkType::Shortcut,
        pulldown_cmark::LinkType::ShortcutUnknown => LinkType::ShortcutUnknown,
        pulldown_cmark::LinkType::Autolink => LinkType::Autolink,
        pulldown_cmark::LinkType::Email => LinkType::Email,
    }
}

fn alignment(alignment: pulldown_cmark::Alignment) -> Alignment {
    match alignment {
        pulldown_cmark::Alignment::None => Alignment::Unaligned,
        pulldown_cmark::Alignment::Left => Alignment::Left,
        pulldown_cmark::Alignment::Center => Alignment::Center,
        pulldown_cmark::Alignment::Right => Alignment::Right,
    }
}

fn tag(tag: pulldown_cmark::Tag) -> Tag {
    match tag {
        pulldown_cmark::Tag::Paragraph => Tag::Paragraph,
        pulldown_cmark::Tag::Heading(level) => Tag::Heading(level),
        pulldown_cmark::Tag::BlockQuote => Tag::BlockQuote,
        pulldown_cmark::Tag::CodeBlock(pulldown_cmark::CodeBlockKind::Indented) => {
            Tag::CodeBlock(CodeBlockKind::Indented)
        }
        pulldown_cmark::Tag::CodeBlock(pulldown_cmark::CodeBlockKind::Fenced(name)) => {
            Tag::CodeBlock(CodeBlockKind::Fenced(name.to_string()))
        }
        pulldown_cmark::Tag::List(start) => Tag::List(start),
        pulldown_cmark::Tag::Item => Tag::Item,
        pulldown_cmark::Tag::FootnoteDefinition(label) => {
            Tag::FootnoteDefinition(label.to_string())
        }
        pulldown_cmark::Tag::Table(columns) => {
            Tag::Table(columns.into_iter().map(alignment).collect())
        }
        pulldown_cmark::Tag::TableHead => Tag::TableHead,
        pulldown_cmark::Tag::TableRow => Tag::TableRow,
        pulldown_cmark::Tag::TableCell => Tag::TableCell,
        pulldown_cmark::Tag::Emphasis => Tag::Emphasis,
        pulldown_cmark::Tag::Strong => Tag::Strong,
        pulldown_cmark::Tag::Strikethrough => Tag::Strikethrough,
        pulldown_cmark::Tag::Link(kind, target, title) => {
            Tag::Link(link_type(kind), target.to_string(), title.to_string())
        }
        pulldown_cmark::Tag::Image(kind, target, title) => {
            Tag::Image(link_type(kind), target.to_string(), title.to_string())
        }
    }
}

fn event(event: pulldown_cmark::Event) -> Event {
    match event {
        pulldown_cmark::Event::Start(t) => Event::Start(tag(t)),
        pulldown_cmark::Event::End(t) => Event::End(tag(t)),
        pulldown_cmark::Event::Text(text) => Event::Text(text.to_string()),
        pulldown_cmark::Event::Code(code) => Event::Code(code.to_string()),
        pulldown_cmark::Event::Html(html) => Event::Html(html.to_string()),
        pulldown_cmark::Event::FootnoteReference(label) => {
            Event::FootnoteReference(label.to_string())
        }
        pulldown_cmark::Event::SoftBreak => Event::SoftBreak,
        pulldown_cmark::Event::HardBreak => Event::HardBreak,
        pulldown_cmark::Event::Rule => Event::Rule,
        pulldown_cmark::Event::TaskListMarker(checked) => Event::TaskListMarker(checked),
    }
}

fn theme() -> Theme {
    ThemeSet::load_defaults().themes["Solarized (dark)"].clone()
}

fn render_string(input: &str, settings: &Settings) -> String {
    let source: Vec<Event> = Parser::new(input).map(event).collect();
    let mut sink = String::new();
    push_tty(settings, &theme(), &mut sink, "/", source);
    sink
}

fn render(markup: &str) -> String {
    render_string(
        markup,
        &Settings {
            resource_access: ResourceAccess::LocalOnly,
            syntax_set: SyntaxSet::default(),
            terminal_capabilities: TerminalCapabilities::none(),
            terminal_size: TerminalSize::default(),
        },
    )
}

#[test]
#[allow(non_snake_case)]
fn GH_49_format_no_colour_simple() {
    assert_eq!(
        render("_lorem_ **ipsum** dolor **sit** _amet_"),
        "lorem ipsum dolor sit amet\n",
    )
}

#[test]
fn begins_with_rule() {
    assert_eq!(render("----"), "════════════════════════════════════════════════════════════════════════════════\n")
}

#[test]
fn begins_with_block_quote() {
    assert_eq!(render("> Hello World"), "    Hello World\n")
}

#[test]
fn rule_in_block_quote() {
    assert_eq!(
        render(
            "> Hello World

> ----"
        ),
        "    Hello World

    ════════════════════════════════════════════════════════════════════════════\n"
    )
}

#[test]
fn heading_in_block_quote() {
    assert_eq!(
        render(
            "> Hello World

> # Hello World"
        ),
        "    Hello World

    ┄Hello World\n"
    )
}

#[test]
fn heading_levels() {
    assert_eq!(
        render(
            "
# First

## Second

### Third"
        ),
        "┄First

┄┄Second

┄┄┄Third\n"
    )
}

#[test]
fn autolink_creates_no_reference() {
    assert_eq!(
        render("Hello <http://example.com>"),
        "Hello http://example.com\n"
    )
}

#[test]
fn flush_ref_links_before_toplevel_heading() {
    assert_eq!(
        render(
            "> Hello [World](http://example.com/world)

> # No refs before this headline

# But before this"
        ),
        "    Hello World[1]

    ┄No refs before this headline

[1]: http://example.com/world \n
┄But before this\n"
    )
}

#[test]
fn flush_ref_links_at_end() {
    assert_eq!(
        render(
            "Hello [World](http://example.com/world)

# Headline

Hello [Donald](http://example.com/Donald)"
        ),
        "Hello World[1]

[1]: http://example.com/world \n
┄Headline

Hello Donald[2]

[2]: http://example.com/Donald \n"
    )
}
