//! Render markdown to TTY.
//!
//! This module processes a sequence of markdown events into a sequence of
//! what we call "print events", which turn markdown into a line-oriented
//! document for printing, and ultimately into a series of styled strings
//! which we can finally print to a TTY.
//!
//! Rendering happens in multiple passes, each of which turns a certain kind
//! of markdown events into print events.
use crate::events::{CodeBlockKind, Event, Tag};
use crate::highlighting::{
    find_syntax, highlight, highlighted_regions, joined, patterns_compile, syntax_for,
    HighlightStyle, Region,
};
use crate::processing::{expanded, lemma_expanded_step};
use crate::state_write::{heading_adornment, heading_style, rule_style};
use crate::style::{Colour, Style};
use crate::terminal::ansi::{ansi_style_of, to_ansi};
use crate::text::write_repeated;
use syntect::highlighting::Theme;
use syntect::parsing::SyntaxSet;
use vstd::prelude::*;

verus! {

/// A ruler.
#[derive(Debug, Copy, Clone, PartialEq)]
pub struct Ruler {
    /// The character to draw the ruler with.
    pub character: char,
    /// The style of the ruler.
    pub style: Style,
    /// The max width.
    ///
    /// If none the ruler spans the entire width of the terminal.  If `width`
    /// exceeds the width of the terminal the ruler cuts off at the end of
    /// the line.
    pub width: Option<usize>,
}

/// An event for printing to TTY.
#[derive(Debug, Clone, PartialEq)]
pub enum PrintEvent {
    /// A text with some style.
    StyledText(String, Style),
    /// A ruler.
    Ruler(Ruler),
    /// A newline
    Newline,
}

/// An event resulting from a pass.
///
/// Either a raw Markdown event, or a print event.
#[derive(Debug, PartialEq)]
pub enum PassEvent {
    /// A raw markdown event.
    ///
    /// Normally something a pass didn't touch.
    Markdown(Event),
    /// A event for printing to a TTY.
    Print(PrintEvent),
}

/// A print event as plain values.
pub enum PrintModel {
    StyledText(Seq<char>, Style),
    Ruler(Ruler),
    Newline,
}

/// A pass event as plain values.
pub enum PassModel {
    Markdown(Event),
    Print(PrintModel),
}

impl View for PrintEvent {
    type V = PrintModel;

    open spec fn view(&self) -> PrintModel {
        match self {
            PrintEvent::StyledText(text, style) => PrintModel::StyledText(text@, *style),
            PrintEvent::Ruler(ruler) => PrintModel::Ruler(*ruler),
            PrintEvent::Newline => PrintModel::Newline,
        }
    }
}

impl View for PassEvent {
    type V = PassModel;

    open spec fn view(&self) -> PassModel {
        match self {
            PassEvent::Markdown(event) => PassModel::Markdown(*event),
            PassEvent::Print(print) => PassModel::Print(print@),
        }
    }
}

/// The events as plain values, in order.
pub open spec fn models(events: Seq<PassEvent>) -> Seq<PassModel> {
    events.map_values(|event: PassEvent| event@)
}

/// The line break between two lines.
pub open spec fn line_break() -> PassModel {
    PassModel::Print(PrintModel::Newline)
}

/// A markdown event as the event of a pass.
pub open spec fn lifted(event: Event) -> Seq<PassModel> {
    seq![PassModel::Markdown(event)]
}

/// Whether an element starts with a margin: the blocks do.
pub open spec fn starts_block(tag: Tag) -> bool {
    tag is Paragraph || tag is BlockQuote || tag is List || tag is Heading || tag is CodeBlock
}

/// An event, and a line break before it where it starts a block or is a
/// rule.
pub open spec fn with_margin_before(event: PassModel) -> Seq<PassModel> {
    match event {
        PassModel::Markdown(Event::Start(tag)) => if starts_block(tag) {
            seq![line_break(), event]
        } else {
            seq![event]
        },
        PassModel::Markdown(Event::Rule) => seq![line_break(), event],
        _ => seq![event],
    }
}

/// The events from the first that is no line break.
pub open spec fn without_leading_breaks(events: Seq<PassModel>) -> Seq<PassModel>
    decreases events.len(),
{
    if events.len() > 0 && events[0] == line_break() {
        without_leading_breaks(events.skip(1))
    } else {
        events
    }
}

/// The events with a margin at the start of each block but the first.
pub open spec fn margins_injected(events: Seq<PassModel>) -> Seq<PassModel> {
    without_leading_breaks(expanded(events, |event: PassModel| with_margin_before(event)))
}

/// Lift raw markdown events into pass events.
#[verifier::loop_isolation(false)]
fn lift_events(events: Vec<Event>) -> (lifted_events: Vec<PassEvent>)
    ensures
        models(lifted_events@) == expanded(events@, |event: Event| lifted(event)),
{
    let ghost all = events@;
    let ghost expand = |event: Event| lifted(event);
    let mut result: Vec<PassEvent> = Vec::new();
    assert(models(result@) =~= expanded(all.take(0), expand));
    for event in it: events
        invariant
            it.seq() == all,
            models(result@) == expanded(all.take(it.index() as int), expand),
    {
        proof {
            lemma_expanded_step(all, expand, it.index() as int);
        }
        let ghost before = result@;
        result.push(PassEvent::Markdown(event));
        assert(models(result@) =~= models(before).push(PassModel::Markdown(event)));
        assert(models(result@) =~= expanded(all.take(it.index() + 1), expand));
    }
    assert(all.take(all.len() as int) =~= all);
    result
}

/// Whether an event starts a block or is a rule.
fn starts_with_margin(event: &PassEvent) -> (needed: bool)
    ensures
        needed == (with_margin_before(event@).len() == 2),
{
    match event {
        PassEvent::Markdown(Event::Start(Tag::Paragraph)) => true,
        PassEvent::Markdown(Event::Start(Tag::BlockQuote)) => true,
        PassEvent::Markdown(Event::Start(Tag::List(_))) => true,
        PassEvent::Markdown(Event::Start(Tag::Heading(_))) => true,
        PassEvent::Markdown(Event::Start(Tag::CodeBlock(_))) => true,
        PassEvent::Markdown(Event::Rule) => true,
        _ => false,
    }
}

/// Whether an event is a line break.
fn is_line_break(event: &PassEvent) -> (is_break: bool)
    ensures
        is_break == (event@ == line_break()),
{
    match event {
        PassEvent::Print(PrintEvent::Newline) => true,
        _ => false,
    }
}

/// Puts a line break before each block.
#[verifier::loop_isolation(false)]
fn put_margins(events: Vec<PassEvent>) -> (with_margins: Vec<PassEvent>)
    ensures
        models(with_margins@) == expanded(
            models(events@),
            |event: PassModel| with_margin_before(event),
        ),
{
    let ghost all = models(events@);
    let ghost expand = |event: PassModel| with_margin_before(event);
    let mut result: Vec<PassEvent> = Vec::new();
    assert(models(result@) =~= expanded(all.take(0), expand));
    for event in it: events
        invariant
            models(it.seq()) == all,
            models(result@) == expanded(all.take(it.index() as int), expand),
    {
        proof {
            lemma_expanded_step(all, expand, it.index() as int);
            assert(all[it.index() as int] == event@);
        }
        let ghost before = result@;
        if starts_with_margin(&event) {
            result.push(PassEvent::Print(PrintEvent::Newline));
            result.push(event);
            assert(models(result@) =~= models(before) + seq![line_break(), event@]);
        } else {
            result.push(event);
            assert(models(result@) =~= models(before) + seq![event@]);
        }
        assert(models(result@) =~= expanded(all.take(it.index() + 1), expand));
    }
    assert(all.take(all.len() as int) =~= all);
    result
}

/// Drops the line breaks that come before anything else.
#[verifier::loop_isolation(false)]
fn skip_leading_breaks(events: Vec<PassEvent>) -> (rest: Vec<PassEvent>)
    ensures
        models(rest@) == without_leading_breaks(models(events@)),
{
    let ghost all = models(events@);
    let mut result: Vec<PassEvent> = Vec::new();
    let mut started = false;
    assert(all.skip(0) =~= all);
    assert(models(result@) =~= Seq::<PassModel>::empty());
    for event in it: events
        invariant
            models(it.seq()) == all,
            !started ==> result@.len() == 0,
            models(result@) + (if started {
                all.skip(it.index() as int)
            } else {
                without_leading_breaks(all.skip(it.index() as int))
            }) == without_leading_breaks(all),
    {
        let ghost rest = all.skip(it.index() as int);
        let ghost before = result@;
        proof {
            assert(rest.len() > 0);
            assert(rest[0] == event@);
            assert(rest.skip(1) =~= all.skip(it.index() + 1));
        }
        if !started && is_line_break(&event) {
        } else {
            started = true;
            result.push(event);
            assert(models(result@) =~= models(before).push(event@));
            assert(models(result@) + rest.skip(1) =~= models(before) + rest);
        }
    }
    proof {
        assert(all.skip(all.len() as int) =~= Seq::<PassModel>::empty());
        assert(models(result@) =~= without_leading_breaks(all));
    }
    result
}

/// Inject margins at the start of certain blocks.
fn inject_margins(events: Vec<PassEvent>) -> (with_margins: Vec<PassEvent>)
    ensures
        models(with_margins@) == margins_injected(models(events@)),
{
    skip_leading_breaks(put_margins(events))
}

/// The text that adorns a header of the given level, as a print event.
pub open spec fn header_decoration(level: u32) -> PassModel {
    PassModel::Print(PrintModel::StyledText(heading_adornment(level), heading_style()))
}

/// An event, and its decoration before it where it starts a header.
pub open spec fn decorated(event: PassModel) -> Seq<PassModel> {
    match event {
        PassModel::Markdown(Event::Start(Tag::Heading(level))) => seq![
            header_decoration(level),
            event,
        ],
        _ => seq![event],
    }
}

/// The level of the header that an event starts, if it starts one.
fn header_level(event: &PassEvent) -> (level: Option<u32>)
    ensures
        level == match event@ {
            PassModel::Markdown(Event::Start(Tag::Heading(level))) => Some(level),
            _ => None,
        },
{
    match event {
        PassEvent::Markdown(Event::Start(Tag::Heading(level))) => Some(*level),
        _ => None,
    }
}

/// Add decorations to headers.
#[verifier::loop_isolation(false)]
fn decorate_headers(events: Vec<PassEvent>) -> (decorated_events: Vec<PassEvent>)
    ensures
        models(decorated_events@) == expanded(
            models(events@),
            |event: PassModel| decorated(event),
        ),
{
    proof {
        reveal_strlit("\u{2504}");
    }
    assert("\u{2504}"@ =~= seq!['\u{2504}']);
    let ghost all = models(events@);
    let ghost expand = |event: PassModel| decorated(event);
    let mut result: Vec<PassEvent> = Vec::new();
    assert(models(result@) =~= expanded(all.take(0), expand));
    for event in it: events
        invariant
            models(it.seq()) == all,
            models(result@) == expanded(all.take(it.index() as int), expand),
    {
        proof {
            lemma_expanded_step(all, expand, it.index() as int);
            assert(all[it.index() as int] == event@);
        }
        let ghost before = result@;
        match header_level(&event) {
            Some(level) => {
                let mut adornment = String::new();
                write_repeated(&mut adornment, "\u{2504}", level as usize);
                assert(adornment@ =~= heading_adornment(level));
                let style = Style::new().fg(Colour::Blue).bold();
                result.push(PassEvent::Print(PrintEvent::StyledText(adornment, style)));
                result.push(event);
                assert(models(result@) =~= models(before) + seq![
                    header_decoration(level),
                    event@,
                ]);
            },
            None => {
                result.push(event);
                assert(models(result@) =~= models(before) + seq![event@]);
            },
        }
        assert(models(result@) =~= expanded(all.take(it.index() + 1), expand));
    }
    assert(all.take(all.len() as int) =~= all);
    result
}

/// An event, and a line break after it where it ends a header or a
/// paragraph; a line break in place of a soft or hard break.
pub open spec fn with_line_break(event: PassModel) -> Seq<PassModel> {
    match event {
        PassModel::Markdown(Event::End(Tag::Heading(_))) => seq![event, line_break()],
        PassModel::Markdown(Event::End(Tag::Paragraph)) => seq![event, line_break()],
        PassModel::Markdown(Event::SoftBreak) => seq![line_break()],
        PassModel::Markdown(Event::HardBreak) => seq![line_break()],
        _ => seq![event],
    }
}

/// What kind of line break an event asks for.
enum LineBreak {
    /// A line break after the event.
    After,
    /// A line break in place of the event.
    Instead,
    /// No line break.
    Without,
}

/// What kind of line break an event asks for.
fn line_break_of(event: &PassEvent) -> (kind: LineBreak)
    ensures
        match kind {
            LineBreak::After => with_line_break(event@) == seq![event@, line_break()],
            LineBreak::Instead => with_line_break(event@) == seq![line_break()],
            LineBreak::Without => with_line_break(event@) == seq![event@],
        },
{
    match event {
        PassEvent::Markdown(Event::End(Tag::Heading(_))) => LineBreak::After,
        PassEvent::Markdown(Event::End(Tag::Paragraph)) => LineBreak::After,
        PassEvent::Markdown(Event::SoftBreak) => LineBreak::Instead,
        PassEvent::Markdown(Event::HardBreak) => LineBreak::Instead,
        _ => LineBreak::Without,
    }
}

/// Break lines.
///
/// Insert line breaks after block level elements, and replace hard and soft
/// breaks with newlines.
#[verifier::loop_isolation(false)]
pub fn break_lines(events: Vec<PassEvent>) -> (broken: Vec<PassEvent>)
    ensures
        models(broken@) == expanded(models(events@), |event: PassModel| with_line_break(event)),
{
    let ghost all = models(events@);
    let ghost expand = |event: PassModel| with_line_break(event);
    let mut result: Vec<PassEvent> = Vec::new();
    assert(models(result@) =~= expanded(all.take(0), expand));
    for event in it: events
        invariant
            models(it.seq()) == all,
            models(result@) == expanded(all.take(it.index() as int), expand),
    {
        proof {
            lemma_expanded_step(all, expand, it.index() as int);
            assert(all[it.index() as int] == event@);
        }
        let ghost before = result@;
        match line_break_of(&event) {
            LineBreak::After => {
                result.push(event);
                result.push(PassEvent::Print(PrintEvent::Newline));
                assert(models(result@) =~= models(before) + seq![event@, line_break()]);
            },
            LineBreak::Instead => {
                result.push(PassEvent::Print(PrintEvent::Newline));
                assert(models(result@) =~= models(before) + seq![line_break()]);
            },
            LineBreak::Without => {
                result.push(event);
                assert(models(result@) =~= models(before) + seq![event@]);
            },
        }
        assert(models(result@) =~= expanded(all.take(it.index() + 1), expand));
    }
    assert(all.take(all.len() as int) =~= all);
    result
}

/// Whether the passes render an element in full.
pub open spec fn is_processed(tag: Tag) -> bool {
    tag is CodeBlock || tag is Heading || tag is Paragraph || tag is Strikethrough || tag is Strong
        || tag is Emphasis
}

/// An event, unless it starts or ends an element that the passes render in
/// full.
pub open spec fn without_processed(event: PassModel) -> Seq<PassModel> {
    match event {
        PassModel::Markdown(Event::Start(tag)) => if is_processed(tag) {
            Seq::empty()
        } else {
            seq![event]
        },
        PassModel::Markdown(Event::End(tag)) => if is_processed(tag) {
            Seq::empty()
        } else {
            seq![event]
        },
        _ => seq![event],
    }
}

/// Whether a tag is of an element that the passes render in full.
fn tag_is_processed(tag: &Tag) -> (processed: bool)
    ensures
        processed == is_processed(*tag),
{
    match tag {
        Tag::CodeBlock(_) => true,
        Tag::Heading(_) => true,
        Tag::Paragraph => true,
        Tag::Strikethrough => true,
        Tag::Strong => true,
        Tag::Emphasis => true,
        _ => false,
    }
}

/// Whether an event starts or ends an element that the passes render in
/// full.
fn event_is_processed(event: &PassEvent) -> (processed: bool)
    ensures
        processed == (without_processed(event@).len() == 0),
{
    match event {
        PassEvent::Markdown(Event::Start(tag)) => tag_is_processed(tag),
        PassEvent::Markdown(Event::End(tag)) => tag_is_processed(tag),
        _ => false,
    }
}

/// Erase inline markup text assuming inline tags were fully rendered.
#[verifier::loop_isolation(false)]
pub fn remove_processed_markdown(events: Vec<PassEvent>) -> (kept: Vec<PassEvent>)
    ensures
        models(kept@) == expanded(models(events@), |event: PassModel| without_processed(event)),
{
    let ghost all = models(events@);
    let ghost expand = |event: PassModel| without_processed(event);
    let mut result: Vec<PassEvent> = Vec::new();
    assert(models(result@) =~= expanded(all.take(0), expand));
    for event in it: events
        invariant
            models(it.seq()) == all,
            models(result@) == expanded(all.take(it.index() as int), expand),
    {
        proof {
            lemma_expanded_step(all, expand, it.index() as int);
            assert(all[it.index() as int] == event@);
        }
        let ghost before = result@;
        if !event_is_processed(&event) {
            result.push(event);
            assert(models(result@) =~= models(before) + seq![event@]);
        } else {
            assert(models(result@) =~= models(before) + Seq::<PassModel>::empty());
        }
        assert(models(result@) =~= expanded(all.take(it.index() + 1), expand));
    }
    assert(all.take(all.len() as int) =~= all);
    result
}

/// The ruler above and below a code block.
pub open spec fn code_ruler() -> Ruler {
    Ruler { character: '\u{2500}', style: rule_style(), width: Some(20) }
}

/// The ruler above and below a code block, as a print event.
pub open spec fn code_ruler_event() -> PassModel {
    PassModel::Print(PrintModel::Ruler(code_ruler()))
}

/// The language to highlight code in after the start of a code block: the
/// language that the block names, where the syntax set knows it; none where
/// the set does not know it; and the language as before where the block
/// names none.
pub open spec fn language_after_start(
    syntax_set: SyntaxSet,
    current: Option<Seq<char>>,
    kind: CodeBlockKind,
) -> Option<Seq<char>> {
    match kind {
        CodeBlockKind::Fenced(language) => if language@.len() > 0 {
            if syntax_for(syntax_set, language@).is_some() {
                Some(language@)
            } else {
                None
            }
        } else {
            current
        },
        CodeBlockKind::Indented => current,
    }
}

/// Highlighted regions as print events, each text in the ANSI style of its
/// look.
pub open spec fn styled_regions(regions: Seq<(HighlightStyle, Seq<char>)>) -> Seq<PassModel> {
    regions.map_values(
        |region: (HighlightStyle, Seq<char>)|
            PassModel::Print(PrintModel::StyledText(region.1, ansi_style_of(region.0))),
    )
}

/// What the highlighting pass makes of one event, given the language to
/// highlight code in, if any: the language after the event, and the events
/// in its place.
pub open spec fn highlight_step(
    syntax_set: SyntaxSet,
    theme: Theme,
    current: Option<Seq<char>>,
    event: PassModel,
) -> (Option<Seq<char>>, Seq<PassModel>) {
    match event {
        PassModel::Markdown(Event::Start(Tag::CodeBlock(kind))) => (
            language_after_start(syntax_set, current, kind),
            seq![code_ruler_event(), event],
        ),
        PassModel::Markdown(Event::End(Tag::CodeBlock(_))) => (
            None,
            seq![event, code_ruler_event()],
        ),
        PassModel::Markdown(Event::Text(text)) => (
            current,
            match current {
                Some(language) => match highlighted_regions(syntax_set, theme, language, text@) {
                    Some(regions) => styled_regions(regions),
                    None => seq![event],
                },
                None => seq![event],
            },
        ),
        _ => (current, seq![event]),
    }
}

/// What the highlighting pass makes of a sequence of events.
pub open spec fn code_highlighted(
    syntax_set: SyntaxSet,
    theme: Theme,
    current: Option<Seq<char>>,
    events: Seq<PassModel>,
) -> Seq<PassModel>
    decreases events.len(),
{
    if events.len() == 0 {
        Seq::empty()
    } else {
        let first = highlight_step(syntax_set, theme, current, events[0]);
        first.1 + code_highlighted(syntax_set, theme, first.0, events.skip(1))
    }
}

/// The text that an event holds to be shown: that of the text of a
/// markdown event and that of styled text.
pub open spec fn text_of(event: PassModel) -> Seq<char> {
    match event {
        PassModel::Markdown(Event::Text(text)) => text@,
        PassModel::Print(PrintModel::StyledText(text, _)) => text,
        _ => Seq::empty(),
    }
}

/// The texts of the events, one after the other.
pub open spec fn pass_texts(events: Seq<PassModel>) -> Seq<char>
    decreases events.len(),
{
    if events.len() == 0 {
        Seq::empty()
    } else {
        pass_texts(events.drop_last()) + text_of(events.last())
    }
}

/// The texts of two sequences of events, one after the other, are the
/// texts of the one and then those of the other.
pub proof fn lemma_pass_texts_append(first: Seq<PassModel>, second: Seq<PassModel>)
    ensures
        pass_texts(first + second) == pass_texts(first) + pass_texts(second),
    decreases second.len(),
{
    if second.len() == 0 {
        assert(first + second =~= first);
        assert(pass_texts(first) + pass_texts(second) =~= pass_texts(first));
    } else {
        lemma_pass_texts_append(first, second.drop_last());
        assert((first + second).drop_last() =~= first + second.drop_last());
        assert((first + second).last() == second.last());
        assert(pass_texts(first + second) =~= pass_texts(first) + pass_texts(second));
    }
}

/// The texts of highlighted regions as print events are the texts of the
/// regions.
pub proof fn lemma_styled_regions_texts(regions: Seq<(HighlightStyle, Seq<char>)>)
    ensures
        pass_texts(styled_regions(regions)) == joined(regions),
    decreases regions.len(),
{
    if regions.len() > 0 {
        lemma_styled_regions_texts(regions.drop_last());
        assert(styled_regions(regions).drop_last() =~= styled_regions(regions.drop_last()));
        assert(text_of(styled_regions(regions).last()) == regions.last().1);
    }
}

/// The highlighting pass keeps the text of an event: what it puts in place
/// of the event holds the same text, where the regions of the highlighter
/// cover the text that they are made of.
pub proof fn lemma_highlight_step_keeps_text(
    syntax_set: SyntaxSet,
    theme: Theme,
    current: Option<Seq<char>>,
    event: PassModel,
)
    requires
        current matches Some(language) ==> (event matches PassModel::Markdown(
            Event::Text(text),
        ) ==> (highlighted_regions(syntax_set, theme, language, text@) matches Some(regions)
            ==> joined(regions) == text@)),
    ensures
        pass_texts(highlight_step(syntax_set, theme, current, event).1) == text_of(event),
{
    let put = highlight_step(syntax_set, theme, current, event).1;
    reveal_with_fuel(pass_texts, 3);
    match event {
        PassModel::Markdown(Event::Text(text)) => {
            match current {
                Some(language) => {
                    match highlighted_regions(syntax_set, theme, language, text@) {
                        Some(regions) => {
                            lemma_styled_regions_texts(regions);
                        },
                        None => {
                            assert(put.drop_last() =~= Seq::<PassModel>::empty());
                            assert(pass_texts(put) =~= text_of(event));
                        },
                    }
                },
                None => {
                    assert(put.drop_last() =~= Seq::<PassModel>::empty());
                    assert(pass_texts(put) =~= text_of(event));
                },
            }
        },
        PassModel::Markdown(Event::Start(Tag::CodeBlock(_))) => {
            assert(put.drop_last() =~= seq![code_ruler_event()]);
            assert(put.drop_last().drop_last() =~= Seq::<PassModel>::empty());
            assert(pass_texts(put) =~= text_of(event));
        },
        PassModel::Markdown(Event::End(Tag::CodeBlock(_))) => {
            assert(put.drop_last() =~= seq![event]);
            assert(put.drop_last().drop_last() =~= Seq::<PassModel>::empty());
            assert(pass_texts(put) =~= text_of(event));
        },
        _ => {
            assert(put.drop_last() =~= Seq::<PassModel>::empty());
            assert(pass_texts(put) =~= text_of(event));
        },
    }
}

/// The language as plain values.
pub open spec fn language_of(current: Option<String>) -> Option<Seq<char>> {
    match current {
        Some(language) => Some(language@),
        None => None,
    }
}

/// What an event is to the highlighting pass.
enum CodeEvent {
    /// The start of a code block that names the given language.
    StartNamed(String),
    /// The start of a code block that names no language.
    StartUnnamed,
    /// The end of a code block.
    End,
    /// The text of a markdown event.
    Text,
    /// Something else.
    Other,
}

/// What an event is to the highlighting pass.
fn code_event(event: &PassEvent) -> (kind: CodeEvent)
    ensures
        match kind {
            CodeEvent::StartNamed(name) => event@ matches PassModel::Markdown(
                Event::Start(Tag::CodeBlock(CodeBlockKind::Fenced(language))),
            ) && language@ == name@ && name@.len() > 0,
            CodeEvent::StartUnnamed => event@ matches PassModel::Markdown(
                Event::Start(Tag::CodeBlock(block)),
            ) && (block matches CodeBlockKind::Fenced(language) ==> language@.len() == 0),
            CodeEvent::End => event@ matches PassModel::Markdown(Event::End(Tag::CodeBlock(_))),
            CodeEvent::Text => event@ matches PassModel::Markdown(Event::Text(_)),
            CodeEvent::Other => !(event@ matches PassModel::Markdown(
                Event::Start(Tag::CodeBlock(_)),
            )) && !(event@ matches PassModel::Markdown(Event::End(Tag::CodeBlock(_)))) && !(
            event@ matches PassModel::Markdown(Event::Text(_))),
        },
{
    match event {
        PassEvent::Markdown(Event::Start(Tag::CodeBlock(CodeBlockKind::Fenced(language)))) => {
            if language.as_str().is_empty() {
                CodeEvent::StartUnnamed
            } else {
                CodeEvent::StartNamed(language.clone())
            }
        },
        PassEvent::Markdown(Event::Start(Tag::CodeBlock(CodeBlockKind::Indented))) => {
            CodeEvent::StartUnnamed
        },
        PassEvent::Markdown(Event::End(Tag::CodeBlock(_))) => CodeEvent::End,
        PassEvent::Markdown(Event::Text(_)) => CodeEvent::Text,
        _ => CodeEvent::Other,
    }
}

/// The regions of the text of an event, highlighted as code of the given
/// language.
fn highlight_event(
    syntax_set: &SyntaxSet,
    theme: &Theme,
    language: &str,
    event: &PassEvent,
) -> (regions: Option<Vec<Region>>)
    requires
        event@ matches PassModel::Markdown(Event::Text(_)),
        patterns_compile(*syntax_set),
    ensures
        event@ matches PassModel::Markdown(Event::Text(text)) && highlighted_regions(
            *syntax_set,
            *theme,
            language@,
            text@,
        ) == match regions {
            Some(regions) => Some(crate::highlighting::models(regions@)),
            None => None,
        },
        regions matches Some(regions) ==> joined(crate::highlighting::models(regions@))
            == text_of(event@),
{
    match event {
        PassEvent::Markdown(Event::Text(text)) => highlight(
            syntax_set,
            theme,
            language,
            text.as_str(),
        ),
        _ => None,
    }
}

/// Appends highlighted regions as print events.
#[verifier::loop_isolation(false)]
fn push_regions(result: &mut Vec<PassEvent>, regions: Vec<Region>)
    ensures
        models(final(result)@) == models(old(result)@) + styled_regions(
            crate::highlighting::models(regions@),
        ),
{
    let ghost all = crate::highlighting::models(regions@);
    assert(models(result@) =~= models(old(result)@) + styled_regions(all).take(0));
    for region in it: regions
        invariant
            crate::highlighting::models(it.seq()) == all,
            models(result@) == models(old(result)@) + styled_regions(all).take(it.index() as int),
    {
        let ghost before = result@;
        assert(all[it.index() as int] == region.model());
        let style = to_ansi(&region.style);
        result.push(PassEvent::Print(PrintEvent::StyledText(region.text, style)));
        assert(models(result@) =~= models(before).push(
            styled_regions(all)[it.index() as int],
        ));
        assert(models(result@) =~= models(old(result)@) + styled_regions(all).take(
            it.index() + 1,
        ));
    }
    assert(styled_regions(all).take(all.len() as int) =~= styled_regions(all));
}

/// Highlight code in code blocks.
///
/// Puts a ruler above and below each code block and, where a block names a
/// language that `syntax_set` knows, highlighted regions in place of each
/// text of the block. Each text is highlighted by itself, and the regions
/// in its place hold the same text. The patterns of the syntax set must
/// compile.
#[verifier::loop_isolation(false)]
pub fn highlight_code(events: Vec<PassEvent>, syntax_set: &SyntaxSet, theme: &Theme) -> (highlighted:
    Vec<PassEvent>)
    requires
        patterns_compile(*syntax_set),
    ensures
        models(highlighted@) == code_highlighted(*syntax_set, *theme, None, models(events@)),
        pass_texts(models(highlighted@)) == pass_texts(models(events@)),
{
    let mut current: Option<String> = None;
    let ruler = Ruler {
        character: '\u{2500}',
        style: Style::new().fg(Colour::Green),
        width: Some(20),
    };
    let ghost all = models(events@);
    let ghost whole = code_highlighted(*syntax_set, *theme, None, all);
    let mut result: Vec<PassEvent> = Vec::new();
    assert(all.skip(0) =~= all);
    assert(models(result@) =~= Seq::<PassModel>::empty());
    assert(all.take(0) =~= Seq::<PassModel>::empty());
    for event in it: events
        invariant
            models(it.seq()) == all,
            ruler == code_ruler(),
            language_of(current) matches Some(language) ==> syntax_for(
                *syntax_set,
                language,
            ).is_some(),
            models(result@) + code_highlighted(
                *syntax_set,
                *theme,
                language_of(current),
                all.skip(it.index() as int),
            ) == whole,
            pass_texts(models(result@)) == pass_texts(all.take(it.index() as int)),
    {
        let ghost rest = all.skip(it.index() as int);
        let ghost before = result@;
        let ghost language = language_of(current);
        let ghost first = highlight_step(*syntax_set, *theme, language, event@);
        proof {
            assert(rest.len() > 0);
            assert(rest[0] == event@);
            assert(rest.skip(1) =~= all.skip(it.index() + 1));
        }
        match code_event(&event) {
            CodeEvent::StartNamed(name) => {
                current = match find_syntax(syntax_set, name.as_str()) {
                    Some(_) => Some(name),
                    None => None,
                };
                result.push(PassEvent::Print(PrintEvent::Ruler(ruler)));
                result.push(event);
                assert(models(result@) =~= models(before) + first.1);
            },
            CodeEvent::StartUnnamed => {
                result.push(PassEvent::Print(PrintEvent::Ruler(ruler)));
                result.push(event);
                assert(models(result@) =~= models(before) + first.1);
            },
            CodeEvent::End => {
                current = None;
                result.push(event);
                result.push(PassEvent::Print(PrintEvent::Ruler(ruler)));
                assert(models(result@) =~= models(before) + first.1);
            },
            CodeEvent::Text => {
                let regions = match &current {
                    Some(language) => highlight_event(
                        syntax_set,
                        theme,
                        language.as_str(),
                        &event,
                    ),
                    None => None,
                };
                match regions {
                    Some(regions) => {
                        proof {
                            lemma_highlight_step_keeps_text(*syntax_set, *theme, language, rest[0]);
                        }
                        push_regions(&mut result, regions);
                    },
                    None => {
                        proof {
                            lemma_highlight_step_keeps_text(*syntax_set, *theme, language, rest[0]);
                        }
                        result.push(event);
                        assert(models(result@) =~= models(before) + first.1);
                    },
                }
            },
            CodeEvent::Other => {
                result.push(event);
                assert(models(result@) =~= models(before) + first.1);
            },
        }
        proof {
            let next = language_of(current);
            assert(next == first.0);
            let tail = code_highlighted(*syntax_set, *theme, next, rest.skip(1));
            assert(models(result@) + tail =~= models(before) + (first.1 + tail));
            assert(models(result@) =~= models(before) + first.1);
            if !(rest[0] matches PassModel::Markdown(Event::Text(_))) {
                lemma_highlight_step_keeps_text(*syntax_set, *theme, language, rest[0]);
            }
            lemma_pass_texts_append(models(before), first.1);
            assert(all.take(it.index() + 1).drop_last() =~= all.take(it.index() as int));
            assert(all.take(it.index() + 1).last() == rest[0]);
        }
    }
    proof {
        assert(all.skip(all.len() as int) =~= Seq::<PassModel>::empty());
        assert(models(result@) =~= whole);
        assert(all.take(all.len() as int) =~= all);
    }
    result
}

/// The styles of the text pass as plain values: the style of text now, the
/// styles to return to, and the level of emphasis.
pub struct Styling {
    pub previous_styles: Seq<Style>,
    pub current_style: Style,
    pub emphasis_level: int,
}

/// Whether text at a level of emphasis is italic: at the odd levels.
pub open spec fn italic_at(level: int) -> bool {
    level > 0 && level % 2 == 1
}

impl Styling {
    /// The styles before any event: plain text, outside any emphasis.
    pub open spec fn initial() -> Styling {
        Styling { previous_styles: Seq::empty(), current_style: Style::plain(), emphasis_level: 0 }
    }

    /// The styles with `style` for the text now; the style of the text
    /// until now is the one to return to.
    pub open spec fn entered(self, style: Style) -> Styling {
        Styling {
            previous_styles: self.previous_styles.push(self.current_style),
            current_style: style,
            emphasis_level: self.emphasis_level,
        }
    }

    /// The styles one level of emphasis deeper.
    pub open spec fn deeper(self) -> Styling {
        Styling { emphasis_level: self.emphasis_level + 1, ..self }
    }

    /// The styles after a return to the style before.
    pub open spec fn left(self) -> Styling {
        Styling {
            previous_styles: self.previous_styles.drop_last(),
            current_style: self.previous_styles.last(),
            emphasis_level: self.emphasis_level,
        }
    }

    /// The styles after the start of an element.
    pub open spec fn started(self, tag: Tag) -> Styling {
        match tag {
            Tag::Heading(_) => self.entered(heading_style()),
            Tag::BlockQuote => self.deeper().entered(
                self.current_style.with_italic(italic_at(self.emphasis_level + 1)).with_fg(
                    Colour::Green,
                ),
            ),
            Tag::Strikethrough => self.entered(self.current_style.with_strikethrough()),
            Tag::Strong => self.entered(self.current_style.with_bold()),
            Tag::CodeBlock(_) => self.entered(self.current_style.with_fg(Colour::Yellow)),
            Tag::Emphasis => self.deeper().entered(
                self.current_style.with_italic(italic_at(self.emphasis_level + 1)),
            ),
            _ => self,
        }
    }

    /// Whether the start of an element has a place: emphasis is counted in
    /// 32 bits.
    pub open spec fn can_start(self, tag: Tag) -> bool {
        tag is BlockQuote || tag is Emphasis ==> self.emphasis_level < i32::MAX
    }

    /// The styles after the end of an element.
    pub open spec fn ended(self, tag: Tag) -> Styling {
        match tag {
            Tag::CodeBlock(_) => self.left(),
            Tag::Heading(_) => self.left(),
            Tag::Strikethrough => self.left(),
            Tag::Strong => self.left(),
            Tag::Emphasis => Styling { emphasis_level: self.emphasis_level - 1, ..self.left() },
            Tag::BlockQuote => Styling { emphasis_level: self.emphasis_level - 1, ..self.left() },
            _ => self,
        }
    }

    /// Whether the end of an element has a place: there must be a style to
    /// return to.
    pub open spec fn can_end(self, tag: Tag) -> bool {
        match tag {
            Tag::CodeBlock(_) => self.previous_styles.len() > 0,
            Tag::Heading(_) => self.previous_styles.len() > 0,
            Tag::Strikethrough => self.previous_styles.len() > 0,
            Tag::Strong => self.previous_styles.len() > 0,
            Tag::Emphasis => self.previous_styles.len() > 0 && self.emphasis_level > i32::MIN,
            Tag::BlockQuote => self.previous_styles.len() > 0 && self.emphasis_level > i32::MIN,
            _ => true,
        }
    }

    /// The styles after an event.
    pub open spec fn after(self, event: PassModel) -> Styling {
        match event {
            PassModel::Markdown(Event::Start(tag)) => self.started(tag),
            PassModel::Markdown(Event::End(tag)) => self.ended(tag),
            _ => self,
        }
    }

    /// Whether an event has a place.
    pub open spec fn accepts(self, event: PassModel) -> bool {
        match event {
            PassModel::Markdown(Event::Start(tag)) => self.can_start(tag),
            PassModel::Markdown(Event::End(tag)) => self.can_end(tag),
            _ => true,
        }
    }

    /// The event that the text pass puts in place of an event: text and
    /// code become styled text, and any other event stays.
    pub open spec fn styles(self, event: PassModel) -> PassModel {
        match event {
            PassModel::Markdown(Event::Text(text)) => PassModel::Print(
                PrintModel::StyledText(text@, self.current_style),
            ),
            PassModel::Markdown(Event::Code(code)) => PassModel::Print(
                PrintModel::StyledText(code@, self.current_style.with_fg(Colour::Yellow)),
            ),
            _ => event,
        }
    }
}

/// What the text pass makes of a sequence of events.
pub open spec fn text_styled(styling: Styling, events: Seq<PassModel>) -> Seq<PassModel>
    decreases events.len(),
{
    if events.len() == 0 {
        Seq::empty()
    } else {
        seq![styling.styles(events[0])] + text_styled(styling.after(events[0]), events.skip(1))
    }
}

/// Whether each event of a sequence has a place in the text pass.
pub open spec fn can_style(styling: Styling, events: Seq<PassModel>) -> bool
    decreases events.len(),
{
    events.len() == 0 || (styling.accepts(events[0]) && can_style(
        styling.after(events[0]),
        events.skip(1),
    ))
}

/// The styles of the text pass.
pub struct TextStyles {
    /// The styles to return to, the next one last.
    pub previous_styles: Vec<Style>,
    /// The style of text now.
    pub current_style: Style,
    /// The level of emphasis.
    pub emphasis_level: i32,
}

impl View for TextStyles {
    type V = Styling;

    open spec fn view(&self) -> Styling {
        Styling {
            previous_styles: self.previous_styles@,
            current_style: self.current_style,
            emphasis_level: self.emphasis_level as int,
        }
    }
}

impl TextStyles {
    /// Takes the start of an element.
    pub fn start(&mut self, tag: &Tag)
        requires
            old(self)@.can_start(*tag),
        ensures
            final(self)@ == old(self)@.started(*tag),
    {
        match tag {
            Tag::Heading(_) => {
                self.previous_styles.push(self.current_style);
                self.current_style = Style::new().fg(Colour::Blue).bold();
            },
            Tag::BlockQuote => {
                self.emphasis_level = self.emphasis_level + 1;
                self.previous_styles.push(self.current_style);
                let is_italic = self.emphasis_level > 0 && self.emphasis_level % 2 == 1;
                self.current_style = Style { is_italic, ..self.current_style }.fg(Colour::Green);
            },
            Tag::Strikethrough => {
                self.previous_styles.push(self.current_style);
                self.current_style = self.current_style.strikethrough();
            },
            Tag::Strong => {
                self.previous_styles.push(self.current_style);
                self.current_style = self.current_style.bold();
            },
            Tag::CodeBlock(_) => {
                self.previous_styles.push(self.current_style);
                self.current_style = self.current_style.fg(Colour::Yellow);
            },
            Tag::Emphasis => {
                self.emphasis_level = self.emphasis_level + 1;
                self.previous_styles.push(self.current_style);
                let is_italic = self.emphasis_level > 0 && self.emphasis_level % 2 == 1;
                self.current_style = Style { is_italic, ..self.current_style };
            },
            _ => {},
        }
    }

    /// Returns to the style before.
    pub fn leave(&mut self)
        requires
            old(self).previous_styles@.len() > 0,
        ensures
            final(self)@ == old(self)@.left(),
    {
        match self.previous_styles.pop() {
            Some(style) => {
                self.current_style = style;
            },
            None => {},
        }
    }

    /// Takes the end of an element.
    pub fn end(&mut self, tag: &Tag)
        requires
            old(self)@.can_end(*tag),
        ensures
            final(self)@ == old(self)@.ended(*tag),
    {
        match tag {
            Tag::CodeBlock(_) => {
                self.leave();
            },
            Tag::Heading(_) => {
                self.leave();
            },
            Tag::Strikethrough => {
                self.leave();
            },
            Tag::Strong => {
                self.leave();
            },
            Tag::Emphasis => {
                self.emphasis_level = self.emphasis_level - 1;
                self.leave();
            },
            Tag::BlockQuote => {
                self.emphasis_level = self.emphasis_level - 1;
                self.leave();
            },
            _ => {},
        }
    }

    /// The styles before any event.
    pub fn new() -> (styles: Self)
        ensures
            styles@ == Styling::initial(),
    {
        let styles = TextStyles {
            previous_styles: Vec::new(),
            current_style: Style::new(),
            emphasis_level: 0,
        };
        assert(styles@.previous_styles =~= Seq::<Style>::empty());
        styles
    }

    /// Whether an event has a place after the events so far.
    pub fn accepts(&self, event: &PassEvent) -> (ok: bool)
        ensures
            ok == self@.accepts(event@),
    {
        match event {
            PassEvent::Markdown(Event::Start(Tag::BlockQuote)) => self.emphasis_level < i32::MAX,
            PassEvent::Markdown(Event::Start(Tag::Emphasis)) => self.emphasis_level < i32::MAX,
            PassEvent::Markdown(Event::End(Tag::CodeBlock(_))) => self.previous_styles.len() > 0,
            PassEvent::Markdown(Event::End(Tag::Heading(_))) => self.previous_styles.len() > 0,
            PassEvent::Markdown(Event::End(Tag::Strikethrough)) => self.previous_styles.len() > 0,
            PassEvent::Markdown(Event::End(Tag::Strong)) => self.previous_styles.len() > 0,
            PassEvent::Markdown(Event::End(Tag::Emphasis)) => self.previous_styles.len() > 0
                && self.emphasis_level > i32::MIN,
            PassEvent::Markdown(Event::End(Tag::BlockQuote)) => self.previous_styles.len() > 0
                && self.emphasis_level > i32::MIN,
            _ => true,
        }
    }

    /// Takes one event for its styles alone.
    pub fn pass(&mut self, event: &PassEvent)
        requires
            old(self)@.accepts(event@),
        ensures
            final(self)@ == old(self)@.after(event@),
    {
        match event {
            PassEvent::Markdown(Event::Start(tag)) => {
                self.start(tag);
            },
            PassEvent::Markdown(Event::End(tag)) => {
                self.end(tag);
            },
            _ => {},
        }
    }

    /// Takes one event, and hands back the event to put in its place.
    pub fn style(&mut self, event: PassEvent) -> (styled: PassEvent)
        requires
            old(self)@.accepts(event@),
        ensures
            final(self)@ == old(self)@.after(event@),
            styled@ == old(self)@.styles(event@),
    {
        match event {
            PassEvent::Markdown(Event::Start(tag)) => {
                self.start(&tag);
                PassEvent::Markdown(Event::Start(tag))
            },
            PassEvent::Markdown(Event::End(tag)) => {
                self.end(&tag);
                PassEvent::Markdown(Event::End(tag))
            },
            PassEvent::Markdown(Event::Text(text)) => PassEvent::Print(
                PrintEvent::StyledText(text, self.current_style),
            ),
            PassEvent::Markdown(Event::Code(code)) => PassEvent::Print(
                PrintEvent::StyledText(code, self.current_style.fg(Colour::Yellow)),
            ),
            _ => event,
        }
    }
}

/// Whether each event has a place in the text pass: whether `style_text`
/// can take the events.
pub fn can_style_events(events: &Vec<PassEvent>) -> (ok: bool)
    ensures
        ok == can_style(Styling::initial(), models(events@)),
{
    let mut styles = TextStyles::new();
    let ghost all = models(events@);
    let mut index: usize = 0;
    assert(all.skip(0) =~= all);
    while index < events.len()
        invariant
            index <= events.len(),
            all == models(events@),
            can_style(styles@, all.skip(index as int)) == can_style(Styling::initial(), all),
        decreases events.len() - index,
    {
        let ghost rest = all.skip(index as int);
        proof {
            assert(rest.len() > 0);
            assert(rest[0] == events@[index as int]@);
            assert(rest.skip(1) =~= all.skip(index + 1));
        }
        if !styles.accepts(&events[index]) {
            assert(!can_style(styles@, rest));
            return false;
        }
        styles.pass(&events[index]);
        index = index + 1;
    }
    assert(all.skip(index as int) =~= Seq::<PassModel>::empty());
    true
}

/// Style all text.
///
/// Adds styles to all text where styles are appropriate, by replacing the
/// text and the code of markdown events with styled text.
///
/// Each end of a styled element must have its start before it.
#[verifier::loop_isolation(false)]
pub fn style_text(events: Vec<PassEvent>) -> (styled: Vec<PassEvent>)
    requires
        can_style(Styling::initial(), models(events@)),
    ensures
        models(styled@) == text_styled(Styling::initial(), models(events@)),
{
    let mut styles = TextStyles {
        previous_styles: Vec::new(),
        current_style: Style::new(),
        emphasis_level: 0,
    };
    let ghost all = models(events@);
    let ghost whole = text_styled(Styling::initial(), all);
    let mut result: Vec<PassEvent> = Vec::new();
    assert(all.skip(0) =~= all);
    assert(models(result@) =~= Seq::<PassModel>::empty());
    assert(styles@ =~= Styling::initial());
    for event in it: events
        invariant
            models(it.seq()) == all,
            can_style(styles@, all.skip(it.index() as int)),
            models(result@) + text_styled(styles@, all.skip(it.index() as int)) == whole,
    {
        let ghost rest = all.skip(it.index() as int);
        let ghost before = result@;
        let ghost styling = styles@;
        proof {
            assert(rest.len() > 0);
            assert(rest[0] == event@);
            assert(rest.skip(1) =~= all.skip(it.index() + 1));
        }
        let styled = styles.style(event);
        result.push(styled);
        proof {
            assert(models(result@) =~= models(before).push(styling.styles(rest[0])));
            let tail = text_styled(styles@, rest.skip(1));
            assert(models(result@) + tail =~= models(before) + (seq![styling.styles(rest[0])]
                + tail));
        }
    }
    proof {
        assert(all.skip(all.len() as int) =~= Seq::<PassModel>::empty());
        assert(models(result@) =~= whole);
    }
    result
}

/// The events of a document before any styling: with margins, rulers and
/// highlighted code.
pub open spec fn laid_out(syntax_set: SyntaxSet, theme: Theme, events: Seq<Event>) -> Seq<
    PassModel,
> {
    code_highlighted(
        syntax_set,
        theme,
        None,
        margins_injected(expanded(events, |event: Event| lifted(event))),
    )
}

/// What all passes make of markdown events, in their order.
pub open spec fn rendered(syntax_set: SyntaxSet, theme: Theme, events: Seq<Event>) -> Seq<
    PassModel,
> {
    expanded(
        expanded(
            expanded(
                text_styled(Styling::initial(), laid_out(syntax_set, theme, events)),
                |event: PassModel| decorated(event),
            ),
            |event: PassModel| with_line_break(event),
        ),
        |event: PassModel| without_processed(event),
    )
}

/// Render markdown `events`.
///
/// Turn markdown events into print events for rendering to TTY.
///
/// `syntax_set` provides syntax definitions for highlighting code in code
/// blocks.  `theme` is the highlighting theme.
///
/// Each end of a styled element must have its start before it, and the
/// patterns of the syntax set must compile.
pub fn render(events: Vec<Event>, syntax_set: &SyntaxSet, theme: &Theme) -> (printed: Vec<PassEvent>)
    requires
        patterns_compile(*syntax_set),
        can_style(Styling::initial(), laid_out(*syntax_set, *theme, events@)),
    ensures
        models(printed@) == rendered(*syntax_set, *theme, events@),
{
    remove_processed_markdown(
        break_lines(
            decorate_headers(
                style_text(highlight_code(inject_margins(lift_events(events)), syntax_set, theme)),
            ),
        ),
    )
}

/// Render markdown `events`, if they can be rendered.
///
/// Does what `render` does where each end of a styled element has its
/// start before it, and hands back nothing where one has not. The patterns
/// of the syntax set must compile.
pub fn try_render(events: Vec<Event>, syntax_set: &SyntaxSet, theme: &Theme) -> (printed: Option<
    Vec<PassEvent>,
>)
    requires
        patterns_compile(*syntax_set),
    ensures
        printed is Some == can_style(Styling::initial(), laid_out(*syntax_set, *theme, events@)),
        printed matches Some(printed) ==> models(printed@) == rendered(
            *syntax_set,
            *theme,
            events@,
        ),
{
    let laid = highlight_code(inject_margins(lift_events(events)), syntax_set, theme);
    if can_style_events(&laid) {
        Some(remove_processed_markdown(break_lines(decorate_headers(style_text(laid)))))
    } else {
        None
    }
}

/// The styles in `count` emphases, one in the other, from plain text.
pub open spec fn emphasised(count: nat) -> Styling
    decreases count,
{
    if count == 0 {
        Styling::initial()
    } else {
        emphasised((count - 1) as nat).started(Tag::Emphasis)
    }
}

/// Emphasis parity: text in an odd number of nested emphases is italic,
/// and text in an even number of them is upright.
pub proof fn lemma_emphasis_parity(count: nat)
    ensures
        emphasised(count).emphasis_level == count,
        emphasised(count).previous_styles.len() == count,
        emphasised(count).current_style.is_italic == (count % 2 == 1),
    decreases count,
{
    if count > 0 {
        lemma_emphasis_parity((count - 1) as nat);
    }
}

} // verus!
