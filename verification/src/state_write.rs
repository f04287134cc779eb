//! The rendering state machine: one event at a time, against a state that
//! owns the state to return to.
use crate::events::{CodeBlockKind, Event, LinkType, Tag};
use crate::highlighting::{highlighted_text, patterns_compile, write_highlighted};
use crate::links::{is_url, resolve_link, resolved_link};
use crate::style::{ansi_painted, Colour, Style};
use crate::terminal::{
    link_end, link_start, mark_sequence, LinkCapability, MarkCapability, OSC8Links,
    StyleCapability, TerminalCapabilities, TerminalSize,
};
use crate::text::{
    decimal, newline, repeated, right_aligned, write_decimal, write_newline, write_ordinal,
    write_repeated,
};
use crate::Settings;
use syntect::highlighting::Theme;
use syntect::parsing::SyntaxSet;
use vstd::prelude::*;

verus! {

/// State attributes for inline text.
#[derive(Debug, PartialEq, Eq, Clone, Copy, Structural)]
pub struct InlineAttrs {
    pub style: Style,
    pub indent: u16,
}

#[derive(Debug, PartialEq, Eq, Clone, Copy, Structural)]
pub enum InlineState {
    /// Inline text.
    ///
    /// Regular inline text without any particular implications.
    InlineText,
    /// Inline link.
    ///
    /// This state supresses link references being written when reading a link
    /// end event.
    InlineLink,
    /// A list item.
    ///
    /// Unlike other inline states this inline state permits immediate
    /// transition to block level when reading a paragraph begin event, which
    /// denotes a list with full paragraphs inside.
    ListItemText,
}

/// State attributes for styled blocks.
#[derive(Debug, PartialEq)]
pub struct StyledBlockAttrs {
    pub margin_before: bool,
    pub indent: u16,
    pub style: Style,
}

impl StyledBlockAttrs {
    /// These attributes for the blocks after the first.
    pub fn with_margin_before(self) -> (attrs: Self)
        ensures
            attrs == (StyledBlockAttrs { margin_before: true, ..self }),
    {
        StyledBlockAttrs { margin_before: true, ..self }
    }
}

#[derive(Debug, PartialEq)]
pub struct HighlightBlockAttrs {
    pub syntax_token: Option<String>,
}

#[derive(Debug, PartialEq, Eq, Clone, Copy, Structural)]
pub enum ListItemType {
    Unordered,
    Ordered(u64),
}

impl ListItemType {
    /// The kind of list that the start number of a list event asks for.
    pub open spec fn of_start(start: Option<u64>) -> ListItemType {
        match start {
            Some(start) => ListItemType::Ordered(start),
            None => ListItemType::Unordered,
        }
    }

    /// The kind of the item after an item of this kind.
    pub open spec fn successor(self) -> ListItemType {
        match self {
            ListItemType::Unordered => ListItemType::Unordered,
            ListItemType::Ordered(number) => ListItemType::Ordered((number + 1) as u64),
        }
    }

    /// Whether another item can follow an item of this kind.
    pub open spec fn has_successor(self) -> bool {
        match self {
            ListItemType::Unordered => true,
            ListItemType::Ordered(number) => number < u64::MAX,
        }
    }

    /// The number of columns that the marker of an item takes.
    pub open spec fn marker_width(self) -> u16 {
        match self {
            ListItemType::Unordered => 2,
            ListItemType::Ordered(_) => 4,
        }
    }

    /// The marker of an item: a bullet, or the number of the item.
    pub open spec fn marker(self) -> Seq<char> {
        match self {
            ListItemType::Unordered => seq!['\u{2022}', ' '],
            ListItemType::Ordered(number) => right_aligned(decimal(number as nat), 2) + seq![
                '.',
                ' ',
            ],
        }
    }

    /// The kind of list that the start number of a list event asks for.
    pub fn from_start(start: Option<u64>) -> (item_type: ListItemType)
        ensures
            item_type == ListItemType::of_start(start),
    {
        match start {
            Some(start) => ListItemType::Ordered(start),
            None => ListItemType::Unordered,
        }
    }
}

#[derive(Debug, PartialEq)]
pub struct ListBlockAttrs {
    pub item_type: ListItemType,
    pub newline_before: bool,
    pub indent: u16,
    pub style: Style,
}

impl ListBlockAttrs {
    /// These attributes after one more item.
    pub open spec fn next_item(self) -> ListBlockAttrs {
        ListBlockAttrs {
            item_type: self.item_type.successor(),
            newline_before: true,
            ..self
        }
    }

    /// These attributes after one more item: an ordered list counts on, and
    /// every item but the first starts on a new line.
    pub fn to_next_item(self) -> (attrs: Self)
        requires
            self.item_type.has_successor(),
        ensures
            attrs == self.next_item(),
    {
        let item_type = match self.item_type {
            ListItemType::Unordered => ListItemType::Unordered,
            ListItemType::Ordered(start) => ListItemType::Ordered(start + 1),
        };
        ListBlockAttrs { item_type, newline_before: true, ..self }
    }
}

#[derive(Debug, PartialEq)]
pub enum NestedState {
    /// Styled block.
    ///
    /// A block with attached style
    StyledBlock(StyledBlockAttrs),
    /// A highlighted block of code.
    HighlightBlock(HighlightBlockAttrs),
    /// A list.
    ListBlock(ListBlockAttrs),
    /// Some inline markup.
    Inline(InlineState, InlineAttrs),
}

impl NestedState {
    /// The style and the indentation of the state, where it has them.
    pub open spec fn look(self) -> Option<(Style, u16)> {
        match self {
            NestedState::StyledBlock(attrs) => Some((attrs.style, attrs.indent)),
            NestedState::HighlightBlock(_) => None,
            NestedState::ListBlock(attrs) => Some((attrs.style, attrs.indent)),
            NestedState::Inline(_, attrs) => Some((attrs.style, attrs.indent)),
        }
    }
}

/// State attributes for top level.
#[derive(Debug, PartialEq)]
pub struct TopLevelAttrs {
    pub margin_before: bool,
}

impl TopLevelAttrs {
    /// The attributes of the top level after its first block.
    pub fn margin_before() -> (attrs: Self)
        ensures
            attrs.margin_before,
    {
        TopLevelAttrs { margin_before: true }
    }
}

impl Default for TopLevelAttrs {
    /// The attributes of the top level before its first block.
    fn default() -> (attrs: Self)
        ensures
            !attrs.margin_before,
    {
        TopLevelAttrs { margin_before: false }
    }
}

#[derive(Debug, PartialEq)]
pub enum State {
    /// At top level.
    TopLevel(TopLevelAttrs),
    /// A nested state, with a state to return to and the actual state.
    NestedState(Box<State>, NestedState),
}

impl State {
    /// The state in which a document starts.
    pub open spec fn initial() -> State {
        State::TopLevel(TopLevelAttrs { margin_before: false })
    }

    /// The style and the indentation of each state that this state is nested
    /// in and of this state itself, from the outermost on. A block of code
    /// has neither.
    pub open spec fn looks(self) -> Seq<Option<(Style, u16)>>
        decreases self,
    {
        match self {
            State::TopLevel(_) => Seq::empty(),
            State::NestedState(return_to, nested) => return_to.looks().push(nested.look()),
        }
    }

    /// The number of states that this state is nested in.
    pub open spec fn depth(self) -> nat
        decreases self,
    {
        match self {
            State::TopLevel(_) => 0,
            State::NestedState(return_to, _) => return_to.depth() + 1,
        }
    }
}

impl Default for State {
    fn default() -> (state: Self)
        ensures
            state == State::initial(),
    {
        State::TopLevel(TopLevelAttrs::default())
    }
}

/// A link that waits to be written as a reference.
#[derive(Debug, PartialEq)]
pub struct Link {
    pub index: u16,
    pub target: String,
    pub title: String,
}

/// The links that wait to be written, and the number of the next link.
#[derive(Debug, PartialEq)]
pub struct StateData {
    pub pending_links: Vec<Link>,
    pub next_link: u16,
}

/// The link buffer as plain values.
pub struct LinkBuffer {
    pub pending_links: Seq<Link>,
    pub next_link: u16,
}

impl LinkBuffer {
    /// The buffer in which a document starts: no link waits, and the first
    /// link will be number one.
    pub open spec fn initial() -> LinkBuffer {
        LinkBuffer { pending_links: Seq::empty(), next_link: 1 }
    }

    /// The buffer after one more link.
    pub open spec fn with_link(self, target: String, title: String) -> LinkBuffer {
        LinkBuffer {
            pending_links: self.pending_links.push(Link { index: self.next_link, target, title }),
            next_link: (self.next_link + 1) as u16,
        }
    }

    /// The buffer after its links were written.
    pub open spec fn flushed(self) -> LinkBuffer {
        LinkBuffer { pending_links: Seq::empty(), ..self }
    }
}

impl View for StateData {
    type V = LinkBuffer;

    open spec fn view(&self) -> LinkBuffer {
        LinkBuffer { pending_links: self.pending_links@, next_link: self.next_link }
    }
}

impl StateData {
    /// Appends a link and hands back its index. The index is the number of
    /// links added before it, plus one: no index is used twice.
    pub fn add_link(self, target: String, title: String) -> (added: (Self, u16))
        requires
            self.next_link < u16::MAX,
        ensures
            added.0@ == self@.with_link(target, title),
            added.1 == self.next_link,
    {
        let mut data = self;
        let index = data.next_link;
        data.next_link = index + 1;
        data.pending_links.push(Link { index, target, title });
        (data, index)
    }

    /// Takes the links that wait out of the buffer, in the order in which
    /// they were added. The number of the next link stays.
    pub fn take_links(self) -> (taken: (Self, Vec<Link>))
        ensures
            taken.0@ == self@.flushed(),
            taken.1@ == self@.pending_links,
    {
        let links = self.pending_links;
        (StateData { pending_links: Vec::new(), next_link: self.next_link }, links)
    }
}

impl Default for StateData {
    fn default() -> (data: Self)
        ensures
            data@ == LinkBuffer::initial(),
    {
        StateData { pending_links: Vec::new(), next_link: 1 }
    }
}

/// `text` as a terminal with these capabilities gets it in `style`.
pub open spec fn styled(capabilities: TerminalCapabilities, style: Style, text: Seq<char>) -> Seq<
    char,
> {
    match capabilities.style {
        StyleCapability::NoStyle => text,
        StyleCapability::Ansi(_) => ansi_painted(style, text),
    }
}

/// The indentation of a line.
pub open spec fn indentation(level: u16) -> Seq<char> {
    repeated(seq![' '], level as nat)
}

/// The blank line between two blocks.
pub open spec fn margin(margin_before: bool) -> Seq<char> {
    if margin_before {
        newline()
    } else {
        Seq::empty()
    }
}

/// The mark before a heading.
pub open spec fn mark(capabilities: TerminalCapabilities) -> Seq<char> {
    match capabilities.marks {
        MarkCapability::ITerm2(_) => mark_sequence(),
        MarkCapability::NoMarks => Seq::empty(),
    }
}

/// The style of rules and borders.
pub open spec fn rule_style() -> Style {
    Style::plain().with_fg(Colour::Green)
}

/// A rule of the given length.
pub open spec fn rule(capabilities: TerminalCapabilities, length: nat) -> Seq<char> {
    styled(capabilities, rule_style(), repeated(seq!['\u{2550}'], length))
}

/// The number of columns of the border of a code block.
pub open spec fn border_width(terminal_size: TerminalSize) -> nat {
    if terminal_size.width < 20 {
        terminal_size.width as nat
    } else {
        20
    }
}

/// The border above and below a code block, with its line break.
pub open spec fn border(capabilities: TerminalCapabilities, terminal_size: TerminalSize) -> Seq<
    char,
> {
    styled(capabilities, rule_style(), repeated(seq!['\u{2500}'], border_width(terminal_size)))
        + newline()
}

/// The adornment before the text of a heading.
pub open spec fn heading_adornment(level: u32) -> Seq<char> {
    repeated(seq!['\u{2504}'], level as nat)
}

/// The style of the headings at top level.
pub open spec fn heading_style() -> Style {
    Style::plain().with_fg(Colour::Blue).with_bold()
}

/// The style of the text in a block quote.
pub open spec fn quote_style() -> Style {
    Style::plain().with_italic(true).with_fg(Colour::Green)
}

/// The text of a link reference.
pub open spec fn link_ref(link: Link) -> Seq<char> {
    seq!['['] + decimal(link.index as nat) + seq![']', ':', ' '] + link.target@ + seq![' ']
        + link.title@
}

/// The lines of the link references, one for each link.
pub open spec fn link_ref_lines(capabilities: TerminalCapabilities, links: Seq<Link>) -> Seq<char>
    decreases links.len(),
{
    if links.len() == 0 {
        Seq::empty()
    } else {
        link_ref_lines(capabilities, links.drop_last()) + styled(
            capabilities,
            Style::plain().with_fg(Colour::Blue),
            link_ref(links.last()),
        ) + newline()
    }
}

/// The link references as they are written: nothing where no link waits,
/// else a blank line and one line for each link.
pub open spec fn link_refs(capabilities: TerminalCapabilities, links: Seq<Link>) -> Seq<char> {
    if links.len() == 0 {
        Seq::empty()
    } else {
        newline() + link_ref_lines(capabilities, links)
    }
}

/// The text that stands for a link where its reference is written later.
pub open spec fn link_index(index: u16) -> Seq<char> {
    seq!['['] + decimal(index as nat) + seq![']']
}

/// Writes the indentation of a line.
pub fn write_indent(out: &mut String, level: u16)
    ensures
        final(out)@ == old(out)@ + indentation(level),
{
    proof {
        reveal_strlit(" ");
    }
    assert(" "@ =~= seq![' ']);
    write_repeated(out, " ", level as usize);
}

/// Writes `text` in `style`, as far as the terminal shows styles.
pub fn write_styled(
    out: &mut String,
    capabilities: &TerminalCapabilities,
    style: &Style,
    text: &str,
)
    ensures
        final(out)@ == old(out)@ + styled(*capabilities, *style, text@),
{
    match capabilities.style {
        StyleCapability::NoStyle => {
            out.append(text);
        },
        StyleCapability::Ansi(ref ansi) => {
            ansi.write_styled(out, style, text);
        },
    }
}

/// Sets a mark, where the terminal knows marks.
pub fn write_mark(out: &mut String, capabilities: &TerminalCapabilities)
    ensures
        final(out)@ == old(out)@ + mark(*capabilities),
{
    match capabilities.marks {
        MarkCapability::ITerm2(ref marks) => {
            marks.set_mark(out);
        },
        MarkCapability::NoMarks => {
            assert(out@ =~= old(out)@ + mark(*capabilities));
        },
    }
}

/// Writes a rule of the given length.
pub fn write_rule(out: &mut String, capabilities: &TerminalCapabilities, length: usize)
    ensures
        final(out)@ == old(out)@ + rule(*capabilities, length as nat),
{
    proof {
        reveal_strlit("\u{2550}");
    }
    assert("\u{2550}"@ =~= seq!['\u{2550}']);
    let mut rule = String::new();
    write_repeated(&mut rule, "\u{2550}", length);
    assert(rule@ =~= repeated(seq!['\u{2550}'], length as nat));
    let style = Style::new().fg(Colour::Green);
    write_styled(out, capabilities, &style, rule.as_str());
}

/// Writes the border of a code block.
pub fn write_border(
    out: &mut String,
    capabilities: &TerminalCapabilities,
    terminal_size: &TerminalSize,
)
    ensures
        final(out)@ == old(out)@ + border(*capabilities, *terminal_size),
{
    proof {
        reveal_strlit("\u{2500}");
    }
    assert("\u{2500}"@ =~= seq!['\u{2500}']);
    let width: usize = if terminal_size.width < 20 {
        terminal_size.width
    } else {
        20
    };
    let mut separator = String::new();
    write_repeated(&mut separator, "\u{2500}", width);
    assert(separator@ =~= repeated(seq!['\u{2500}'], border_width(*terminal_size)));
    let style = Style::new().fg(Colour::Green);
    write_styled(out, capabilities, &style, separator.as_str());
    write_newline(out);
    assert(out@ =~= old(out)@ + border(*capabilities, *terminal_size));
}

/// The line break after a block that returns to the top level.
pub open spec fn newline_returning_to_toplevel(state: State) -> Seq<char> {
    match state {
        State::TopLevel(_) => newline(),
        _ => Seq::empty(),
    }
}

/// Writes a line break where `state`, the state to return to, is the top
/// level.
pub fn writeln_returning_to_toplevel(out: &mut String, state: &State)
    ensures
        final(out)@ == old(out)@ + newline_returning_to_toplevel(*state),
{
    match state {
        State::TopLevel(_) => {
            write_newline(out);
        },
        _ => {
            assert(out@ =~= old(out)@ + newline_returning_to_toplevel(*state));
        },
    }
}

/// Writes the text of one link reference.
fn write_link_ref(out: &mut String, link: &Link)
    ensures
        final(out)@ == old(out)@ + link_ref(*link),
{
    proof {
        reveal_strlit("[");
        reveal_strlit("]: ");
        reveal_strlit(" ");
    }
    assert("["@ =~= seq!['[']);
    assert("]: "@ =~= seq![']', ':', ' ']);
    assert(" "@ =~= seq![' ']);
    out.append("[");
    write_decimal(out, link.index as u64);
    out.append("]: ");
    out.append(link.target.as_str());
    out.append(" ");
    out.append(link.title.as_str());
    assert(out@ =~= old(out)@ + link_ref(*link));
}

/// Writes the link references: a blank line and then, in the order in which
/// the links were added, one line for each.
pub fn write_link_refs(out: &mut String, capabilities: &TerminalCapabilities, links: Vec<Link>)
    ensures
        final(out)@ == old(out)@ + link_refs(*capabilities, links@),
{
    if links.len() > 0 {
        write_newline(out);
        let style = Style::new().fg(Colour::Blue);
        let mut index: usize = 0;
        while index < links.len()
            invariant
                index <= links.len(),
                style == Style::plain().with_fg(Colour::Blue),
                out@ == old(out)@ + newline() + link_ref_lines(
                    *capabilities,
                    links@.take(index as int),
                ),
            decreases links.len() - index,
        {
            let mut link_text = String::new();
            write_link_ref(&mut link_text, &links[index]);
            assert(link_text@ =~= link_ref(links@[index as int]));
            write_styled(out, capabilities, &style, link_text.as_str());
            write_newline(out);
            proof {
                let done = links@.take(index + 1);
                assert(done.drop_last() =~= links@.take(index as int));
                assert(done.last() == links@[index as int]);
            }
            index = index + 1;
        }
        assert(links@.take(index as int) =~= links@);
        assert(out@ =~= old(out)@ + link_refs(*capabilities, links@));
    } else {
        assert(out@ =~= old(out)@ + link_refs(*capabilities, links@));
    }
}

/// What one event does: the state and the link buffer after it, and the text
/// that it writes.
pub struct Transition {
    pub state: State,
    pub data: LinkBuffer,
    pub output: Seq<char>,
}

/// The state `nested` with the state `return_to` to return to.
pub open spec fn nest(return_to: State, nested: NestedState) -> State {
    State::NestedState(Box::new(return_to), nested)
}

/// The top level after a block: the next block gets a margin.
pub open spec fn after_block() -> State {
    State::TopLevel(TopLevelAttrs { margin_before: true })
}

/// Inline text with the given style and indentation.
pub open spec fn inline_text(style: Style, indent: u16) -> NestedState {
    NestedState::Inline(InlineState::InlineText, InlineAttrs { style, indent })
}

/// A list that starts with the given number, or unordered.
pub open spec fn list_block(start: Option<u64>, indent: u16, style: Style) -> NestedState {
    NestedState::ListBlock(
        ListBlockAttrs {
            item_type: ListItemType::of_start(start),
            newline_before: false,
            indent,
            style,
        },
    )
}

/// The transition that changes nothing and writes nothing.
pub open spec fn stay(state: State, data: LinkBuffer) -> Transition {
    Transition { state, data, output: Seq::empty() }
}

/// The transition to `state` that writes `output` and leaves the links.
pub open spec fn go(state: State, data: LinkBuffer, output: Seq<char>) -> Transition {
    Transition { state, data, output }
}

/// The language of a code block: the info string of its fence, if it has a
/// fence and the info string is not empty.
pub open spec fn syntax_token(kind: CodeBlockKind) -> Option<String> {
    match kind {
        CodeBlockKind::Indented => None,
        CodeBlockKind::Fenced(name) => if name@.len() == 0 {
            None
        } else {
            Some(name)
        },
    }
}

/// The style of code.
pub open spec fn code_style() -> Style {
    Style::plain().with_fg(Colour::Yellow)
}

/// A run of code as it is written: as it is where the terminal shows no
/// styles; highlighted where `token` names a language that the syntax set
/// knows; else in the style of code.
pub open spec fn code_run(
    capabilities: TerminalCapabilities,
    syntax_set: SyntaxSet,
    theme: Theme,
    token: Option<Seq<char>>,
    text: Seq<char>,
) -> Seq<char> {
    match capabilities.style {
        StyleCapability::NoStyle => text,
        StyleCapability::Ansi(_) => match token {
            Some(token) => match highlighted_text(syntax_set, theme, token, text) {
                Some(painted) => painted,
                None => ansi_painted(code_style(), text),
            },
            None => ansi_painted(code_style(), text),
        },
    }
}

/// The name of a language as plain values.
pub open spec fn token_of(token: Option<String>) -> Option<Seq<char>> {
    match token {
        Some(token) => Some(token@),
        None => None,
    }
}

/// A run of text in a code block as it is written with the given settings.
pub open spec fn code_text(
    settings: Settings,
    theme: Theme,
    token: Option<String>,
    text: Seq<char>,
) -> Seq<char> {
    code_run(settings.terminal_capabilities, settings.syntax_set, theme, token_of(token), text)
}

/// The URL that the text of a link points to in the terminal, if the
/// terminal shows links and the target resolves.
pub open spec fn live_link_url(
    capabilities: TerminalCapabilities,
    base_dir: Seq<char>,
    target: Seq<char>,
) -> Option<Seq<char>> {
    match capabilities.links {
        LinkCapability::OSC8(_) => resolved_link(base_dir, target),
        LinkCapability::NoLinks => None,
    }
}

/// What an event does at top level.
pub open spec fn top_level_step(
    settings: Settings,
    attrs: TopLevelAttrs,
    data: LinkBuffer,
    event: Event,
) -> Transition {
    let capabilities = settings.terminal_capabilities;
    let before = margin(attrs.margin_before);
    match event {
        Event::Start(Tag::Paragraph) => go(
            nest(after_block(), inline_text(Style::plain(), 0)),
            data,
            before,
        ),
        Event::Start(Tag::Heading(level)) => go(
            nest(after_block(), inline_text(heading_style(), 0)),
            data.flushed(),
            link_refs(capabilities, data.pending_links) + before + mark(capabilities) + styled(
                capabilities,
                heading_style(),
                heading_adornment(level),
            ),
        ),
        Event::Start(Tag::BlockQuote) => go(
            nest(
                after_block(),
                NestedState::StyledBlock(
                    StyledBlockAttrs { margin_before: false, indent: 4, style: quote_style() },
                ),
            ),
            data,
            before,
        ),
        Event::Rule => go(
            after_block(),
            data.flushed(),
            link_refs(capabilities, data.pending_links) + before + rule(
                capabilities,
                settings.terminal_size.width as nat,
            ) + newline(),
        ),
        Event::Start(Tag::CodeBlock(kind)) => go(
            nest(
                after_block(),
                NestedState::HighlightBlock(HighlightBlockAttrs { syntax_token: syntax_token(kind) }),
            ),
            data,
            before + border(capabilities, settings.terminal_size),
        ),
        Event::Start(Tag::List(start)) => go(
            nest(after_block(), list_block(start, 0, Style::plain())),
            data,
            before,
        ),
        _ => stay(State::TopLevel(attrs), data),
    }
}

/// Whether an event can come at top level.
pub open spec fn top_level_possible(event: Event) -> bool {
    match event {
        Event::Start(Tag::Paragraph) => true,
        Event::Start(Tag::Heading(_)) => true,
        Event::Start(Tag::BlockQuote) => true,
        Event::Rule => true,
        Event::Start(Tag::CodeBlock(_)) => true,
        Event::Start(Tag::List(_)) => true,
        _ => false,
    }
}

/// What an event does in a styled block.
pub open spec fn styled_block_step(
    settings: Settings,
    return_to: State,
    attrs: StyledBlockAttrs,
    data: LinkBuffer,
    event: Event,
) -> Transition {
    let capabilities = settings.terminal_capabilities;
    let before = margin(attrs.margin_before);
    let later = nest(
        return_to,
        NestedState::StyledBlock(StyledBlockAttrs { margin_before: true, ..attrs }),
    );
    match event {
        Event::Start(Tag::Paragraph) => go(
            nest(later, inline_text(attrs.style, attrs.indent)),
            data,
            before + indentation(attrs.indent),
        ),
        Event::Rule => go(
            later,
            data,
            before + indentation(attrs.indent) + rule(
                capabilities,
                (settings.terminal_size.width - attrs.indent) as nat,
            ) + newline(),
        ),
        Event::Start(Tag::Heading(level)) => go(
            nest(later, inline_text(attrs.style.with_bold(), attrs.indent)),
            data,
            before + indentation(attrs.indent) + styled(
                capabilities,
                attrs.style.with_bold(),
                heading_adornment(level),
            ),
        ),
        Event::Start(Tag::List(start)) => go(
            nest(later, list_block(start, attrs.indent, attrs.style)),
            data,
            before,
        ),
        Event::End(Tag::Item) => go(return_to, data, Seq::empty()),
        Event::End(Tag::BlockQuote) => go(return_to, data, Seq::empty()),
        _ => stay(nest(return_to, NestedState::StyledBlock(attrs)), data),
    }
}

/// Whether an event can come in a styled block. A rule needs room beside the
/// indentation.
pub open spec fn styled_block_possible(
    settings: Settings,
    attrs: StyledBlockAttrs,
    event: Event,
) -> bool {
    match event {
        Event::Start(Tag::Paragraph) => true,
        Event::Rule => attrs.indent <= settings.terminal_size.width,
        Event::Start(Tag::Heading(_)) => true,
        Event::Start(Tag::List(_)) => true,
        Event::End(Tag::Item) => true,
        Event::End(Tag::BlockQuote) => true,
        _ => false,
    }
}

/// What an event does in a block of code.
pub open spec fn highlight_block_step(
    settings: Settings,
    theme: Theme,
    return_to: State,
    attrs: HighlightBlockAttrs,
    data: LinkBuffer,
    event: Event,
) -> Transition {
    let current = nest(return_to, NestedState::HighlightBlock(attrs));
    match event {
        Event::Text(text) => go(current, data, code_text(settings, theme, attrs.syntax_token, text@)),
        Event::End(Tag::CodeBlock(_)) => go(
            return_to,
            data,
            border(settings.terminal_capabilities, settings.terminal_size),
        ),
        Event::End(Tag::BlockQuote) => go(return_to, data, Seq::empty()),
        _ => stay(current, data),
    }
}

/// Whether an event can come in a block of code.
pub open spec fn highlight_block_possible(event: Event) -> bool {
    match event {
        Event::Text(_) => true,
        Event::End(Tag::CodeBlock(_)) => true,
        Event::End(Tag::BlockQuote) => true,
        _ => false,
    }
}

/// What an event does in a list, between two items.
pub open spec fn list_block_step(
    return_to: State,
    attrs: ListBlockAttrs,
    data: LinkBuffer,
    event: Event,
) -> Transition {
    let current = nest(return_to, NestedState::ListBlock(attrs));
    match event {
        Event::Start(Tag::Item) => go(
            nest(
                nest(return_to, NestedState::ListBlock(attrs.next_item())),
                NestedState::Inline(
                    InlineState::ListItemText,
                    InlineAttrs {
                        style: attrs.style,
                        indent: (attrs.indent + attrs.item_type.marker_width()) as u16,
                    },
                ),
            ),
            data,
            margin(attrs.newline_before) + indentation(attrs.indent) + attrs.item_type.marker(),
        ),
        Event::End(Tag::List(_)) => go(return_to, data, newline_returning_to_toplevel(return_to)),
        Event::End(Tag::BlockQuote) => go(return_to, data, Seq::empty()),
        _ => stay(current, data),
    }
}

/// Whether an event can come in a list, between two items. An item needs
/// room for its marker, and an ordered list a number for the item after it.
pub open spec fn list_block_possible(attrs: ListBlockAttrs, event: Event) -> bool {
    match event {
        Event::Start(Tag::Item) => attrs.indent + attrs.item_type.marker_width() <= u16::MAX
            && attrs.item_type.has_successor(),
        Event::End(Tag::List(_)) => true,
        Event::End(Tag::BlockQuote) => true,
        _ => false,
    }
}

/// What the start of an element does in inline text.
pub open spec fn inline_start_step(
    settings: Settings,
    base_dir: Seq<char>,
    return_to: State,
    mode: InlineState,
    attrs: InlineAttrs,
    data: LinkBuffer,
    tag: Tag,
) -> Transition {
    let current = nest(return_to, NestedState::Inline(mode, attrs));
    match tag {
        Tag::Paragraph => if mode == InlineState::ListItemText {
            go(
                nest(
                    nest(
                        return_to,
                        NestedState::StyledBlock(
                            StyledBlockAttrs {
                                margin_before: true,
                                indent: attrs.indent,
                                style: attrs.style,
                            },
                        ),
                    ),
                    NestedState::Inline(InlineState::InlineText, attrs),
                ),
                data,
                Seq::empty(),
            )
        } else {
            stay(current, data)
        },
        Tag::List(start) => if mode == InlineState::ListItemText {
            go(nest(current, list_block(start, attrs.indent, attrs.style)), data, newline())
        } else {
            stay(current, data)
        },
        Tag::Emphasis => go(
            nest(
                current,
                inline_text(attrs.style.with_italic(!attrs.style.is_italic), attrs.indent),
            ),
            data,
            Seq::empty(),
        ),
        Tag::Strong => go(
            nest(current, inline_text(attrs.style.with_bold(), attrs.indent)),
            data,
            Seq::empty(),
        ),
        Tag::Strikethrough => go(
            nest(current, inline_text(attrs.style.with_strikethrough(), attrs.indent)),
            data,
            Seq::empty(),
        ),
        Tag::Link(_, target, _) => if mode == InlineState::InlineText {
            link_start_step(
                current,
                attrs,
                data,
                live_link_url(settings.terminal_capabilities, base_dir, target@),
            )
        } else {
            stay(current, data)
        },
        _ => stay(current, data),
    }
}

/// What the start of a link does in inline text `current` with the
/// attributes `attrs`, given the URL that the text of the link shall point
/// to, if any. With a URL the link is opened in the terminal; without one
/// the text is written as it is, and a reference follows at the end of the
/// link. The text of a link is blue in either case.
pub open spec fn link_start_step(
    current: State,
    attrs: InlineAttrs,
    data: LinkBuffer,
    url: Option<Seq<char>>,
) -> Transition {
    let link_attrs = InlineAttrs { style: attrs.style.with_fg(Colour::Blue), indent: attrs.indent };
    match url {
        Some(url) => go(
            nest(current, NestedState::Inline(InlineState::InlineLink, link_attrs)),
            data,
            link_start(url),
        ),
        None => go(
            nest(current, NestedState::Inline(InlineState::InlineText, link_attrs)),
            data,
            Seq::empty(),
        ),
    }
}

/// What the end of an element does in inline text.
pub open spec fn inline_end_step(
    settings: Settings,
    return_to: State,
    mode: InlineState,
    attrs: InlineAttrs,
    data: LinkBuffer,
    tag: Tag,
) -> Transition {
    let capabilities = settings.terminal_capabilities;
    let current = nest(return_to, NestedState::Inline(mode, attrs));
    match tag {
        Tag::Emphasis => go(return_to, data, Seq::empty()),
        Tag::Strong => go(return_to, data, Seq::empty()),
        Tag::Strikethrough => go(return_to, data, Seq::empty()),
        Tag::BlockQuote => go(return_to, data, Seq::empty()),
        Tag::Paragraph => go(return_to, data, newline()),
        Tag::Heading(_) => go(return_to, data, newline()),
        Tag::Item => if mode == InlineState::ListItemText {
            go(return_to, data, Seq::empty())
        } else {
            stay(current, data)
        },
        Tag::Link(link_type, target, title) => match mode {
            InlineState::InlineLink => if capabilities.links is OSC8 {
                go(return_to, data, link_end())
            } else {
                stay(current, data)
            },
            InlineState::InlineText => if link_type == LinkType::Autolink {
                go(return_to, data, Seq::empty())
            } else {
                go(
                    return_to,
                    data.with_link(target, title),
                    styled(
                        capabilities,
                        attrs.style.with_fg(Colour::Blue),
                        link_index(data.next_link),
                    ),
                )
            },
            InlineState::ListItemText => stay(current, data),
        },
        _ => stay(current, data),
    }
}

/// What an event does in inline text.
pub open spec fn inline_step(
    settings: Settings,
    base_dir: Seq<char>,
    return_to: State,
    mode: InlineState,
    attrs: InlineAttrs,
    data: LinkBuffer,
    event: Event,
) -> Transition {
    let capabilities = settings.terminal_capabilities;
    let current = nest(return_to, NestedState::Inline(mode, attrs));
    match event {
        Event::Start(tag) => inline_start_step(settings, base_dir, return_to, mode, attrs, data, tag),
        Event::End(tag) => inline_end_step(settings, return_to, mode, attrs, data, tag),
        Event::Code(code) => go(
            current,
            data,
            styled(capabilities, attrs.style.with_fg(Colour::Yellow), code@),
        ),
        Event::SoftBreak => go(current, data, newline() + indentation(attrs.indent)),
        Event::HardBreak => go(current, data, newline() + indentation(attrs.indent)),
        Event::Text(text) => go(current, data, styled(capabilities, attrs.style, text@)),
        _ => stay(current, data),
    }
}

/// Whether an event can come in inline text. Only plain inline text holds
/// links; only the text at the start of a list item gives way to paragraphs
/// and lists; a link that gets a reference needs an index.
pub open spec fn inline_possible(
    settings: Settings,
    mode: InlineState,
    data: LinkBuffer,
    event: Event,
) -> bool {
    match event {
        Event::Start(Tag::Paragraph) => mode == InlineState::ListItemText,
        Event::Start(Tag::List(_)) => mode == InlineState::ListItemText,
        Event::Start(Tag::Emphasis) => true,
        Event::Start(Tag::Strong) => true,
        Event::Start(Tag::Strikethrough) => true,
        Event::Start(Tag::Link(_, _, _)) => mode == InlineState::InlineText,
        Event::End(Tag::Emphasis) => true,
        Event::End(Tag::Strong) => true,
        Event::End(Tag::Strikethrough) => true,
        Event::End(Tag::BlockQuote) => true,
        Event::End(Tag::Paragraph) => true,
        Event::End(Tag::Heading(_)) => true,
        Event::End(Tag::Item) => mode == InlineState::ListItemText,
        Event::End(Tag::Link(link_type, _, _)) => match mode {
            InlineState::InlineLink => settings.terminal_capabilities.links is OSC8,
            InlineState::InlineText => link_type == LinkType::Autolink || data.next_link
                < u16::MAX,
            InlineState::ListItemText => false,
        },
        Event::Code(_) => true,
        Event::SoftBreak => true,
        Event::HardBreak => true,
        Event::Text(_) => true,
        _ => false,
    }
}

/// What one event does in a state: the transition table of the renderer.
pub open spec fn step(
    settings: Settings,
    theme: Theme,
    base_dir: Seq<char>,
    state: State,
    data: LinkBuffer,
    event: Event,
) -> Transition {
    match state {
        State::TopLevel(attrs) => top_level_step(settings, attrs, data, event),
        State::NestedState(return_to, NestedState::StyledBlock(attrs)) => styled_block_step(
            settings,
            *return_to,
            attrs,
            data,
            event,
        ),
        State::NestedState(return_to, NestedState::HighlightBlock(attrs)) => highlight_block_step(
            settings,
            theme,
            *return_to,
            attrs,
            data,
            event,
        ),
        State::NestedState(return_to, NestedState::ListBlock(attrs)) => list_block_step(
            *return_to,
            attrs,
            data,
            event,
        ),
        State::NestedState(return_to, NestedState::Inline(mode, attrs)) => inline_step(
            settings,
            base_dir,
            *return_to,
            mode,
            attrs,
            data,
            event,
        ),
    }
}

/// Whether an event can come in a state. An event that cannot is a fault of
/// whoever produced the events, and the renderer has no answer to it.
pub open spec fn possible(settings: Settings, state: State, data: LinkBuffer, event: Event) -> bool {
    match state {
        State::TopLevel(_) => top_level_possible(event),
        State::NestedState(_, NestedState::StyledBlock(attrs)) => styled_block_possible(
            settings,
            attrs,
            event,
        ),
        State::NestedState(_, NestedState::HighlightBlock(_)) => highlight_block_possible(event),
        State::NestedState(_, NestedState::ListBlock(attrs)) => list_block_possible(attrs, event),
        State::NestedState(_, NestedState::Inline(mode, _)) => inline_possible(
            settings,
            mode,
            data,
            event,
        ),
    }
}

/// Writes the blank line between two blocks, where one is due.
fn write_margin(out: &mut String, margin_before: bool)
    ensures
        final(out)@ == old(out)@ + margin(margin_before),
{
    if margin_before {
        write_newline(out);
    } else {
        assert(out@ =~= old(out)@ + margin(margin_before));
    }
}

/// The language of a code block, if it names one.
fn take_syntax_token(kind: CodeBlockKind) -> (token: Option<String>)
    ensures
        token == syntax_token(kind),
{
    match kind {
        CodeBlockKind::Indented => None,
        CodeBlockKind::Fenced(name) => if name.as_str().is_empty() {
            None
        } else {
            Some(name)
        },
    }
}

/// Whether the transition `next` with the text written from `before` to
/// `after` is the transition `expected`.
pub open spec fn is_transition(
    next: (State, StateData),
    before: Seq<char>,
    after: Seq<char>,
    expected: Transition,
) -> bool {
    &&& next.0 == expected.state
    &&& next.1@ == expected.data
    &&& after == before + expected.output
}

/// Takes one event at top level.
fn top_level_event(
    out: &mut String,
    settings: &Settings,
    attrs: TopLevelAttrs,
    data: StateData,
    event: Event,
) -> (next: (State, StateData))
    ensures
        is_transition(next, old(out)@, final(out)@, top_level_step(*settings, attrs, data@, event)),
{
    let capabilities = &settings.terminal_capabilities;
    match event {
        Event::Start(Tag::Paragraph) => {
            write_margin(out, attrs.margin_before);
            (
                State::NestedState(
                    Box::new(State::TopLevel(TopLevelAttrs::margin_before())),
                    NestedState::Inline(
                        InlineState::InlineText,
                        InlineAttrs { style: Style::new(), indent: 0 },
                    ),
                ),
                data,
            )
        },
        Event::Start(Tag::Heading(level)) => {
            let ghost expected = top_level_step(*settings, attrs, data@, event);
            let (data, links) = data.take_links();
            write_link_refs(out, capabilities, links);
            write_margin(out, attrs.margin_before);
            write_mark(out, capabilities);
            let style = Style::new().fg(Colour::Blue).bold();
            write_heading_adornment(out, capabilities, &style, level);
            assert(out@ =~= old(out)@ + expected.output);
            (
                State::NestedState(
                    Box::new(State::TopLevel(TopLevelAttrs::margin_before())),
                    NestedState::Inline(InlineState::InlineText, InlineAttrs { style, indent: 0 }),
                ),
                data,
            )
        },
        Event::Start(Tag::BlockQuote) => {
            write_margin(out, attrs.margin_before);
            (
                State::NestedState(
                    Box::new(State::TopLevel(TopLevelAttrs::margin_before())),
                    NestedState::StyledBlock(
                        StyledBlockAttrs {
                            // The margin of the block is written: the first
                            // block in it gets none.
                            margin_before: false,
                            style: Style::new().italic().fg(Colour::Green),
                            indent: 4,
                        },
                    ),
                ),
                data,
            )
        },
        Event::Rule => {
            let ghost expected = top_level_step(*settings, attrs, data@, event);
            let (data, links) = data.take_links();
            write_link_refs(out, capabilities, links);
            write_margin(out, attrs.margin_before);
            write_rule(out, capabilities, settings.terminal_size.width);
            write_newline(out);
            assert(out@ =~= old(out)@ + expected.output);
            (State::TopLevel(TopLevelAttrs::margin_before()), data)
        },
        Event::Start(Tag::CodeBlock(kind)) => {
            write_margin(out, attrs.margin_before);
            write_border(out, capabilities, &settings.terminal_size);
            assert(out@ =~= old(out)@ + top_level_step(*settings, attrs, data@, event).output);
            let syntax_token = take_syntax_token(kind);
            (
                State::NestedState(
                    Box::new(State::TopLevel(TopLevelAttrs::margin_before())),
                    NestedState::HighlightBlock(HighlightBlockAttrs { syntax_token }),
                ),
                data,
            )
        },
        Event::Start(Tag::List(start)) => {
            write_margin(out, attrs.margin_before);
            (
                State::NestedState(
                    Box::new(State::TopLevel(TopLevelAttrs::margin_before())),
                    NestedState::ListBlock(
                        ListBlockAttrs {
                            item_type: ListItemType::from_start(start),
                            style: Style::new(),
                            newline_before: false,
                            indent: 0,
                        },
                    ),
                ),
                data,
            )
        },
        _ => {
            assert(out@ =~= old(out)@ + Seq::<char>::empty());
            (State::TopLevel(attrs), data)
        },
    }
}

/// Writes the adornment of a heading of the given level.
fn write_heading_adornment(
    out: &mut String,
    capabilities: &TerminalCapabilities,
    style: &Style,
    level: u32,
)
    ensures
        final(out)@ == old(out)@ + styled(*capabilities, *style, heading_adornment(level)),
{
    proof {
        reveal_strlit("\u{2504}");
    }
    assert("\u{2504}"@ =~= seq!['\u{2504}']);
    let mut adornment = String::new();
    write_repeated(&mut adornment, "\u{2504}", level as usize);
    assert(adornment@ =~= heading_adornment(level));
    write_styled(out, capabilities, style, adornment.as_str());
}

/// Takes one event in a styled block.
fn styled_block_event(
    out: &mut String,
    settings: &Settings,
    return_to: Box<State>,
    attrs: StyledBlockAttrs,
    data: StateData,
    event: Event,
) -> (next: (State, StateData))
    requires
        styled_block_possible(*settings, attrs, event),
    ensures
        is_transition(
            next,
            old(out)@,
            final(out)@,
            styled_block_step(*settings, *return_to, attrs, data@, event),
        ),
{
    let capabilities = &settings.terminal_capabilities;
    let ghost expected = styled_block_step(*settings, *return_to, attrs, data@, event);
    match event {
        Event::Start(Tag::Paragraph) => {
            write_margin(out, attrs.margin_before);
            write_indent(out, attrs.indent);
            assert(out@ =~= old(out)@ + expected.output);
            let style = attrs.style;
            let indent = attrs.indent;
            (
                State::NestedState(
                    Box::new(
                        State::NestedState(
                            return_to,
                            NestedState::StyledBlock(attrs.with_margin_before()),
                        ),
                    ),
                    NestedState::Inline(InlineState::InlineText, InlineAttrs { style, indent }),
                ),
                data,
            )
        },
        Event::Rule => {
            write_margin(out, attrs.margin_before);
            write_indent(out, attrs.indent);
            write_rule(out, capabilities, settings.terminal_size.width - (attrs.indent as usize));
            write_newline(out);
            assert(out@ =~= old(out)@ + expected.output);
            (
                State::NestedState(return_to, NestedState::StyledBlock(attrs.with_margin_before())),
                data,
            )
        },
        Event::Start(Tag::Heading(level)) => {
            write_margin(out, attrs.margin_before);
            write_indent(out, attrs.indent);
            // Only the headings at top level get a mark.
            let style = attrs.style.bold();
            write_heading_adornment(out, capabilities, &style, level);
            assert(out@ =~= old(out)@ + expected.output);
            let indent = attrs.indent;
            (
                State::NestedState(
                    Box::new(
                        State::NestedState(
                            return_to,
                            NestedState::StyledBlock(attrs.with_margin_before()),
                        ),
                    ),
                    NestedState::Inline(InlineState::InlineText, InlineAttrs { style, indent }),
                ),
                data,
            )
        },
        Event::Start(Tag::List(start)) => {
            write_margin(out, attrs.margin_before);
            let style = attrs.style;
            let indent = attrs.indent;
            (
                State::NestedState(
                    Box::new(
                        State::NestedState(
                            return_to,
                            NestedState::StyledBlock(attrs.with_margin_before()),
                        ),
                    ),
                    NestedState::ListBlock(
                        ListBlockAttrs {
                            item_type: ListItemType::from_start(start),
                            newline_before: false,
                            style,
                            indent,
                        },
                    ),
                ),
                data,
            )
        },
        Event::End(Tag::Item) => {
            assert(out@ =~= old(out)@ + Seq::<char>::empty());
            (*return_to, data)
        },
        Event::End(Tag::BlockQuote) => {
            assert(out@ =~= old(out)@ + Seq::<char>::empty());
            (*return_to, data)
        },
        _ => {
            assert(out@ =~= old(out)@ + Seq::<char>::empty());
            (State::NestedState(return_to, NestedState::StyledBlock(attrs)), data)
        },
    }
}

/// Writes a run of code: as it is where the terminal shows no styles,
/// highlighted where `token` names a language that the syntax set knows,
/// else in the style of code.
pub fn write_code_run(
    out: &mut String,
    capabilities: &TerminalCapabilities,
    syntax_set: &SyntaxSet,
    theme: &Theme,
    token: Option<&str>,
    text: &str,
)
    requires
        capabilities.style is Ansi ==> patterns_compile(*syntax_set),
    ensures
        final(out)@ == old(out)@ + code_run(
            *capabilities,
            *syntax_set,
            *theme,
            match token {
                Some(token) => Some(token@),
                None => None,
            },
            text@,
        ),
{
    match capabilities.style {
        StyleCapability::NoStyle => {
            out.append(text);
        },
        StyleCapability::Ansi(ref ansi) => {
            let found = match token {
                Some(token) => write_highlighted(out, ansi, syntax_set, theme, token, text),
                None => false,
            };
            if !found {
                assert(out@ =~= old(out)@);
                let style = Style::new().fg(Colour::Yellow);
                write_styled(out, capabilities, &style, text);
            }
        },
    }
}

/// Writes a run of text of a code block with the given settings.
pub fn write_code_text(
    out: &mut String,
    settings: &Settings,
    theme: &Theme,
    token: &Option<String>,
    text: &str,
)
    requires
        settings.can_highlight(),
    ensures
        final(out)@ == old(out)@ + code_text(*settings, *theme, *token, text@),
{
    let token = match token {
        Some(token) => Some(token.as_str()),
        None => None,
    };
    write_code_run(
        out,
        &settings.terminal_capabilities,
        &settings.syntax_set,
        theme,
        token,
        text,
    );
}

/// Takes one event in a block of code.
fn highlight_block_event(
    out: &mut String,
    settings: &Settings,
    theme: &Theme,
    return_to: Box<State>,
    attrs: HighlightBlockAttrs,
    data: StateData,
    event: Event,
) -> (next: (State, StateData))
    requires
        settings.can_highlight(),
    ensures
        is_transition(
            next,
            old(out)@,
            final(out)@,
            highlight_block_step(*settings, *theme, *return_to, attrs, data@, event),
        ),
{
    match event {
        Event::Text(text) => {
            write_code_text(out, settings, theme, &attrs.syntax_token, text.as_str());
            (State::NestedState(return_to, NestedState::HighlightBlock(attrs)), data)
        },
        Event::End(Tag::CodeBlock(_)) => {
            write_border(out, &settings.terminal_capabilities, &settings.terminal_size);
            (*return_to, data)
        },
        Event::End(Tag::BlockQuote) => {
            assert(out@ =~= old(out)@ + Seq::<char>::empty());
            (*return_to, data)
        },
        _ => {
            assert(out@ =~= old(out)@ + Seq::<char>::empty());
            (State::NestedState(return_to, NestedState::HighlightBlock(attrs)), data)
        },
    }
}

/// Writes the marker of a list item.
fn write_marker(out: &mut String, item_type: ListItemType)
    ensures
        final(out)@ == old(out)@ + item_type.marker(),
{
    match item_type {
        ListItemType::Unordered => {
            proof {
                reveal_strlit("\u{2022} ");
            }
            assert("\u{2022} "@ =~= seq!['\u{2022}', ' ']);
            out.append("\u{2022} ");
        },
        ListItemType::Ordered(number) => {
            proof {
                reveal_strlit(". ");
            }
            assert(". "@ =~= seq!['.', ' ']);
            write_ordinal(out, number);
            out.append(". ");
            assert(out@ =~= old(out)@ + item_type.marker());
        },
    }
}

/// Takes one event in a list, between two items.
fn list_block_event(
    out: &mut String,
    return_to: Box<State>,
    attrs: ListBlockAttrs,
    data: StateData,
    event: Event,
) -> (next: (State, StateData))
    requires
        list_block_possible(attrs, event),
    ensures
        is_transition(
            next,
            old(out)@,
            final(out)@,
            list_block_step(*return_to, attrs, data@, event),
        ),
{
    let ghost expected = list_block_step(*return_to, attrs, data@, event);
    match event {
        Event::Start(Tag::Item) => {
            write_margin(out, attrs.newline_before);
            write_indent(out, attrs.indent);
            write_marker(out, attrs.item_type);
            assert(out@ =~= old(out)@ + expected.output);
            let style = attrs.style;
            let indent = match attrs.item_type {
                ListItemType::Unordered => attrs.indent + 2,
                ListItemType::Ordered(_) => attrs.indent + 4,
            };
            (
                State::NestedState(
                    Box::new(
                        State::NestedState(return_to, NestedState::ListBlock(attrs.to_next_item())),
                    ),
                    NestedState::Inline(InlineState::ListItemText, InlineAttrs { style, indent }),
                ),
                data,
            )
        },
        Event::End(Tag::List(_)) => {
            writeln_returning_to_toplevel(out, &*return_to);
            (*return_to, data)
        },
        Event::End(Tag::BlockQuote) => {
            assert(out@ =~= old(out)@ + Seq::<char>::empty());
            (*return_to, data)
        },
        _ => {
            assert(out@ =~= old(out)@ + Seq::<char>::empty());
            (State::NestedState(return_to, NestedState::ListBlock(attrs)), data)
        },
    }
}

/// Starts a link in the inline text `current` with the attributes `attrs`.
/// `url` is what the text of the link shall point to in the terminal, if
/// anything. With a URL the link is opened in the terminal; without one the
/// text goes on as plain inline text, and a reference follows at the end of
/// the link.
pub fn start_link(
    out: &mut String,
    current: State,
    attrs: InlineAttrs,
    data: StateData,
    url: Option<String>,
) -> (next: (State, StateData))
    ensures
        is_transition(
            next,
            old(out)@,
            final(out)@,
            link_start_step(
                current,
                attrs,
                data@,
                match url {
                    Some(url) => Some(url@),
                    None => None,
                },
            ),
        ),
{
    let indent = attrs.indent;
    let style = attrs.style.fg(Colour::Blue);
    match url {
        Some(url) => {
            let osc8 = OSC8Links;
            osc8.set_link_url(out, url.as_str());
            (
                State::NestedState(
                    Box::new(current),
                    NestedState::Inline(InlineState::InlineLink, InlineAttrs { style, indent }),
                ),
                data,
            )
        },
        None => {
            assert(out@ =~= old(out)@ + Seq::<char>::empty());
            (
                State::NestedState(
                    Box::new(current),
                    NestedState::Inline(InlineState::InlineText, InlineAttrs { style, indent }),
                ),
                data,
            )
        },
    }
}

/// The URL that the text of a link shall point to in the terminal: the
/// resolved target where the terminal shows links, else none.
pub fn find_live_link_url(
    capabilities: &TerminalCapabilities,
    base_dir: &str,
    target: &str,
) -> (url: Option<String>)
    ensures
        is_url(url, live_link_url(*capabilities, base_dir@, target@)),
{
    match capabilities.links {
        LinkCapability::OSC8(_) => resolve_link(base_dir, target),
        LinkCapability::NoLinks => None,
    }
}

/// Takes the start of an element in inline text.
fn inline_start_event(
    out: &mut String,
    settings: &Settings,
    base_dir: &str,
    return_to: Box<State>,
    mode: InlineState,
    attrs: InlineAttrs,
    data: StateData,
    tag: Tag,
) -> (next: (State, StateData))
    ensures
        is_transition(
            next,
            old(out)@,
            final(out)@,
            inline_start_step(*settings, base_dir@, *return_to, mode, attrs, data@, tag),
        ),
{
    let style = attrs.style;
    let indent = attrs.indent;
    match tag {
        Tag::Paragraph => {
            assert(out@ =~= old(out)@ + Seq::<char>::empty());
            if mode == InlineState::ListItemText {
                // The item holds paragraphs. The first goes on beside the
                // marker; those after it are blocks with the indentation and
                // the style of the item.
                (
                    State::NestedState(
                        Box::new(
                            State::NestedState(
                                return_to,
                                NestedState::StyledBlock(
                                    StyledBlockAttrs { margin_before: true, style, indent },
                                ),
                            ),
                        ),
                        NestedState::Inline(InlineState::InlineText, attrs),
                    ),
                    data,
                )
            } else {
                (State::NestedState(return_to, NestedState::Inline(mode, attrs)), data)
            }
        },
        Tag::List(start) => {
            if mode == InlineState::ListItemText {
                // The text of the item ends here, and the nested list starts.
                write_newline(out);
                (
                    State::NestedState(
                        Box::new(State::NestedState(return_to, NestedState::Inline(mode, attrs))),
                        NestedState::ListBlock(
                            ListBlockAttrs {
                                item_type: ListItemType::from_start(start),
                                newline_before: false,
                                indent,
                                style,
                            },
                        ),
                    ),
                    data,
                )
            } else {
                assert(out@ =~= old(out)@ + Seq::<char>::empty());
                (State::NestedState(return_to, NestedState::Inline(mode, attrs)), data)
            }
        },
        Tag::Emphasis => {
            assert(out@ =~= old(out)@ + Seq::<char>::empty());
            let style = Style { is_italic: !style.is_italic, ..style };
            (
                State::NestedState(
                    Box::new(State::NestedState(return_to, NestedState::Inline(mode, attrs))),
                    NestedState::Inline(InlineState::InlineText, InlineAttrs { style, indent }),
                ),
                data,
            )
        },
        Tag::Strong => {
            assert(out@ =~= old(out)@ + Seq::<char>::empty());
            let style = style.bold();
            (
                State::NestedState(
                    Box::new(State::NestedState(return_to, NestedState::Inline(mode, attrs))),
                    NestedState::Inline(InlineState::InlineText, InlineAttrs { style, indent }),
                ),
                data,
            )
        },
        Tag::Strikethrough => {
            assert(out@ =~= old(out)@ + Seq::<char>::empty());
            let style = style.strikethrough();
            (
                State::NestedState(
                    Box::new(State::NestedState(return_to, NestedState::Inline(mode, attrs))),
                    NestedState::Inline(InlineState::InlineText, InlineAttrs { style, indent }),
                ),
                data,
            )
        },
        Tag::Link(_, target, _) => {
            if mode == InlineState::InlineText {
                let url = find_live_link_url(
                    &settings.terminal_capabilities,
                    base_dir,
                    target.as_str(),
                );
                start_link(
                    out,
                    State::NestedState(return_to, NestedState::Inline(mode, attrs)),
                    attrs,
                    data,
                    url,
                )
            } else {
                assert(out@ =~= old(out)@ + Seq::<char>::empty());
                (State::NestedState(return_to, NestedState::Inline(mode, attrs)), data)
            }
        },
        _ => {
            assert(out@ =~= old(out)@ + Seq::<char>::empty());
            (State::NestedState(return_to, NestedState::Inline(mode, attrs)), data)
        },
    }
}

/// Writes the index that stands for a link whose reference is written later.
fn write_link_index(
    out: &mut String,
    capabilities: &TerminalCapabilities,
    style: &Style,
    index: u16,
)
    ensures
        final(out)@ == old(out)@ + styled(*capabilities, *style, link_index(index)),
{
    proof {
        reveal_strlit("[");
        reveal_strlit("]");
    }
    assert("["@ =~= seq!['[']);
    assert("]"@ =~= seq![']']);
    let mut text = String::new();
    text.append("[");
    write_decimal(&mut text, index as u64);
    text.append("]");
    assert(text@ =~= link_index(index));
    write_styled(out, capabilities, style, text.as_str());
}

/// Takes the end of an element in inline text.
fn inline_end_event(
    out: &mut String,
    settings: &Settings,
    return_to: Box<State>,
    mode: InlineState,
    attrs: InlineAttrs,
    data: StateData,
    tag: Tag,
) -> (next: (State, StateData))
    requires
        inline_possible(*settings, mode, data@, Event::End(tag)),
    ensures
        is_transition(
            next,
            old(out)@,
            final(out)@,
            inline_end_step(*settings, *return_to, mode, attrs, data@, tag),
        ),
{
    let capabilities = &settings.terminal_capabilities;
    match tag {
        Tag::Emphasis => {
            assert(out@ =~= old(out)@ + Seq::<char>::empty());
            (*return_to, data)
        },
        Tag::Strong => {
            assert(out@ =~= old(out)@ + Seq::<char>::empty());
            (*return_to, data)
        },
        Tag::Strikethrough => {
            assert(out@ =~= old(out)@ + Seq::<char>::empty());
            (*return_to, data)
        },
        Tag::BlockQuote => {
            assert(out@ =~= old(out)@ + Seq::<char>::empty());
            (*return_to, data)
        },
        Tag::Paragraph => {
            write_newline(out);
            (*return_to, data)
        },
        Tag::Heading(_) => {
            write_newline(out);
            (*return_to, data)
        },
        Tag::Item => {
            assert(out@ =~= old(out)@ + Seq::<char>::empty());
            (*return_to, data)
        },
        Tag::Link(link_type, target, title) => match mode {
            InlineState::InlineLink => {
                match capabilities.links {
                    LinkCapability::OSC8(ref osc8) => {
                        osc8.clear_link(out);
                    },
                    LinkCapability::NoLinks => {
                        assert(false);
                    },
                }
                (*return_to, data)
            },
            InlineState::InlineText => {
                if link_type == LinkType::Autolink {
                    // The text of an autolink is its target: it needs no
                    // reference.
                    assert(out@ =~= old(out)@ + Seq::<char>::empty());
                    (*return_to, data)
                } else {
                    let (data, index) = data.add_link(target, title);
                    let style = attrs.style.fg(Colour::Blue);
                    write_link_index(out, capabilities, &style, index);
                    (*return_to, data)
                }
            },
            InlineState::ListItemText => {
                assert(false);
                (*return_to, data)
            },
        },
        _ => {
            assert(false);
            (*return_to, data)
        },
    }
}

/// Takes one event in inline text.
fn inline_event(
    out: &mut String,
    settings: &Settings,
    base_dir: &str,
    return_to: Box<State>,
    mode: InlineState,
    attrs: InlineAttrs,
    data: StateData,
    event: Event,
) -> (next: (State, StateData))
    requires
        inline_possible(*settings, mode, data@, event),
    ensures
        is_transition(
            next,
            old(out)@,
            final(out)@,
            inline_step(*settings, base_dir@, *return_to, mode, attrs, data@, event),
        ),
{
    let capabilities = &settings.terminal_capabilities;
    match event {
        Event::Start(tag) => inline_start_event(
            out,
            settings,
            base_dir,
            return_to,
            mode,
            attrs,
            data,
            tag,
        ),
        Event::End(tag) => inline_end_event(out, settings, return_to, mode, attrs, data, tag),
        Event::Code(code) => {
            let style = attrs.style.fg(Colour::Yellow);
            write_styled(out, capabilities, &style, code.as_str());
            (State::NestedState(return_to, NestedState::Inline(mode, attrs)), data)
        },
        Event::SoftBreak => {
            write_newline(out);
            write_indent(out, attrs.indent);
            assert(out@ =~= old(out)@ + (newline() + indentation(attrs.indent)));
            (State::NestedState(return_to, NestedState::Inline(mode, attrs)), data)
        },
        Event::HardBreak => {
            write_newline(out);
            write_indent(out, attrs.indent);
            assert(out@ =~= old(out)@ + (newline() + indentation(attrs.indent)));
            (State::NestedState(return_to, NestedState::Inline(mode, attrs)), data)
        },
        Event::Text(text) => {
            write_styled(out, capabilities, &attrs.style, text.as_str());
            (State::NestedState(return_to, NestedState::Inline(mode, attrs)), data)
        },
        _ => {
            assert(out@ =~= old(out)@ + Seq::<char>::empty());
            (State::NestedState(return_to, NestedState::Inline(mode, attrs)), data)
        },
    }
}

/// Takes one event: writes what the event shows in the state `state` to
/// `out`, and hands back the state and the link buffer after it.
///
/// The event must be one that can come in `state`, and the settings such
/// that code can be highlighted.
pub fn write_event(
    out: &mut String,
    settings: &Settings,
    base_dir: &str,
    theme: &Theme,
    state: State,
    data: StateData,
    event: Event,
) -> (next: (State, StateData))
    requires
        settings.can_highlight(),
        possible(*settings, state, data@, event),
    ensures
        is_transition(
            next,
            old(out)@,
            final(out)@,
            step(*settings, *theme, base_dir@, state, data@, event),
        ),
{
    match state {
        State::TopLevel(attrs) => top_level_event(out, settings, attrs, data, event),
        State::NestedState(return_to, nested) => match nested {
            NestedState::StyledBlock(attrs) => styled_block_event(
                out,
                settings,
                return_to,
                attrs,
                data,
                event,
            ),
            NestedState::HighlightBlock(attrs) => highlight_block_event(
                out,
                settings,
                theme,
                return_to,
                attrs,
                data,
                event,
            ),
            NestedState::ListBlock(attrs) => list_block_event(out, return_to, attrs, data, event),
            NestedState::Inline(mode, attrs) => inline_event(
                out,
                settings,
                base_dir,
                return_to,
                mode,
                attrs,
                data,
                event,
            ),
        },
    }
}

/// Ends a document: writes the references of the links that still wait.
///
/// A document ends at top level.
pub fn finish(out: &mut String, settings: &Settings, state: State, data: StateData)
    requires
        state is TopLevel,
    ensures
        final(out)@ == old(out)@ + link_refs(settings.terminal_capabilities, data@.pending_links),
{
    write_link_refs(out, &settings.terminal_capabilities, data.pending_links);
}

/// Whether `event` can come in `state`. Where it cannot, whoever produced
/// the events is at fault, and `write_event` must not be handed the event.
pub fn is_possible(settings: &Settings, state: &State, data: &StateData, event: &Event) -> (ok:
    bool)
    ensures
        ok == possible(*settings, *state, data@, *event),
{
    match state {
        State::TopLevel(_) => match event {
            Event::Start(Tag::Paragraph) => true,
            Event::Start(Tag::Heading(_)) => true,
            Event::Start(Tag::BlockQuote) => true,
            Event::Rule => true,
            Event::Start(Tag::CodeBlock(_)) => true,
            Event::Start(Tag::List(_)) => true,
            _ => false,
        },
        State::NestedState(_, NestedState::StyledBlock(attrs)) => match event {
            Event::Start(Tag::Paragraph) => true,
            Event::Rule => attrs.indent as usize <= settings.terminal_size.width,
            Event::Start(Tag::Heading(_)) => true,
            Event::Start(Tag::List(_)) => true,
            Event::End(Tag::Item) => true,
            Event::End(Tag::BlockQuote) => true,
            _ => false,
        },
        State::NestedState(_, NestedState::HighlightBlock(_)) => match event {
            Event::Text(_) => true,
            Event::End(Tag::CodeBlock(_)) => true,
            Event::End(Tag::BlockQuote) => true,
            _ => false,
        },
        State::NestedState(_, NestedState::ListBlock(attrs)) => match event {
            Event::Start(Tag::Item) => match attrs.item_type {
                ListItemType::Unordered => attrs.indent <= u16::MAX - 2,
                ListItemType::Ordered(number) => attrs.indent <= u16::MAX - 4 && number
                    < u64::MAX,
            },
            Event::End(Tag::List(_)) => true,
            Event::End(Tag::BlockQuote) => true,
            _ => false,
        },
        State::NestedState(_, NestedState::Inline(mode, _)) => match event {
            Event::Start(Tag::Paragraph) => *mode == InlineState::ListItemText,
            Event::Start(Tag::List(_)) => *mode == InlineState::ListItemText,
            Event::Start(Tag::Emphasis) => true,
            Event::Start(Tag::Strong) => true,
            Event::Start(Tag::Strikethrough) => true,
            Event::Start(Tag::Link(_, _, _)) => *mode == InlineState::InlineText,
            Event::End(Tag::Emphasis) => true,
            Event::End(Tag::Strong) => true,
            Event::End(Tag::Strikethrough) => true,
            Event::End(Tag::BlockQuote) => true,
            Event::End(Tag::Paragraph) => true,
            Event::End(Tag::Heading(_)) => true,
            Event::End(Tag::Item) => *mode == InlineState::ListItemText,
            Event::End(Tag::Link(link_type, _, _)) => match mode {
                InlineState::InlineLink => match settings.terminal_capabilities.links {
                    LinkCapability::OSC8(_) => true,
                    LinkCapability::NoLinks => false,
                },
                InlineState::InlineText => *link_type == LinkType::Autolink || data.next_link
                    < u16::MAX,
                InlineState::ListItemText => false,
            },
            Event::Code(_) => true,
            Event::SoftBreak => true,
            Event::HardBreak => true,
            Event::Text(_) => true,
            _ => false,
        },
    }
}

/// What a sequence of events does, one after the other: the state and the
/// link buffer after the last, and all the text written.
pub open spec fn run(
    settings: Settings,
    theme: Theme,
    base_dir: Seq<char>,
    state: State,
    data: LinkBuffer,
    events: Seq<Event>,
) -> Transition
    decreases events.len(),
{
    if events.len() == 0 {
        stay(state, data)
    } else {
        let first = step(settings, theme, base_dir, state, data, events[0]);
        let rest = run(settings, theme, base_dir, first.state, first.data, events.skip(1));
        Transition { state: rest.state, data: rest.data, output: first.output + rest.output }
    }
}

/// Whether each event of a sequence can come in the state that the events
/// before it lead to.
pub open spec fn all_possible(
    settings: Settings,
    theme: Theme,
    base_dir: Seq<char>,
    state: State,
    data: LinkBuffer,
    events: Seq<Event>,
) -> bool
    decreases events.len(),
{
    events.len() == 0 || {
        let first = step(settings, theme, base_dir, state, data, events[0]);
        &&& possible(settings, state, data, events[0])
        &&& all_possible(settings, theme, base_dir, first.state, first.data, events.skip(1))
    }
}

} // verus!
