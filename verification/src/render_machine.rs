//! A renderer for headings, paragraphs and code blocks at top level, with
//! the style of inline text kept as a stack of styles.
use crate::events::{CodeBlockKind, Event, Tag};
use crate::highlighting::{find_syntax, patterns_compile, syntax_for};
use crate::state_write::{
    code_run, code_style, heading_adornment, heading_style, rule_style, styled, syntax_token,
    write_code_run, write_styled,
};
use crate::style::{Colour, Style};
use crate::terminal::TerminalCapabilities;
use crate::text::{newline, repeated, write_newline, write_repeated};
use syntect::highlighting::Theme;
use syntect::parsing::SyntaxSet;
use vstd::prelude::*;

verus! {

/// Style of inline text.
#[derive(PartialEq, Debug)]
pub struct InlineStyle {
    /// The level of emphasis we're currently in.
    pub emphasis_level: usize,
    /// The current style or none if plain text.
    pub style: Option<Style>,
    /// Parent styles of this style.
    pub parent_styles: Vec<Style>,
}

/// The style of inline text as plain values.
pub struct StyleStack {
    pub emphasis_level: usize,
    pub style: Option<Style>,
    pub parent_styles: Seq<Style>,
}

impl StyleStack {
    /// The stack of plain text outside any emphasis.
    pub open spec fn initial() -> StyleStack {
        StyleStack { emphasis_level: 0, style: None, parent_styles: Seq::empty() }
    }

    /// The style that text has now.
    pub open spec fn current(self) -> Style {
        match self.style {
            Some(style) => style,
            None => Style::plain(),
        }
    }

    /// The stack with `style` on top: the style that was current, if there
    /// was one, becomes the last of the parents.
    pub open spec fn pushed(self, style: Style) -> StyleStack {
        StyleStack {
            emphasis_level: self.emphasis_level,
            style: Some(style),
            parent_styles: match self.style {
                Some(current) => self.parent_styles.push(current),
                None => self.parent_styles,
            },
        }
    }

    /// The stack without its top: the last of the parents is current
    /// again, or no style at all where there is no parent.
    pub open spec fn popped(self) -> StyleStack {
        StyleStack {
            emphasis_level: self.emphasis_level,
            style: if self.parent_styles.len() > 0 {
                Some(self.parent_styles.last())
            } else {
                None
            },
            parent_styles: if self.parent_styles.len() > 0 {
                self.parent_styles.drop_last()
            } else {
                self.parent_styles
            },
        }
    }

    /// The stack at another level of emphasis.
    pub open spec fn at_level(self, level: usize) -> StyleStack {
        StyleStack { emphasis_level: level, ..self }
    }

    /// The stack with the current style on top once more, italic where the
    /// level of emphasis is odd and upright where it is even.
    pub open spec fn toggled(self) -> StyleStack {
        self.pushed(self.current().with_italic(self.emphasis_level % 2 == 1))
    }

    /// The stack one level of emphasis deeper.
    pub open spec fn emphasised(self) -> StyleStack {
        self.at_level((self.emphasis_level + 1) as usize).toggled()
    }

    /// The stack one level of emphasis less deep: the style of the
    /// emphasis is taken off, and the style around it is current again.
    pub open spec fn unemphasised(self) -> StyleStack {
        self.at_level((self.emphasis_level - 1) as usize).popped()
    }

    /// Whether the stack is one that pushes and pops lead to from plain
    /// text: only a stack without a current style has no parents.
    pub open spec fn well_formed(self) -> bool {
        self.style is None ==> self.parent_styles.len() == 0
    }
}

/// Leaving restores the style exactly: a push and then a pop lead back to
/// the stack before the push.
pub proof fn lemma_pop_restores(stack: StyleStack, style: Style)
    requires
        stack.well_formed(),
    ensures
        stack.pushed(style).popped() == stack,
        stack.pushed(style).well_formed(),
        stack.popped().well_formed(),
{
    let pushed = stack.pushed(style);
    match stack.style {
        Some(current) => {
            assert(pushed.parent_styles.drop_last() =~= stack.parent_styles);
        },
        None => {
            assert(stack.parent_styles =~= Seq::empty());
        },
    }
}

/// The end of an emphasis restores what its start found: the level of
/// emphasis, the current style and the parents are as before.
pub proof fn lemma_emphasis_is_balanced(stack: StyleStack)
    requires
        stack.well_formed(),
        stack.emphasis_level < usize::MAX,
    ensures
        stack.emphasised().unemphasised() == stack,
{
    let deeper = stack.at_level((stack.emphasis_level + 1) as usize);
    lemma_pop_restores(deeper, deeper.current().with_italic(deeper.emphasis_level % 2 == 1));
}

impl View for InlineStyle {
    type V = StyleStack;

    open spec fn view(&self) -> StyleStack {
        StyleStack {
            emphasis_level: self.emphasis_level,
            style: self.style,
            parent_styles: self.parent_styles@,
        }
    }
}

impl Default for InlineStyle {
    fn default() -> (inline: Self)
        ensures
            inline@ == StyleStack::initial(),
    {
        InlineStyle { emphasis_level: 0, style: None, parent_styles: Vec::new() }
    }
}

impl InlineStyle {
    /// Push the given style.
    pub fn push_style(self, style: Style) -> (pushed: Self)
        ensures
            pushed@ == self@.pushed(style),
    {
        let mut inline = self;
        if let Some(current) = inline.style {
            inline.parent_styles.push(current);
        }
        inline.style = Some(style);
        inline
    }

    /// Push a new style as a modification of the current style.
    pub fn push_changed_style<F: FnOnce(&Style) -> Style>(self, f: F) -> (pushed: Self)
        requires
            f.requires((&self@.current(),)),
        ensures
            exists|style: Style|
                f.ensures((&self@.current(),), style) && pushed@ == self@.pushed(style),
    {
        let current = match self.style {
            Some(style) => style,
            None => Style::new(),
        };
        let style = f(&current);
        self.push_style(style)
    }

    /// Pop the last style.
    pub fn pop_style(self) -> (popped: Self)
        ensures
            popped@ == self@.popped(),
    {
        let mut inline = self;
        inline.style = inline.parent_styles.pop();
        inline
    }

    /// Remove one level of emphasis: the style of the emphasis is popped,
    /// and the style around it is current again.
    pub fn remove_emphasis(self) -> (removed: Self)
        requires
            self.emphasis_level > 0,
        ensures
            removed@ == self@.unemphasised(),
    {
        let mut inline = self;
        inline.emphasis_level = inline.emphasis_level - 1;
        inline.pop_style()
    }

    /// Add one level of emphasis.
    pub fn add_emphasis(self) -> (added: Self)
        requires
            self.emphasis_level < usize::MAX,
        ensures
            added@ == self@.emphasised(),
    {
        let mut inline = self;
        inline.emphasis_level = inline.emphasis_level + 1;
        inline.toggle_italics_for_emphasis()
    }

    /// Toggle emphasis according to the current emphasis level.
    pub fn toggle_italics_for_emphasis(self) -> (toggled: Self)
        ensures
            toggled@ == self@.toggled(),
    {
        let is_italic = self.emphasis_level % 2 == 1;
        let change = |style: &Style| -> (changed: Style)
            ensures
                changed == style.with_italic(is_italic),
            { Style { is_italic, ..*style } };
        self.push_changed_style(change)
    }
}

/// State of the rendering state machine.
#[derive(Debug, PartialEq)]
pub enum RenderState {
    /// The initial state, before anything is printed at all.
    ///
    /// Used to suppress leading line breaks.
    Initial,
    /// Top-level state, waiting for the next block level element.
    TopLevel,
    /// Styled inline text.
    StyledInline(InlineStyle),
    /// A raw code block without any syntax highlighting.
    RawCodeBlock,
    /// A code block in a language that the syntax set knows; the value is
    /// the name of the language.
    HighlightedCodeBlock(String),
    /// The state after an event that had no place.
    Error,
}

/// The state of the machine as plain values.
pub enum RenderModel {
    Initial,
    TopLevel,
    StyledInline(StyleStack),
    RawCodeBlock,
    HighlightedCodeBlock(Seq<char>),
    Error,
}

impl View for RenderState {
    type V = RenderModel;

    open spec fn view(&self) -> RenderModel {
        match self {
            RenderState::Initial => RenderModel::Initial,
            RenderState::TopLevel => RenderModel::TopLevel,
            RenderState::StyledInline(inline) => RenderModel::StyledInline(inline@),
            RenderState::RawCodeBlock => RenderModel::RawCodeBlock,
            RenderState::HighlightedCodeBlock(language) => RenderModel::HighlightedCodeBlock(
                language@,
            ),
            RenderState::Error => RenderModel::Error,
        }
    }
}

/// The border of a code block: a line of the given length, and a line
/// break.
pub open spec fn code_border(capabilities: TerminalCapabilities, size: nat) -> Seq<char> {
    styled(capabilities, rule_style(), repeated(seq!['\u{2500}'], size)) + newline()
}

/// The state in a code block of the given kind: highlighted where the
/// block names a language that the syntax set knows, else raw.
pub open spec fn code_block_state(syntax_set: SyntaxSet, kind: CodeBlockKind) -> RenderModel {
    match syntax_token(kind) {
        Some(language) => if syntax_for(syntax_set, language@).is_some() {
            RenderModel::HighlightedCodeBlock(language@)
        } else {
            RenderModel::RawCodeBlock
        },
        None => RenderModel::RawCodeBlock,
    }
}

/// What the start of an element does in styled inline text.
pub open spec fn inline_start(inline: StyleStack, tag: Tag) -> RenderModel {
    match tag {
        Tag::Strong => RenderModel::StyledInline(inline.pushed(inline.current().with_bold())),
        Tag::Strikethrough => RenderModel::StyledInline(
            inline.pushed(inline.current().with_strikethrough()),
        ),
        Tag::Emphasis => RenderModel::StyledInline(inline.emphasised()),
        _ => RenderModel::Error,
    }
}

/// What the end of an element does in styled inline text, and whether it
/// ends a line.
pub open spec fn inline_end(inline: StyleStack, tag: Tag) -> (RenderModel, bool) {
    match tag {
        Tag::Strong => (RenderModel::StyledInline(inline.popped()), false),
        Tag::Strikethrough => (RenderModel::StyledInline(inline.popped()), false),
        Tag::Emphasis => (RenderModel::StyledInline(inline.unemphasised()), false),
        Tag::Paragraph => (RenderModel::TopLevel, true),
        Tag::Heading(_) => (RenderModel::TopLevel, true),
        _ => (RenderModel::Error, false),
    }
}

/// What an event does in a state: the state after it, and the text that it
/// writes. An event that has no place in the state leads to the error
/// state and writes nothing.
pub open spec fn processed(
    capabilities: TerminalCapabilities,
    syntax_set: SyntaxSet,
    theme: Theme,
    state: RenderModel,
    event: Event,
) -> (RenderModel, Seq<char>) {
    let before: Seq<char> = if state is TopLevel {
        newline()
    } else {
        Seq::empty()
    };
    match state {
        RenderModel::Initial | RenderModel::TopLevel => match event {
            Event::Start(Tag::Heading(level)) => (
                RenderModel::StyledInline(StyleStack::initial().pushed(heading_style())),
                before + styled(capabilities, heading_style(), heading_adornment(level)),
            ),
            Event::Start(Tag::Paragraph) => (
                RenderModel::StyledInline(StyleStack::initial()),
                before,
            ),
            Event::Start(Tag::CodeBlock(kind)) => (
                code_block_state(syntax_set, kind),
                before + code_border(capabilities, 20),
            ),
            _ => (RenderModel::Error, Seq::empty()),
        },
        RenderModel::StyledInline(inline) => match event {
            Event::Start(tag) => (inline_start(inline, tag), Seq::empty()),
            Event::End(tag) => (
                inline_end(inline, tag).0,
                if inline_end(inline, tag).1 {
                    newline()
                } else {
                    Seq::empty()
                },
            ),
            Event::Code(code) => (
                state,
                styled(capabilities, inline.current().with_fg(Colour::Yellow), code@),
            ),
            Event::Text(text) => (state, styled(capabilities, inline.current(), text@)),
            Event::SoftBreak => (state, newline()),
            Event::HardBreak => (state, newline()),
            _ => (RenderModel::Error, Seq::empty()),
        },
        RenderModel::RawCodeBlock => match event {
            Event::Text(text) => (state, styled(capabilities, code_style(), text@)),
            Event::End(Tag::CodeBlock(_)) => (
                RenderModel::TopLevel,
                code_border(capabilities, 20),
            ),
            _ => (RenderModel::Error, Seq::empty()),
        },
        RenderModel::HighlightedCodeBlock(language) => match event {
            Event::Text(text) => (
                state,
                code_run(capabilities, syntax_set, theme, Some(language), text@),
            ),
            Event::End(Tag::CodeBlock(_)) => (
                RenderModel::TopLevel,
                code_border(capabilities, 20),
            ),
            _ => (RenderModel::Error, Seq::empty()),
        },
        RenderModel::Error => (RenderModel::Error, Seq::empty()),
    }
}

/// Whether the machine has an answer to an event in a state. It has none
/// to emphasis beyond the levels that it can count, and to the end of an
/// emphasis that never started.
pub open spec fn processable(state: RenderModel, event: Event) -> bool {
    match state {
        RenderModel::StyledInline(inline) => match event {
            Event::Start(Tag::Emphasis) => inline.emphasis_level < usize::MAX,
            Event::End(Tag::Emphasis) => inline.emphasis_level > 0,
            _ => true,
        },
        _ => true,
    }
}

/// Whether the machine has an answer to `event` in `state`. Where it has
/// none, `process_event` must not be handed the event.
pub fn is_processable(state: &RenderState, event: &Event) -> (ok: bool)
    ensures
        ok == processable(state@, *event),
{
    match state {
        RenderState::StyledInline(inline) => match event {
            Event::Start(Tag::Emphasis) => inline.emphasis_level < usize::MAX,
            Event::End(Tag::Emphasis) => inline.emphasis_level > 0,
            _ => true,
        },
        _ => true,
    }
}

/// Start a header.
///
/// Write a header adornment for a header of the given `level`, using
/// styling `capabilities` if any.
pub fn start_header(out: &mut String, level: usize, capabilities: &TerminalCapabilities) -> (state:
    RenderState)
    ensures
        state@ == RenderModel::StyledInline(StyleStack::initial().pushed(heading_style())),
        final(out)@ == old(out)@ + styled(
            *capabilities,
            heading_style(),
            repeated(seq!['\u{2504}'], level as nat),
        ),
{
    proof {
        reveal_strlit("\u{2504}");
    }
    assert("\u{2504}"@ =~= seq!['\u{2504}']);
    let mut adornment = String::new();
    write_repeated(&mut adornment, "\u{2504}", level);
    assert(adornment@ =~= repeated(seq!['\u{2504}'], level as nat));
    let style = Style::new().fg(Colour::Blue).bold();
    write_styled(out, capabilities, &style, adornment.as_str());
    RenderState::StyledInline(InlineStyle::default().push_style(style))
}

/// Write the border of a code block.
pub fn write_border(out: &mut String, capabilities: &TerminalCapabilities, size: usize)
    ensures
        final(out)@ == old(out)@ + code_border(*capabilities, size as nat),
{
    proof {
        reveal_strlit("\u{2500}");
    }
    assert("\u{2500}"@ =~= seq!['\u{2500}']);
    let mut separator = String::new();
    write_repeated(&mut separator, "\u{2500}", size);
    assert(separator@ =~= repeated(seq!['\u{2500}'], size as nat));
    let style = Style::new().fg(Colour::Green);
    write_styled(out, capabilities, &style, separator.as_str());
    write_newline(out);
    assert(out@ =~= old(out)@ + code_border(*capabilities, size as nat));
}

/// Start a code block: write its border, and find out whether its code can
/// be highlighted.
pub fn start_codeblock(
    out: &mut String,
    kind: CodeBlockKind,
    capabilities: &TerminalCapabilities,
    syntax_set: &SyntaxSet,
) -> (state: RenderState)
    ensures
        state@ == code_block_state(*syntax_set, kind),
        final(out)@ == old(out)@ + code_border(*capabilities, 20),
{
    write_border(out, capabilities, 20);
    match kind {
        CodeBlockKind::Indented => RenderState::RawCodeBlock,
        CodeBlockKind::Fenced(language) => {
            if language.as_str().is_empty() {
                RenderState::RawCodeBlock
            } else {
                match find_syntax(syntax_set, language.as_str()) {
                    Some(_) => RenderState::HighlightedCodeBlock(language),
                    None => RenderState::RawCodeBlock,
                }
            }
        },
    }
}

/// End a code block: write its border.
pub fn end_codeblock(out: &mut String, capabilities: &TerminalCapabilities) -> (state: RenderState)
    ensures
        state@ == RenderModel::TopLevel,
        final(out)@ == old(out)@ + code_border(*capabilities, 20),
{
    write_border(out, capabilities, 20);
    RenderState::TopLevel
}

/// Takes one event at top level; `first` says that nothing was written
/// before it.
fn process_block_start(
    out: &mut String,
    first: bool,
    event: Event,
    capabilities: &TerminalCapabilities,
    syntax_set: &SyntaxSet,
    theme: &Theme,
) -> (next: RenderState)
    ensures
        next@ == processed(
            *capabilities,
            *syntax_set,
            *theme,
            if first {
                RenderModel::Initial
            } else {
                RenderModel::TopLevel
            },
            event,
        ).0,
        final(out)@ == old(out)@ + processed(
            *capabilities,
            *syntax_set,
            *theme,
            if first {
                RenderModel::Initial
            } else {
                RenderModel::TopLevel
            },
            event,
        ).1,
{
    match event {
        Event::Start(Tag::Heading(level)) => {
            if !first {
                write_newline(out);
            }
            let state = start_header(out, level as usize, capabilities);
            assert(out@ =~= old(out)@ + processed(
                *capabilities,
                *syntax_set,
                *theme,
                if first {
                    RenderModel::Initial
                } else {
                    RenderModel::TopLevel
                },
                event,
            ).1);
            state
        },
        Event::Start(Tag::Paragraph) => {
            if !first {
                write_newline(out);
            } else {
                assert(out@ =~= old(out)@ + Seq::<char>::empty());
            }
            RenderState::StyledInline(InlineStyle::default())
        },
        Event::Start(Tag::CodeBlock(kind)) => {
            if !first {
                write_newline(out);
            }
            let state = start_codeblock(out, kind, capabilities, syntax_set);
            assert(out@ =~= old(out)@ + processed(
                *capabilities,
                *syntax_set,
                *theme,
                if first {
                    RenderModel::Initial
                } else {
                    RenderModel::TopLevel
                },
                event,
            ).1);
            state
        },
        _ => {
            assert(out@ =~= old(out)@ + Seq::<char>::empty());
            RenderState::Error
        },
    }
}

/// Takes one event in styled inline text.
fn process_inline(
    out: &mut String,
    inline: InlineStyle,
    event: Event,
    capabilities: &TerminalCapabilities,
    syntax_set: &SyntaxSet,
    theme: &Theme,
) -> (next: RenderState)
    requires
        processable(RenderModel::StyledInline(inline@), event),
    ensures
        next@ == processed(
            *capabilities,
            *syntax_set,
            *theme,
            RenderModel::StyledInline(inline@),
            event,
        ).0,
        final(out)@ == old(out)@ + processed(
            *capabilities,
            *syntax_set,
            *theme,
            RenderModel::StyledInline(inline@),
            event,
        ).1,
{
    match event {
        Event::Start(Tag::Strong) => {
            assert(out@ =~= old(out)@ + Seq::<char>::empty());
            let bold = |style: &Style| -> (changed: Style)
                ensures
                    changed == style.with_bold(),
                { style.bold() };
            RenderState::StyledInline(inline.push_changed_style(bold))
        },
        Event::Start(Tag::Strikethrough) => {
            assert(out@ =~= old(out)@ + Seq::<char>::empty());
            let strike = |style: &Style| -> (changed: Style)
                ensures
                    changed == style.with_strikethrough(),
                { style.strikethrough() };
            RenderState::StyledInline(inline.push_changed_style(strike))
        },
        Event::Start(Tag::Emphasis) => {
            assert(out@ =~= old(out)@ + Seq::<char>::empty());
            RenderState::StyledInline(inline.add_emphasis())
        },
        Event::End(Tag::Strong) => {
            assert(out@ =~= old(out)@ + Seq::<char>::empty());
            RenderState::StyledInline(inline.pop_style())
        },
        Event::End(Tag::Strikethrough) => {
            assert(out@ =~= old(out)@ + Seq::<char>::empty());
            RenderState::StyledInline(inline.pop_style())
        },
        Event::End(Tag::Emphasis) => {
            assert(out@ =~= old(out)@ + Seq::<char>::empty());
            RenderState::StyledInline(inline.remove_emphasis())
        },
        Event::Code(code) => {
            let style = match inline.style {
                Some(style) => style,
                None => Style::new(),
            };
            let style = style.fg(Colour::Yellow);
            write_styled(out, capabilities, &style, code.as_str());
            RenderState::StyledInline(inline)
        },
        Event::Text(text) => {
            let style = match inline.style {
                Some(style) => style,
                None => Style::new(),
            };
            write_styled(out, capabilities, &style, text.as_str());
            RenderState::StyledInline(inline)
        },
        Event::SoftBreak => {
            write_newline(out);
            RenderState::StyledInline(inline)
        },
        Event::HardBreak => {
            write_newline(out);
            RenderState::StyledInline(inline)
        },
        Event::End(Tag::Paragraph) => {
            write_newline(out);
            RenderState::TopLevel
        },
        Event::End(Tag::Heading(_)) => {
            write_newline(out);
            RenderState::TopLevel
        },
        _ => {
            assert(out@ =~= old(out)@ + Seq::<char>::empty());
            RenderState::Error
        },
    }
}

/// Process a single `event`.
///
/// Write what `event` shows in the current `state` to `out`, using the
/// given terminal `capabilities`. `syntax_set` provides the language
/// grammars to highlight code in code blocks with, and `theme` the colours.
///
/// Return the next rendering state; it is the error state where the event
/// has no place in `state`.
pub fn process_event(
    out: &mut String,
    state: RenderState,
    event: Event,
    capabilities: &TerminalCapabilities,
    syntax_set: &SyntaxSet,
    theme: &Theme,
) -> (next: RenderState)
    requires
        processable(state@, event),
        capabilities.style is Ansi ==> patterns_compile(*syntax_set),
    ensures
        next@ == processed(*capabilities, *syntax_set, *theme, state@, event).0,
        final(out)@ == old(out)@ + processed(*capabilities, *syntax_set, *theme, state@, event).1,
{
    match state {
        RenderState::Initial => process_block_start(
            out,
            true,
            event,
            capabilities,
            syntax_set,
            theme,
        ),
        RenderState::TopLevel => process_block_start(
            out,
            false,
            event,
            capabilities,
            syntax_set,
            theme,
        ),
        RenderState::StyledInline(inline) => process_inline(
            out,
            inline,
            event,
            capabilities,
            syntax_set,
            theme,
        ),
        RenderState::RawCodeBlock => match event {
            Event::Text(text) => {
                let style = Style::new().fg(Colour::Yellow);
                write_styled(out, capabilities, &style, text.as_str());
                RenderState::RawCodeBlock
            },
            Event::End(Tag::CodeBlock(_)) => end_codeblock(out, capabilities),
            _ => {
                assert(out@ =~= old(out)@ + Seq::<char>::empty());
                RenderState::Error
            },
        },
        RenderState::HighlightedCodeBlock(language) => match event {
            Event::Text(text) => {
                write_code_run(
                    out,
                    capabilities,
                    syntax_set,
                    theme,
                    Some(language.as_str()),
                    text.as_str(),
                );
                RenderState::HighlightedCodeBlock(language)
            },
            Event::End(Tag::CodeBlock(_)) => end_codeblock(out, capabilities),
            _ => {
                assert(out@ =~= old(out)@ + Seq::<char>::empty());
                RenderState::Error
            },
        },
        RenderState::Error => {
            assert(out@ =~= old(out)@ + Seq::<char>::empty());
            RenderState::Error
        },
    }
}

/// What a sequence of events does from a state: whether the machine has
/// an answer to each of them that is not the error state, the state after
/// the last, and all the text written. From the first event without such
/// an answer on, nothing is done.
pub open spec fn processed_all(
    capabilities: TerminalCapabilities,
    syntax_set: SyntaxSet,
    theme: Theme,
    state: RenderModel,
    events: Seq<Event>,
) -> (bool, RenderModel, Seq<char>)
    decreases events.len(),
{
    if events.len() == 0 {
        (true, state, Seq::empty())
    } else {
        let first = processed(capabilities, syntax_set, theme, state, events[0]);
        if processable(state, events[0]) && !(first.0 is Error) {
            let rest = processed_all(capabilities, syntax_set, theme, first.0, events.skip(1));
            (rest.0, rest.1, first.1 + rest.2)
        } else {
            (false, state, Seq::empty())
        }
    }
}

/// Whether a sequence of events is a document: each event has a place
/// where it comes, and the last event leaves no element open.
pub open spec fn can_render(
    capabilities: TerminalCapabilities,
    syntax_set: SyntaxSet,
    theme: Theme,
    events: Seq<Event>,
) -> bool {
    let all = processed_all(capabilities, syntax_set, theme, RenderModel::Initial, events);
    all.0 && (all.1 is TopLevel || all.1 is Initial)
}

/// What a terminal gets for a document.
pub open spec fn rendered(
    capabilities: TerminalCapabilities,
    syntax_set: SyntaxSet,
    theme: Theme,
    events: Seq<Event>,
) -> Seq<char> {
    processed_all(capabilities, syntax_set, theme, RenderModel::Initial, events).2
}

/// Render Markdown to TTY, if the events are a document.
///
/// Does what `render` does where `events` are a document, and says so.
/// Where they are not, nothing is appended to `out`.
#[verifier::loop_isolation(false)]
pub fn try_render(
    out: &mut String,
    events: Vec<Event>,
    capabilities: &TerminalCapabilities,
    syntax_set: &SyntaxSet,
    theme: &Theme,
) -> (done: bool)
    requires
        capabilities.style is Ansi ==> patterns_compile(*syntax_set),
    ensures
        done == can_render(*capabilities, *syntax_set, *theme, events@),
        done ==> final(out)@ == old(out)@ + rendered(*capabilities, *syntax_set, *theme, events@),
        !done ==> final(out)@ == old(out)@,
{
    let mut text = String::new();
    let mut state = RenderState::Initial;
    let ghost all = events@;
    let ghost whole = processed_all(*capabilities, *syntax_set, *theme, RenderModel::Initial, all);
    assert(all.skip(0) =~= all);
    assert(text@ + whole.2 =~= whole.2);
    for event in it: events
        invariant
            it.seq() == all,
            out@ == old(out)@,
            !(state@ is Error),
            processed_all(
                *capabilities,
                *syntax_set,
                *theme,
                state@,
                all.skip(it.index() as int),
            ).0 == whole.0,
            whole.0 ==> processed_all(
                *capabilities,
                *syntax_set,
                *theme,
                state@,
                all.skip(it.index() as int),
            ).1 == whole.1,
            whole.0 ==> text@ + processed_all(
                *capabilities,
                *syntax_set,
                *theme,
                state@,
                all.skip(it.index() as int),
            ).2 == whole.2,
    {
        let ghost rest = all.skip(it.index() as int);
        let ghost first = processed(*capabilities, *syntax_set, *theme, state@, event);
        let ghost before = text@;
        proof {
            assert(rest.len() > 0);
            assert(rest[0] == event);
            assert(rest.skip(1) =~= all.skip(it.index() + 1));
        }
        if !is_processable(&state, &event) {
            return false;
        }
        state = process_event(&mut text, state, event, capabilities, syntax_set, theme);
        match state {
            RenderState::Error => {
                return false;
            },
            _ => {},
        }
        proof {
            let tail = processed_all(*capabilities, *syntax_set, *theme, state@, rest.skip(1));
            assert(text@ + tail.2 =~= before + (first.1 + tail.2));
        }
    }
    proof {
        assert(all.skip(all.len() as int) =~= Seq::<Event>::empty());
        if whole.0 {
            assert(text@ =~= whole.2);
        }
    }
    match state {
        RenderState::TopLevel => {
            out.append(text.as_str());
            true
        },
        RenderState::Initial => {
            out.append(text.as_str());
            true
        },
        _ => false,
    }
}

/// Render Markdown to TTY.
///
/// Render markdown `events` to `out`.
///
/// `capabilities` says what the terminal can do with regard to styling.
/// `syntax_set` provides the language grammars for highlighting code
/// blocks, and `theme` the colours.
///
/// The events must be a document, and where the terminal shows styles the
/// patterns of the syntax set must compile.
pub fn render(
    out: &mut String,
    events: Vec<Event>,
    capabilities: &TerminalCapabilities,
    syntax_set: &SyntaxSet,
    theme: &Theme,
)
    requires
        capabilities.style is Ansi ==> patterns_compile(*syntax_set),
        can_render(*capabilities, *syntax_set, *theme, events@),
    ensures
        final(out)@ == old(out)@ + rendered(*capabilities, *syntax_set, *theme, events@),
{
    let mut state = RenderState::Initial;
    let ghost all = events@;
    let ghost whole = rendered(*capabilities, *syntax_set, *theme, all);
    assert(all.skip(0) =~= all);
    for event in it: events
        invariant
            it.seq() == all,
            capabilities.style is Ansi ==> patterns_compile(*syntax_set),
            processed_all(
                *capabilities,
                *syntax_set,
                *theme,
                state@,
                all.skip(it.index() as int),
            ).0,
            out@ + processed_all(
                *capabilities,
                *syntax_set,
                *theme,
                state@,
                all.skip(it.index() as int),
            ).2 == old(out)@ + whole,
    {
        let ghost rest = all.skip(it.index() as int);
        let ghost first = processed(*capabilities, *syntax_set, *theme, state@, event);
        let ghost before = out@;
        proof {
            assert(rest.len() > 0);
            assert(rest[0] == event);
            assert(rest.skip(1) =~= all.skip(it.index() + 1));
        }
        state = process_event(out, state, event, capabilities, syntax_set, theme);
        proof {
            let tail = processed_all(*capabilities, *syntax_set, *theme, state@, rest.skip(1));
            assert(out@ + tail.2 =~= before + (first.1 + tail.2));
        }
    }
    proof {
        assert(all.skip(all.len() as int) =~= Seq::<Event>::empty());
        assert(out@ =~= old(out)@ + whole);
    }
}

/// `count` levels of emphasis, one in the other, from plain text.
pub open spec fn emphasised_times(count: nat) -> StyleStack
    decreases count,
{
    if count == 0 {
        StyleStack::initial()
    } else {
        emphasised_times((count - 1) as nat).emphasised()
    }
}

/// Emphasis parity: text in an odd number of nested emphases is italic,
/// and text in an even number of them is upright.
pub proof fn lemma_emphasis_parity(count: nat)
    requires
        count <= usize::MAX,
    ensures
        emphasised_times(count).emphasis_level == count,
        emphasised_times(count).current().is_italic == (count % 2 == 1),
    decreases count,
{
    if count > 0 {
        lemma_emphasis_parity((count - 1) as nat);
    }
}

} // verus!
